//! Length-prefixed frames: a 32-bit big-endian length followed by exactly
//! that many payload bytes.

use vstd::prelude::*;
use vstd::slice::slice_to_vec;

verus! {

/// Number of bytes in the length header of a frame.
pub const HEADER_LEN: usize = 4;

/// Largest payload that a frame can carry.
pub const MAX_PAYLOAD: usize = 0xffff_ffff;

/// Why a byte stream could not be cut into frames, or a payload not framed.
#[derive(Debug, Clone, Copy, PartialEq, Eq, Structural)]
pub enum FrameError {
    /// The stream ended inside the length header, after `got` of its bytes.
    TruncatedHeader { got: usize },
    /// The stream ended inside the body, after `got` of its `want` bytes.
    TruncatedBody { got: usize, want: usize },
    /// The payload is longer than a 32-bit length can say.
    TooLong,
}

/// The four header bytes that announce a payload of `n` bytes.
pub open spec fn be32(n: nat) -> Seq<u8> {
    seq![
        (n / 0x100_0000 % 256) as u8,
        (n / 0x1_0000 % 256) as u8,
        (n / 0x100 % 256) as u8,
        (n % 256) as u8,
    ]
}

/// The length that the first four bytes of `s` announce.
pub open spec fn announced_len(s: Seq<u8>) -> nat
    recommends
        s.len() >= 4,
{
    (s[0] as nat) * 0x100_0000 + (s[1] as nat) * 0x1_0000 + (s[2] as nat) * 0x100 + (s[3] as nat)
}

/// The wire form of one payload.
pub open spec fn frame_bytes(payload: Seq<u8>) -> Seq<u8> {
    be32(payload.len()) + payload
}

/// `s` starts with a complete frame.
pub open spec fn has_frame(s: Seq<u8>) -> bool {
    s.len() >= 4 && s.len() - 4 >= announced_len(s)
}

/// Payload of the frame at the start of `s`.
pub open spec fn first_payload(s: Seq<u8>) -> Seq<u8>
    recommends
        has_frame(s),
{
    s.subrange(4, 4 + announced_len(s) as int)
}

/// What follows the frame at the start of `s`.
pub open spec fn after_first(s: Seq<u8>) -> Seq<u8>
    recommends
        has_frame(s),
{
    s.subrange(4 + announced_len(s) as int, s.len() as int)
}

/// The wire form of a sequence of payloads, one frame after the other.
pub open spec fn frames_bytes(payloads: Seq<Seq<u8>>) -> Seq<u8>
    decreases payloads.len(),
{
    if payloads.len() == 0 {
        Seq::empty()
    } else {
        frame_bytes(payloads[0]) + frames_bytes(payloads.drop_first())
    }
}

/// The complete frames at the start of `s`, in order.
pub open spec fn complete_frames(s: Seq<u8>) -> Seq<Seq<u8>>
    decreases s.len(),
{
    if has_frame(s) {
        seq![first_payload(s)] + complete_frames(after_first(s))
    } else {
        Seq::empty()
    }
}

/// What is left of `s` once every complete frame has been taken from it.
pub open spec fn leftover(s: Seq<u8>) -> Seq<u8>
    decreases s.len(),
{
    if has_frame(s) {
        leftover(after_first(s))
    } else {
        s
    }
}

/// A header read back announces the length it was made from.
pub proof fn header_round_trip(n: nat)
    requires
        n <= 0xffff_ffff,
    ensures
        be32(n).len() == 4,
        announced_len(be32(n)) == n,
{
    let b = be32(n);
    assert(b[0] == (n / 0x100_0000 % 256) as u8);
    assert(b[1] == (n / 0x1_0000 % 256) as u8);
    assert(b[2] == (n / 0x100 % 256) as u8);
    assert(b[3] == (n % 256) as u8);
}

/// A frame followed by anything reads back as its payload, and what
/// followed it is what is left.
pub proof fn frame_round_trip(payload: Seq<u8>, rest: Seq<u8>)
    requires
        payload.len() <= 0xffff_ffff,
    ensures
        has_frame(frame_bytes(payload) + rest),
        first_payload(frame_bytes(payload) + rest) == payload,
        after_first(frame_bytes(payload) + rest) == rest,
{
    let s = frame_bytes(payload) + rest;
    header_round_trip(payload.len());
    let h = be32(payload.len());
    assert(s[0] == h[0] && s[1] == h[1] && s[2] == h[2] && s[3] == h[3]);
    assert(announced_len(s) == announced_len(h));
    assert(first_payload(s) =~= payload);
    assert(after_first(s) =~= rest);
}

/// Frames written one after the other are read back in the order in which
/// they were written, whatever incomplete tail follows them.
pub proof fn frames_keep_order(payloads: Seq<Seq<u8>>, tail: Seq<u8>)
    requires
        forall|i: int| 0 <= i < payloads.len() ==> (#[trigger] payloads[i]).len() <= 0xffff_ffff,
        !has_frame(tail),
    ensures
        complete_frames(frames_bytes(payloads) + tail) == payloads,
        leftover(frames_bytes(payloads) + tail) == tail,
    decreases payloads.len(),
{
    if payloads.len() == 0 {
        assert(frames_bytes(payloads) + tail =~= tail);
    } else {
        let rest = frames_bytes(payloads.drop_first()) + tail;
        let s = frames_bytes(payloads) + tail;
        assert(s =~= frame_bytes(payloads[0]) + rest);
        frame_round_trip(payloads[0], rest);
        assert forall|i: int| 0 <= i < payloads.drop_first().len() implies (
        #[trigger] payloads.drop_first()[i]).len() <= 0xffff_ffff by {
            assert(payloads.drop_first()[i] == payloads[i + 1]);
        }
        frames_keep_order(payloads.drop_first(), tail);
        assert(complete_frames(s) =~= payloads);
    }
}

/// Builds the four header bytes for a payload of `n` bytes.
fn header_of(n: usize) -> (h: Vec<u8>)
    requires
        n <= MAX_PAYLOAD,
    ensures
        h@ == be32(n as nat),
{
    let mut h: Vec<u8> = Vec::with_capacity(4);
    h.push((n / 0x100_0000 % 256) as u8);
    h.push((n / 0x1_0000 % 256) as u8);
    h.push((n / 0x100 % 256) as u8);
    h.push((n % 256) as u8);
    assert(h@ =~= be32(n as nat));
    h
}

/// Reads the length that the four bytes at the start of `s` announce.
fn header_len(s: &[u8]) -> (n: usize)
    requires
        s@.len() >= 4,
    ensures
        n == announced_len(s@),
        n <= MAX_PAYLOAD,
{
    let b0: usize = s[0] as usize;
    let b1: usize = s[1] as usize;
    let b2: usize = s[2] as usize;
    let b3: usize = s[3] as usize;
    b0 * 0x100_0000 + b1 * 0x1_0000 + b2 * 0x100 + b3
}

/// Frames one payload.
///
/// Fails with `TooLong`, and only then, when the payload does not fit a
/// 32-bit length.
pub fn encode_frame(data: &[u8]) -> (r: Result<Vec<u8>, FrameError>)
    ensures
        data@.len() <= MAX_PAYLOAD ==> r is Ok && r->Ok_0@ == frame_bytes(data@),
        data@.len() > MAX_PAYLOAD ==> r == Err::<Vec<u8>, FrameError>(FrameError::TooLong),
{
    if data.len() > MAX_PAYLOAD {
        return Err(FrameError::TooLong);
    }
    let mut out = header_of(data.len());
    let mut body = slice_to_vec(data);
    out.append(&mut body);
    Ok(out)
}

/// Appends one frame holding `data` to `out`: header first, then the body,
/// with nothing in between.
///
/// A payload that does not fit a 32-bit length is refused with `TooLong`
/// and `out` is left as it was.
pub fn write_frame(out: &mut Vec<u8>, data: &[u8]) -> (r: Result<(), FrameError>)
    ensures
        data@.len() <= MAX_PAYLOAD ==> r is Ok && final(out)@ == old(out)@ + frame_bytes(data@),
        data@.len() > MAX_PAYLOAD ==> r == Err::<(), FrameError>(FrameError::TooLong) && final(out)@
            == old(out)@,
{
    match encode_frame(data) {
        Ok(mut frame) => {
            out.append(&mut frame);
            Ok(())
        },
        Err(e) => Err(e),
    }
}

/// Reads one frame from the start of `stream`, where the end of the slice
/// is the end of the stream.
///
/// An empty stream is a clean close (`Ok(None)`). A stream that ends inside
/// the header or inside the body is an error. Otherwise the payload comes
/// back together with the number of bytes that the frame took.
pub fn read_frame(stream: &[u8]) -> (r: Result<Option<(Vec<u8>, usize)>, FrameError>)
    ensures
        stream@.len() == 0 ==> r == Ok::<Option<(Vec<u8>, usize)>, FrameError>(None),
        0 < stream@.len() < 4 ==> r == Err::<Option<(Vec<u8>, usize)>, FrameError>(
            FrameError::TruncatedHeader { got: stream@.len() as usize },
        ),
        stream@.len() >= 4 && !has_frame(stream@) ==> r == Err::<
            Option<(Vec<u8>, usize)>,
            FrameError,
        >(
            FrameError::TruncatedBody {
                got: (stream@.len() - 4) as usize,
                want: announced_len(stream@) as usize,
            },
        ),
        has_frame(stream@) ==> r is Ok && r->Ok_0 is Some && r->Ok_0->Some_0.0@ == first_payload(
            stream@,
        ) && r->Ok_0->Some_0.1 == 4 + announced_len(stream@),
{
    if stream.len() == 0 {
        return Ok(None);
    }
    if stream.len() < HEADER_LEN {
        return Err(FrameError::TruncatedHeader { got: stream.len() });
    }
    let len = header_len(stream);
    let got = stream.len() - HEADER_LEN;
    if got < len {
        return Err(FrameError::TruncatedBody { got, want: len });
    }
    let body = slice_to_vec(vstd::slice::slice_subrange(stream, HEADER_LEN, HEADER_LEN + len));
    Ok(Some((body, HEADER_LEN + len)))
}

/// Takes the first complete frame out of a receive buffer.
///
/// While the buffer holds less than a whole frame nothing is taken and the
/// buffer keeps what it has; bytes that arrive later complete the frame.
pub fn take_frame(buf: &mut Vec<u8>) -> (r: Option<Vec<u8>>)
    ensures
        has_frame(old(buf)@) ==> r is Some && r->Some_0@ == first_payload(old(buf)@) && final(buf)@
            == after_first(old(buf)@),
        !has_frame(old(buf)@) ==> r is None && final(buf)@ == old(buf)@,
{
    if buf.len() < HEADER_LEN {
        return None;
    }
    let len = header_len(buf.as_slice());
    if buf.len() - HEADER_LEN < len {
        return None;
    }
    let mut rest = buf.split_off(HEADER_LEN + len);
    let body = buf.split_off(HEADER_LEN);
    buf.clear();
    buf.append(&mut rest);
    assert(body@ =~= first_payload(old(buf)@));
    assert(buf@ =~= after_first(old(buf)@));
    Some(body)
}

/// Takes every complete frame out of a receive buffer, in order, and
/// leaves the incomplete tail.
pub fn take_frames(buf: &mut Vec<u8>) -> (frames: Vec<Vec<u8>>)
    ensures
        frames@.len() == complete_frames(old(buf)@).len(),
        forall|i: int|
            0 <= i < frames@.len() ==> (#[trigger] frames@[i])@ == complete_frames(old(buf)@)[i],
        final(buf)@ == leftover(old(buf)@),
{
    let mut frames: Vec<Vec<u8>> = Vec::new();
    let ghost mut done: Seq<Seq<u8>> = Seq::empty();
    loop
        invariant
            complete_frames(old(buf)@) == done + complete_frames(buf@),
            done.len() == frames@.len(),
            forall|i: int| 0 <= i < frames@.len() ==> (#[trigger] frames@[i])@ == done[i],
            leftover(buf@) == leftover(old(buf)@),
        decreases buf@.len(),
    {
        let ghost before = buf@;
        match take_frame(buf) {
            None => {
                assert(complete_frames(old(buf)@) =~= done);
                return frames;
            },
            Some(body) => {
                proof {
                    assert(complete_frames(before) == seq![first_payload(before)] + complete_frames(
                        buf@,
                    ));
                    assert(done + complete_frames(before) =~= done.push(body@) + complete_frames(
                        buf@,
                    ));
                    done = done.push(body@);
                }
                frames.push(body);
            },
        }
    }
}

} // verus!
