//! An ideal file store, and what the broker's decisions mean on it.
//!
//! The broker never touches a file: its caller does, at the places that
//! the broker names. This module says, in specifications only, what a
//! caller does that keeps each virtual backing as a sequence of bytes, and
//! proves what requests on virtual paths then return.

use vstd::prelude::*;
use crate::broker::{
    handle_of, moved, spec_handle, spec_open_done, spec_read_done, spec_write_done, BrokerModel,
    HandleKind, OpenOutcome, OpenPlanView, StepView,
};
use crate::encoding::{base64_decoded, payload_text};
use crate::laws::{mode_names_differ, operation_names_differ};
use crate::message::{ok_view, ParamsView, RequestView, ResponseView, ResultView};

verus! {

/// The bytes of each backing.
pub struct Store {
    pub files: Map<u64, Seq<u8>>,
}

/// The store after a file was opened as `plan` says: a fresh backing
/// starts empty.
pub open spec fn store_open(s: Store, plan: OpenPlanView) -> Store {
    if plan.fresh && plan.backing is Some {
        Store { files: s.files.insert(plan.backing->Some_0, Seq::empty()) }
    } else {
        s
    }
}

/// The bytes that a read of up to `max` bytes gives, beginning at byte
/// `at` of the file `f`.
pub open spec fn read_at(f: Seq<u8>, at: u64, max: usize) -> Seq<u8> {
    if at >= f.len() {
        Seq::empty()
    } else if at + max >= f.len() {
        f.subrange(at as int, f.len() as int)
    } else {
        f.subrange(at as int, at + max)
    }
}

/// The file `f` after all of `data` was written into it, beginning at
/// byte `at` or, for `None`, at its end. A write behind the end leaves
/// zero bytes in between.
pub open spec fn write_at(f: Seq<u8>, at: Option<u64>, data: Seq<u8>) -> Seq<u8> {
    let pos: int = match at {
        Some(p) => p as int,
        None => f.len() as int,
    };
    if pos >= f.len() {
        f + Seq::new((pos - f.len()) as nat, |i: int| 0u8) + data
    } else if pos + data.len() >= f.len() {
        f.subrange(0, pos) + data
    } else {
        f.subrange(0, pos) + data + f.subrange(pos + data.len(), f.len() as int)
    }
}

/// One request served by the broker on the ideal store: the response, the
/// broker and the store after it. Every operation on a virtual backing
/// succeeds, and a write takes all its bytes; files of the real
/// filesystem are not part of the store, and operations on them fail.
pub open spec fn spec_exchange(m: BrokerModel, s: Store, req: RequestView) -> (
    ResponseView,
    BrokerModel,
    Store,
) {
    let (step, after) = spec_handle(m, req);
    match step {
        StepView::Reply(r) => (r, after, s),
        StepView::Close { handle, response } => (response, after, s),
        StepView::Open { id, plan } => if plan.backing is Some {
            let (r, opened) = spec_open_done(after, id, plan, OpenOutcome::Opened);
            (r, opened, store_open(s, plan))
        } else {
            let (r, opened) = spec_open_done(after, id, plan, OpenOutcome::Failed);
            (r, opened, s)
        },
        StepView::Read { id, handle, max, at } => match after.handles[handle].backing {
            Some(b) => {
                let (r, read) = spec_read_done(
                    after,
                    id,
                    handle,
                    Some(read_at(s.files[b], at, max)),
                );
                (r, read, s)
            },
            None => {
                let (r, read) = spec_read_done(after, id, handle, None);
                (r, read, s)
            },
        },
        StepView::Write { id, handle, data, place } => match after.handles[handle].backing {
            Some(b) => {
                let (r, written) = spec_write_done(after, id, handle, Some(data.len() as u64));
                (
                    r,
                    written,
                    Store { files: s.files.insert(b, write_at(s.files[b], place, data)) },
                )
            },
            None => {
                let (r, written) = spec_write_done(after, id, handle, None);
                (r, written, s)
            },
        },
    }
}

/// The request that opens `path` in `mode`.
pub open spec fn open_request(id: Seq<char>, path: Seq<char>, mode: Seq<char>) -> RequestView {
    RequestView {
        id,
        op: "open"@,
        params: ParamsView { path: Some(path), mode: Some(mode), h: None, max: None, data: None },
        version: None,
    }
}

/// The request that reads up to `max` bytes from handle `h`.
pub open spec fn read_request(id: Seq<char>, h: u32, max: u64) -> RequestView {
    RequestView {
        id,
        op: "read"@,
        params: ParamsView { path: None, mode: None, h: Some(h as u64), max: Some(max), data: None },
        version: None,
    }
}

/// The request that writes the bytes of `text` to handle `h`.
pub open spec fn write_request(id: Seq<char>, h: u32, text: Seq<char>) -> RequestView {
    RequestView {
        id,
        op: "write"@,
        params: ParamsView { path: None, mode: None, h: Some(h as u64), max: None, data: Some(text) },
        version: None,
    }
}

/// The request that closes handle `h`.
pub open spec fn close_request(id: Seq<char>, h: u32) -> RequestView {
    RequestView {
        id,
        op: "close"@,
        params: ParamsView { path: None, mode: None, h: Some(h as u64), max: None, data: None },
        version: None,
    }
}

/// The broker and the store after `path` was opened in `mode`, `text`
/// written and the handle closed.
pub open spec fn after_session(
    m: BrokerModel,
    s: Store,
    id: Seq<char>,
    path: Seq<char>,
    mode: Seq<char>,
    text: Seq<char>,
) -> (BrokerModel, Store) {
    let (_r1, m1, s1) = spec_exchange(m, s, open_request(id, path, mode));
    let (_r2, m2, s2) = spec_exchange(m1, s1, write_request(id, m.next, text));
    let (_r3, m3, s3) = spec_exchange(m2, s2, close_request(id, m.next));
    (m3, s3)
}

/// The bytes that `path` holds: those of its backing.
pub open spec fn contents(m: BrokerModel, s: Store, path: Seq<char>) -> Seq<u8> {
    s.files[m.virtual_files[path]]
}

/// What a session of open, write and close does to a virtual path: `w`
/// leaves it with the bytes written and nothing else, whatever it held;
/// `a` leaves it with what it held followed by the bytes written; `rw` on
/// a path that was never opened leaves it with the bytes written.
pub proof fn session_contents(
    m: BrokerModel,
    s: Store,
    id: Seq<char>,
    path: Seq<char>,
    mode: Seq<char>,
    text: Seq<char>,
)
    requires
        m.wf(),
        m.next < u32::MAX,
        m.next_backing < u64::MAX,
        !m.is_real(path),
        base64_decoded(text) is Some,
        m.virtual_files.contains_key(path) ==> s.files.contains_key(m.virtual_files[path]),
        mode == "w"@ || mode == "a"@ || mode == "rw"@,
    ensures
        ({
            let bytes = base64_decoded(text)->Some_0;
            let (m3, s3) = after_session(m, s, id, path, mode, text);
            &&& m3.wf()
            &&& m3.next == m.next + 1
            &&& m3.virtual_files.contains_key(path)
            &&& s3.files.contains_key(m3.virtual_files[path])
            &&& !m3.is_real(path)
            &&& mode == "w"@ ==> contents(m3, s3, path) == bytes
            &&& mode == "a"@ && m.virtual_files.contains_key(path) ==> contents(m3, s3, path)
                == contents(m, s, path) + bytes
            &&& !m.virtual_files.contains_key(path) ==> contents(m3, s3, path) == bytes
        }),
{
    operation_names_differ();
    mode_names_differ();
    let bytes = base64_decoded(text)->Some_0;
    let (r1, m1, s1) = spec_exchange(m, s, open_request(id, path, mode));
    let h = m.next;
    assert(handle_low(h) == h);
    assert(m1.handles.contains_key(h));
    assert(m1.handles[h].writable);
    let (r2, m2, s2) = spec_exchange(m1, s1, write_request(id, h, text));
    let (r3, m3, s3) = spec_exchange(m2, s2, close_request(id, h));
    let b = m1.virtual_files[path];
    assert(m1.handles[h].backing == Some(b));
    assert(m1.handles[h].wpos == 0);
    let f = s1.files[b];
    if mode == "w"@ || !m.virtual_files.contains_key(path) {
        assert(f =~= Seq::<u8>::empty());
        assert(s2.files[b] =~= bytes);
    } else if mode == "a"@ {
        assert(f == contents(m, s, path));
        assert(s2.files[b] =~= f + bytes);
    }
    assert forall|x: u32| #[trigger] m3.handles.contains_key(x) implies 3 <= x < m3.next
        && m3.handles[x].wf() by {
        if x != h {
            assert(m.handles.contains_key(x));
        }
    }
    assert forall|p: Seq<char>| #[trigger] m3.virtual_files.contains_key(p) implies m3.virtual_files[p]
        < m3.next_backing by {
        if p != path {
            assert(m.virtual_files.contains_key(p));
        }
    }
}

/// A handle as a request names it, read back.
pub open spec fn handle_low(h: u32) -> u32 {
    handle_of(Some(h as u64))->Some_0
}

/// Opening a virtual path with `rw` leaves what it holds as it is, and a
/// read through the new handle returns it from its beginning: as many
/// bytes as were asked for, at most 4096, or all of them where there are
/// fewer.
pub proof fn reopened_path_reads_back(
    m: BrokerModel,
    s: Store,
    id: Seq<char>,
    path: Seq<char>,
    max: u64,
)
    requires
        m.wf(),
        m.next < u32::MAX,
        !m.is_real(path),
        m.virtual_files.contains_key(path),
        s.files.contains_key(m.virtual_files[path]),
        max > 0,
    ensures
        ({
            let held = contents(m, s, path);
            let limit = if max < 4096 {
                max as int
            } else {
                4096
            };
            let got = if held.len() <= limit {
                held
            } else {
                held.subrange(0, limit)
            };
            let (_r1, m1, s1) = spec_exchange(m, s, open_request(id, path, "rw"@));
            let (r2, _m2, _s2) = spec_exchange(m1, s1, read_request(id, m.next, max));
            &&& contents(m1, s1, path) == held
            &&& r2 == ok_view(
                id,
                ResultView::Data { eof: got.len() == 0, data: payload_text(got) },
            )
        }),
{
    operation_names_differ();
    mode_names_differ();
    let h = m.next;
    assert(handle_low(h) == h);
    let (r1, m1, s1) = spec_exchange(m, s, open_request(id, path, "rw"@));
    assert(m1.handles.contains_key(h));
    assert(m1.handles[h].readable);
    assert(m1.handles[h].backing == Some(m.virtual_files[path]));
    assert(m1.handles[h].rpos == 0);
    let held = contents(m, s, path);
    assert(s1.files[m.virtual_files[path]] == held);
    let limit = if max < 4096 {
        max as int
    } else {
        4096
    };
    let got = read_at(s1.files[m.virtual_files[path]], 0, limit as usize);
    if held.len() <= limit {
        assert(got =~= held);
    } else {
        assert(got =~= held.subrange(0, limit));
    }
}

/// A handle reads from the beginning whatever it has written: on a
/// virtual path that was never opened, a read through the `rw` handle
/// that wrote the bytes returns them, as far as the read asks for them.
pub proof fn handle_reads_what_it_wrote(
    m: BrokerModel,
    s: Store,
    id: Seq<char>,
    path: Seq<char>,
    text: Seq<char>,
    max: u64,
)
    requires
        m.wf(),
        m.next < u32::MAX,
        m.next_backing < u64::MAX,
        !m.is_real(path),
        !m.virtual_files.contains_key(path),
        base64_decoded(text) is Some,
        max > 0,
    ensures
        ({
            let bytes = base64_decoded(text)->Some_0;
            let limit = if max < 4096 {
                max as int
            } else {
                4096
            };
            let got = if bytes.len() <= limit {
                bytes
            } else {
                bytes.subrange(0, limit)
            };
            let (_r1, m1, s1) = spec_exchange(m, s, open_request(id, path, "rw"@));
            let (_r2, m2, s2) = spec_exchange(m1, s1, write_request(id, m.next, text));
            let (r3, _m3, _s3) = spec_exchange(m2, s2, read_request(id, m.next, max));
            r3 == ok_view(id, ResultView::Data { eof: got.len() == 0, data: payload_text(got) })
        }),
{
    operation_names_differ();
    mode_names_differ();
    let bytes = base64_decoded(text)->Some_0;
    let h = m.next;
    assert(handle_low(h) == h);
    let (r1, m1, s1) = spec_exchange(m, s, open_request(id, path, "rw"@));
    let b = m.next_backing;
    assert(m1.handles.contains_key(h));
    assert(m1.handles[h] == HandleKind {
        backing: Some(b),
        readable: true,
        writable: true,
        append: false,
        rpos: 0,
        wpos: 0,
    });
    assert(s1.files[b] =~= Seq::<u8>::empty());
    let (r2, m2, s2) = spec_exchange(m1, s1, write_request(id, h, text));
    assert(s2.files[b] =~= bytes);
    assert(m2.handles.contains_key(h));
    assert(m2.handles[h].rpos == 0 && m2.handles[h].readable && m2.handles[h].backing == Some(b));
    let limit = if max < 4096 {
        max as int
    } else {
        4096
    };
    let got = read_at(bytes, 0, limit as usize);
    if bytes.len() <= limit {
        assert(got =~= bytes);
    } else {
        assert(got =~= bytes.subrange(0, limit));
    }
}

/// The round trip on a virtual path: what is written through one `rw`
/// handle and closed is what a later `rw` handle reads, as far as the read
/// asks for it.
pub proof fn virtual_round_trip(
    m: BrokerModel,
    s: Store,
    id: Seq<char>,
    path: Seq<char>,
    text: Seq<char>,
    max: u64,
)
    requires
        m.wf(),
        m.next + 1 < u32::MAX,
        m.next_backing < u64::MAX,
        !m.is_real(path),
        !m.virtual_files.contains_key(path),
        base64_decoded(text) is Some,
        max > 0,
    ensures
        ({
            let bytes = base64_decoded(text)->Some_0;
            let limit = if max < 4096 {
                max as int
            } else {
                4096
            };
            let got = if bytes.len() <= limit {
                bytes
            } else {
                bytes.subrange(0, limit)
            };
            let (m3, s3) = after_session(m, s, id, path, "rw"@, text);
            let (_r4, m4, s4) = spec_exchange(m3, s3, open_request(id, path, "rw"@));
            let (r5, _m5, _s5) = spec_exchange(m4, s4, read_request(id, m3.next, max));
            r5 == ok_view(id, ResultView::Data { eof: got.len() == 0, data: payload_text(got) })
        }),
{
    session_contents(m, s, id, path, "rw"@, text);
    let (m3, s3) = after_session(m, s, id, path, "rw"@, text);
    reopened_path_reads_back(m3, s3, id, path, max);
}

/// Where a handle stands after `k` reads of up to `limit` bytes that
/// began at byte `at`: each read moves it on by the bytes it gave.
pub open spec fn place_after(f: Seq<u8>, at: u64, limit: usize, k: nat) -> u64
    decreases k,
{
    if k == 0 {
        at
    } else {
        place_after(f, moved(at, read_at(f, at, limit).len()), limit, (k - 1) as nat)
    }
}

/// The bytes that `k` reads of up to `limit` bytes give, one after the
/// other, beginning at byte `at`.
pub open spec fn reads_joined(f: Seq<u8>, at: u64, limit: usize, k: nat) -> Seq<u8>
    decreases k,
{
    if k == 0 {
        Seq::empty()
    } else {
        let got = read_at(f, at, limit);
        got + reads_joined(f, moved(at, got.len()), limit, (k - 1) as nat)
    }
}

/// Successive reads give the file piece by piece: joined, they are the
/// bytes from where the first began to where the last ended, no read gives
/// more than was asked for, every read before the end gives at least one
/// byte, and a read gives none exactly at the end. So as many reads as
/// there are bytes left give all of them.
pub proof fn successive_reads_join(f: Seq<u8>, at: u64, limit: usize, k: nat)
    requires
        limit > 0,
        at <= f.len() <= u64::MAX,
    ensures
        at <= place_after(f, at, limit, k) <= f.len(),
        reads_joined(f, at, limit, k) == f.subrange(
            at as int,
            place_after(f, at, limit, k) as int,
        ),
        place_after(f, at, limit, k) == f.len() || place_after(f, at, limit, k) >= at + k,
        k >= f.len() - at ==> reads_joined(f, at, limit, k) == f.subrange(
            at as int,
            f.len() as int,
        ),
        read_at(f, at, limit).len() <= limit,
        (read_at(f, at, limit).len() == 0) == (at == f.len()),
    decreases k,
{
    if k > 0 {
        let got = read_at(f, at, limit);
        let next = moved(at, got.len());
        successive_reads_join(f, next, limit, (k - 1) as nat);
        let end = place_after(f, at, limit, k);
        assert(reads_joined(f, at, limit, k) =~= f.subrange(at as int, end as int));
    } else {
        assert(reads_joined(f, at, limit, k) =~= f.subrange(at as int, at as int));
    }
}

/// The responses to `k` reads of up to `max` bytes through handle `h`,
/// served one after the other.
pub open spec fn read_rounds(
    m: BrokerModel,
    s: Store,
    id: Seq<char>,
    h: u32,
    max: u64,
    k: nat,
) -> Seq<ResponseView>
    decreases k,
{
    if k == 0 {
        Seq::empty()
    } else {
        let (r, m1, s1) = spec_exchange(m, s, read_request(id, h, max));
        seq![r] + read_rounds(m1, s1, id, h, max, (k - 1) as nat)
    }
}

/// Each read gets one response.
pub proof fn read_rounds_len(m: BrokerModel, s: Store, id: Seq<char>, h: u32, max: u64, k: nat)
    ensures
        read_rounds(m, s, id, h, max, k).len() == k,
    decreases k,
{
    if k > 0 {
        let (r, m1, s1) = spec_exchange(m, s, read_request(id, h, max));
        read_rounds_len(m1, s1, id, h, max, (k - 1) as nat);
    }
}

/// Reads through one handle of a virtual path are served in turn: read
/// `i` carries the bytes that follow those of the reads before it, and
/// says that the file has ended exactly where it carries none. With
/// [`successive_reads_join`], the chunks joined are the file.
pub proof fn reads_are_served_in_turn(
    m: BrokerModel,
    s: Store,
    id: Seq<char>,
    h: u32,
    max: u64,
    k: nat,
    i: int,
)
    requires
        m.wf(),
        m.handles.contains_key(h),
        m.handles[h].readable,
        m.handles[h].backing is Some,
        m.handles[h].rpos <= s.files[m.handles[h].backing->Some_0].len() <= u64::MAX,
        max > 0,
        0 <= i < k,
    ensures
        ({
            let f = s.files[m.handles[h].backing->Some_0];
            let limit = if max < 4096 {
                max as usize
            } else {
                4096usize
            };
            let chunk = read_at(f, place_after(f, m.handles[h].rpos, limit, i as nat), limit);
            read_rounds(m, s, id, h, max, k)[i] == ok_view(
                id,
                ResultView::Data { eof: chunk.len() == 0, data: payload_text(chunk) },
            )
        }),
    decreases k,
{
    operation_names_differ();
    assert(handle_low(h) == h);
    let f = s.files[m.handles[h].backing->Some_0];
    let limit = if max < 4096 {
        max as usize
    } else {
        4096usize
    };
    let (r, m1, s1) = spec_exchange(m, s, read_request(id, h, max));
    let got = read_at(f, m.handles[h].rpos, limit);
    assert(r == ok_view(id, ResultView::Data { eof: got.len() == 0, data: payload_text(got) }));
    assert(s1 == s);
    assert(m1.handles[h] == HandleKind { rpos: moved(m.handles[h].rpos, got.len()), ..m.handles[h] });
    if i > 0 {
        successive_reads_join(f, m.handles[h].rpos, limit, 1);
        assert forall|x: u32| #[trigger] m1.handles.contains_key(x) implies 3 <= x < m1.next
            && m1.handles[x].wf() by {
            assert(m.handles.contains_key(x));
        }
        reads_are_served_in_turn(m1, s1, id, h, max, (k - 1) as nat, i - 1);
        let rest = read_rounds(m1, s1, id, h, max, (k - 1) as nat);
        read_rounds_len(m1, s1, id, h, max, (k - 1) as nat);
        assert(read_rounds(m, s, id, h, max, k)[i] == rest[i - 1]);
    }
}

} // verus!
