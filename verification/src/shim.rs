//! The client side of the protocol, as a stage uses it.
//!
//! [`ChildMux`] numbers and builds the requests; the `*_reply` functions
//! read the responses. The stage's caller sends one and receives the other.
//! Requests for the reserved handles are answered from the stage's own
//! standard streams, so that the same stage runs with or without a
//! multiplexer between it and the broker.

use vstd::prelude::*;
use crate::codes::{map_code, spec_map_code, CodeView, VfsErrorCode};
use crate::encoding::{base64_decoded, base64_encoded, decode_payload, encode_base64};
use crate::message::{Params, ParamsView, Request, RequestView, Response, ResultBody};
use crate::text::{decimal, spec_decimal};

verus! {

/// What a stage has to do for one call.
pub enum Call {
    /// Send this request and wait for its response.
    Send(Request),
    /// Read up to `max` bytes from standard input.
    ReadStdin { max: usize },
    /// Write the bytes to standard output (`handle` 1) or standard error
    /// (`handle` 2).
    WriteStd { handle: u32 },
    /// The call is not allowed: it fails with `E_PERM`.
    Denied,
    /// The call asks for nothing: it fails with `E_ARG`.
    Invalid,
    /// Nothing is to be done: the call has succeeded.
    Done,
}

/// Mathematical value of a [`Call`].
pub enum CallView {
    Send(RequestView),
    ReadStdin { max: usize },
    WriteStd { handle: u32 },
    Denied,
    Invalid,
    Done,
}

impl View for Call {
    type V = CallView;

    open spec fn view(&self) -> CallView {
        match self {
            Call::Send(r) => CallView::Send(r@),
            Call::ReadStdin { max } => CallView::ReadStdin { max: *max },
            Call::WriteStd { handle } => CallView::WriteStd { handle: *handle },
            Call::Denied => CallView::Denied,
            Call::Invalid => CallView::Invalid,
            Call::Done => CallView::Done,
        }
    }
}

/// How a `write` goes on after one response.
pub enum WriteNext {
    /// Every byte was taken; `total` bytes were written.
    Finished { total: usize },
    /// `total` bytes were written so far; send the rest.
    More { total: usize },
    /// The write failed.
    Failed(VfsErrorCode),
}

/// The client's state: the number of requests it has built.
pub struct ChildMux {
    seq: u64,
}

/// The number after `seq` in the sequence of request numbers, which starts
/// over once the counter is full.
pub open spec fn next_seq(seq: u64) -> u64 {
    if seq == u64::MAX {
        0
    } else {
        (seq + 1) as u64
    }
}

/// The parameters of a request that names none.
pub open spec fn no_params() -> ParamsView {
    ParamsView { path: None, mode: None, h: None, max: None, data: None }
}

/// The request number `seq` for operation `op`.
pub open spec fn request_view(seq: u64, op: Seq<char>, params: ParamsView) -> RequestView {
    RequestView { id: spec_decimal(seq as nat), op, params, version: None }
}

/// The code that a failed response carries; `?` where it carries none.
pub open spec fn reply_code(resp: Response) -> Seq<char> {
    match resp.error {
        Some(e) => e.code@,
        None => "?"@,
    }
}

/// The code of a failed response, decoded.
fn failure(resp: &Response) -> (c: VfsErrorCode)
    ensures
        c@ == spec_map_code(reply_code(*resp)),
{
    match &resp.error {
        Some(e) => map_code(e.code.as_str()),
        None => map_code("?"),
    }
}

impl ChildMux {
    /// The number of requests built so far.
    pub closed spec fn seq(&self) -> u64 {
        self.seq
    }

    /// A client that has built no request.
    pub fn new() -> (c: ChildMux)
        ensures
            c.seq() == 0,
    {
        ChildMux { seq: 0 }
    }

    /// The token of the next request: the decimal text of its number.
    pub fn next_id(&mut self) -> (id: String)
        ensures
            final(self).seq() == next_seq(old(self).seq()),
            id@ == spec_decimal(final(self).seq() as nat),
    {
        self.seq = if self.seq == u64::MAX {
            0
        } else {
            self.seq + 1
        };
        decimal(self.seq)
    }

    /// Builds the request that opens `path` in `mode`.
    pub fn open(&mut self, path: &str, mode: &str) -> (req: Request)
        ensures
            final(self).seq() == next_seq(old(self).seq()),
            req@ == request_view(
                final(self).seq(),
                "open"@,
                ParamsView { path: Some(path@), mode: Some(mode@), ..no_params() },
            ),
    {
        let id = self.next_id();
        Request {
            id,
            op: "open".to_owned(),
            params: Params {
                path: Some(path.to_owned()),
                mode: Some(mode.to_owned()),
                h: None,
                max: None,
                data: None,
            },
            version: None,
        }
    }

    /// Starts a read of up to `max` bytes from handle `h`.
    ///
    /// Handle 0 is standard input, read directly and never more than 4096
    /// bytes at a time; handles 1 and 2 cannot be read; and a read of a
    /// reserved handle that asks for no byte is refused. Every other
    /// handle is asked of the broker.
    pub fn read_chunk(&mut self, h: u32, max: u32) -> (call: Call)
        ensures
            h <= 2 && max == 0 ==> final(self).seq() == old(self).seq() && call@
                == CallView::Invalid,
            (h == 1 || h == 2) && max > 0 ==> final(self).seq() == old(self).seq() && call@
                == CallView::Denied,
            h == 0 && max > 0 ==> final(self).seq() == old(self).seq() && call@ == (
            CallView::ReadStdin {
                max: if max < 4096 {
                    max as usize
                } else {
                    4096
                },
            }),
            h > 2 ==> final(self).seq() == next_seq(old(self).seq()) && call@ == CallView::Send(
                request_view(
                    final(self).seq(),
                    "read"@,
                    ParamsView { h: Some(h as u64), max: Some(max as u64), ..no_params() },
                ),
            ),
    {
        if h <= 2 && max == 0 {
            return Call::Invalid;
        }
        if h == 1 || h == 2 {
            return Call::Denied;
        }
        if h == 0 {
            let limit: usize = if max < 4096 {
                max as usize
            } else {
                4096
            };
            return Call::ReadStdin { max: limit };
        }
        let id = self.next_id();
        Call::Send(
            Request {
                id,
                op: "read".to_owned(),
                params: Params {
                    path: None,
                    mode: None,
                    h: Some(h as u64),
                    max: Some(max as u64),
                    data: None,
                },
                version: None,
            },
        )
    }

    /// Starts or continues a write of `data` to handle `h`, of which the
    /// first `done` bytes have been written.
    ///
    /// Handles 1 and 2 are standard output and standard error, written
    /// directly; handle 0 cannot be written. For every other handle the
    /// bytes that are left are sent to the broker, and nothing is sent
    /// once none is left.
    pub fn write_chunk(&mut self, h: u32, data: &[u8], done: usize) -> (call: Call)
        requires
            done <= data@.len(),
            data@.len() <= usize::MAX / 4,
        ensures
            h == 1 || h == 2 ==> final(self).seq() == old(self).seq() && call@ == (
            CallView::WriteStd { handle: h }),
            h == 0 ==> final(self).seq() == old(self).seq() && call@ == CallView::Denied,
            h > 2 && done == data@.len() ==> final(self).seq() == old(self).seq() && call@
                == CallView::Done,
            h > 2 && done < data@.len() ==> final(self).seq() == next_seq(old(self).seq()) && call@
                == CallView::Send(
                request_view(
                    final(self).seq(),
                    "write"@,
                    ParamsView {
                        h: Some(h as u64),
                        data: Some(base64_encoded(data@.subrange(done as int, data@.len() as int))),
                        ..no_params()
                    },
                ),
            ),
    {
        if h == 1 || h == 2 {
            return Call::WriteStd { handle: h };
        }
        if h == 0 {
            return Call::Denied;
        }
        if done == data.len() {
            return Call::Done;
        }
        let rest = vstd::slice::slice_subrange(data, done, data.len());
        let text = encode_base64(rest);
        let id = self.next_id();
        Call::Send(
            Request {
                id,
                op: "write".to_owned(),
                params: Params {
                    path: None,
                    mode: None,
                    h: Some(h as u64),
                    max: None,
                    data: Some(text),
                },
                version: None,
            },
        )
    }

    /// Starts the close of handle `h`. Closing a reserved handle succeeds
    /// without releasing anything.
    pub fn close(&mut self, h: u32) -> (call: Call)
        ensures
            h <= 2 ==> final(self).seq() == old(self).seq() && call@ == CallView::Done,
            h > 2 ==> final(self).seq() == next_seq(old(self).seq()) && call@ == CallView::Send(
                request_view(
                    final(self).seq(),
                    "close"@,
                    ParamsView { h: Some(h as u64), ..no_params() },
                ),
            ),
    {
        if h <= 2 {
            return Call::Done;
        }
        let id = self.next_id();
        Call::Send(
            Request {
                id,
                op: "close".to_owned(),
                params: Params { path: None, mode: None, h: Some(h as u64), max: None, data: None },
                version: None,
            },
        )
    }
}

/// What a read of standard input hands back that gave `bytes`: the bytes,
/// and that the input has ended where there were none.
pub fn stdin_reply(bytes: Vec<u8>) -> (r: (Vec<u8>, bool))
    ensures
        r.0@ == bytes@,
        r.1 == (bytes@.len() == 0),
{
    let ended = bytes.len() == 0;
    (bytes, ended)
}

/// The handle that the response to an `open` names; 0 where a successful
/// response names none.
pub fn open_reply(resp: &Response) -> (r: Result<u32, VfsErrorCode>)
    ensures
        match r {
            Ok(h) => resp.ok && h == (match resp.result {
                Some(ResultBody::Handle(x)) => x,
                _ => 0u32,
            }),
            Err(c) => !resp.ok && c@ == spec_map_code(reply_code(*resp)),
        },
{
    if resp.ok {
        match &resp.result {
            Some(ResultBody::Handle(h)) => Ok(*h),
            _ => Ok(0),
        }
    } else {
        Err(failure(resp))
    }
}

/// The bytes that a response to a `read` carries: those of its `data`,
/// none where it has no `data`, its `data` is empty or does not decode.
pub open spec fn reply_bytes(resp: Response) -> Seq<u8> {
    match resp.result {
        Some(ResultBody::Data { eof, data }) => if data@.len() == 0 {
            Seq::empty()
        } else {
            match base64_decoded(data@) {
                Some(bytes) => bytes,
                None => Seq::empty(),
            }
        },
        _ => Seq::empty(),
    }
}

/// Whether a response to a `read` says that the stream has ended.
pub open spec fn reply_eof(resp: Response) -> bool {
    match resp.result {
        Some(ResultBody::Data { eof, data }) => eof,
        _ => false,
    }
}

/// The chunk that the response to a `read` carries, and whether the stream
/// has ended. Both may come in one response.
pub fn read_reply(resp: &Response) -> (r: Result<(Vec<u8>, bool), VfsErrorCode>)
    ensures
        match r {
            Ok((bytes, eof)) => resp.ok && bytes@ == reply_bytes(*resp) && eof == reply_eof(*resp),
            Err(c) => !resp.ok && c@ == spec_map_code(reply_code(*resp)),
        },
{
    if !resp.ok {
        return Err(failure(resp));
    }
    match &resp.result {
        Some(ResultBody::Data { eof, data }) => {
            let bytes: Vec<u8> = if data.as_str().is_empty() {
                Vec::new()
            } else {
                match decode_payload(data.as_str()) {
                    Some(b) => b,
                    None => Vec::new(),
                }
            };
            Ok((bytes, *eof))
        },
        _ => Ok((Vec::new(), false)),
    }
}

/// The number of bytes that a response to a `write` says were written; 0
/// where it says none.
pub open spec fn reply_written(resp: Response) -> u64 {
    match resp.result {
        Some(ResultBody::Written(n)) => n,
        _ => 0,
    }
}

/// The sum of two counts, held at the largest count there is.
pub open spec fn capped_sum(done: usize, more: u64) -> usize {
    if done + more > usize::MAX {
        usize::MAX
    } else {
        (done + more) as usize
    }
}

/// Decides how a write of `len` bytes, of which `done` were written, goes
/// on after the response `resp`.
///
/// A failed response ends the write with its code. A response that took no
/// byte ends it with `E_IO`, so that a write cannot go on forever without
/// progress. Otherwise the bytes it took are counted, and the write is
/// finished once none is left.
pub fn write_reply(done: usize, len: usize, resp: &Response) -> (next: WriteNext)
    requires
        done < len,
    ensures
        !resp.ok ==> (next matches WriteNext::Failed(c) && c@ == spec_map_code(reply_code(*resp))),
        resp.ok && reply_written(*resp) == 0 ==> (next matches WriteNext::Failed(c) && c@
            == CodeView::EIO),
        resp.ok && reply_written(*resp) > 0 && done + reply_written(*resp) >= len ==> next == (
        WriteNext::Finished { total: capped_sum(done, reply_written(*resp)) }),
        resp.ok && reply_written(*resp) > 0 && done + reply_written(*resp) < len ==> next == (
        WriteNext::More { total: (done + reply_written(*resp)) as usize }),
        next matches WriteNext::More { total } ==> done < total < len,
{
    if !resp.ok {
        return WriteNext::Failed(failure(resp));
    }
    let w: u64 = match &resp.result {
        Some(ResultBody::Written(n)) => *n,
        _ => 0,
    };
    if w == 0 {
        return WriteNext::Failed(VfsErrorCode::EIO);
    }
    let left = len - done;
    if w >= left as u64 {
        let total: usize = if w > (usize::MAX - done) as u64 {
            usize::MAX
        } else {
            done + w as usize
        };
        WriteNext::Finished { total }
    } else {
        WriteNext::More { total: done + w as usize }
    }
}

/// Whether a `close` succeeded, and the code of its failure where it did
/// not.
pub fn close_reply(resp: &Response) -> (r: Result<(), VfsErrorCode>)
    ensures
        match r {
            Ok(_) => resp.ok,
            Err(c) => !resp.ok && c@ == spec_map_code(reply_code(*resp)),
        },
{
    if resp.ok {
        Ok(())
    } else {
        Err(failure(resp))
    }
}

} // verus!
