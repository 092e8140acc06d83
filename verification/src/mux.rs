//! The parent-side multiplexer: many stage sockets, one broker socket.
//!
//! The multiplexer owns the receive buffers, the table of requests in
//! flight and the counter that names them upstream. Its caller polls the
//! sockets and moves the bytes; requests for the reserved handles are
//! answered from the caller's standard streams and never reach the broker.

use vstd::prelude::*;
use vstd::slice::slice_to_vec;
use crate::broker::{handle_in, handle_of, read_limit, MAX_READ};
use crate::encoding::{base64_decoded, decode_payload, encode_payload, payload_text};
use crate::frame::{complete_frames, leftover, take_frames};
use crate::message::{
    err, err_view, ok, ok_view, with_id, Request, RequestView, Response, ResponseView, ResultBody,
    ResultView,
};
use crate::table::TextMap;
use crate::text::{decimal, same_text, spec_decimal};

verus! {

/// One stage as the multiplexer sees it: its socket, whether it is still
/// there, and the bytes received from it that do not yet make a frame.
pub struct MuxChild {
    pub fd: i32,
    pub alive: bool,
    pub buf: Vec<u8>,
}

/// Mathematical value of a [`MuxChild`].
pub struct ChildView {
    pub fd: i32,
    pub alive: bool,
    pub buf: Seq<u8>,
}

impl View for MuxChild {
    type V = ChildView;

    open spec fn view(&self) -> ChildView {
        ChildView { fd: self.fd, alive: self.alive, buf: self.buf@ }
    }
}

/// A request in flight: the stage it came from and the token it had there.
pub struct Pending {
    pub child_fd: i32,
    pub child_id: String,
}

/// Mathematical value of a [`Pending`].
pub struct PendingView {
    pub child_fd: i32,
    pub child_id: Seq<char>,
}

impl View for Pending {
    type V = PendingView;

    open spec fn view(&self) -> PendingView {
        PendingView { child_fd: self.child_fd, child_id: self.child_id@ }
    }
}

/// What has to happen with one request of a stage.
pub enum Routed {
    /// Send this request, which carries its upstream token, to the broker.
    Forward(Request),
    /// Read up to `max` bytes from standard input, then answer with
    /// [`local_read_done`].
    ReadStdin { id: String, max: usize },
    /// Write `data` to standard output (`handle` 1) or standard error
    /// (`handle` 2), then answer with [`local_write_done`].
    WriteStd { id: String, handle: u32, data: Vec<u8> },
    /// Send this response to the stage.
    Reply(Response),
}

/// Mathematical value of a [`Routed`].
pub enum RoutedView {
    Forward(RequestView),
    ReadStdin { id: Seq<char>, max: usize },
    WriteStd { id: Seq<char>, handle: u32, data: Seq<u8> },
    Reply(ResponseView),
}

impl View for Routed {
    type V = RoutedView;

    open spec fn view(&self) -> RoutedView {
        match self {
            Routed::Forward(r) => RoutedView::Forward(r@),
            Routed::ReadStdin { id, max } => RoutedView::ReadStdin { id: id@, max: *max },
            Routed::WriteStd { id, handle, data } => RoutedView::WriteStd {
                id: id@,
                handle: *handle,
                data: data@,
            },
            Routed::Reply(r) => RoutedView::Reply(r@),
        }
    }
}

/// Mathematical value of the multiplexer.
pub struct MuxModel {
    /// The stages, in the order in which they were given.
    pub children: Seq<ChildView>,
    /// Bytes from the broker that do not yet make a frame.
    pub upstream_buf: Seq<u8>,
    /// The requests in flight, by their upstream token.
    pub pending: Map<Seq<char>, PendingView>,
    /// The number of requests forwarded so far.
    pub req_seq: u64,
}

impl MuxModel {
    /// Every request in flight is named by the decimal text of a number
    /// that the counter has passed.
    pub open spec fn wf(&self) -> bool {
        forall|k: Seq<char>| #[trigger]
            self.pending.contains_key(k) ==> exists|n: nat|
                1 <= n <= self.req_seq && #[trigger] spec_decimal(n) == k
    }

    /// Some stage with socket `fd` is alive.
    pub open spec fn has_alive(&self, fd: i32) -> bool {
        exists|i: int|
            0 <= i < self.children.len() && (#[trigger] self.children[i]).fd == fd
                && self.children[i].alive
    }

    /// Stage `i` is the first alive stage with socket `fd`.
    pub open spec fn first_alive(&self, fd: i32, i: int) -> bool {
        &&& 0 <= i < self.children.len()
        &&& self.children[i].fd == fd
        &&& self.children[i].alive
        &&& forall|j: int|
            0 <= j < i ==> !((#[trigger] self.children[j]).fd == fd && self.children[j].alive)
    }
}

/// The handle that a request names; a request that names none, or none
/// that is a 32-bit number, names no reserved one.
pub open spec fn request_handle(req: RequestView) -> u32 {
    match handle_of(req.params.h) {
        Some(h) => h,
        None => u32::MAX,
    }
}

/// The answer that the multiplexer gives by itself to a request for a
/// reserved handle; `None` for every other request.
pub open spec fn spec_local(req: RequestView) -> Option<RoutedView> {
    let h = request_handle(req);
    if req.op == "read"@ && h <= 2 {
        match req.params.max {
            Some(max) => if max == 0 {
                Some(RoutedView::Reply(err_view(req.id, "E_ARG"@, "max must be > 0"@)))
            } else if h == 0 {
                Some(RoutedView::ReadStdin { id: req.id, max: read_limit(max) as usize })
            } else {
                Some(RoutedView::Reply(err_view(req.id, "E_PERM"@, "not readable"@)))
            },
            None => Some(RoutedView::Reply(err_view(req.id, "E_ARG"@, "missing max"@))),
        }
    } else if req.op == "write"@ && (h == 1 || h == 2) {
        match req.params.data {
            Some(text) => match base64_decoded(text) {
                Some(bytes) => Some(RoutedView::WriteStd { id: req.id, handle: h, data: bytes }),
                None => Some(RoutedView::Reply(err_view(req.id, "E_ARG"@, "bad base64"@))),
            },
            None => Some(RoutedView::Reply(err_view(req.id, "E_ARG"@, "missing data"@))),
        }
    } else if req.op == "write"@ && h == 0 {
        Some(RoutedView::Reply(err_view(req.id, "E_PERM"@, "not writable"@)))
    } else if req.op == "close"@ && h <= 2 {
        Some(RoutedView::Reply(ok_view(req.id, ResultView::Closed)))
    } else {
        None
    }
}

/// What happens with a request of the stage behind `fd`, and the
/// multiplexer after it.
pub open spec fn spec_route_request(m: MuxModel, fd: i32, req: RequestView) -> (
    RoutedView,
    MuxModel,
) {
    match spec_local(req) {
        Some(local) => (local, m),
        None => if m.req_seq == u64::MAX {
            (RoutedView::Reply(err_view(req.id, "E_IO"@, "no token left"@)), m)
        } else {
            let token = spec_decimal((m.req_seq + 1) as nat);
            (
                RoutedView::Forward(RequestView { id: token, ..req }),
                MuxModel {
                    pending: m.pending.insert(token, PendingView { child_fd: fd, child_id: req.id }),
                    req_seq: (m.req_seq + 1) as u64,
                    ..m
                },
            )
        },
    }
}

/// Where a response of the broker goes, and the multiplexer after it.
///
/// A response whose token names no request in flight is dropped. One whose
/// stage is gone is dropped too, and its request is no longer in flight.
pub open spec fn spec_route_response(m: MuxModel, resp: ResponseView) -> (
    Option<(i32, ResponseView)>,
    MuxModel,
) {
    if m.pending.contains_key(resp.id) {
        let p = m.pending[resp.id];
        let after = MuxModel { pending: m.pending.remove(resp.id), ..m };
        if m.has_alive(p.child_fd) {
            (Some((p.child_fd, ResponseView { id: p.child_id, ..resp })), after)
        } else {
            (None, after)
        }
    } else {
        (None, m)
    }
}

/// The response to a `read` of standard input that gave `bytes`.
pub open spec fn spec_local_read_done(id: Seq<char>, bytes: Seq<u8>) -> ResponseView {
    ok_view(id, ResultView::Data { eof: bytes.len() == 0, data: payload_text(bytes) })
}

/// Answers a `read` of standard input. A read that failed counts as one
/// that gave no bytes.
pub fn local_read_done(id: String, bytes: &[u8]) -> (r: Response)
    requires
        bytes@.len() <= usize::MAX / 4,
    ensures
        r.wf(),
        r@ == spec_local_read_done(id@, bytes@),
{
    let data = encode_payload(bytes);
    ok(id, ResultBody::Data { eof: bytes.len() == 0, data })
}

/// Answers a `write` to standard output or standard error that took
/// `written` bytes. A write that failed counts as one that took none.
pub fn local_write_done(id: String, written: u64) -> (r: Response)
    ensures
        r.wf(),
        r@ == ok_view(id@, ResultView::Written(written)),
{
    ok(id, ResultBody::Written(written))
}

/// Decides whether the multiplexer answers a request by itself.
pub fn route_local(req: &Request) -> (r: Option<Routed>)
    ensures
        match r {
            Some(routed) => spec_local(req@) == Some(routed@),
            None => spec_local(req@) is None,
        },
        r matches Some(Routed::Reply(resp)) ==> resp.wf(),
{
    let h: u32 = match handle_in(req.params.h) {
        Some(v) => v,
        None => u32::MAX,
    };
    let op = req.op.as_str();
    if same_text(op, "read") && h <= 2 {
        match req.params.max {
            Some(m) => {
                if m == 0 {
                    return Some(Routed::Reply(err(req.id.clone(), "E_ARG", "max must be > 0")));
                }
                if h != 0 {
                    return Some(Routed::Reply(err(req.id.clone(), "E_PERM", "not readable")));
                }
                let max: u64 = if m < MAX_READ {
                    m
                } else {
                    MAX_READ
                };
                Some(Routed::ReadStdin { id: req.id.clone(), max: max as usize })
            },
            None => Some(Routed::Reply(err(req.id.clone(), "E_ARG", "missing max"))),
        }
    } else if same_text(op, "write") && (h == 1 || h == 2) {
        match &req.params.data {
            Some(text) => match decode_payload(text.as_str()) {
                Some(data) => Some(Routed::WriteStd { id: req.id.clone(), handle: h, data }),
                None => Some(Routed::Reply(err(req.id.clone(), "E_ARG", "bad base64"))),
            },
            None => Some(Routed::Reply(err(req.id.clone(), "E_ARG", "missing data"))),
        }
    } else if same_text(op, "write") && h == 0 {
        Some(Routed::Reply(err(req.id.clone(), "E_PERM", "not writable")))
    } else if same_text(op, "close") && h <= 2 {
        Some(Routed::Reply(ok(req.id.clone(), ResultBody::Closed)))
    } else {
        None
    }
}

/// The multiplexer's state.
pub struct Mux {
    children: Vec<MuxChild>,
    upstream_buf: Vec<u8>,
    pending: TextMap<Pending>,
    req_seq: u64,
}

impl View for Mux {
    type V = MuxModel;

    closed spec fn view(&self) -> MuxModel {
        MuxModel {
            children: Seq::new(self.children@.len(), |i: int| self.children@[i]@),
            upstream_buf: self.upstream_buf@,
            pending: self.pending@,
            req_seq: self.req_seq,
        }
    }
}

impl Mux {
    /// The state is consistent: its model is, and so is the table of
    /// requests in flight.
    pub closed spec fn wf(&self) -> bool {
        self@.wf() && self.pending.wf()
    }

    /// A consistent multiplexer has a consistent model.
    pub proof fn wf_model(&self)
        requires
            self.wf(),
        ensures
            self@.wf(),
    {
    }

    /// A multiplexer for the stages behind `child_fds`, all alive, with
    /// nothing received and nothing in flight.
    pub fn new(child_fds: Vec<i32>) -> (m: Mux)
        ensures
            m.wf(),
            m@.children.len() == child_fds@.len(),
            forall|i: int|
                0 <= i < child_fds@.len() ==> #[trigger] m@.children[i] == (ChildView {
                    fd: child_fds@[i],
                    alive: true,
                    buf: Seq::empty(),
                }),
            m@.upstream_buf == Seq::<u8>::empty(),
            m@.pending == Map::<Seq<char>, PendingView>::empty(),
            m@.req_seq == 0,
    {
        let mut children: Vec<MuxChild> = Vec::new();
        let mut i: usize = 0;
        while i < child_fds.len()
            invariant
                i <= child_fds@.len(),
                children@.len() == i,
                forall|j: int|
                    0 <= j < i ==> (#[trigger] children@[j])@ == (ChildView {
                        fd: child_fds@[j],
                        alive: true,
                        buf: Seq::empty(),
                    }),
            decreases child_fds@.len() - i,
        {
            children.push(MuxChild { fd: child_fds[i], alive: true, buf: Vec::new() });
            i += 1;
        }
        Mux { children, upstream_buf: Vec::new(), pending: TextMap::new(), req_seq: 0 }
    }

    /// The number of requests in flight; what is left of them when the
    /// multiplexer ends was never answered.
    pub fn in_flight(&self) -> (n: usize)
        requires
            self.wf(),
        ensures
            n == self@.pending.len(),
    {
        self.pending.len()
    }

    /// Whether any stage is still alive; the multiplexer runs while one is.
    pub fn any_alive(&self) -> (r: bool)
        ensures
            r == exists|i: int| 0 <= i < self@.children.len() && (#[trigger] self@.children[i]).alive,
    {
        let mut i: usize = 0;
        while i < self.children.len()
            invariant
                i <= self.children@.len(),
                forall|j: int| 0 <= j < i ==> !(#[trigger] self@.children[j]).alive,
            decreases self.children@.len() - i,
        {
            if self.children[i].alive {
                assert(self@.children[i as int].alive);
                return true;
            }
            i += 1;
        }
        false
    }

    /// The sockets of the stages that are alive, in order: the set to poll.
    pub fn alive_fds(&self) -> (fds: Vec<i32>)
        ensures
            fds@ == self@.children.filter(|c: ChildView| c.alive).map_values(|c: ChildView| c.fd),
    {
        let mut fds: Vec<i32> = Vec::new();
        let mut i: usize = 0;
        let ghost alive = |c: ChildView| c.alive;
        let ghost fd_of = |c: ChildView| c.fd;
        proof {
            assert(self@.children.take(0) =~= Seq::<ChildView>::empty());
            assert(Seq::<ChildView>::empty().filter(alive) =~= Seq::<ChildView>::empty()) by {
                reveal(Seq::filter);
            }
        }
        while i < self.children.len()
            invariant
                i <= self.children@.len(),
                self@.children.len() == self.children@.len(),
                fds@ == self@.children.take(i as int).filter(alive).map_values(fd_of),
                alive == |c: ChildView| c.alive,
                fd_of == |c: ChildView| c.fd,
            decreases self.children@.len() - i,
        {
            proof {
                let prefix = self@.children.take(i as int);
                let next = self@.children.take(i as int + 1);
                assert(next =~= prefix.push(self@.children[i as int]));
                assert(next.drop_last() =~= prefix);
                reveal(Seq::filter);
                if self@.children[i as int].alive {
                    assert(next.filter(alive).map_values(fd_of) =~= prefix.filter(alive).map_values(
                        fd_of,
                    ).push(self@.children[i as int].fd));
                }
            }
            if self.children[i].alive {
                fds.push(self.children[i].fd);
            }
            i += 1;
        }
        assert(self@.children.take(i as int) =~= self@.children);
        fds
    }

    /// Position of the first alive stage with socket `fd`.
    fn find_alive(&self, fd: i32) -> (r: Option<usize>)
        ensures
            match r {
                Some(i) => self@.first_alive(fd, i as int),
                None => !self@.has_alive(fd),
            },
    {
        let mut i: usize = 0;
        while i < self.children.len()
            invariant
                i <= self.children@.len(),
                forall|j: int|
                    0 <= j < i ==> !((#[trigger] self@.children[j]).fd == fd
                        && self@.children[j].alive),
            decreases self.children@.len() - i,
        {
            if self.children[i].fd == fd && self.children[i].alive {
                return Some(i);
            }
            i += 1;
        }
        None
    }

    /// Notes that the stage behind `fd` is gone: its socket was closed,
    /// hung up, or could not be written. Requests of that stage that are
    /// still in flight stay so until their responses arrive and are dropped.
    pub fn child_gone(&mut self, fd: i32)
        requires
            old(self).wf(),
        ensures
            final(self).wf(),
            !old(self)@.has_alive(fd) ==> final(self)@ == old(self)@,
            forall|i: int| #[trigger]
                old(self)@.first_alive(fd, i) ==> final(self)@ == (MuxModel {
                    children: old(self)@.children.update(
                        i,
                        ChildView { alive: false, ..old(self)@.children[i] },
                    ),
                    ..old(self)@
                }),
    {
        match self.find_alive(fd) {
            None => {},
            Some(i) => {
                let buf = slice_to_vec(self.children[i].buf.as_slice());
                self.children.set(i, MuxChild { fd, alive: false, buf });
                assert forall|k: Seq<char>| #[trigger] self@.pending.contains_key(k) implies exists|
                    n: nat,
                |
                    1 <= n <= self.req_seq && #[trigger] spec_decimal(n) == k by {
                    assert(old(self)@.pending.contains_key(k));
                }
                assert(self@.children =~= old(self)@.children.update(
                    i as int,
                    ChildView { alive: false, ..old(self)@.children[i as int] },
                ));
            },
        }
    }

    /// Takes in bytes that arrived from the stage behind `fd` and hands
    /// out the requests that are now complete, in the order in which they
    /// were sent. Bytes for a socket with no alive stage are dropped.
    pub fn child_bytes(&mut self, fd: i32, bytes: &[u8]) -> (frames: Vec<Vec<u8>>)
        requires
            old(self).wf(),
        ensures
            final(self).wf(),
            !old(self)@.has_alive(fd) ==> final(self)@ == old(self)@ && frames@.len() == 0,
            forall|i: int| #[trigger]
                old(self)@.first_alive(fd, i) ==> {
                    let all = old(self)@.children[i].buf + bytes@;
                    &&& final(self)@ == (MuxModel {
                        children: old(self)@.children.update(
                            i,
                            ChildView { buf: leftover(all), ..old(self)@.children[i] },
                        ),
                        ..old(self)@
                    })
                    &&& frames@.len() == complete_frames(all).len()
                    &&& forall|k: int|
                        0 <= k < frames@.len() ==> (#[trigger] frames@[k])@ == complete_frames(
                            all,
                        )[k]
                },
    {
        match self.find_alive(fd) {
            None => Vec::new(),
            Some(i) => {
                let mut buf = slice_to_vec(self.children[i].buf.as_slice());
                let mut fresh = slice_to_vec(bytes);
                buf.append(&mut fresh);
                let frames = take_frames(&mut buf);
                self.children.set(i, MuxChild { fd, alive: true, buf });
                assert forall|k: Seq<char>| #[trigger] self@.pending.contains_key(k) implies exists|
                    n: nat,
                |
                    1 <= n <= self.req_seq && #[trigger] spec_decimal(n) == k by {
                    assert(old(self)@.pending.contains_key(k));
                }
                assert(self@.children =~= old(self)@.children.update(
                    i as int,
                    ChildView {
                        buf: leftover(old(self)@.children[i as int].buf + bytes@),
                        ..old(self)@.children[i as int]
                    },
                ));
                frames
            },
        }
    }

    /// Takes in bytes that arrived from the broker and hands out the
    /// responses that are now complete, in the order in which they were
    /// sent.
    pub fn upstream_bytes(&mut self, bytes: &[u8]) -> (frames: Vec<Vec<u8>>)
        requires
            old(self).wf(),
        ensures
            final(self).wf(),
            final(self)@ == (MuxModel {
                upstream_buf: leftover(old(self)@.upstream_buf + bytes@),
                ..old(self)@
            }),
            frames@.len() == complete_frames(old(self)@.upstream_buf + bytes@).len(),
            forall|k: int|
                0 <= k < frames@.len() ==> (#[trigger] frames@[k])@ == complete_frames(
                    old(self)@.upstream_buf + bytes@,
                )[k],
    {
        let mut fresh = slice_to_vec(bytes);
        self.upstream_buf.append(&mut fresh);
        let frames = take_frames(&mut self.upstream_buf);
        assert(self@.children =~= old(self)@.children);
        frames
    }

    /// Routes one request of the stage behind `fd`.
    ///
    /// A request for a reserved handle is answered here. Every other
    /// request gets the next upstream token, is noted as in flight, and is
    /// to be forwarded under that token.
    pub fn route_request(&mut self, fd: i32, req: &Request) -> (routed: Routed)
        requires
            old(self).wf(),
        ensures
            final(self).wf(),
            routed@ == spec_route_request(old(self)@, fd, req@).0,
            final(self)@ == spec_route_request(old(self)@, fd, req@).1,
            routed matches Routed::Reply(resp) ==> resp.wf(),
    {
        match route_local(req) {
            Some(local) => local,
            None => {
                if self.req_seq == u64::MAX {
                    return Routed::Reply(err(req.id.clone(), "E_IO", "no token left"));
                }
                self.req_seq = self.req_seq + 1;
                let token = decimal(self.req_seq);
                self.pending.insert(
                    token.as_str(),
                    Pending { child_fd: fd, child_id: req.id.clone() },
                );
                proof {
                    assert(self@.children =~= old(self)@.children);
                    assert forall|k: Seq<char>| #[trigger] self@.pending.contains_key(k) implies exists|
                        n: nat,
                    |
                        1 <= n <= self.req_seq && #[trigger] spec_decimal(n) == k by {
                        if k == token@ {
                            assert(spec_decimal(self.req_seq as nat) == k);
                        } else {
                            assert(old(self)@.pending.contains_key(k));
                            let n = choose|n: nat|
                                1 <= n <= old(self).req_seq && #[trigger] spec_decimal(n) == k;
                            assert(spec_decimal(n) == k);
                        }
                    }
                }
                Routed::Forward(with_id(req, token))
            },
        }
    }

    /// Routes one response of the broker: to the stage whose request it
    /// answers, under the token that the request had there.
    pub fn route_response(&mut self, resp: Response) -> (r: Option<(i32, Response)>)
        requires
            old(self).wf(),
        ensures
            final(self).wf(),
            match r {
                Some((fd, out)) => spec_route_response(old(self)@, resp@).0 == Some((fd, out@)),
                None => spec_route_response(old(self)@, resp@).0 is None,
            },
            final(self)@ == spec_route_response(old(self)@, resp@).1,
            r matches Some((_, out)) ==> (out.wf() <==> resp.wf()),
    {
        let found = self.pending.remove(resp.id.as_str());
        proof {
            assert(self@.children =~= old(self)@.children);
            assert(found is None ==> self@.pending =~= old(self)@.pending);
            assert forall|k: Seq<char>| #[trigger] self@.pending.contains_key(k) implies exists|
                n: nat,
            |
                1 <= n <= self.req_seq && #[trigger] spec_decimal(n) == k by {
                assert(old(self)@.pending.contains_key(k));
            }
        }
        match found {
            None => None,
            Some(p) => {
                match self.find_alive(p.child_fd) {
                    None => None,
                    Some(_) => {
                        let out = Response {
                            id: p.child_id,
                            ok: resp.ok,
                            result: resp.result,
                            error: resp.error,
                        };
                        Some((p.child_fd, out))
                    },
                }
            },
        }
    }
}

} // verus!
