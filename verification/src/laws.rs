//! What holds of the broker and of the multiplexer whatever requests they
//! are given, stated over their models.

use vstd::prelude::*;
use crate::broker::{
    handle_of, spec_handle, spec_mode_flags, spec_open_done, spec_read_done,
    spec_write_done, BrokerModel, OpenOutcome, OpenPlanView, StepView,
};
use crate::encoding::base64_decoded;
use crate::message::{err_view, ok_view, RequestView, ResponseView, ResultView};
use crate::mux::{
    request_handle, spec_local, spec_route_request, spec_route_response, MuxModel, PendingView,
    RoutedView,
};
use crate::text::{decimal_is_injective, spec_decimal};

verus! {

/// The names of the operations begin with different characters.
pub proof fn operation_names_differ()
    ensures
        "ping"@.len() == 4 && "ping"@[0] == 'p',
        "open"@.len() == 4 && "open"@[0] == 'o',
        "read"@.len() == 4 && "read"@[0] == 'r',
        "write"@.len() == 5 && "write"@[0] == 'w',
        "close"@.len() == 5 && "close"@[0] == 'c',
{
    reveal_strlit("ping");
    reveal_strlit("open");
    reveal_strlit("read");
    reveal_strlit("write");
    reveal_strlit("close");
}

/// The four modes are four different texts.
pub proof fn mode_names_differ()
    ensures
        "r"@.len() == 1 && "r"@[0] == 'r',
        "w"@.len() == 1 && "w"@[0] == 'w',
        "a"@.len() == 1 && "a"@[0] == 'a',
        "rw"@.len() == 2,
{
    reveal_strlit("r");
    reveal_strlit("w");
    reveal_strlit("a");
    reveal_strlit("rw");
}

/// The token of the response, or of the file operation, that a step asks
/// for.
pub open spec fn step_token(step: StepView) -> Seq<char> {
    match step {
        StepView::Reply(r) => r.id,
        StepView::Open { id, .. } => id,
        StepView::Read { id, .. } => id,
        StepView::Write { id, .. } => id,
        StepView::Close { response, .. } => response.id,
    }
}

/// The broker answers each request under the token of that request: the
/// step it decides on carries it, and so does the response that ends a
/// file operation.
pub proof fn broker_keeps_token(
    m: BrokerModel,
    req: RequestView,
    plan: OpenPlanView,
    handle: u32,
    opened: OpenOutcome,
    read: Option<Seq<u8>>,
    written: Option<u64>,
)
    ensures
        step_token(spec_handle(m, req).0) == req.id,
        spec_open_done(m, req.id, plan, opened).0.id == req.id,
        spec_read_done(m, req.id, handle, read).0.id == req.id,
        spec_write_done(m, req.id, handle, written).0.id == req.id,
{
}

/// What the broker's caller met while it carried out the file operation of
/// one step: how an open ended, what a read gave, what a write took.
pub struct IoView {
    pub opened: OpenOutcome,
    pub read: Option<Seq<u8>>,
    pub written: Option<u64>,
}

/// The response to one request, and the broker after it, where the file
/// operation that the request asked for went as `io` says.
pub open spec fn spec_respond(m: BrokerModel, req: RequestView, io: IoView) -> (
    ResponseView,
    BrokerModel,
) {
    let (step, after) = spec_handle(m, req);
    match step {
        StepView::Reply(r) => (r, after),
        StepView::Close { response, .. } => (response, after),
        StepView::Open { id, plan } => spec_open_done(after, id, plan, io.opened),
        StepView::Read { id, handle, .. } => spec_read_done(after, id, handle, io.read),
        StepView::Write { id, handle, .. } => spec_write_done(after, id, handle, io.written),
    }
}

/// The responses to a sequence of requests served one after the other.
pub open spec fn spec_serve(m: BrokerModel, reqs: Seq<RequestView>, ios: Seq<IoView>) -> Seq<
    ResponseView,
>
    decreases reqs.len(),
{
    if reqs.len() == 0 || ios.len() != reqs.len() {
        Seq::empty()
    } else {
        let (first, after) = spec_respond(m, reqs[0], ios[0]);
        seq![first] + spec_serve(after, reqs.drop_first(), ios.drop_first())
    }
}

/// On one connection the responses come in the order of the requests: the
/// broker gives one response for each request, under the token of that
/// request, however the file operations went.
pub proof fn responses_follow_requests(m: BrokerModel, reqs: Seq<RequestView>, ios: Seq<IoView>)
    requires
        ios.len() == reqs.len(),
    ensures
        spec_serve(m, reqs, ios).len() == reqs.len(),
        forall|i: int|
            0 <= i < reqs.len() ==> (#[trigger] spec_serve(m, reqs, ios)[i]).id == reqs[i].id,
    decreases reqs.len(),
{
    if reqs.len() > 0 {
        let (first, after) = spec_respond(m, reqs[0], ios[0]);
        let rest = spec_serve(after, reqs.drop_first(), ios.drop_first());
        responses_follow_requests(after, reqs.drop_first(), ios.drop_first());
        assert(first.id == reqs[0].id);
        assert forall|i: int| 0 <= i < reqs.len() implies (#[trigger] spec_serve(m, reqs, ios)[i]).id
            == reqs[i].id by {
            if i > 0 {
                assert(spec_serve(m, reqs, ios)[i] == rest[i - 1]);
                assert(reqs.drop_first()[i - 1] == reqs[i]);
            }
        }
    }
}

/// The broker's state stays consistent, and the handles it has issued stay
/// below its counter, which never goes back.
pub proof fn broker_stays_consistent(
    m: BrokerModel,
    req: RequestView,
    plan: OpenPlanView,
    outcome: OpenOutcome,
    io: IoView,
)
    requires
        m.wf(),
        plan.flags.kind(plan.backing).wf(),
    ensures
        spec_handle(m, req).1.wf(),
        spec_handle(m, req).1.next == m.next,
        spec_open_done(m, req.id, plan, outcome).1.wf(),
        spec_open_done(m, req.id, plan, outcome).1.next >= m.next,
        spec_handle(m, req).1.allow_read == m.allow_read,
        spec_handle(m, req).1.allow_write == m.allow_write,
        spec_respond(m, req, io).1.wf(),
        spec_respond(m, req, io).1.next >= m.next,
{
    let served = spec_respond(m, req, io).1;
    assert forall|h: u32| #[trigger] served.handles.contains_key(h) implies 3 <= h < served.next
        && served.handles[h].wf() by {
        if h != m.next {
            assert(m.handles.contains_key(h));
        }
    }
    assert forall|p: Seq<char>| #[trigger] served.virtual_files.contains_key(p) implies served.virtual_files[p]
        < served.next_backing by {
        if m.virtual_files.contains_key(p) {
        }
    }
    let after = spec_handle(m, req).1;
    assert forall|p: Seq<char>| #[trigger] after.virtual_files.contains_key(p) implies after.virtual_files[p]
        < after.next_backing by {
        if after.virtual_files != m.virtual_files {
            if m.virtual_files.contains_key(p) {
            }
        }
    }
    assert forall|h: u32| #[trigger] after.handles.contains_key(h) implies 3 <= h < after.next
        && after.handles[h].wf() by {
        assert(m.handles.contains_key(h));
    }
    let opened = spec_open_done(m, req.id, plan, outcome).1;
    assert forall|h: u32| #[trigger] opened.handles.contains_key(h) implies 3 <= h < opened.next
        && opened.handles[h].wf() by {
        if h != m.next {
            assert(m.handles.contains_key(h));
        }
    }
}

/// The protocol has five operations; a request that names any other is
/// answered with `E_UNSUPPORTED` and the name it gave, and changes nothing.
pub proof fn unknown_operation_is_unsupported(m: BrokerModel, req: RequestView)
    requires
        req.op != "ping"@,
        req.op != "open"@,
        req.op != "read"@,
        req.op != "write"@,
        req.op != "close"@,
    ensures
        spec_handle(m, req) == (StepView::Reply(err_view(req.id, "E_UNSUPPORTED"@, req.op)), m),
{
}

/// Whether a mode opens a handle that writes.
pub open spec fn writing_mode(mode: Seq<char>) -> bool {
    mode == "w"@ || mode == "a"@ || mode == "rw"@
}

/// A path of the real filesystem is opened for writing only where it is
/// on the write list: `w`, `a` and `rw` on a path that is on the read list
/// alone fail with `E_PERM` and change nothing, and `r` is served for a
/// path of either list.
pub proof fn write_needs_write_list(m: BrokerModel, req: RequestView)
    requires
        req.op == "open"@,
        req.params.path is Some,
        req.params.mode is Some,
        m.is_real(req.params.path->Some_0),
    ensures
        writing_mode(req.params.mode->Some_0) && !m.allow_write.contains(req.params.path->Some_0)
            ==> spec_handle(m, req) == (
            StepView::Reply(err_view(req.id, "E_PERM"@, "path is not on the write list"@)),
            m,
        ),
        (req.params.mode->Some_0 == "r"@ || (writing_mode(req.params.mode->Some_0)
            && m.allow_write.contains(req.params.path->Some_0))) ==> spec_handle(m, req) == (
            StepView::Open {
                id: req.id,
                plan: OpenPlanView {
                    path: req.params.path->Some_0,
                    backing: None,
                    fresh: false,
                    flags: spec_mode_flags(req.params.mode->Some_0)->Some_0,
                },
            },
            m,
        ),
{
    operation_names_differ();
    mode_names_differ();
}

/// A `read`, `write` or `close` whose `h` is missing or is no 32-bit
/// number fails with `E_ARG`, and so does a `read` without `max`; none of
/// them changes anything.
pub proof fn missing_parameter_is_arg(m: BrokerModel, req: RequestView)
    requires
        req.op == "read"@ || req.op == "write"@ || req.op == "close"@,
        handle_of(req.params.h) is None || (req.op == "read"@ && req.params.max is None),
    ensures
        spec_handle(m, req).0 matches StepView::Reply(r) && !r.ok && r.error is Some
            && r.error->Some_0.code == "E_ARG"@,
        spec_handle(m, req).1 == m,
        req.params.h is Some && req.params.h->Some_0 > u32::MAX ==> handle_of(req.params.h) is None,
{
    operation_names_differ();
}

/// Opening a path that is on no allowlist for reading, before anything
/// gave it a backing, fails with `E_NOENT` and changes nothing.
pub proof fn unlisted_read_open_is_noent(m: BrokerModel, req: RequestView)
    requires
        req.op == "open"@,
        req.params.path is Some,
        req.params.mode == Some("r"@),
        !m.is_real(req.params.path->Some_0),
        !m.virtual_files.contains_key(req.params.path->Some_0),
    ensures
        spec_handle(m, req) == (
            StepView::Reply(err_view(req.id, "E_NOENT"@, "virtual not found"@)),
            m,
        ),
{
    operation_names_differ();
}

/// A `read` on an open handle that is not readable fails with `E_PERM`,
/// and so does a `write` on an open handle that is not writable.
pub proof fn wrong_direction_is_perm(m: BrokerModel, req: RequestView)
    requires
        handle_of(req.params.h) is Some,
        handle_of(req.params.h)->Some_0 > 2,
        m.handles.contains_key(handle_of(req.params.h)->Some_0),
    ensures
        req.op == "read"@ && req.params.max is Some && req.params.max != Some(0u64) && !m.handles[handle_of(req.params.h)->Some_0].readable ==> spec_handle(m, req) == (
            StepView::Reply(err_view(req.id, "E_PERM"@, "not readable"@)),
            m,
        ),
        req.op == "write"@ && req.params.data is Some && !m.handles[handle_of(req.params.h)->Some_0].writable ==> spec_handle(m, req) == (
            StepView::Reply(err_view(req.id, "E_PERM"@, "not writable"@)),
            m,
        ),
{
    operation_names_differ();
}

/// A handle opened for writing only or for appending cannot be read, and
/// one opened for reading only cannot be written.
pub proof fn modes_limit_handles()
    ensures
        !spec_mode_flags("w"@)->Some_0.readable,
        !spec_mode_flags("a"@)->Some_0.readable,
        !spec_mode_flags("r"@)->Some_0.writable,
        spec_mode_flags("rw"@)->Some_0.readable && spec_mode_flags("rw"@)->Some_0.writable,
        spec_mode_flags("a"@)->Some_0.append,
{
    mode_names_differ();
}

/// A `read` that asks for no bytes fails with `E_ARG`, whatever handle it
/// names.
pub proof fn read_of_nothing_is_arg(m: BrokerModel, req: RequestView)
    requires
        req.op == "read"@,
        req.params.max == Some(0u64),
    ensures
        spec_handle(m, req).0 matches StepView::Reply(r) && !r.ok && r.error is Some
            && r.error->Some_0.code == "E_ARG"@,
        spec_handle(m, req).1 == m,
{
    operation_names_differ();
}

/// Closing an open handle retires it.
pub proof fn close_retires(m: BrokerModel, req: RequestView)
    requires
        m.wf(),
        req.op == "close"@,
        handle_of(req.params.h) is Some,
        m.handles.contains_key(handle_of(req.params.h)->Some_0),
    ensures
        spec_handle(m, req).0 == (StepView::Close {
            handle: handle_of(req.params.h)->Some_0,
            response: ok_view(req.id, ResultView::Closed),
        }),
        spec_handle(m, req).1.retired(handle_of(req.params.h)->Some_0),
{
    operation_names_differ();
}

/// A retired handle stays retired: no request and no `open` that ends
/// brings it back, because handles are never issued twice.
pub proof fn retired_stays_retired(
    m: BrokerModel,
    h: u32,
    req: RequestView,
    plan: OpenPlanView,
    outcome: OpenOutcome,
    io: IoView,
)
    requires
        m.wf(),
        m.retired(h),
    ensures
        spec_handle(m, req).1.retired(h),
        spec_open_done(m, req.id, plan, outcome).1.retired(h),
        spec_respond(m, req, io).1.retired(h),
{
}

/// Every `read`, `write` and `close` on a retired handle fails with
/// `E_CLOSED` and changes nothing.
pub proof fn retired_handle_is_closed(m: BrokerModel, req: RequestView)
    requires
        handle_of(req.params.h) is Some,
        m.retired(handle_of(req.params.h)->Some_0),
        req.op == "read"@ ==> req.params.max is Some && req.params.max != Some(0u64),
        req.op == "write"@ ==> req.params.data is Some,
        req.op == "read"@ || req.op == "write"@ || req.op == "close"@,
    ensures
        spec_handle(m, req) == (
            StepView::Reply(err_view(req.id, "E_CLOSED"@, "invalid handle"@)),
            m,
        ),
{
    operation_names_differ();
}

/// On a virtual path that has a backing, `r`, `rw` and `a` open that
/// backing and leave it as it is, and `w` puts a new, empty backing in its
/// place, whose name no backing had before.
pub proof fn virtual_modes(m: BrokerModel, req: RequestView)
    requires
        m.wf(),
        m.next_backing < u64::MAX,
        req.op == "open"@,
        req.params.path is Some,
        req.params.mode is Some,
        !m.is_real(req.params.path->Some_0),
        m.virtual_files.contains_key(req.params.path->Some_0),
    ensures
        ({
            let path = req.params.path->Some_0;
            let mode = req.params.mode->Some_0;
            let kept = m.virtual_files[path];
            let (step, after) = spec_handle(m, req);
            &&& (mode == "rw"@ || mode == "a"@ || mode == "r"@) ==> after == m && step == (
            StepView::Open {
                id: req.id,
                plan: OpenPlanView {
                    path,
                    backing: Some(kept),
                    fresh: false,
                    flags: spec_mode_flags(mode)->Some_0,
                },
            })
            &&& mode == "w"@ ==> step == (StepView::Open {
                id: req.id,
                plan: OpenPlanView {
                    path,
                    backing: Some(m.next_backing),
                    fresh: true,
                    flags: spec_mode_flags(mode)->Some_0,
                },
            }) && after.virtual_files == m.virtual_files.insert(path, m.next_backing) && forall|
                p: Seq<char>,
            | #[trigger]
                m.virtual_files.contains_key(p) ==> m.virtual_files[p] != m.next_backing
        }),
{
    operation_names_differ();
    mode_names_differ();
}

/// On a virtual path without a backing, `w`, `a` and `rw` create one.
pub proof fn virtual_first_open(m: BrokerModel, req: RequestView)
    requires
        m.next_backing < u64::MAX,
        req.op == "open"@,
        req.params.path is Some,
        req.params.mode is Some,
        spec_mode_flags(req.params.mode->Some_0) is Some,
        req.params.mode->Some_0 != "r"@,
        !m.is_real(req.params.path->Some_0),
        !m.virtual_files.contains_key(req.params.path->Some_0),
    ensures
        spec_handle(m, req).0 == (StepView::Open {
            id: req.id,
            plan: OpenPlanView {
                path: req.params.path->Some_0,
                backing: Some(m.next_backing),
                fresh: true,
                flags: spec_mode_flags(req.params.mode->Some_0)->Some_0,
            },
        }),
        spec_handle(m, req).1.virtual_files == m.virtual_files.insert(
            req.params.path->Some_0,
            m.next_backing,
        ),
{
    operation_names_differ();
    mode_names_differ();
}

/// A request for a reserved handle is answered by the multiplexer itself:
/// it is never forwarded, nothing is noted as in flight, and closing a
/// reserved handle always succeeds.
pub proof fn reserved_requests_stay_local(m: MuxModel, fd: i32, req: RequestView)
    requires
        (req.op == "read"@ && request_handle(req) <= 2) || (req.op == "write"@ && request_handle(
            req,
        ) <= 2) || (req.op == "close"@ && request_handle(req) <= 2),
    ensures
        !(spec_route_request(m, fd, req).0 is Forward),
        spec_route_request(m, fd, req).1 == m,
        req.op == "close"@ ==> spec_route_request(m, fd, req).0 == RoutedView::Reply(
            ok_view(req.id, ResultView::Closed),
        ),
        req.op == "write"@ && request_handle(req) == 0 ==> spec_route_request(m, fd, req).0
            == RoutedView::Reply(err_view(req.id, "E_PERM"@, "not writable"@)),
        req.op == "read"@ && request_handle(req) == 0 && req.params.max is Some && req.params.max
            != Some(0u64) ==> spec_route_request(m, fd, req).0 is ReadStdin,
        req.op == "read"@ && request_handle(req) != 0 && req.params.max is Some && req.params.max
            != Some(0u64) ==> spec_route_request(m, fd, req).0 == RoutedView::Reply(
            err_view(req.id, "E_PERM"@, "not readable"@),
        ),
        req.op == "read"@ && req.params.max == Some(0u64) ==> spec_route_request(m, fd, req).0
            == RoutedView::Reply(err_view(req.id, "E_ARG"@, "max must be > 0"@)),
        req.op == "read"@ && req.params.max is None ==> spec_route_request(m, fd, req).0
            == RoutedView::Reply(err_view(req.id, "E_ARG"@, "missing max"@)),
        req.op == "write"@ && request_handle(req) != 0 && req.params.data is Some
            && base64_decoded(req.params.data->Some_0) is Some ==> spec_route_request(
            m,
            fd,
            req,
        ).0 == (RoutedView::WriteStd {
            id: req.id,
            handle: request_handle(req),
            data: base64_decoded(req.params.data->Some_0)->Some_0,
        }),
        req.op == "write"@ && request_handle(req) != 0 && (req.params.data is None
            || base64_decoded(req.params.data->Some_0) is None) ==> spec_route_request(
            m,
            fd,
            req,
        ).0 is Reply && !spec_route_request(m, fd, req).0->Reply_0.ok && spec_route_request(
            m,
            fd,
            req,
        ).0->Reply_0.error == Some(
            crate::message::ErrorView {
                code: "E_ARG"@,
                message: if req.params.data is None {
                    "missing data"@
                } else {
                    "bad base64"@
                },
            },
        ),
{
    operation_names_differ();
}

/// The token under which a request is forwarded names no other request in
/// flight.
pub proof fn upstream_token_is_new(m: MuxModel, fd: i32, req: RequestView)
    requires
        m.wf(),
        spec_route_request(m, fd, req).0 is Forward,
    ensures
        !m.pending.contains_key(spec_route_request(m, fd, req).0->Forward_0.id),
        spec_route_request(m, fd, req).0->Forward_0 == (RequestView {
            id: spec_decimal((m.req_seq + 1) as nat),
            ..req
        }),
{
    let token = spec_decimal((m.req_seq + 1) as nat);
    if m.pending.contains_key(token) {
        let n = choose|n: nat| 1 <= n <= m.req_seq && #[trigger] spec_decimal(n) == token;
        decimal_is_injective(n, (m.req_seq + 1) as nat);
    }
}

/// The response to a forwarded request goes back to the stage that sent
/// the request, under the token that the request had there, and with
/// nothing else changed; after that the request is no longer in flight.
/// Requests of other stages that are in flight stay so.
pub proof fn response_returns_to_sender(
    m: MuxModel,
    fd: i32,
    req: RequestView,
    resp: ResponseView,
)
    requires
        m.wf(),
        m.has_alive(fd),
        spec_route_request(m, fd, req).0 is Forward,
        resp.id == spec_route_request(m, fd, req).0->Forward_0.id,
    ensures
        ({
            let sent = spec_route_request(m, fd, req).1;
            let (out, after) = spec_route_response(sent, resp);
            &&& out == Some((fd, ResponseView { id: req.id, ..resp }))
            &&& after.pending == m.pending
            &&& after.req_seq == m.req_seq + 1
            &&& after.wf()
        }),
{
    upstream_token_is_new(m, fd, req);
    let sent = spec_route_request(m, fd, req).1;
    let after = spec_route_response(sent, resp).1;
    assert(after.pending =~= m.pending);
    assert forall|k: Seq<char>| #[trigger] after.pending.contains_key(k) implies exists|n: nat|
        1 <= n <= after.req_seq && #[trigger] spec_decimal(n) == k by {
        let n = choose|n: nat| 1 <= n <= m.req_seq && #[trigger] spec_decimal(n) == k;
        assert(spec_decimal(n) == k);
    }
}

/// The broker answers a request in the same way under any token: only
/// the token of the response differs, and the broker is left in the same
/// state.
pub proof fn token_does_not_matter(b: BrokerModel, req: RequestView, token: Seq<char>, io: IoView)
    ensures
        spec_respond(b, RequestView { id: token, ..req }, io).0 == (ResponseView {
            id: token,
            ..spec_respond(b, req, io).0
        }),
        spec_respond(b, RequestView { id: token, ..req }, io).1 == spec_respond(b, req, io).1,
{
}

/// The multiplexer is transparent: the stage that sent a request gets the
/// response that the broker would have given to that request had it come
/// directly, the broker is left as it would have been, and nothing stays
/// in flight.
pub proof fn multiplexer_is_transparent(
    m: MuxModel,
    b: BrokerModel,
    fd: i32,
    req: RequestView,
    io: IoView,
)
    requires
        m.wf(),
        m.has_alive(fd),
        spec_route_request(m, fd, req).0 is Forward,
    ensures
        ({
            let (routed, sent) = spec_route_request(m, fd, req);
            let (answer, served) = spec_respond(b, routed->Forward_0, io);
            let (out, after) = spec_route_response(sent, answer);
            &&& out == Some((fd, spec_respond(b, req, io).0))
            &&& served == spec_respond(b, req, io).1
            &&& after.pending == m.pending
        }),
{
    let (routed, sent) = spec_route_request(m, fd, req);
    let up = routed->Forward_0;
    upstream_token_is_new(m, fd, req);
    token_does_not_matter(b, req, up.id, io);
    assert(up == RequestView { id: up.id, ..req });
    let answer = spec_respond(b, up, io).0;
    assert(answer.id == up.id);
    assert(spec_respond(b, req, io).0.id == req.id) by {
        broker_keeps_token(b, req, arbitrary(), arbitrary(), io.opened, io.read, io.written);
        let step = spec_handle(b, req).0;
        assert(step_token(step) == req.id);
    }
    response_returns_to_sender(m, fd, req, answer);
}

/// A response that answers no request in flight is dropped and changes
/// nothing.
pub proof fn unknown_response_is_dropped(m: MuxModel, resp: ResponseView)
    requires
        !m.pending.contains_key(resp.id),
    ensures
        spec_route_response(m, resp) == (None::<(i32, ResponseView)>, m),
{
}

/// The response to a request of a stage that is gone is dropped, and the
/// request is no longer in flight.
pub proof fn orphan_response_is_dropped(m: MuxModel, resp: ResponseView)
    requires
        m.pending.contains_key(resp.id),
        !m.has_alive(m.pending[resp.id].child_fd),
    ensures
        spec_route_response(m, resp).0 is None,
        spec_route_response(m, resp).1.pending == m.pending.remove(resp.id),
{
}

/// One request as it arrives at the multiplexer: the socket of the stage
/// that sent it, and the request.
pub struct Sent {
    pub fd: i32,
    pub req: RequestView,
}

/// What happens with a sequence of requests that arrive one after the
/// other, and the multiplexer after them.
pub open spec fn route_all(m: MuxModel, sent: Seq<Sent>) -> (Seq<RoutedView>, MuxModel)
    decreases sent.len(),
{
    if sent.len() == 0 {
        (Seq::empty(), m)
    } else {
        let (routed, mid) = route_all(m, sent.drop_last());
        let (r, after) = spec_route_request(mid, sent.last().fd, sent.last().req);
        (routed.push(r), after)
    }
}

/// Where a sequence of responses of the broker goes that arrive one after
/// the other, and the multiplexer after them.
pub open spec fn deliver_all(m: MuxModel, answers: Seq<ResponseView>) -> (
    Seq<Option<(i32, ResponseView)>>,
    MuxModel,
)
    decreases answers.len(),
{
    if answers.len() == 0 {
        (Seq::empty(), m)
    } else {
        let (outs, mid) = deliver_all(m, answers.drop_last());
        let (out, after) = spec_route_response(mid, answers.last());
        (outs.push(out), after)
    }
}

/// The token under which request `j` goes upstream, counted from the
/// requests forwarded before.
pub open spec fn token(base: u64, j: int) -> Seq<char> {
    spec_decimal((base + 1 + j) as nat)
}

/// The table of requests in flight with the first `n` requests noted.
pub open spec fn noted(p: Map<Seq<char>, PendingView>, base: u64, sent: Seq<Sent>, n: int) -> Map<
    Seq<char>,
    PendingView,
>
    decreases n,
{
    if n <= 0 {
        p
    } else {
        noted(p, base, sent, n - 1).insert(
            token(base, n - 1),
            PendingView { child_fd: sent[n - 1].fd, child_id: sent[n - 1].req.id },
        )
    }
}

/// The table of requests in flight with the first `n` requests answered.
pub open spec fn answered(p: Map<Seq<char>, PendingView>, base: u64, n: int) -> Map<
    Seq<char>,
    PendingView,
>
    decreases n,
{
    if n <= 0 {
        p
    } else {
        answered(p, base, n - 1).remove(token(base, n - 1))
    }
}

/// Different requests go upstream under different tokens.
pub proof fn tokens_differ(base: u64, i: int, j: int)
    requires
        0 <= i,
        0 <= j,
        i != j,
    ensures
        token(base, i) != token(base, j),
{
    if token(base, i) == token(base, j) {
        decimal_is_injective((base + 1 + i) as nat, (base + 1 + j) as nat);
    }
}

/// What noting requests does to one key of the table: a key that is no
/// token of theirs is kept as it was, and the token of a request holds
/// the stage and the token of that request.
pub proof fn noted_key(
    p: Map<Seq<char>, PendingView>,
    base: u64,
    sent: Seq<Sent>,
    n: int,
    key: Seq<char>,
)
    requires
        0 <= n <= sent.len(),
    ensures
        (forall|j: int| 0 <= j < n ==> key != token(base, j)) ==> (noted(
            p,
            base,
            sent,
            n,
        ).contains_key(key) == p.contains_key(key) && (p.contains_key(key) ==> noted(
            p,
            base,
            sent,
            n,
        )[key] == p[key])),
        forall|j: int|
            0 <= j < n && key == token(base, j) ==> noted(p, base, sent, n).contains_key(key)
                && noted(p, base, sent, n)[key] == (PendingView {
                child_fd: sent[j].fd,
                child_id: sent[j].req.id,
            }),
    decreases n,
{
    if n > 0 {
        noted_key(p, base, sent, n - 1, key);
        assert forall|j: int| 0 <= j < n && key == token(base, j) implies noted(
            p,
            base,
            sent,
            n,
        ).contains_key(key) && noted(p, base, sent, n)[key] == (PendingView {
            child_fd: sent[j].fd,
            child_id: sent[j].req.id,
        }) by {
            if j < n - 1 {
                tokens_differ(base, j, n - 1);
            }
        }
    }
}

/// What answering requests does to one key of the table: a key that is no
/// token of theirs is kept as it was, and their tokens are gone.
pub proof fn answered_key(p: Map<Seq<char>, PendingView>, base: u64, n: int, key: Seq<char>)
    requires
        0 <= n,
    ensures
        (forall|j: int| 0 <= j < n ==> key != token(base, j)) ==> (answered(
            p,
            base,
            n,
        ).contains_key(key) == p.contains_key(key) && (p.contains_key(key) ==> answered(
            p,
            base,
            n,
        )[key] == p[key])),
        forall|j: int| 0 <= j < n && key == token(base, j) ==> !answered(p, base, n).contains_key(key),
    decreases n,
{
    if n > 0 {
        answered_key(p, base, n - 1, key);
    }
}

/// Requests that are forwarded go upstream in the order in which they
/// arrived, each under the next token and otherwise unchanged, and each
/// is noted with its stage and its own token.
pub proof fn requests_keep_order(m: MuxModel, sent: Seq<Sent>)
    requires
        m.wf(),
        m.req_seq + sent.len() <= u64::MAX,
        forall|i: int| 0 <= i < sent.len() ==> spec_local((#[trigger] sent[i]).req) is None,
    ensures
        ({
            let (routed, after) = route_all(m, sent);
            &&& routed.len() == sent.len()
            &&& forall|i: int|
                0 <= i < sent.len() ==> #[trigger] routed[i] == RoutedView::Forward(
                    RequestView { id: token(m.req_seq, i), ..sent[i].req },
                )
            &&& after == (MuxModel {
                pending: noted(m.pending, m.req_seq, sent, sent.len() as int),
                req_seq: (m.req_seq + sent.len()) as u64,
                ..m
            })
        }),
    decreases sent.len(),
{
    if sent.len() > 0 {
        let front = sent.drop_last();
        requests_keep_order(m, front);
        let (routed, mid) = route_all(m, front);
        assert(spec_local(sent[sent.len() - 1].req) is None);
        assert forall|i: int| 0 <= i < front.len() implies spec_local((#[trigger] front[i]).req)
            is None by {
            assert(front[i] == sent[i]);
        }
        assert(noted(m.pending, m.req_seq, front, front.len() as int) == noted(
            m.pending,
            m.req_seq,
            sent,
            front.len() as int,
        )) by {
            noted_same(m.pending, m.req_seq, sent, front, front.len() as int);
        }
    }
}

/// Noting the first requests of a sequence does not depend on the
/// requests behind them.
pub proof fn noted_same(
    p: Map<Seq<char>, PendingView>,
    base: u64,
    a: Seq<Sent>,
    b: Seq<Sent>,
    n: int,
)
    requires
        0 <= n <= a.len(),
        n <= b.len(),
        forall|j: int| 0 <= j < n ==> a[j] == b[j],
    ensures
        noted(p, base, a, n) == noted(p, base, b, n),
    decreases n,
{
    if n > 0 {
        noted_same(p, base, a, b, n - 1);
    }
}

/// The responses to a run of forwarded requests, arriving in the order of
/// the requests, go back in that order, each to the stage that sent its
/// request and under the token that the request had there, whatever
/// stages the requests came from; after them the table of requests in
/// flight is as it was before the run.
pub proof fn responses_keep_order(m: MuxModel, sent: Seq<Sent>, answers: Seq<ResponseView>)
    requires
        m.wf(),
        m.req_seq + sent.len() <= u64::MAX,
        answers.len() == sent.len(),
        forall|i: int| 0 <= i < sent.len() ==> spec_local((#[trigger] sent[i]).req) is None,
        forall|i: int| 0 <= i < sent.len() ==> m.has_alive((#[trigger] sent[i]).fd),
        forall|i: int| 0 <= i < sent.len() ==> (#[trigger] answers[i]).id == token(m.req_seq, i),
    ensures
        ({
            let (outs, after) = deliver_all(route_all(m, sent).1, answers);
            &&& outs.len() == sent.len()
            &&& forall|i: int|
                0 <= i < sent.len() ==> #[trigger] outs[i] == Some(
                    (sent[i].fd, ResponseView { id: sent[i].req.id, ..answers[i] }),
                )
            &&& after.pending == m.pending
            &&& after.req_seq == m.req_seq + sent.len()
        }),
{
    requests_keep_order(m, sent);
    let start = route_all(m, sent).1;
    delivered_prefix(m, sent, answers, sent.len() as int);
    assert(answers.take(sent.len() as int) =~= answers);
    let after = deliver_all(start, answers).1;
    assert forall|key: Seq<char>| #[trigger]
        after.pending.contains_key(key) == m.pending.contains_key(key) && (m.pending.contains_key(
            key,
        ) ==> after.pending[key] == m.pending[key]) by {
        let k = sent.len() as int;
        noted_key(m.pending, m.req_seq, sent, k, key);
        answered_key(start.pending, m.req_seq, k, key);
        if m.pending.contains_key(key) {
            let n = choose|n: nat| 1 <= n <= m.req_seq && #[trigger] spec_decimal(n) == key;
            assert forall|j: int| 0 <= j < k implies key != token(m.req_seq, j) by {
                if key == token(m.req_seq, j) {
                    decimal_is_injective(n, (m.req_seq + 1 + j) as nat);
                }
            }
        }
    }
    assert(after.pending =~= m.pending);
}

/// Where the first `n` responses of a run go, and what is then in flight.
pub proof fn delivered_prefix(m: MuxModel, sent: Seq<Sent>, answers: Seq<ResponseView>, n: int)
    requires
        m.wf(),
        m.req_seq + sent.len() <= u64::MAX,
        answers.len() == sent.len(),
        0 <= n <= sent.len(),
        forall|i: int| 0 <= i < sent.len() ==> spec_local((#[trigger] sent[i]).req) is None,
        forall|i: int| 0 <= i < sent.len() ==> m.has_alive((#[trigger] sent[i]).fd),
        forall|i: int| 0 <= i < sent.len() ==> (#[trigger] answers[i]).id == token(m.req_seq, i),
    ensures
        ({
            let start = route_all(m, sent).1;
            let (outs, after) = deliver_all(start, answers.take(n));
            &&& outs.len() == n
            &&& forall|i: int|
                0 <= i < n ==> #[trigger] outs[i] == Some(
                    (sent[i].fd, ResponseView { id: sent[i].req.id, ..answers[i] }),
                )
            &&& after == (MuxModel { pending: answered(start.pending, m.req_seq, n), ..start })
        }),
    decreases n,
{
    requests_keep_order(m, sent);
    let start = route_all(m, sent).1;
    if n > 0 {
        delivered_prefix(m, sent, answers, n - 1);
        let front = answers.take(n - 1);
        assert(answers.take(n).drop_last() =~= front);
        assert(answers.take(n).last() == answers[n - 1]);
        let mid = deliver_all(start, front).1;
        let key = token(m.req_seq, n - 1);
        noted_key(m.pending, m.req_seq, sent, sent.len() as int, key);
        answered_key(start.pending, m.req_seq, n - 1, key);
        assert forall|j: int| 0 <= j < n - 1 implies key != token(m.req_seq, j) by {
            tokens_differ(m.req_seq, j, n - 1);
        }
        assert(mid.pending.contains_key(key));
        assert(mid.pending[key] == PendingView {
            child_fd: sent[n - 1].fd,
            child_id: sent[n - 1].req.id,
        });
        assert(mid.children == m.children);
        assert(mid.has_alive(sent[n - 1].fd));
    } else {
        assert(answers.take(0) =~= Seq::<ResponseView>::empty());
    }
}

} // verus!
