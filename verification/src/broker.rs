//! The file broker's state machine: allowlist enforcement, virtual paths
//! and the lifecycle of handles.
//!
//! The broker decides; its caller owns the files. For each request
//! [`State::handle`] either answers at once or says which file operation is
//! due, and the matching `*_done` function turns the outcome of that
//! operation into the response.

use vstd::prelude::*;
use std::collections::HashMap;
use crate::encoding::{base64_decoded, decode_payload, encode_payload, payload_text};
use crate::message::{
    err, err_view, ok, ok_view, unsupported_with, Request, RequestView, Response, ResponseView,
    ResultBody, ResultView,
};
use crate::table::TextMap;
use crate::text::{listed, same_text};

verus! {

/// Upper bound on the bytes that one `read` hands back.
pub const MAX_READ: u64 = 4096;

/// The first handle that the broker issues; smaller ids are reserved.
pub const FIRST_HANDLE: u32 = 3;

/// What an open handle may be used for, which virtual backing it reads
/// and writes (`None` for a file of the real filesystem), and where in the
/// file its next read and its next write take place. Each handle has
/// positions of its own.
#[derive(Clone, Copy, Debug, PartialEq, Eq, Structural)]
pub struct HandleKind {
    pub backing: Option<u64>,
    pub readable: bool,
    pub writable: bool,
    pub append: bool,
    pub rpos: u64,
    pub wpos: u64,
}

impl HandleKind {
    /// A handle can do something, and only a writable one appends.
    pub open spec fn wf(&self) -> bool {
        (self.readable || self.writable) && (self.append ==> self.writable)
    }
}

/// What a mode of `open` asks for.
#[derive(Clone, Copy, Debug, PartialEq, Eq, Structural)]
pub struct ModeFlags {
    pub readable: bool,
    pub writable: bool,
    pub append: bool,
    pub need_existing: bool,
    pub create: bool,
    pub truncate: bool,
}

impl ModeFlags {
    /// A handle opened with these flags: it reads and writes from the
    /// beginning of its file.
    pub open spec fn kind(&self, backing: Option<u64>) -> HandleKind {
        HandleKind {
            backing,
            readable: self.readable,
            writable: self.writable,
            append: self.append,
            rpos: 0,
            wpos: 0,
        }
    }
}

/// The flags of each of the four modes; `None` for any other text.
pub open spec fn spec_mode_flags(mode: Seq<char>) -> Option<ModeFlags> {
    if mode == "r"@ {
        Some(
            ModeFlags {
                readable: true,
                writable: false,
                append: false,
                need_existing: true,
                create: false,
                truncate: false,
            },
        )
    } else if mode == "w"@ {
        Some(
            ModeFlags {
                readable: false,
                writable: true,
                append: false,
                need_existing: false,
                create: true,
                truncate: true,
            },
        )
    } else if mode == "a"@ {
        Some(
            ModeFlags {
                readable: false,
                writable: true,
                append: true,
                need_existing: false,
                create: true,
                truncate: false,
            },
        )
    } else if mode == "rw"@ {
        Some(
            ModeFlags {
                readable: true,
                writable: true,
                append: false,
                need_existing: false,
                create: true,
                truncate: false,
            },
        )
    } else {
        None
    }
}

/// Reads a mode of `open`.
pub fn mode_flags(mode: &str) -> (r: Option<ModeFlags>)
    ensures
        r == spec_mode_flags(mode@),
        r is Some ==> r->Some_0.kind(None).wf(),
{
    if same_text(mode, "r") {
        Some(
            ModeFlags {
                readable: true,
                writable: false,
                append: false,
                need_existing: true,
                create: false,
                truncate: false,
            },
        )
    } else if same_text(mode, "w") {
        Some(
            ModeFlags {
                readable: false,
                writable: true,
                append: false,
                need_existing: false,
                create: true,
                truncate: true,
            },
        )
    } else if same_text(mode, "a") {
        Some(
            ModeFlags {
                readable: false,
                writable: true,
                append: true,
                need_existing: false,
                create: true,
                truncate: false,
            },
        )
    } else if same_text(mode, "rw") {
        Some(
            ModeFlags {
                readable: true,
                writable: true,
                append: false,
                need_existing: false,
                create: true,
                truncate: false,
            },
        )
    } else {
        None
    }
}

/// The file to open for an `open` request that passed every check.
///
/// `backing` is `None` for a path of the real filesystem, which is opened
/// as `flags` say. For a virtual path it names the anonymous backing, and
/// `fresh` says that a new, empty backing has to be created under that
/// name.
pub struct OpenPlan {
    pub path: String,
    pub backing: Option<u64>,
    pub fresh: bool,
    pub flags: ModeFlags,
}

/// Mathematical value of an [`OpenPlan`].
pub struct OpenPlanView {
    pub path: Seq<char>,
    pub backing: Option<u64>,
    pub fresh: bool,
    pub flags: ModeFlags,
}

impl View for OpenPlan {
    type V = OpenPlanView;

    open spec fn view(&self) -> OpenPlanView {
        OpenPlanView {
            path: self.path@,
            backing: self.backing,
            fresh: self.fresh,
            flags: self.flags,
        }
    }
}

/// How the attempt to open a file ended.
#[derive(Clone, Copy, Debug, PartialEq, Eq, Structural)]
pub enum OpenOutcome {
    Opened,
    NotFound,
    Failed,
}

/// What the broker's caller has to do for one request.
pub enum Step {
    /// Send this response; nothing else is due.
    Reply(Response),
    /// Open a file as the plan says, then call [`State::open_done`].
    Open { id: String, plan: OpenPlan },
    /// Read up to `max` bytes from the file of `handle`, beginning at byte
    /// `at`, then call [`State::read_done`].
    Read { id: String, handle: u32, max: usize, at: u64 },
    /// Write `data` to the file of `handle`, beginning at byte `place` or,
    /// for `None`, at the end of the file, then call [`State::write_done`].
    Write { id: String, handle: u32, data: Vec<u8>, place: Option<u64> },
    /// Release the file of `handle`, then send the response.
    Close { handle: u32, response: Response },
}

/// Mathematical value of a [`Step`].
pub enum StepView {
    Reply(ResponseView),
    Open { id: Seq<char>, plan: OpenPlanView },
    Read { id: Seq<char>, handle: u32, max: usize, at: u64 },
    Write { id: Seq<char>, handle: u32, data: Seq<u8>, place: Option<u64> },
    Close { handle: u32, response: ResponseView },
}

impl View for Step {
    type V = StepView;

    open spec fn view(&self) -> StepView {
        match self {
            Step::Reply(r) => StepView::Reply(r@),
            Step::Open { id, plan } => StepView::Open { id: id@, plan: plan@ },
            Step::Read { id, handle, max, at } => StepView::Read {
                id: id@,
                handle: *handle,
                max: *max,
                at: *at,
            },
            Step::Write { id, handle, data, place } => StepView::Write {
                id: id@,
                handle: *handle,
                data: data@,
                place: *place,
            },
            Step::Close { handle, response } => StepView::Close {
                handle: *handle,
                response: response@,
            },
        }
    }
}

/// Mathematical value of the broker's state.
pub struct BrokerModel {
    /// The next handle to issue.
    pub next: u32,
    /// The open handles.
    pub handles: Map<u32, HandleKind>,
    /// The paths that may be read from the real filesystem.
    pub allow_read: Set<Seq<char>>,
    /// The paths that may be written, and so read, on the real filesystem.
    pub allow_write: Set<Seq<char>>,
    /// The backing of each virtual path opened so far.
    pub virtual_files: Map<Seq<char>, u64>,
    /// The name of the next backing to create.
    pub next_backing: u64,
}

impl BrokerModel {
    /// Handles are issued from 3 upwards and below `next`, each can do
    /// something, and every backing in use was named before `next_backing`.
    pub open spec fn wf(&self) -> bool {
        &&& self.next >= 3
        &&& forall|h: u32| #[trigger]
            self.handles.contains_key(h) ==> 3 <= h < self.next && self.handles[h].wf()
        &&& forall|p: Seq<char>| #[trigger]
            self.virtual_files.contains_key(p) ==> self.virtual_files[p] < self.next_backing
    }

    /// A path of either list is served from the real filesystem.
    pub open spec fn is_real(&self, path: Seq<char>) -> bool {
        self.allow_read.contains(path) || self.allow_write.contains(path)
    }

    /// Handle `h` was issued and is no longer open.
    pub open spec fn retired(&self, h: u32) -> bool {
        3 <= h < self.next && !self.handles.contains_key(h)
    }
}

/// The handle that a request names: its `h`, where it has one and that is
/// a 32-bit number.
pub open spec fn handle_of(h: Option<u64>) -> Option<u32> {
    match h {
        Some(v) => if v <= u32::MAX {
            Some(v as u32)
        } else {
            None
        },
        None => None,
    }
}

/// Reads the handle that a request names.
pub fn handle_in(h: Option<u64>) -> (r: Option<u32>)
    ensures
        r == handle_of(h),
{
    match h {
        Some(v) => if v <= u32::MAX as u64 {
            Some(v as u32)
        } else {
            None
        },
        None => None,
    }
}

/// The number of bytes that a `read` is served with: its `max`, and never
/// more than 4096.
pub open spec fn read_limit(max: u64) -> u64 {
    if max < 4096 {
        max
    } else {
        4096
    }
}

/// The step for an `open` request and the state after it.
pub open spec fn spec_open(m: BrokerModel, req: RequestView) -> (StepView, BrokerModel) {
    if req.params.path is None {
        (StepView::Reply(err_view(req.id, "E_ARG"@, "missing path"@)), m)
    } else if req.params.mode is None {
        (StepView::Reply(err_view(req.id, "E_ARG"@, "missing mode"@)), m)
    } else if spec_mode_flags(req.params.mode->Some_0) is None {
        (StepView::Reply(err_view(req.id, "E_ARG"@, "invalid mode"@)), m)
    } else {
        let path = req.params.path->Some_0;
        let flags = spec_mode_flags(req.params.mode->Some_0)->Some_0;
        if m.is_real(path) {
            if flags.writable && !m.allow_write.contains(path) {
                (StepView::Reply(err_view(req.id, "E_PERM"@, "path is not on the write list"@)), m)
            } else {
                (
                    StepView::Open {
                        id: req.id,
                        plan: OpenPlanView { path, backing: None, fresh: false, flags },
                    },
                    m,
                )
            }
        } else if flags.need_existing {
            if m.virtual_files.contains_key(path) {
                (
                    StepView::Open {
                        id: req.id,
                        plan: OpenPlanView {
                            path,
                            backing: Some(m.virtual_files[path]),
                            fresh: false,
                            flags,
                        },
                    },
                    m,
                )
            } else {
                (StepView::Reply(err_view(req.id, "E_NOENT"@, "virtual not found"@)), m)
            }
        } else if m.virtual_files.contains_key(path) && !flags.truncate {
            (
                StepView::Open {
                    id: req.id,
                    plan: OpenPlanView {
                        path,
                        backing: Some(m.virtual_files[path]),
                        fresh: false,
                        flags,
                    },
                },
                m,
            )
        } else if m.next_backing == u64::MAX {
            (StepView::Reply(err_view(req.id, "E_IO"@, "no backing left"@)), m)
        } else {
            (
                StepView::Open {
                    id: req.id,
                    plan: OpenPlanView {
                        path,
                        backing: Some(m.next_backing),
                        fresh: true,
                        flags,
                    },
                },
                BrokerModel {
                    virtual_files: m.virtual_files.insert(path, m.next_backing),
                    next_backing: (m.next_backing + 1) as u64,
                    ..m
                },
            )
        }
    }
}

/// The step for a `read` request.
pub open spec fn spec_read(m: BrokerModel, req: RequestView) -> StepView {
    if handle_of(req.params.h) is None {
        StepView::Reply(err_view(req.id, "E_ARG"@, "missing or invalid h"@))
    } else if req.params.max is None {
        StepView::Reply(err_view(req.id, "E_ARG"@, "missing max"@))
    } else {
        let h = handle_of(req.params.h)->Some_0;
        if req.params.max->Some_0 == 0 {
            StepView::Reply(err_view(req.id, "E_ARG"@, "max must be > 0"@))
        } else if h <= 2 {
            StepView::Reply(err_view(req.id, "E_PERM"@, "reserved handle not allowed"@))
        } else if !m.handles.contains_key(h) {
            StepView::Reply(err_view(req.id, "E_CLOSED"@, "invalid handle"@))
        } else if !m.handles[h].readable {
            StepView::Reply(err_view(req.id, "E_PERM"@, "not readable"@))
        } else {
            StepView::Read {
                id: req.id,
                handle: h,
                max: read_limit(req.params.max->Some_0) as usize,
                at: m.handles[h].rpos,
            }
        }
    }
}

/// Where the next write through a handle takes place: at the end of the
/// file for a handle that appends, at the handle's position otherwise.
pub open spec fn write_place(k: HandleKind) -> Option<u64> {
    if k.append {
        None
    } else {
        Some(k.wpos)
    }
}

/// A position moved on by `n` bytes, held at the largest position there
/// is.
pub open spec fn moved(pos: u64, n: nat) -> u64 {
    if pos + n > u64::MAX {
        u64::MAX
    } else {
        (pos + n) as u64
    }
}

/// The step for a `write` request.
pub open spec fn spec_write(m: BrokerModel, req: RequestView) -> StepView {
    if handle_of(req.params.h) is None {
        StepView::Reply(err_view(req.id, "E_ARG"@, "missing or invalid h"@))
    } else if req.params.data is None {
        StepView::Reply(err_view(req.id, "E_ARG"@, "missing data"@))
    } else {
        let h = handle_of(req.params.h)->Some_0;
        if h <= 2 {
            StepView::Reply(err_view(req.id, "E_PERM"@, "reserved handle not allowed"@))
        } else if !m.handles.contains_key(h) {
            StepView::Reply(err_view(req.id, "E_CLOSED"@, "invalid handle"@))
        } else if !m.handles[h].writable {
            StepView::Reply(err_view(req.id, "E_PERM"@, "not writable"@))
        } else if base64_decoded(req.params.data->Some_0) is None {
            StepView::Reply(err_view(req.id, "E_ARG"@, "bad base64"@))
        } else {
            StepView::Write {
                id: req.id,
                handle: h,
                data: base64_decoded(req.params.data->Some_0)->Some_0,
                place: write_place(m.handles[h]),
            }
        }
    }
}

/// The step for a `close` request and the state after it.
pub open spec fn spec_close(m: BrokerModel, req: RequestView) -> (StepView, BrokerModel) {
    if handle_of(req.params.h) is None {
        (StepView::Reply(err_view(req.id, "E_ARG"@, "missing or invalid h"@)), m)
    } else {
        let h = handle_of(req.params.h)->Some_0;
        if h <= 2 {
            (StepView::Reply(err_view(req.id, "E_PERM"@, "reserved handle not allowed"@)), m)
        } else if m.handles.contains_key(h) {
            (
                StepView::Close { handle: h, response: ok_view(req.id, ResultView::Closed) },
                BrokerModel { handles: m.handles.remove(h), ..m },
            )
        } else {
            (StepView::Reply(err_view(req.id, "E_CLOSED"@, "invalid handle"@)), m)
        }
    }
}

/// The step for any request and the state after it.
pub open spec fn spec_handle(m: BrokerModel, req: RequestView) -> (StepView, BrokerModel) {
    if req.op == "ping"@ {
        (StepView::Reply(ok_view(req.id, ResultView::Pong)), m)
    } else if req.op == "open"@ {
        spec_open(m, req)
    } else if req.op == "read"@ {
        (spec_read(m, req), m)
    } else if req.op == "write"@ {
        (spec_write(m, req), m)
    } else if req.op == "close"@ {
        spec_close(m, req)
    } else {
        (StepView::Reply(err_view(req.id, "E_UNSUPPORTED"@, req.op)), m)
    }
}

/// The response that ends an `open`, and the state after it.
pub open spec fn spec_open_done(
    m: BrokerModel,
    id: Seq<char>,
    plan: OpenPlanView,
    outcome: OpenOutcome,
) -> (ResponseView, BrokerModel) {
    match outcome {
        OpenOutcome::NotFound => (err_view(id, "E_NOENT"@, "not found"@), m),
        OpenOutcome::Failed => (err_view(id, "E_IO"@, "open failed"@), m),
        OpenOutcome::Opened => if m.next == u32::MAX {
            (err_view(id, "E_IO"@, "no handle left"@), m)
        } else {
            (
                ok_view(id, ResultView::Handle(m.next)),
                BrokerModel {
                    next: (m.next + 1) as u32,
                    handles: m.handles.insert(m.next, plan.flags.kind(plan.backing)),
                    ..m
                },
            )
        },
    }
}

/// The response that ends a `read`, and the state after it: the bytes
/// read, and `eof` where there were none; `E_IO` where the read failed.
/// The handle's next read begins behind the bytes read.
pub open spec fn spec_read_done(
    m: BrokerModel,
    id: Seq<char>,
    handle: u32,
    outcome: Option<Seq<u8>>,
) -> (ResponseView, BrokerModel) {
    match outcome {
        Some(bytes) => (
            ok_view(id, ResultView::Data { eof: bytes.len() == 0, data: payload_text(bytes) }),
            if m.handles.contains_key(handle) {
                BrokerModel {
                    handles: m.handles.insert(
                        handle,
                        HandleKind {
                            rpos: moved(m.handles[handle].rpos, bytes.len()),
                            ..m.handles[handle]
                        },
                    ),
                    ..m
                }
            } else {
                m
            },
        ),
        None => (err_view(id, "E_IO"@, "read failed"@), m),
    }
}

/// The response that ends a `write`, and the state after it: the number
/// of bytes written; `E_IO` where the write failed. The handle's next
/// write begins behind the bytes written.
pub open spec fn spec_write_done(
    m: BrokerModel,
    id: Seq<char>,
    handle: u32,
    outcome: Option<u64>,
) -> (ResponseView, BrokerModel) {
    match outcome {
        Some(n) => (
            ok_view(id, ResultView::Written(n)),
            if m.handles.contains_key(handle) {
                BrokerModel {
                    handles: m.handles.insert(
                        handle,
                        HandleKind {
                            wpos: moved(m.handles[handle].wpos, n as nat),
                            ..m.handles[handle]
                        },
                    ),
                    ..m
                }
            } else {
                m
            },
        ),
        None => (err_view(id, "E_IO"@, "write failed"@), m),
    }
}

/// Whether `path` is on an allowlist, compared by exact equality.
pub fn path_allowed(list: &[String], path: &str) -> (r: bool)
    ensures
        r == listed(list@, path@),
{
    let mut i: usize = 0;
    while i < list.len()
        invariant
            i <= list@.len(),
            forall|j: int| 0 <= j < i ==> (#[trigger] list@[j])@ != path@,
        decreases list@.len() - i,
    {
        if same_text(list[i].as_str(), path) {
            return true;
        }
        i += 1;
    }
    false
}

/// The broker's state: the handles it has issued, the two allowlists and
/// the virtual paths it has given a backing.
pub struct State {
    next: u32,
    handles: HashMap<u32, HandleKind>,
    allow_read: Vec<String>,
    allow_write: Vec<String>,
    virtual_files: TextMap<u64>,
    next_backing: u64,
}

impl View for State {
    type V = BrokerModel;

    closed spec fn view(&self) -> BrokerModel {
        BrokerModel {
            next: self.next,
            handles: self.handles@,
            allow_read: Set::new(|p: Seq<char>| listed(self.allow_read@, p)),
            allow_write: Set::new(|p: Seq<char>| listed(self.allow_write@, p)),
            virtual_files: self.virtual_files@,
            next_backing: self.next_backing,
        }
    }
}

impl State {
    /// The state is consistent: its model is, and so is the table of
    /// virtual paths.
    pub closed spec fn wf(&self) -> bool {
        self@.wf() && self.virtual_files.wf()
    }

    /// A consistent state has a consistent model.
    pub proof fn wf_model(&self)
        requires
            self.wf(),
        ensures
            self@.wf(),
    {
    }

    /// A broker with the two allowlists, no open handle and no virtual
    /// path. The first handle it issues is 3.
    pub fn new(allow_read: Vec<String>, allow_write: Vec<String>) -> (s: State)
        ensures
            s.wf(),
            s@ == (BrokerModel {
                next: 3,
                handles: Map::empty(),
                allow_read: Set::new(|p: Seq<char>| listed(allow_read@, p)),
                allow_write: Set::new(|p: Seq<char>| listed(allow_write@, p)),
                virtual_files: Map::empty(),
                next_backing: 0,
            }),
    {
        State {
            next: 3,
            handles: HashMap::new(),
            allow_read,
            allow_write,
            virtual_files: TextMap::new(),
            next_backing: 0,
        }
    }

    /// The number of handles that are open.
    pub fn open_count(&self) -> (n: usize)
        ensures
            n == self@.handles.len(),
    {
        self.handles.len()
    }

    /// The capabilities of handle `h`, if it is open.
    pub fn kind_of(&self, h: u32) -> (r: Option<HandleKind>)
        ensures
            r == (if self@.handles.contains_key(h) {
                Some(self@.handles[h])
            } else {
                None
            }),
    {
        match self.handles.get(&h) {
            Some(k) => Some(*k),
            None => None,
        }
    }

    /// Issues the next handle for `kind`; `None`, with nothing changed,
    /// once every handle has been issued.
    pub fn issue(&mut self, kind: HandleKind) -> (r: Option<u32>)
        requires
            old(self).wf(),
            kind.wf(),
        ensures
            final(self).wf(),
            old(self)@.next == u32::MAX ==> r is None && final(self)@ == old(self)@,
            old(self)@.next < u32::MAX ==> r == Some(old(self)@.next) && final(self)@ == (BrokerModel {
                next: (old(self)@.next + 1) as u32,
                handles: old(self)@.handles.insert(old(self)@.next, kind),
                ..old(self)@
            }),
    {
        if self.next == u32::MAX {
            return None;
        }
        let h = self.next;
        self.next = self.next + 1;
        self.handles.insert(h, kind);
        proof {
            assert forall|x: u32| #[trigger] self.handles@.contains_key(x) implies 3 <= x
                < self.next && self.handles@[x].wf() by {
                if x != h {
                    assert(old(self)@.handles.contains_key(x));
                }
            }
        }
        Some(h)
    }

    /// Gives `path` a new, empty backing and returns its name.
    fn renew_virtual(&mut self, path: &str) -> (b: u64)
        requires
            old(self).wf(),
            old(self)@.next_backing < u64::MAX,
        ensures
            final(self).wf(),
            b == old(self)@.next_backing,
            final(self)@ == (BrokerModel {
                virtual_files: old(self)@.virtual_files.insert(path@, b),
                next_backing: (b + 1) as u64,
                ..old(self)@
            }),
    {
        let b = self.next_backing;
        self.next_backing = self.next_backing + 1;
        self.virtual_files.insert(path, b);
        proof {
            assert forall|p: Seq<char>| #[trigger]
                self.virtual_files@.contains_key(p) implies self.virtual_files@[p]
                < self.next_backing by {
                if p != path@ {
                    assert(old(self)@.virtual_files.contains_key(p));
                }
            }
            assert forall|x: u32| #[trigger] self.handles@.contains_key(x) implies 3 <= x
                < self.next && self.handles@[x].wf() by {
                assert(old(self)@.handles.contains_key(x));
            }
        }
        b
    }

    /// Decides what one request asks for.
    ///
    /// Every check that needs no file is made here, in the order in which
    /// the protocol names its errors; a request that fails one is answered
    /// at once. `close` releases its handle here. An `open` that has to
    /// create or replace the backing of a virtual path records the new
    /// backing here.
    pub fn handle(&mut self, req: &Request) -> (step: Step)
        requires
            old(self).wf(),
        ensures
            final(self).wf(),
            step@ == spec_handle(old(self)@, req@).0,
            final(self)@ == spec_handle(old(self)@, req@).1,
            step matches Step::Reply(r) ==> r.wf(),
            step matches Step::Close { response, .. } ==> response.wf(),
            step matches Step::Open { plan, .. } ==> plan.flags.kind(plan.backing).wf(),
    {
        let op = req.op.as_str();
        if same_text(op, "ping") {
            Step::Reply(ok(req.id.clone(), ResultBody::Pong))
        } else if same_text(op, "open") {
            self.handle_open(req)
        } else if same_text(op, "read") {
            self.handle_read(req)
        } else if same_text(op, "write") {
            self.handle_write(req)
        } else if same_text(op, "close") {
            self.handle_close(req)
        } else {
            Step::Reply(unsupported_with(req.id.clone(), op))
        }
    }

    fn handle_open(&mut self, req: &Request) -> (step: Step)
        requires
            old(self).wf(),
        ensures
            final(self).wf(),
            step@ == spec_open(old(self)@, req@).0,
            final(self)@ == spec_open(old(self)@, req@).1,
            step matches Step::Reply(r) ==> r.wf(),
            step matches Step::Open { plan, .. } ==> plan.flags.kind(plan.backing).wf(),
            !(step is Close),
    {
        let path = match &req.params.path {
            Some(p) => p.as_str(),
            None => {
                return Step::Reply(err(req.id.clone(), "E_ARG", "missing path"));
            },
        };
        let mode = match &req.params.mode {
            Some(m) => m.as_str(),
            None => {
                return Step::Reply(err(req.id.clone(), "E_ARG", "missing mode"));
            },
        };
        let flags = match mode_flags(mode) {
            Some(f) => f,
            None => {
                return Step::Reply(err(req.id.clone(), "E_ARG", "invalid mode"));
            },
        };
        let may_write = path_allowed(self.allow_write.as_slice(), path);
        let on_list = may_write || path_allowed(self.allow_read.as_slice(), path);
        if on_list {
            if flags.writable && !may_write {
                return Step::Reply(err(req.id.clone(), "E_PERM", "path is not on the write list"));
            }
            return Step::Open {
                id: req.id.clone(),
                plan: OpenPlan {
                    path: path.to_owned(),
                    backing: None,
                    fresh: false,
                    flags,
                },
            };
        }
        let found: Option<u64> = match self.virtual_files.get(path) {
            Some(b) => Some(*b),
            None => None,
        };
        if flags.need_existing {
            return match found {
                Some(b) => Step::Open {
                    id: req.id.clone(),
                    plan: OpenPlan {
                        path: path.to_owned(),
                        backing: Some(b),
                        fresh: false,
                        flags,
                    },
                },
                None => Step::Reply(err(req.id.clone(), "E_NOENT", "virtual not found")),
            };
        }
        match found {
            Some(b) if !flags.truncate => Step::Open {
                id: req.id.clone(),
                plan: OpenPlan {
                    path: path.to_owned(),
                    backing: Some(b),
                    fresh: false,
                    flags,
                },
            },
            _ => {
                if self.next_backing == u64::MAX {
                    return Step::Reply(err(req.id.clone(), "E_IO", "no backing left"));
                }
                let b = self.renew_virtual(path);
                Step::Open {
                    id: req.id.clone(),
                    plan: OpenPlan {
                        path: path.to_owned(),
                        backing: Some(b),
                        fresh: true,
                        flags,
                    },
                }
            },
        }
    }

    fn handle_read(&self, req: &Request) -> (step: Step)
        requires
            self.wf(),
        ensures
            step@ == spec_read(self@, req@),
            step matches Step::Reply(r) ==> r.wf(),
            !(step is Close),
            !(step is Open),
    {
        let h = match handle_in(req.params.h) {
            Some(v) => v,
            None => {
                return Step::Reply(err(req.id.clone(), "E_ARG", "missing or invalid h"));
            },
        };
        let max: u64 = match req.params.max {
            Some(m) => if m < MAX_READ {
                m
            } else {
                MAX_READ
            },
            None => {
                return Step::Reply(err(req.id.clone(), "E_ARG", "missing max"));
            },
        };
        if max == 0 {
            return Step::Reply(err(req.id.clone(), "E_ARG", "max must be > 0"));
        }
        if h <= 2 {
            return Step::Reply(err(req.id.clone(), "E_PERM", "reserved handle not allowed"));
        }
        let kind = match self.handles.get(&h) {
            Some(k) => *k,
            None => {
                return Step::Reply(err(req.id.clone(), "E_CLOSED", "invalid handle"));
            },
        };
        if !kind.readable {
            return Step::Reply(err(req.id.clone(), "E_PERM", "not readable"));
        }
        Step::Read { id: req.id.clone(), handle: h, max: max as usize, at: kind.rpos }
    }

    fn handle_write(&self, req: &Request) -> (step: Step)
        requires
            self.wf(),
        ensures
            step@ == spec_write(self@, req@),
            step matches Step::Reply(r) ==> r.wf(),
            !(step is Close),
            !(step is Open),
    {
        let h = match handle_in(req.params.h) {
            Some(v) => v,
            None => {
                return Step::Reply(err(req.id.clone(), "E_ARG", "missing or invalid h"));
            },
        };
        let text = match &req.params.data {
            Some(s) => s.as_str(),
            None => {
                return Step::Reply(err(req.id.clone(), "E_ARG", "missing data"));
            },
        };
        if h <= 2 {
            return Step::Reply(err(req.id.clone(), "E_PERM", "reserved handle not allowed"));
        }
        let kind = match self.handles.get(&h) {
            Some(k) => *k,
            None => {
                return Step::Reply(err(req.id.clone(), "E_CLOSED", "invalid handle"));
            },
        };
        if !kind.writable {
            return Step::Reply(err(req.id.clone(), "E_PERM", "not writable"));
        }
        match decode_payload(text) {
            Some(data) => Step::Write {
                id: req.id.clone(),
                handle: h,
                data,
                place: if kind.append {
                    None
                } else {
                    Some(kind.wpos)
                },
            },
            None => Step::Reply(err(req.id.clone(), "E_ARG", "bad base64")),
        }
    }

    fn handle_close(&mut self, req: &Request) -> (step: Step)
        requires
            old(self).wf(),
        ensures
            final(self).wf(),
            step@ == spec_close(old(self)@, req@).0,
            final(self)@ == spec_close(old(self)@, req@).1,
            step matches Step::Reply(r) ==> r.wf(),
            step matches Step::Close { response, .. } ==> response.wf(),
            !(step is Open),
    {
        let h = match handle_in(req.params.h) {
            Some(v) => v,
            None => {
                return Step::Reply(err(req.id.clone(), "E_ARG", "missing or invalid h"));
            },
        };
        if h <= 2 {
            return Step::Reply(err(req.id.clone(), "E_PERM", "reserved handle not allowed"));
        }
        let removed = self.handles.remove(&h);
        proof {
            assert(removed is None ==> self.handles@ =~= old(self).handles@);
            assert forall|x: u32| #[trigger] self.handles@.contains_key(x) implies 3 <= x
                < self.next && self.handles@[x].wf() by {
                assert(old(self)@.handles.contains_key(x));
            }
        }
        match removed {
            Some(_) => Step::Close { handle: h, response: ok(req.id.clone(), ResultBody::Closed) },
            None => Step::Reply(err(req.id.clone(), "E_CLOSED", "invalid handle")),
        }
    }

    /// Moves a position of handle `h` on by `n` bytes.
    fn advance(&mut self, h: u32, n: u64, reading: bool)
        requires
            old(self).wf(),
        ensures
            final(self).wf(),
            !old(self)@.handles.contains_key(h) ==> final(self)@ == old(self)@,
            old(self)@.handles.contains_key(h) ==> final(self)@ == (BrokerModel {
                handles: old(self)@.handles.insert(
                    h,
                    if reading {
                        HandleKind {
                            rpos: moved(old(self)@.handles[h].rpos, n as nat),
                            ..old(self)@.handles[h]
                        }
                    } else {
                        HandleKind {
                            wpos: moved(old(self)@.handles[h].wpos, n as nat),
                            ..old(self)@.handles[h]
                        }
                    },
                ),
                ..old(self)@
            }),
    {
        let kind = match self.handles.get(&h) {
            Some(k) => *k,
            None => {
                return ;
            },
        };
        let pos = if reading {
            kind.rpos
        } else {
            kind.wpos
        };
        let next: u64 = if n > u64::MAX - pos {
            u64::MAX
        } else {
            pos + n
        };
        let moved_kind = if reading {
            HandleKind { rpos: next, ..kind }
        } else {
            HandleKind { wpos: next, ..kind }
        };
        self.handles.insert(h, moved_kind);
        proof {
            assert forall|x: u32| #[trigger] self.handles@.contains_key(x) implies 3 <= x
                < self.next && self.handles@[x].wf() by {
                assert(old(self)@.handles.contains_key(x));
            }
        }
    }

    /// Ends a `read` on `handle`: `outcome` holds the bytes that were
    /// read, or `None` where the read failed.
    pub fn read_done(&mut self, id: String, handle: u32, outcome: Option<&[u8]>) -> (r: Response)
        requires
            old(self).wf(),
            outcome matches Some(bytes) ==> bytes@.len() <= usize::MAX / 4,
        ensures
            final(self).wf(),
            r.wf(),
            r@ == spec_read_done(
                old(self)@,
                id@,
                handle,
                match outcome {
                    Some(bytes) => Some(bytes@),
                    None => None,
                },
            ).0,
            final(self)@ == spec_read_done(
                old(self)@,
                id@,
                handle,
                match outcome {
                    Some(bytes) => Some(bytes@),
                    None => None,
                },
            ).1,
    {
        match outcome {
            Some(bytes) => {
                let data = encode_payload(bytes);
                self.advance(handle, bytes.len() as u64, true);
                ok(id, ResultBody::Data { eof: bytes.len() == 0, data })
            },
            None => err(id, "E_IO", "read failed"),
        }
    }

    /// Ends a `write` on `handle`: `outcome` holds the number of bytes
    /// that were written, or `None` where the write failed.
    pub fn write_done(&mut self, id: String, handle: u32, outcome: Option<u64>) -> (r: Response)
        requires
            old(self).wf(),
        ensures
            final(self).wf(),
            r.wf(),
            r@ == spec_write_done(old(self)@, id@, handle, outcome).0,
            final(self)@ == spec_write_done(old(self)@, id@, handle, outcome).1,
    {
        match outcome {
            Some(n) => {
                self.advance(handle, n, false);
                ok(id, ResultBody::Written(n))
            },
            None => err(id, "E_IO", "write failed"),
        }
    }

    /// Ends an `open`: issues the handle for a file that was opened, or
    /// reports why there is none.
    pub fn open_done(&mut self, id: String, plan: &OpenPlan, outcome: OpenOutcome) -> (r: Response)
        requires
            old(self).wf(),
            plan.flags.kind(plan.backing).wf(),
        ensures
            final(self).wf(),
            r.wf(),
            r@ == spec_open_done(old(self)@, id@, plan@, outcome).0,
            final(self)@ == spec_open_done(old(self)@, id@, plan@, outcome).1,
    {
        match outcome {
            OpenOutcome::NotFound => err(id, "E_NOENT", "not found"),
            OpenOutcome::Failed => err(id, "E_IO", "open failed"),
            OpenOutcome::Opened => {
                let kind = HandleKind {
                    backing: plan.backing,
                    readable: plan.flags.readable,
                    writable: plan.flags.writable,
                    append: plan.flags.append,
                    rpos: 0,
                    wpos: 0,
                };
                match self.issue(kind) {
                    Some(h) => ok(id, ResultBody::Handle(h)),
                    None => err(id, "E_IO", "no handle left"),
                }
            },
        }
    }
}

/// The response to a frame that holds no request.
pub fn invalid_frame() -> (r: Response)
    ensures
        r.wf(),
        r@ == err_view("?"@, "E_ARG"@, "invalid json"@),
{
    err("?".to_owned(), "E_ARG", "invalid json")
}

} // verus!
