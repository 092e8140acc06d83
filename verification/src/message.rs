//! Requests and responses as values.

use vstd::prelude::*;
use crate::text::{clone_opt_text, opt_text};

verus! {

/// Parameters of a request; each operation reads the ones it needs.
pub struct Params {
    pub path: Option<String>,
    pub mode: Option<String>,
    pub h: Option<u64>,
    pub max: Option<u64>,
    pub data: Option<String>,
}

/// One request: a correlation token, an operation and its parameters.
pub struct Request {
    pub id: String,
    pub op: String,
    pub params: Params,
    pub version: Option<u32>,
}

/// Mathematical value of [`Params`].
pub struct ParamsView {
    pub path: Option<Seq<char>>,
    pub mode: Option<Seq<char>>,
    pub h: Option<u64>,
    pub max: Option<u64>,
    pub data: Option<Seq<char>>,
}

/// Mathematical value of a [`Request`].
pub struct RequestView {
    pub id: Seq<char>,
    pub op: Seq<char>,
    pub params: ParamsView,
    pub version: Option<u32>,
}

impl View for Params {
    type V = ParamsView;

    open spec fn view(&self) -> ParamsView {
        ParamsView {
            path: opt_text(self.path),
            mode: opt_text(self.mode),
            h: self.h,
            max: self.max,
            data: opt_text(self.data),
        }
    }
}

impl View for Request {
    type V = RequestView;

    open spec fn view(&self) -> RequestView {
        RequestView { id: self.id@, op: self.op@, params: self.params@, version: self.version }
    }
}

/// What a successful operation hands back.
pub enum ResultBody {
    Pong,
    Handle(u32),
    Data { eof: bool, data: String },
    Written(u64),
    Closed,
}

/// Mathematical value of a [`ResultBody`].
pub enum ResultView {
    Pong,
    Handle(u32),
    Data { eof: bool, data: Seq<char> },
    Written(u64),
    Closed,
}

impl View for ResultBody {
    type V = ResultView;

    open spec fn view(&self) -> ResultView {
        match self {
            ResultBody::Pong => ResultView::Pong,
            ResultBody::Handle(h) => ResultView::Handle(*h),
            ResultBody::Data { eof, data } => ResultView::Data { eof: *eof, data: data@ },
            ResultBody::Written(n) => ResultView::Written(*n),
            ResultBody::Closed => ResultView::Closed,
        }
    }
}

/// Code and message of a failed operation.
pub struct ErrorBody {
    pub code: String,
    pub message: String,
}

/// Mathematical value of an [`ErrorBody`].
pub struct ErrorView {
    pub code: Seq<char>,
    pub message: Seq<char>,
}

impl View for ErrorBody {
    type V = ErrorView;

    open spec fn view(&self) -> ErrorView {
        ErrorView { code: self.code@, message: self.message@ }
    }
}

/// One response: the token of its request and either a result or an error.
pub struct Response {
    pub id: String,
    pub ok: bool,
    pub result: Option<ResultBody>,
    pub error: Option<ErrorBody>,
}

/// Mathematical value of a [`Response`].
pub struct ResponseView {
    pub id: Seq<char>,
    pub ok: bool,
    pub result: Option<ResultView>,
    pub error: Option<ErrorView>,
}

impl View for Response {
    type V = ResponseView;

    open spec fn view(&self) -> ResponseView {
        ResponseView {
            id: self.id@,
            ok: self.ok,
            result: match self.result {
                Some(r) => Some(r@),
                None => None,
            },
            error: match self.error {
                Some(e) => Some(e@),
                None => None,
            },
        }
    }
}

impl Response {
    /// A response carries exactly one of a result and an error, and `ok`
    /// says which.
    pub open spec fn wf(&self) -> bool {
        (self.ok <==> self.result is Some) && (self.ok <==> self.error is None)
    }
}

/// The successful response to request `id`.
pub open spec fn ok_view(id: Seq<char>, result: ResultView) -> ResponseView {
    ResponseView { id, ok: true, result: Some(result), error: None }
}

/// The failed response to request `id`.
pub open spec fn err_view(id: Seq<char>, code: Seq<char>, message: Seq<char>) -> ResponseView {
    ResponseView { id, ok: false, result: None, error: Some(ErrorView { code, message }) }
}

/// Builds the successful response to request `id`.
pub fn ok(id: String, result: ResultBody) -> (r: Response)
    ensures
        r@ == ok_view(id@, result@),
        r.wf(),
{
    Response { id, ok: true, result: Some(result), error: None }
}

/// Builds the failed response to request `id`.
pub fn err(id: String, code: &str, msg: &str) -> (r: Response)
    ensures
        r@ == err_view(id@, code@, msg@),
        r.wf(),
{
    Response {
        id,
        ok: false,
        result: None,
        error: Some(ErrorBody { code: code.to_owned(), message: msg.to_owned() }),
    }
}

/// Builds the response to a request whose operation `op` is not known.
pub fn unsupported_with(id: String, op: &str) -> (r: Response)
    ensures
        r@ == err_view(id@, "E_UNSUPPORTED"@, op@),
        r.wf(),
{
    err(id, "E_UNSUPPORTED", op)
}

/// Copies a request under another correlation token.
pub fn with_id(req: &Request, id: String) -> (r: Request)
    ensures
        r@ == (RequestView { id: id@, ..req@ }),
{
    Request {
        id,
        op: req.op.clone(),
        params: Params {
            path: clone_opt_text(&req.params.path),
            mode: clone_opt_text(&req.params.mode),
            h: req.params.h,
            max: req.params.max,
            data: clone_opt_text(&req.params.data),
        },
        version: req.version,
    }
}

} // verus!
