//! The keys of the objects on the wire: which members a request's
//! parameters, a result and an error have, and how a result is read back
//! from the members that were found.

use vstd::prelude::*;
use crate::message::{ErrorBody, Params, ParamsView, Response, ResponseView, ResultBody, ResultView};
use crate::text::{opt_text, same_text};

verus! {

/// The value of one member of an object.
pub enum FieldValue {
    Text(String),
    Number(u64),
    Flag(bool),
}

/// Mathematical value of a [`FieldValue`].
pub enum FieldValueView {
    Text(Seq<char>),
    Number(u64),
    Flag(bool),
}

/// One member of an object: its key and its value.
pub struct Field {
    pub key: &'static str,
    pub value: FieldValue,
}

/// Mathematical value of a [`Field`].
pub struct FieldView {
    pub key: Seq<char>,
    pub value: FieldValueView,
}

impl View for FieldValue {
    type V = FieldValueView;

    open spec fn view(&self) -> FieldValueView {
        match self {
            FieldValue::Text(s) => FieldValueView::Text(s@),
            FieldValue::Number(n) => FieldValueView::Number(*n),
            FieldValue::Flag(b) => FieldValueView::Flag(*b),
        }
    }
}

impl View for Field {
    type V = FieldView;

    open spec fn view(&self) -> FieldView {
        FieldView { key: self.key@, value: self.value@ }
    }
}

/// Mathematical value of a sequence of members.
pub open spec fn field_views(fields: Seq<Field>) -> Seq<FieldView> {
    Seq::new(fields.len(), |i: int| fields[i]@)
}

/// A member that holds a text.
pub open spec fn text_field(key: Seq<char>, text: Seq<char>) -> FieldView {
    FieldView { key, value: FieldValueView::Text(text) }
}

/// A member that holds a number.
pub open spec fn number_field(key: Seq<char>, n: u64) -> FieldView {
    FieldView { key, value: FieldValueView::Number(n) }
}

/// A member that holds a flag.
pub open spec fn flag_field(key: Seq<char>, b: bool) -> FieldView {
    FieldView { key, value: FieldValueView::Flag(b) }
}

/// The members of the object that carries a result.
pub open spec fn spec_result_fields(r: ResultView) -> Seq<FieldView> {
    match r {
        ResultView::Pong => seq![flag_field("pong"@, true)],
        ResultView::Handle(h) => seq![number_field("handle"@, h as u64)],
        ResultView::Data { eof, data } => seq![flag_field("eof"@, eof), text_field("data"@, data)],
        ResultView::Written(n) => seq![number_field("written"@, n)],
        ResultView::Closed => seq![flag_field("closed"@, true)],
    }
}

/// Lists the members of the object that carries a result.
pub fn result_fields(r: &ResultBody) -> (fields: Vec<Field>)
    ensures
        field_views(fields@) == spec_result_fields(r@),
{
    let mut fields: Vec<Field> = Vec::new();
    match r {
        ResultBody::Pong => {
            fields.push(Field { key: "pong", value: FieldValue::Flag(true) });
        },
        ResultBody::Handle(h) => {
            fields.push(Field { key: "handle", value: FieldValue::Number(*h as u64) });
        },
        ResultBody::Data { eof, data } => {
            fields.push(Field { key: "eof", value: FieldValue::Flag(*eof) });
            fields.push(Field { key: "data", value: FieldValue::Text(data.clone()) });
        },
        ResultBody::Written(n) => {
            fields.push(Field { key: "written", value: FieldValue::Number(*n) });
        },
        ResultBody::Closed => {
            fields.push(Field { key: "closed", value: FieldValue::Flag(true) });
        },
    }
    assert(field_views(fields@) =~= spec_result_fields(r@));
    fields
}

/// The members of the object that carries an error.
pub fn error_fields(e: &ErrorBody) -> (fields: Vec<Field>)
    ensures
        field_views(fields@) == seq![text_field("code"@, e.code@), text_field("message"@, e.message@)],
{
    let mut fields: Vec<Field> = Vec::new();
    fields.push(Field { key: "code", value: FieldValue::Text(e.code.clone()) });
    fields.push(Field { key: "message", value: FieldValue::Text(e.message.clone()) });
    assert(field_views(fields@) =~= seq![
        text_field("code"@, e.code@),
        text_field("message"@, e.message@),
    ]);
    fields
}

/// The member for an optional text: one where there is a text, none
/// otherwise.
pub open spec fn optional_text(key: Seq<char>, o: Option<Seq<char>>) -> Seq<FieldView> {
    match o {
        Some(t) => seq![text_field(key, t)],
        None => Seq::empty(),
    }
}

/// The member for an optional number.
pub open spec fn optional_number(key: Seq<char>, o: Option<u64>) -> Seq<FieldView> {
    match o {
        Some(n) => seq![number_field(key, n)],
        None => Seq::empty(),
    }
}

/// The members of the parameters of a request: one for each parameter
/// that is there.
pub open spec fn spec_params_fields(p: ParamsView) -> Seq<FieldView> {
    optional_text("path"@, p.path) + optional_text("mode"@, p.mode) + optional_number("h"@, p.h)
        + optional_number("max"@, p.max) + optional_text("data"@, p.data)
}

/// Lists the members of the parameters of a request.
pub fn params_fields(p: &Params) -> (fields: Vec<Field>)
    ensures
        field_views(fields@) == spec_params_fields(p@),
{
    let mut fields: Vec<Field> = Vec::new();
    assert(field_views(fields@) =~= Seq::<FieldView>::empty());
    match &p.path {
        Some(t) => {
            fields.push(Field { key: "path", value: FieldValue::Text(t.clone()) });
        },
        None => {},
    }
    assert(field_views(fields@) =~= optional_text("path"@, p@.path));
    match &p.mode {
        Some(t) => {
            fields.push(Field { key: "mode", value: FieldValue::Text(t.clone()) });
        },
        None => {},
    }
    assert(field_views(fields@) =~= optional_text("path"@, p@.path) + optional_text(
        "mode"@,
        p@.mode,
    ));
    match p.h {
        Some(n) => {
            fields.push(Field { key: "h", value: FieldValue::Number(n) });
        },
        None => {},
    }
    assert(field_views(fields@) =~= optional_text("path"@, p@.path) + optional_text(
        "mode"@,
        p@.mode,
    ) + optional_number("h"@, p@.h));
    match p.max {
        Some(n) => {
            fields.push(Field { key: "max", value: FieldValue::Number(n) });
        },
        None => {},
    }
    assert(field_views(fields@) =~= optional_text("path"@, p@.path) + optional_text(
        "mode"@,
        p@.mode,
    ) + optional_number("h"@, p@.h) + optional_number("max"@, p@.max));
    match &p.data {
        Some(t) => {
            fields.push(Field { key: "data", value: FieldValue::Text(t.clone()) });
        },
        None => {},
    }
    assert(field_views(fields@) =~= spec_params_fields(p@));
    fields
}

/// One member of an object that was received: its key and its value.
pub struct Member {
    pub key: String,
    pub value: FieldValue,
}

/// The value of the first member of `members` from member `i` on whose key
/// is `key`.
pub open spec fn spec_lookup(members: Seq<Member>, key: Seq<char>, i: int) -> Option<FieldValue>
    decreases members.len() - i,
{
    if i < 0 || i >= members.len() {
        None
    } else if members[i].key@ == key {
        Some(members[i].value)
    } else {
        spec_lookup(members, key, i + 1)
    }
}

/// The text under `key`, where there is a member of that key and it holds
/// a text.
pub open spec fn spec_text_of(members: Seq<Member>, key: Seq<char>) -> Option<Seq<char>> {
    match spec_lookup(members, key, 0) {
        Some(FieldValue::Text(t)) => Some(t@),
        _ => None,
    }
}

/// The number under `key`, where there is a member of that key and it
/// holds a number.
pub open spec fn spec_number_of(members: Seq<Member>, key: Seq<char>) -> Option<u64> {
    match spec_lookup(members, key, 0) {
        Some(FieldValue::Number(n)) => Some(n),
        _ => None,
    }
}

/// The flag under `key`, where there is a member of that key and it holds
/// a flag.
pub open spec fn spec_flag_of(members: Seq<Member>, key: Seq<char>) -> Option<bool> {
    match spec_lookup(members, key, 0) {
        Some(FieldValue::Flag(b)) => Some(b),
        _ => None,
    }
}

/// Position of the first member whose key is `key`.
fn lookup(members: &Vec<Member>, key: &str) -> (r: Option<usize>)
    ensures
        match r {
            Some(i) => i < members@.len() && spec_lookup(members@, key@, 0) == Some(
                members@[i as int].value,
            ),
            None => spec_lookup(members@, key@, 0) is None,
        },
{
    let mut i: usize = 0;
    while i < members.len()
        invariant
            i <= members@.len(),
            spec_lookup(members@, key@, i as int) == spec_lookup(members@, key@, 0),
        decreases members@.len() - i,
    {
        if same_text(members[i].key.as_str(), key) {
            return Some(i);
        }
        i += 1;
    }
    None
}

/// The text under `key`.
pub fn text_of(members: &Vec<Member>, key: &str) -> (r: Option<String>)
    ensures
        opt_text(r) == spec_text_of(members@, key@),
{
    match lookup(members, key) {
        Some(i) => match &members[i].value {
            FieldValue::Text(t) => Some(t.clone()),
            _ => None,
        },
        None => None,
    }
}

/// The number under `key`.
pub fn number_of(members: &Vec<Member>, key: &str) -> (r: Option<u64>)
    ensures
        r == spec_number_of(members@, key@),
{
    match lookup(members, key) {
        Some(i) => match &members[i].value {
            FieldValue::Number(n) => Some(*n),
            _ => None,
        },
        None => None,
    }
}

/// The flag under `key`.
pub fn flag_of(members: &Vec<Member>, key: &str) -> (r: Option<bool>)
    ensures
        r == spec_flag_of(members@, key@),
{
    match lookup(members, key) {
        Some(i) => match &members[i].value {
            FieldValue::Flag(b) => Some(*b),
            _ => None,
        },
        None => None,
    }
}

/// Reads the parameters of a request from the members of its `params`:
/// each parameter is there where a member of its key holds a value of its
/// type.
pub fn params_of(members: &Vec<Member>) -> (p: Params)
    ensures
        p@ == (ParamsView {
            path: spec_text_of(members@, "path"@),
            mode: spec_text_of(members@, "mode"@),
            h: spec_number_of(members@, "h"@),
            max: spec_number_of(members@, "max"@),
            data: spec_text_of(members@, "data"@),
        }),
{
    Params {
        path: text_of(members, "path"),
        mode: text_of(members, "mode"),
        h: number_of(members, "h"),
        max: number_of(members, "max"),
        data: text_of(members, "data"),
    }
}

/// Reads what a result holds from the members of its object.
pub fn found_of(members: &Vec<Member>) -> (f: Found)
    ensures
        f.handle == spec_number_of(members@, "handle"@),
        f.written == spec_number_of(members@, "written"@),
        f.eof == spec_flag_of(members@, "eof"@),
        opt_text(f.data) == spec_text_of(members@, "data"@),
        f.pong == (spec_lookup(members@, "pong"@, 0) is Some),
{
    Found {
        handle: number_of(members, "handle"),
        written: number_of(members, "written"),
        eof: flag_of(members, "eof"),
        data: text_of(members, "data"),
        pong: lookup(members, "pong").is_some(),
    }
}

/// What was found in the object that carries a result: for each member
/// that a result can have, its value where it is there with the right
/// type, and for the members that only mark a result, whether they are
/// there.
pub struct Found {
    pub handle: Option<u64>,
    pub written: Option<u64>,
    pub eof: Option<bool>,
    pub data: Option<String>,
    pub pong: bool,
}

/// The result that the members found stand for. A handle is there where
/// its member is a 32-bit number; a chunk without `eof` has not ended and
/// one without `data` is empty.
pub open spec fn spec_result_of(f: Found) -> ResultView {
    if f.handle is Some && f.handle->Some_0 <= u32::MAX {
        ResultView::Handle(f.handle->Some_0 as u32)
    } else if f.written is Some {
        ResultView::Written(f.written->Some_0)
    } else if f.data is Some || f.eof is Some {
        ResultView::Data {
            eof: match f.eof {
                Some(e) => e,
                None => false,
            },
            data: match f.data {
                Some(d) => d@,
                None => Seq::empty(),
            },
        }
    } else if f.pong {
        ResultView::Pong
    } else {
        ResultView::Closed
    }
}

/// Reads a result from the members that were found.
pub fn result_of(f: Found) -> (r: ResultBody)
    ensures
        r@ == spec_result_of(f),
{
    match f.handle {
        Some(h) => {
            if h <= u32::MAX as u64 {
                return ResultBody::Handle(h as u32);
            }
        },
        None => {},
    }
    match f.written {
        Some(n) => {
            return ResultBody::Written(n);
        },
        None => {},
    }
    if f.data.is_some() || f.eof.is_some() {
        let eof = match f.eof {
            Some(e) => e,
            None => false,
        };
        let data = match f.data {
            Some(d) => d,
            None => String::new(),
        };
        return ResultBody::Data { eof, data };
    }
    if f.pong {
        ResultBody::Pong
    } else {
        ResultBody::Closed
    }
}

/// The response that an object on the wire stands for: it succeeded only
/// where its `ok` says so; a failure without a code has the code `?`.
pub open spec fn spec_response_of(
    id: Seq<char>,
    ok: Option<bool>,
    result: Option<Found>,
    code: Option<Seq<char>>,
    message: Option<Seq<char>>,
) -> ResponseView {
    if ok == Some(true) {
        ResponseView {
            id,
            ok: true,
            result: Some(
                match result {
                    Some(f) => spec_result_of(f),
                    None => ResultView::Closed,
                },
            ),
            error: None,
        }
    } else {
        ResponseView {
            id,
            ok: false,
            result: None,
            error: Some(
                crate::message::ErrorView {
                    code: match code {
                        Some(c) => c,
                        None => "?"@,
                    },
                    message: match message {
                        Some(m) => m,
                        None => Seq::empty(),
                    },
                },
            ),
        }
    }
}

/// Reads a response from what was found in its object.
pub fn response_of(
    id: String,
    ok: Option<bool>,
    result: Option<Found>,
    code: Option<String>,
    message: Option<String>,
) -> (r: Response)
    ensures
        r.wf(),
        r@ == spec_response_of(id@, ok, result, opt_text(code), opt_text(message)),
{
    let succeeded = match ok {
        Some(b) => b,
        None => false,
    };
    if succeeded {
        let body = match result {
            Some(f) => result_of(f),
            None => ResultBody::Closed,
        };
        Response { id, ok: true, result: Some(body), error: None }
    } else {
        let code = match code {
            Some(c) => c,
            None => "?".to_owned(),
        };
        let message = match message {
            Some(m) => m,
            None => String::new(),
        };
        Response { id, ok: false, result: None, error: Some(ErrorBody { code, message }) }
    }
}

} // verus!
