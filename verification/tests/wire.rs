use llmsh_vfs::message::{err, ok, Params, ResultBody};
use llmsh_vfs::wire::{
    error_fields, found_of, params_fields, params_of, response_of, result_fields, result_of,
    Field, FieldValue, Found, Member,
};

fn shown(fields: &[Field]) -> Vec<String> {
    fields
        .iter()
        .map(|f| match &f.value {
            FieldValue::Text(s) => format!("{}={:?}", f.key, s),
            FieldValue::Number(n) => format!("{}={}", f.key, n),
            FieldValue::Flag(b) => format!("{}={}", f.key, b),
        })
        .collect()
}

fn member(key: &str, value: FieldValue) -> Member {
    Member { key: key.to_string(), value }
}

fn nothing() -> Found {
    Found { handle: None, written: None, eof: None, data: None, pong: false }
}

#[test]
fn members_of_results_and_errors() {
    assert_eq!(shown(&result_fields(&ResultBody::Pong)), vec!["pong=true"]);
    assert_eq!(shown(&result_fields(&ResultBody::Handle(3))), vec!["handle=3"]);
    assert_eq!(shown(&result_fields(&ResultBody::Written(9))), vec!["written=9"]);
    assert_eq!(shown(&result_fields(&ResultBody::Closed)), vec!["closed=true"]);
    let data = ResultBody::Data { eof: false, data: "aGk=".to_string() };
    assert_eq!(shown(&result_fields(&data)), vec!["eof=false", "data=\"aGk=\""]);
    let e = err("1".to_string(), "E_PERM", "not writable").error.unwrap();
    assert_eq!(shown(&error_fields(&e)), vec!["code=\"E_PERM\"", "message=\"not writable\""]);
}

#[test]
fn members_of_parameters() {
    let none = Params { path: None, mode: None, h: None, max: None, data: None };
    assert!(params_fields(&none).is_empty());
    let open = Params {
        path: Some("a.txt".to_string()),
        mode: Some("rw".to_string()),
        h: None,
        max: None,
        data: None,
    };
    assert_eq!(shown(&params_fields(&open)), vec!["path=\"a.txt\"", "mode=\"rw\""]);
    let all = Params {
        path: Some("p".to_string()),
        mode: Some("m".to_string()),
        h: Some(4),
        max: Some(16),
        data: Some("eA==".to_string()),
    };
    assert_eq!(
        shown(&params_fields(&all)),
        vec!["path=\"p\"", "mode=\"m\"", "h=4", "max=16", "data=\"eA==\""]
    );
}

#[test]
fn parameters_are_read_by_key_and_type() {
    let members = vec![
        member("h", FieldValue::Number(5)),
        member("max", FieldValue::Text("16".to_string())),
        member("path", FieldValue::Text("a".to_string())),
        member("mode", FieldValue::Flag(true)),
        member("extra", FieldValue::Number(1)),
        member("path", FieldValue::Text("b".to_string())),
    ];
    let p = params_of(&members);
    assert_eq!(p.h, Some(5));
    assert_eq!(p.max, None);
    assert_eq!(p.path, Some("a".to_string()));
    assert_eq!(p.mode, None);
    assert_eq!(p.data, None);
    let empty = params_of(&vec![]);
    assert!(empty.h.is_none() && empty.path.is_none());
}

#[test]
fn results_are_read_from_what_was_found() {
    let f = found_of(&vec![member("handle", FieldValue::Number(7))]);
    assert!(matches!(result_of(f), ResultBody::Handle(7)));
    let f = found_of(&vec![member("handle", FieldValue::Number(u32::MAX as u64))]);
    assert!(matches!(result_of(f), ResultBody::Handle(u32::MAX)));
    let f = found_of(&vec![member("handle", FieldValue::Number((1 << 32) + 7))]);
    assert!(matches!(result_of(f), ResultBody::Closed));
    let f = found_of(&vec![member("written", FieldValue::Number(12))]);
    assert!(matches!(result_of(f), ResultBody::Written(12)));
    let f = found_of(&vec![member("eof", FieldValue::Flag(true))]);
    match result_of(f) {
        ResultBody::Data { eof, data } => assert!(eof && data.is_empty()),
        _ => panic!("expected a chunk"),
    }
    let f = found_of(&vec![member("data", FieldValue::Text("eA==".to_string()))]);
    match result_of(f) {
        ResultBody::Data { eof, data } => assert!(!eof && data == "eA=="),
        _ => panic!("expected a chunk"),
    }
    let f = found_of(&vec![member("pong", FieldValue::Flag(true))]);
    assert!(matches!(result_of(f), ResultBody::Pong));
    assert!(matches!(result_of(found_of(&vec![])), ResultBody::Closed));
    assert!(matches!(result_of(nothing()), ResultBody::Closed));
}

#[test]
fn responses_are_read_with_their_defaults() {
    let r = response_of("7".to_string(), Some(true), None, None, None);
    assert!(r.ok && r.error.is_none());
    assert!(matches!(r.result, Some(ResultBody::Closed)));
    let r = response_of("7".to_string(), None, Some(nothing()), None, None);
    assert!(!r.ok && r.result.is_none());
    assert_eq!(r.error.unwrap().code, "?");
    let r = response_of(
        "7".to_string(),
        Some(false),
        None,
        Some("E_IO".to_string()),
        Some("read failed".to_string()),
    );
    let e = r.error.unwrap();
    assert_eq!((e.code.as_str(), e.message.as_str()), ("E_IO", "read failed"));
    let through = ok("9".to_string(), ResultBody::Handle(3));
    let members: Vec<Member> = result_fields(through.result.as_ref().unwrap())
        .into_iter()
        .map(|f| Member { key: f.key.to_string(), value: f.value })
        .collect();
    let back = response_of(through.id.clone(), Some(true), Some(found_of(&members)), None, None);
    assert!(matches!(back.result, Some(ResultBody::Handle(3))));
}
