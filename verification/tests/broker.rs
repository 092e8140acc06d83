use base64::Engine;
use llmsh_vfs::broker::{path_allowed, OpenOutcome, State, Step};
use llmsh_vfs::codes::{map_code, map_exit};
use llmsh_vfs::message::{Params, Request, Response, ResultBody};
use std::collections::HashMap;

fn b64(s: &str) -> String {
    base64::engine::general_purpose::STANDARD.encode(s.as_bytes())
}

fn unb64(s: &str) -> Vec<u8> {
    base64::engine::general_purpose::STANDARD.decode(s).unwrap()
}

fn request(id: &str, op: &str) -> Request {
    Request {
        id: id.to_string(),
        op: op.to_string(),
        params: Params { path: None, mode: None, h: None, max: None, data: None },
        version: None,
    }
}

fn open_req(id: &str, path: &str, mode: &str) -> Request {
    let mut r = request(id, "open");
    r.params.path = Some(path.to_string());
    r.params.mode = Some(mode.to_string());
    r
}

fn read_req(id: &str, h: u32, max: u64) -> Request {
    let mut r = request(id, "read");
    r.params.h = Some(h as u64);
    r.params.max = Some(max);
    r
}

fn write_req(id: &str, h: u32, data: &str) -> Request {
    let mut r = request(id, "write");
    r.params.h = Some(h as u64);
    r.params.data = Some(data.to_string());
    r
}

fn close_req(id: &str, h: u32) -> Request {
    let mut r = request(id, "close");
    r.params.h = Some(h as u64);
    r
}

fn code(resp: &Response) -> String {
    resp.error.as_ref().map(|e| e.code.clone()).unwrap_or_default()
}

fn handle_in(resp: &Response) -> u32 {
    match resp.result {
        Some(ResultBody::Handle(h)) => h,
        _ => panic!("no handle in response"),
    }
}

fn data_in(resp: &Response) -> Vec<u8> {
    match &resp.result {
        Some(ResultBody::Data { data, .. }) => unb64(data),
        _ => panic!("no data in response"),
    }
}

#[derive(Clone)]
enum Place {
    Real(String),
    Anon(u64),
}

/// Files kept in memory, standing in for the files that a broker process
/// would own.
struct Rig {
    state: State,
    real: HashMap<String, Vec<u8>>,
    anon: HashMap<u64, Vec<u8>>,
    open: HashMap<u32, Place>,
    write_cap: usize,
}

impl Rig {
    fn new(allow_read: &[&str], allow_write: &[&str]) -> Rig {
        Rig {
            state: State::new(
                allow_read.iter().map(|s| s.to_string()).collect(),
                allow_write.iter().map(|s| s.to_string()).collect(),
            ),
            real: HashMap::new(),
            anon: HashMap::new(),
            open: HashMap::new(),
            write_cap: usize::MAX,
        }
    }

    fn file(&mut self, place: &Place) -> &mut Vec<u8> {
        match place {
            Place::Real(p) => self.real.get_mut(p).unwrap(),
            Place::Anon(b) => self.anon.get_mut(b).unwrap(),
        }
    }

    fn send(&mut self, req: Request) -> Response {
        match self.state.handle(&req) {
            Step::Reply(r) => r,
            Step::Close { handle, response } => {
                self.open.remove(&handle);
                response
            }
            Step::Open { id, plan } => {
                let (outcome, place) = match plan.backing {
                    None => {
                        if !self.real.contains_key(&plan.path) {
                            if plan.flags.create {
                                self.real.insert(plan.path.clone(), Vec::new());
                            } else {
                                let r = self.state.open_done(id, &plan, OpenOutcome::NotFound);
                                return r;
                            }
                        }
                        if plan.flags.truncate {
                            self.real.insert(plan.path.clone(), Vec::new());
                        }
                        (OpenOutcome::Opened, Place::Real(plan.path.clone()))
                    }
                    Some(b) => {
                        if plan.fresh {
                            self.anon.insert(b, Vec::new());
                        }
                        (OpenOutcome::Opened, Place::Anon(b))
                    }
                };
                let r = self.state.open_done(id, &plan, outcome);
                let h = handle_in(&r);
                self.open.insert(h, place);
                r
            }
            Step::Read { id, handle, max, at } => {
                let place = self.open.get(&handle).unwrap().clone();
                let chunk: Vec<u8> = {
                    let f = self.file(&place);
                    let from = std::cmp::min(at as usize, f.len());
                    let end = std::cmp::min(f.len(), from + max);
                    f[from..end].to_vec()
                };
                self.state.read_done(id, handle, Some(&chunk))
            }
            Step::Write { id, handle, data, place: at } => {
                let place = self.open.get(&handle).unwrap().clone();
                let n = std::cmp::min(data.len(), self.write_cap);
                {
                    let f = self.file(&place);
                    let pos = match at {
                        Some(p) => p as usize,
                        None => f.len(),
                    };
                    if f.len() < pos {
                        f.resize(pos, 0);
                    }
                    for (k, b) in data[..n].iter().enumerate() {
                        if pos + k < f.len() {
                            f[pos + k] = *b;
                        } else {
                            f.push(*b);
                        }
                    }
                }
                self.state.write_done(id, handle, Some(n as u64))
            }
        }
    }
}

#[test]
fn open_r_nonexistent_returns_noent() {
    let mut rig = Rig::new(&[], &[]);
    let resp = rig.send(open_req("1", "nonexistent.txt", "r"));
    assert_eq!(resp.ok, false);
    assert_eq!(code(&resp), "E_NOENT");
    assert_eq!(resp.id, "1");
}

#[test]
fn invalid_mode() {
    let mut rig = Rig::new(&[], &[]);
    let resp = rig.send(open_req("1", "x", "rr"));
    assert_eq!(resp.ok, false);
    assert_eq!(code(&resp), "E_ARG");
}

#[test]
fn read_max_zero() {
    let mut rig = Rig::new(&[], &[]);
    let opened = rig.send(open_req("1", "virt_rw", "rw"));
    let resp = rig.send(read_req("2", 1, 0));
    assert_eq!(resp.ok, false);
    assert_eq!(code(&resp), "E_ARG");
    let resp = rig.send(read_req("3", handle_in(&opened), 0));
    assert_eq!(resp.ok, false);
    assert_eq!(code(&resp), "E_ARG");
}

#[test]
fn write_on_read_only() {
    let path = "test_read_only.txt";
    let mut rig = Rig::new(&[path], &[]);
    rig.real.insert(path.to_string(), b"DATA".to_vec());
    let opened = rig.send(open_req("1", path, "r"));
    assert!(opened.ok);
    let resp = rig.send(write_req("2", 1, &b64("X")));
    assert_eq!(resp.ok, false);
    assert_eq!(code(&resp), "E_PERM");
    let resp = rig.send(write_req("3", handle_in(&opened), &b64("X")));
    assert_eq!(resp.ok, false);
    assert_eq!(code(&resp), "E_PERM");
    assert_eq!(rig.real[path], b"DATA".to_vec());
}

#[test]
fn append_and_then_read_via_rw() {
    let path = "append_test.txt";
    let mut rig = Rig::new(&[], &[path]);
    let opened = rig.send(open_req("1", path, "a"));
    let h = handle_in(&opened);
    let resps = vec![
        opened,
        rig.send(write_req("2", h, &b64("A"))),
        rig.send(write_req("3", h, &b64("B"))),
        rig.send(close_req("4", h)),
    ];
    assert!(resps.iter().all(|r| r.ok));
    let again = rig.send(open_req("5", path, "rw"));
    let read = rig.send(read_req("6", handle_in(&again), 16));
    assert_eq!(read.ok, true);
    let data = String::from_utf8(data_in(&read)).unwrap();
    assert_eq!(data, "AB");
}

#[test]
fn close_then_access() {
    let mut rig = Rig::new(&[], &[]);
    let opened = rig.send(open_req("1", "v1", "rw"));
    let h = handle_in(&opened);
    let closed = rig.send(close_req("2", h));
    assert!(closed.ok);
    assert!(matches!(closed.result, Some(ResultBody::Closed)));
    let resp = rig.send(read_req("3", h, 8));
    assert_eq!(resp.ok, false);
    assert_eq!(code(&resp), "E_CLOSED");
    let resp = rig.send(write_req("4", h, &b64("x")));
    assert_eq!(code(&resp), "E_CLOSED");
    let resp = rig.send(close_req("5", h));
    assert_eq!(code(&resp), "E_CLOSED");
}

#[test]
fn virtual_path_modes_and_truncate() {
    let mut rig = Rig::new(&[], &["real_trunc.txt"]);
    let r_resp = rig.send(open_req("1", "virt_missing", "r"));
    assert_eq!(r_resp.ok, false);
    assert_eq!(code(&r_resp), "E_NOENT");
    let w = rig.send(open_req("2", "virt_w", "w"));
    let read_fail = rig.send(read_req("3", handle_in(&w), 4));
    assert_eq!(read_fail.ok, false);
    assert_eq!(code(&read_fail), "E_PERM");
    let rw = rig.send(open_req("4", "virt_rw2", "rw"));
    let h = handle_in(&rw);
    let _ = rig.send(write_req("5", h, &b64("hi")));
    let got = rig.send(read_req("6", h, 8));
    assert_eq!(got.ok, true);
    assert_eq!(String::from_utf8(data_in(&got)).unwrap(), "hi");

    let path = "real_trunc.txt";
    let mut rig2 = Rig::new(&[path], &[path]);
    rig2.real.insert(path.to_string(), b"HELLO".to_vec());
    let o1 = rig2.send(open_req("1", path, "rw"));
    let _ = rig2.send(read_req("2", handle_in(&o1), 16));
    let _ = rig2.send(close_req("3", handle_in(&o1)));
    let o2 = rig2.send(open_req("4", path, "w"));
    let _ = rig2.send(write_req("5", handle_in(&o2), &b64("X")));
    let _ = rig2.send(close_req("6", handle_in(&o2)));
    let o3 = rig2.send(open_req("7", path, "rw"));
    let read = rig2.send(read_req("8", handle_in(&o3), 16));
    assert_eq!(read.ok, true);
    let txt = String::from_utf8(data_in(&read)).unwrap();
    assert!(txt == "X" || txt == "", "unexpected content after truncate: {txt}");
}

#[test]
fn open_w_then_read_fails() {
    let mut rig = Rig::new(&[], &[]);
    let r0 = rig.send(open_req("1", "f1.txt", "w"));
    let r1 = rig.send(read_req("2", 1, 16));
    assert_eq!(r0.ok, true);
    assert_eq!(r1.ok, false);
    assert_eq!(code(&r1), "E_PERM");
    let r2 = rig.send(read_req("3", handle_in(&r0), 16));
    assert_eq!(r2.ok, false);
    assert_eq!(code(&r2), "E_PERM");
    assert_eq!(r2.error.unwrap().message, "not readable");
}

#[test]
fn open_a_append_and_read_fails() {
    let mut rig = Rig::new(&[], &[]);
    let r0 = rig.send(open_req("1", "f2.txt", "a"));
    let r1 = rig.send(read_req("2", 1, 8));
    assert_eq!(r0.ok, true);
    assert_eq!(r1.ok, false);
    assert_eq!(code(&r1), "E_PERM");
    let r2 = rig.send(read_req("3", handle_in(&r0), 8));
    assert_eq!(code(&r2), "E_PERM");
}

#[test]
fn open_rw_create_then_write_and_read() {
    let mut rig = Rig::new(&[], &[]);
    let r0 = rig.send(open_req("1", "f3.txt", "rw"));
    let h = handle_in(&r0);
    let r1 = rig.send(write_req("2", h, "aGVsbG8="));
    let r2 = rig.send(read_req("3", h, 10));
    assert_eq!(r0.ok, true);
    assert_eq!(r1.ok, true);
    assert_eq!(r2.ok, true);
    match &r2.result {
        Some(ResultBody::Data { data, .. }) => {
            assert_eq!(*data, base64::engine::general_purpose::STANDARD.encode(b"hello"))
        }
        _ => panic!("no data"),
    }
    assert!(matches!(r1.result, Some(ResultBody::Written(5))));
}

#[test]
fn open_w_truncates() {
    let mut rig = Rig::new(&[], &[]);
    let r0 = rig.send(open_req("1", "f4.txt", "rw"));
    let h1 = handle_in(&r0);
    let _ = rig.send(write_req("2", h1, "YQ=="));
    let r2 = rig.send(read_req("3", h1, 4));
    let _ = rig.send(close_req("4", h1));
    let r4 = rig.send(open_req("5", "f4.txt", "w"));
    let h2 = handle_in(&r4);
    let r5 = rig.send(write_req("6", h2, "Yg=="));
    let r6 = rig.send(read_req("7", h2, 4));
    assert_eq!(r2.ok, true);
    assert_eq!(r5.ok, true);
    assert_eq!(r6.ok, false);
    assert_eq!(code(&r6), "E_PERM");
    let _ = rig.send(close_req("8", h2));
    let r8 = rig.send(open_req("9", "f4.txt", "rw"));
    let r9 = rig.send(read_req("10", handle_in(&r8), 4));
    assert_eq!(data_in(&r9), b"b".to_vec());
}

#[test]
fn first_handle_is_three_and_handles_are_not_reused() {
    let mut rig = Rig::new(&[], &[]);
    let a = handle_in(&rig.send(open_req("1", "p", "rw")));
    assert_eq!(a, 3);
    let _ = rig.send(close_req("2", a));
    let b = handle_in(&rig.send(open_req("3", "p", "rw")));
    assert_eq!(b, 4);
    assert_eq!(rig.state.open_count(), 1);
    assert!(rig.state.kind_of(a).is_none());
    let k = rig.state.kind_of(b).unwrap();
    assert!(k.readable && k.writable && !k.append);
}

#[test]
fn ping_and_unknown_operation() {
    let mut rig = Rig::new(&[], &[]);
    let pong = rig.send(request("7", "ping"));
    assert!(pong.ok);
    assert!(matches!(pong.result, Some(ResultBody::Pong)));
    assert!(pong.error.is_none());
    for name in ["init", "seek", "Ping", "ping ", ""] {
        let resp = rig.send(request("8", name));
        assert!(!resp.ok);
        assert!(resp.result.is_none());
        assert_eq!(code(&resp), "E_UNSUPPORTED");
        assert_eq!(resp.error.unwrap().message, name);
    }
    let odd = rig.send(request("9", "stat"));
    assert!(!odd.ok);
    assert!(odd.result.is_none());
    assert_eq!(code(&odd), "E_UNSUPPORTED");
    assert_eq!(odd.error.unwrap().message, "stat");
    assert_eq!(odd.id, "9");
}

#[test]
fn missing_parameters_are_arg_errors() {
    let mut rig = Rig::new(&[], &[]);
    let mut r = request("1", "open");
    assert_eq!(code(&rig.send(request("1", "open"))), "E_ARG");
    r.params.path = Some("p".to_string());
    assert_eq!(code(&rig.send(r)), "E_ARG");
    assert_eq!(code(&rig.send(request("2", "read"))), "E_ARG");
    assert_eq!(code(&rig.send(request("3", "write"))), "E_ARG");
    assert_eq!(code(&rig.send(request("4", "close"))), "E_ARG");
    let h = handle_in(&rig.send(open_req("5", "p", "rw")));
    let mut w = request("6", "write");
    w.params.h = Some(h as u64);
    assert_eq!(code(&rig.send(w)), "E_ARG");
    let bad = rig.send(write_req("7", h, "!!!not base64!!!"));
    assert_eq!(code(&bad), "E_ARG");
    assert_eq!(bad.error.unwrap().message, "bad base64");
}

#[test]
fn reserved_handles_are_refused_by_the_broker() {
    let mut rig = Rig::new(&[], &[]);
    for h in 0..3u32 {
        assert_eq!(code(&rig.send(read_req("1", h, 8))), "E_PERM");
        assert_eq!(code(&rig.send(write_req("2", h, &b64("x")))), "E_PERM");
        assert_eq!(code(&rig.send(close_req("3", h))), "E_PERM");
    }
    assert_eq!(code(&rig.send(read_req("4", 3, 8))), "E_CLOSED");
}

#[test]
fn read_is_clamped_to_4096_and_reports_eof() {
    let mut rig = Rig::new(&["big"], &[]);
    rig.real.insert("big".to_string(), vec![7u8; 5000]);
    let h = handle_in(&rig.send(open_req("1", "big", "r")));
    let first = rig.send(read_req("2", h, 100000));
    assert_eq!(data_in(&first).len(), 4096);
    let mut r = request("3", "read");
    r.params.h = Some(h as u64);
    let without_max = rig.send(r);
    assert_eq!(code(&without_max), "E_ARG");
    assert_eq!(without_max.error.unwrap().message, "missing max");
    let second = rig.send(read_req("3", h, 4096));
    assert_eq!(data_in(&second).len(), 904);
    let third = rig.send(read_req("4", h, 16));
    match third.result {
        Some(ResultBody::Data { eof, data }) => {
            assert!(eof);
            assert_eq!(data, "");
        }
        _ => panic!("no data"),
    }
}

#[test]
fn real_file_missing_for_read_is_noent() {
    let mut rig = Rig::new(&["listed.txt"], &[]);
    let resp = rig.send(open_req("1", "listed.txt", "r"));
    assert_eq!(code(&resp), "E_NOENT");
    assert_eq!(resp.error.unwrap().message, "not found");
    assert_eq!(rig.state.open_count(), 0);
}

#[test]
fn failed_file_operations_are_io_errors() {
    let mut state = State::new(vec!["f".to_string()], vec![]);
    let step = state.handle(&open_req("1", "f", "r"));
    let resp = match step {
        Step::Open { id, plan } => {
            assert!(plan.backing.is_none());
            assert!(!plan.fresh);
            assert_eq!(plan.path, "f");
            state.open_done(id, &plan, OpenOutcome::Failed)
        }
        _ => panic!("expected an open step"),
    };
    assert_eq!(code(&resp), "E_IO");
    assert_eq!(code(&state.read_done("2".to_string(), 3, None)), "E_IO");
    assert_eq!(code(&state.write_done("3".to_string(), 3, None)), "E_IO");
    let partial = state.write_done("4".to_string(), 3, Some(3));
    assert!(matches!(partial.result, Some(ResultBody::Written(3))));
}

#[test]
fn write_list_implies_read() {
    let mut rig = Rig::new(&[], &["out.txt"]);
    rig.real.insert("out.txt".to_string(), b"abc".to_vec());
    let h = handle_in(&rig.send(open_req("1", "out.txt", "r")));
    assert_eq!(data_in(&rig.send(read_req("2", h, 8))), b"abc".to_vec());
    let list = vec!["a".to_string(), "b c".to_string()];
    assert!(path_allowed(&list, "b c"));
    assert!(!path_allowed(&list, "b"));
    assert!(!path_allowed(&list, "./a"));
    assert!(!path_allowed(&[], "a"));
}

#[test]
fn unlisted_write_goes_to_virtual_storage() {
    let mut rig = Rig::new(&["in.txt"], &[]);
    rig.real.insert("in.txt".to_string(), b"hi\n".to_vec());
    let src = handle_in(&rig.send(open_req("1", "in.txt", "r")));
    let got = data_in(&rig.send(read_req("2", src, 4096)));
    let dst = handle_in(&rig.send(open_req("3", "out.txt", "w")));
    let text = base64::engine::general_purpose::STANDARD.encode(&got);
    assert!(rig.send(write_req("4", dst, &text)).ok);
    assert!(rig.send(close_req("5", dst)).ok);
    assert!(!rig.real.contains_key("out.txt"));
    let again = handle_in(&rig.send(open_req("6", "out.txt", "rw")));
    assert_eq!(data_in(&rig.send(read_req("7", again, 4096))), b"hi\n".to_vec());
}

#[test]
fn missing_file_ends_the_stage_with_status_one() {
    let mut rig = Rig::new(&[], &[]);
    let resp = rig.send(open_req("1", "missing.txt", "r"));
    assert!(!resp.ok);
    assert_eq!(code(&resp), "E_NOENT");
    assert_eq!(map_exit(&map_code(&code(&resp))), 1);
}

#[test]
fn virtual_write_append_then_read() {
    let mut rig = Rig::new(&[], &[]);
    let w = handle_in(&rig.send(open_req("1", "v", "w")));
    assert!(rig.send(write_req("2", w, &b64("A"))).ok);
    assert!(rig.send(close_req("3", w)).ok);
    let a = handle_in(&rig.send(open_req("4", "v", "a")));
    assert!(rig.send(write_req("5", a, &b64("B"))).ok);
    assert!(rig.send(close_req("6", a)).ok);
    let rw = handle_in(&rig.send(open_req("7", "v", "rw")));
    assert_eq!(data_in(&rig.send(read_req("8", rw, 16))), b"AB".to_vec());
}

#[test]
fn virtual_backing_is_kept_or_replaced_by_mode() {
    let mut state = State::new(vec![], vec![]);
    let backing = |state: &mut State, mode: &str| match state.handle(&open_req("1", "p", mode)) {
        Step::Open { plan, .. } => (plan.backing.unwrap(), plan.fresh),
        _ => panic!("expected an open step"),
    };
    assert_eq!(backing(&mut state, "rw"), (0, true));
    assert_eq!(backing(&mut state, "rw"), (0, false));
    assert_eq!(backing(&mut state, "a"), (0, false));
    assert_eq!(backing(&mut state, "r"), (0, false));
    assert_eq!(backing(&mut state, "w"), (1, true));
    assert_eq!(backing(&mut state, "rw"), (1, false));
}

#[test]
fn a_handle_wider_than_32_bits_is_refused() {
    let mut rig = Rig::new(&[], &[]);
    let h = handle_in(&rig.send(open_req("1", "p", "rw")));
    for op in ["read", "write", "close"] {
        for wide in [(1u64 << 32) + h as u64, 1u64 << 32, u64::MAX] {
            let mut r = request("2", op);
            r.params.h = Some(wide);
            r.params.max = Some(8);
            r.params.data = Some(b64("x"));
            assert_eq!(code(&rig.send(r)), "E_ARG", "{} {}", op, wide);
        }
    }
    assert_eq!(rig.state.open_count(), 1);
    assert_eq!(code(&rig.send(close_req("3", u32::MAX))), "E_CLOSED");
    assert!(rig.send(close_req("4", h)).ok);
}

#[test]
fn writing_needs_the_write_list() {
    let mut rig = Rig::new(&["in.txt"], &["out.txt"]);
    rig.real.insert("in.txt".to_string(), b"keep".to_vec());
    for mode in ["w", "a", "rw"] {
        let resp = rig.send(open_req("1", "in.txt", mode));
        assert!(!resp.ok, "mode {}", mode);
        assert_eq!(code(&resp), "E_PERM");
    }
    assert_eq!(rig.real["in.txt"], b"keep".to_vec());
    assert_eq!(rig.state.open_count(), 0);
    assert!(rig.send(open_req("2", "in.txt", "r")).ok);
    for mode in ["w", "a", "rw", "r"] {
        assert!(rig.send(open_req("3", "out.txt", mode)).ok, "mode {}", mode);
    }
    assert!(rig.send(open_req("4", "elsewhere.txt", "w")).ok);
    assert!(!rig.real.contains_key("elsewhere.txt"));
}

#[test]
fn each_handle_has_positions_of_its_own() {
    let mut rig = Rig::new(&[], &[]);
    let a = handle_in(&rig.send(open_req("1", "p", "rw")));
    assert!(rig.send(write_req("2", a, &b64("hello world"))).ok);
    let b = handle_in(&rig.send(open_req("3", "p", "rw")));
    assert_eq!(data_in(&rig.send(read_req("4", a, 5))), b"hello".to_vec());
    assert_eq!(data_in(&rig.send(read_req("5", b, 3))), b"hel".to_vec());
    assert_eq!(data_in(&rig.send(read_req("6", a, 64))), b" world".to_vec());
    assert!(rig.send(write_req("7", b, &b64("J"))).ok);
    assert!(rig.send(write_req("8", a, &b64("!"))).ok);
    let c = handle_in(&rig.send(open_req("9", "p", "r")));
    assert_eq!(data_in(&rig.send(read_req("10", c, 64))), b"Jello world!".to_vec());
    assert_eq!((rig.state.kind_of(a).unwrap().rpos, rig.state.kind_of(a).unwrap().wpos), (11, 12));
    assert_eq!((rig.state.kind_of(b).unwrap().rpos, rig.state.kind_of(b).unwrap().wpos), (3, 1));
    let mut steps = State::new(vec![], vec![]);
    let plan = match steps.handle(&open_req("1", "q", "a")) {
        Step::Open { id, plan } => {
            steps.open_done(id, &plan, OpenOutcome::Opened);
            plan
        }
        _ => panic!("expected an open step"),
    };
    assert!(plan.fresh);
    match steps.handle(&write_req("2", 3, &b64("x"))) {
        Step::Write { place, data, .. } => {
            assert_eq!(place, None);
            assert_eq!(data, b"x".to_vec());
        }
        _ => panic!("expected a write step"),
    }
}
