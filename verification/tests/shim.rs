use llmsh_vfs::broker::{OpenOutcome, State, Step};
use llmsh_vfs::codes::VfsErrorCode;
use llmsh_vfs::message::{err, ok, Request, Response, ResultBody};
use llmsh_vfs::shim::{
    close_reply, open_reply, read_reply, stdin_reply, write_reply, Call, ChildMux, WriteNext,
};

/// A broker with one virtual file kept in memory, which takes at most
/// `cap` bytes for each write.
struct Store {
    state: State,
    bytes: Vec<u8>,
    cap: usize,
    writes: Vec<u64>,
}

impl Store {
    fn new(cap: usize) -> Store {
        Store { state: State::new(vec![], vec![]), bytes: Vec::new(), cap, writes: Vec::new() }
    }

    fn send(&mut self, req: Request) -> Response {
        match self.state.handle(&req) {
            Step::Reply(r) => r,
            Step::Close { response, .. } => response,
            Step::Open { id, plan } => {
                if plan.fresh {
                    self.bytes.clear();
                }
                self.state.open_done(id, &plan, OpenOutcome::Opened)
            }
            Step::Read { id, handle, max, at } => {
                let from = std::cmp::min(at as usize, self.bytes.len());
                let end = std::cmp::min(self.bytes.len(), from + max);
                let chunk = self.bytes[from..end].to_vec();
                self.state.read_done(id, handle, Some(&chunk))
            }
            Step::Write { id, handle, data, place } => {
                let n = std::cmp::min(self.cap, data.len());
                let pos = place.map(|p| p as usize).unwrap_or(self.bytes.len());
                self.bytes.truncate(pos);
                self.bytes.extend_from_slice(&data[..n]);
                self.writes.push(n as u64);
                self.state.write_done(id, handle, Some(n as u64))
            }
        }
    }
}

fn sent(call: Call) -> Request {
    match call {
        Call::Send(r) => r,
        _ => panic!("expected a request"),
    }
}

#[test]
fn requests_are_numbered_from_one() {
    let mut c = ChildMux::new();
    assert_eq!(c.next_id(), "1");
    let open = c.open("a.txt", "r");
    assert_eq!(open.id, "2");
    assert_eq!(open.op, "open");
    assert_eq!(open.params.path, Some("a.txt".to_string()));
    assert_eq!(open.params.mode, Some("r".to_string()));
    let read = sent(c.read_chunk(5, 100));
    assert_eq!((read.id.as_str(), read.op.as_str()), ("3", "read"));
    assert_eq!((read.params.h, read.params.max), (Some(5), Some(100)));
    let write = sent(c.write_chunk(5, b"hello", 0));
    assert_eq!((write.id.as_str(), write.op.as_str()), ("4", "write"));
    assert_eq!(write.params.data, Some("aGVsbG8=".to_string()));
    let rest = sent(c.write_chunk(5, b"hello", 3));
    assert_eq!(rest.params.data, Some("bG8=".to_string()));
    let close = sent(c.close(5));
    assert_eq!((close.id.as_str(), close.op.as_str()), ("6", "close"));
    assert_eq!(close.params.h, Some(5));
}

#[test]
fn reserved_handles_are_served_by_the_stage() {
    let mut c = ChildMux::new();
    assert!(matches!(c.read_chunk(0, 100), Call::ReadStdin { max: 100 }));
    assert!(matches!(c.read_chunk(0, 100000), Call::ReadStdin { max: 4096 }));
    assert!(matches!(c.read_chunk(0, 1), Call::ReadStdin { max: 1 }));
    assert!(matches!(c.read_chunk(0, 0), Call::Invalid));
    assert!(matches!(c.read_chunk(2, 0), Call::Invalid));
    assert!(matches!(c.read_chunk(1, 8), Call::Denied));
    assert!(matches!(c.read_chunk(2, 8), Call::Denied));
    assert!(matches!(c.write_chunk(1, b"x", 0), Call::WriteStd { handle: 1 }));
    assert!(matches!(c.write_chunk(2, b"x", 0), Call::WriteStd { handle: 2 }));
    assert!(matches!(c.write_chunk(0, b"x", 0), Call::Denied));
    assert!(matches!(c.close(0), Call::Done));
    assert!(matches!(c.close(2), Call::Done));
    assert!(matches!(c.write_chunk(9, b"", 0), Call::Done));
    assert_eq!(c.next_id(), "1");
    assert_eq!(stdin_reply(b"hi\n".to_vec()), (b"hi\n".to_vec(), false));
    assert_eq!(stdin_reply(Vec::new()), (Vec::new(), true));
}

#[test]
fn large_write_takes_several_frames() {
    let payload: Vec<u8> = (0..100 * 1024).map(|i| (i % 251) as u8).collect();
    let mut store = Store::new(30000);
    let mut c = ChildMux::new();
    let h = open_reply(&store.send(c.open("big", "rw"))).unwrap();
    let mut done = 0usize;
    let mut frames = 0;
    let total = loop {
        match c.write_chunk(h, &payload, done) {
            Call::Done => break done,
            Call::Send(req) => {
                frames += 1;
                let resp = store.send(req);
                match write_reply(done, payload.len(), &resp) {
                    WriteNext::Finished { total } => break total,
                    WriteNext::More { total } => done = total,
                    WriteNext::Failed(code) => panic!("write failed: {:?}", code),
                }
            }
            _ => panic!("unexpected call"),
        }
    };
    assert_eq!(total, 100 * 1024);
    assert_eq!(frames, 4);
    assert_eq!(store.writes, vec![30000, 30000, 30000, 12400]);
    assert_eq!(store.writes.iter().sum::<u64>(), 100 * 1024);
    assert!(close_reply(&store.send(sent(c.close(h)))).is_ok());
    let h2 = open_reply(&store.send(c.open("big", "rw"))).unwrap();
    let mut back = Vec::new();
    loop {
        let (chunk, eof) = read_reply(&store.send(sent(c.read_chunk(h2, 4096)))).unwrap();
        back.extend_from_slice(&chunk);
        if eof {
            break;
        }
    }
    assert_eq!(back, payload);
}

#[test]
fn write_without_progress_is_an_io_error() {
    let stuck = ok("1".to_string(), ResultBody::Written(0));
    assert!(matches!(write_reply(0, 10, &stuck), WriteNext::Failed(VfsErrorCode::EIO)));
    let odd = ok("1".to_string(), ResultBody::Closed);
    assert!(matches!(write_reply(0, 10, &odd), WriteNext::Failed(VfsErrorCode::EIO)));
    let some = ok("1".to_string(), ResultBody::Written(4));
    assert!(matches!(write_reply(2, 10, &some), WriteNext::More { total: 6 }));
    let all = ok("1".to_string(), ResultBody::Written(8));
    assert!(matches!(write_reply(2, 10, &all), WriteNext::Finished { total: 10 }));
    let over = ok("1".to_string(), ResultBody::Written(20));
    assert!(matches!(write_reply(2, 10, &over), WriteNext::Finished { total: 22 }));
    let denied = err("1".to_string(), "E_PERM", "not writable");
    assert!(matches!(write_reply(2, 10, &denied), WriteNext::Failed(VfsErrorCode::EPerm)));
}

#[test]
fn replies_are_decoded() {
    let opened = ok("1".to_string(), ResultBody::Handle(9));
    assert_eq!(open_reply(&opened).unwrap(), 9);
    assert_eq!(open_reply(&ok("1".to_string(), ResultBody::Pong)).unwrap(), 0);
    let missing = err("1".to_string(), "E_NOENT", "not found");
    assert!(matches!(open_reply(&missing), Err(VfsErrorCode::ENoEnt)));
    let data = ok("2".to_string(), ResultBody::Data { eof: true, data: "aGk=".to_string() });
    assert_eq!(read_reply(&data).unwrap(), (b"hi".to_vec(), true));
    let end = ok("2".to_string(), ResultBody::Data { eof: true, data: String::new() });
    assert_eq!(read_reply(&end).unwrap(), (vec![], true));
    let junk = ok("2".to_string(), ResultBody::Data { eof: false, data: "%%".to_string() });
    assert_eq!(read_reply(&junk).unwrap(), (vec![], false));
    let closed = err("3".to_string(), "E_CLOSED", "invalid handle");
    assert!(matches!(read_reply(&closed), Err(VfsErrorCode::EClosed)));
    let other = err("3".to_string(), "E_NEW", "?");
    match read_reply(&other) {
        Err(VfsErrorCode::Other(s)) => assert_eq!(s, "E_NEW"),
        _ => panic!("expected an unknown code"),
    }
    assert!(close_reply(&ok("4".to_string(), ResultBody::Closed)).is_ok());
    assert!(matches!(close_reply(&err("4".to_string(), "E_IO", "x")), Err(VfsErrorCode::EIO)));
    assert!(matches!(
        close_reply(&err("4".to_string(), "E_CLOSED", "invalid handle")),
        Err(VfsErrorCode::EClosed)
    ));
}
