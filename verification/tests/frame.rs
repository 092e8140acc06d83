use llmsh_vfs::frame::{encode_frame, read_frame, take_frame, take_frames, write_frame, FrameError};

#[test]
fn header_is_big_endian_length() {
    assert_eq!(encode_frame(b"hi").unwrap(), vec![0, 0, 0, 2, b'h', b'i']);
    assert_eq!(encode_frame(b"").unwrap(), vec![0, 0, 0, 0]);
    let big = vec![9u8; 70000];
    let framed = encode_frame(&big).unwrap();
    assert_eq!(&framed[..4], &[0x00, 0x01, 0x11, 0x70]);
    assert_eq!(framed.len(), 70004);
    assert_eq!(&framed[4..], &big[..]);
}

#[test]
fn write_frame_appends_header_and_body() {
    let mut out = vec![0xaa];
    write_frame(&mut out, b"abc").unwrap();
    write_frame(&mut out, b"").unwrap();
    assert_eq!(out, vec![0xaa, 0, 0, 0, 3, b'a', b'b', b'c', 0, 0, 0, 0]);
}

#[test]
fn read_frame_tells_clean_close_from_truncation() {
    assert_eq!(read_frame(&[]), Ok(None));
    assert_eq!(read_frame(&[0]), Err(FrameError::TruncatedHeader { got: 1 }));
    assert_eq!(read_frame(&[0, 0, 0]), Err(FrameError::TruncatedHeader { got: 3 }));
    assert_eq!(
        read_frame(&[0, 0, 0, 5, 1, 2]),
        Err(FrameError::TruncatedBody { got: 2, want: 5 })
    );
    assert_eq!(
        read_frame(&[0, 0, 1, 0]),
        Err(FrameError::TruncatedBody { got: 0, want: 256 })
    );
    assert_eq!(read_frame(&[0, 0, 0, 0]), Ok(Some((vec![], 4))));
    assert_eq!(read_frame(&[0, 0, 0, 2, 7, 8, 9, 9]), Ok(Some((vec![7, 8], 6))));
}

#[test]
fn read_frame_reads_back_what_write_frame_wrote() {
    let payload: Vec<u8> = (0..=255u8).cycle().take(65536).collect();
    let mut wire = Vec::new();
    write_frame(&mut wire, &payload).unwrap();
    wire.extend_from_slice(b"tail");
    let (got, used) = read_frame(&wire).unwrap().unwrap();
    assert_eq!(got, payload);
    assert_eq!(used, 65540);
    assert_eq!(&wire[used..], b"tail");
}

#[test]
fn take_frame_waits_for_the_whole_frame() {
    let mut buf = vec![0, 0, 0];
    assert_eq!(take_frame(&mut buf), None);
    assert_eq!(buf, vec![0, 0, 0]);
    buf.extend_from_slice(&[3, b'a', b'b']);
    assert_eq!(take_frame(&mut buf), None);
    assert_eq!(buf.len(), 6);
    buf.extend_from_slice(&[b'c', 0, 0]);
    assert_eq!(take_frame(&mut buf), Some(b"abc".to_vec()));
    assert_eq!(buf, vec![0, 0]);
    assert_eq!(take_frame(&mut buf), None);
}

#[test]
fn frames_come_out_in_the_order_they_went_in() {
    let mut wire = Vec::new();
    let ids = ["1", "2", "3", "4", "5"];
    for id in ids {
        write_frame(&mut wire, id.as_bytes()).unwrap();
    }
    wire.extend_from_slice(&[0, 0, 0, 9, b'x']);
    let frames = take_frames(&mut wire);
    let got: Vec<String> = frames.into_iter().map(|f| String::from_utf8(f).unwrap()).collect();
    assert_eq!(got, ids);
    assert_eq!(wire, vec![0, 0, 0, 9, b'x']);
    assert!(take_frames(&mut wire).is_empty());
}
