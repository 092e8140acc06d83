use llmsh_vfs::encoding::{decode_payload, encode_payload};
use llmsh_vfs::table::TextMap;
use llmsh_vfs::text::{decimal, read_i32, read_u64, same_text};

#[test]
fn decimal_text_of_numbers() {
    assert_eq!(decimal(0), "0");
    assert_eq!(decimal(7), "7");
    assert_eq!(decimal(10), "10");
    assert_eq!(decimal(4096), "4096");
    assert_eq!(decimal(u64::MAX), "18446744073709551615");
}

#[test]
fn payloads_are_standard_base64_with_padding() {
    assert_eq!(encode_payload(b"hello"), "aGVsbG8=");
    assert_eq!(encode_payload(b"a"), "YQ==");
    assert_eq!(encode_payload(&[0xfb, 0xff]), "+/8=");
    assert_eq!(encode_payload(b""), "");
    assert_eq!(decode_payload("aGVsbG8="), Some(b"hello".to_vec()));
    assert_eq!(decode_payload("+/8="), Some(vec![0xfb, 0xff]));
    assert_eq!(decode_payload(""), Some(vec![]));
    assert_eq!(decode_payload("aGVsbG8"), None);
    assert_eq!(decode_payload("-_8="), None);
    assert_eq!(decode_payload("not base64"), None);
}

#[test]
fn table_holds_each_key_once() {
    let mut t: TextMap<u64> = TextMap::new();
    assert!(t.get("a").is_none());
    t.insert("a", 1);
    t.insert("b", 2);
    t.insert("a", 3);
    assert_eq!(t.get("a"), Some(&3));
    assert_eq!(t.get("b"), Some(&2));
    assert_eq!(t.remove("a"), Some(3));
    assert_eq!(t.remove("a"), None);
    assert!(t.get("a").is_none());
    assert_eq!(t.get("b"), Some(&2));
}

#[test]
fn numbers_are_read_as_the_standard_library_reads_them() {
    let samples = [
        "", "+", "-", "0", "-0", "+0", "7", "+7", "-7", "007", "12a", "a12", " 1", "1 ", "--1",
        "+-1", "1_000", "2147483647", "2147483648", "-2147483648", "-2147483649", "4294967296",
        "18446744073709551615", "18446744073709551616", "+18446744073709551615",
        "99999999999999999999999", "\u{663}", "1\u{663}", "0x10",
    ];
    for s in samples {
        assert_eq!(read_i32(s), s.parse::<i32>().ok(), "i32 of {:?}", s);
        assert_eq!(read_u64(s), s.parse::<u64>().ok(), "u64 of {:?}", s);
    }
    assert_eq!(read_i32("-2147483648"), Some(i32::MIN));
    assert_eq!(read_i32("2147483647"), Some(i32::MAX));
    assert_eq!(read_u64("18446744073709551615"), Some(u64::MAX));
    assert_eq!(read_u64("-1"), None);
}

#[test]
fn texts_are_compared_by_their_characters() {
    assert!(same_text("", ""));
    assert!(same_text("a/b.txt", "a/b.txt"));
    assert!(!same_text("a/b.txt", "a/b.txT"));
    assert!(!same_text("a", "a "));
    assert!(!same_text("./a", "a"));
}
