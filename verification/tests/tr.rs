use llmsh_vfs::sed::{cond_applies, match_addr, SedAddr, SedCond};
use llmsh_vfs::tr::{expand_set, tr_chunk, tr_options, tr_plan, TrState, TR_USAGE};

const START: TrState = TrState { last_out: None, last_in_s: false };

fn args(v: &[&str]) -> Vec<Vec<u8>> {
    v.iter().map(|s| s.as_bytes().to_vec()).collect()
}

fn run(a: &[&str], input: &[u8]) -> Option<Vec<u8>> {
    let plan = tr_plan(&tr_options(&args(a)))?;
    Some(tr_chunk(&plan, START, input).0)
}

#[test]
fn sets_are_expanded() {
    assert_eq!(expand_set(b"abc"), b"abc".to_vec());
    assert_eq!(expand_set(b"a-e"), b"abcde".to_vec());
    assert_eq!(expand_set(b"e-a"), b"edcba".to_vec());
    assert_eq!(expand_set(b"a-a"), b"a".to_vec());
    assert_eq!(expand_set(b"0-2x-z"), b"012xyz".to_vec());
    assert_eq!(expand_set(b"[:digit:]"), b"0123456789".to_vec());
    assert_eq!(expand_set(b"[:upper:]").len(), 26);
    assert_eq!(expand_set(b"[:lower:]"), (b'a'..=b'z').collect::<Vec<u8>>());
    assert_eq!(expand_set(b"[:alpha:]").len(), 52);
    assert_eq!(
        expand_set(b"[:alnum:]"),
        b"0123456789ABCDEFGHIJKLMNOPQRSTUVWXYZabcdefghijklmnopqrstuvwxyz".to_vec()
    );
    assert_eq!(expand_set(b"[:xdigit:]"), b"0123456789ABCDEFabcdef".to_vec());
    assert_eq!(expand_set(b"[:space:]"), vec![b' ', b'\t', b'\n', b'\r', 0x0b, 0x0c]);
    assert_eq!(expand_set(b"_[:blank:]_"), vec![b'_', b' ', b'\t', b'_']);
    assert_eq!(expand_set(b"[:nope:]x"), b"x".to_vec());
    assert_eq!(expand_set(b"[:digit"), b"[:digit".to_vec());
    assert_eq!(expand_set(b"[::]"), Vec::<u8>::new());
    assert_eq!(expand_set(b"a-"), b"a-".to_vec());
    assert_eq!(expand_set(b"-a"), b"-a".to_vec());
    assert_eq!(expand_set(b"a--"), b"a--".to_vec());
    assert_eq!(expand_set(b""), Vec::<u8>::new());
    assert_eq!(expand_set(&[0xfe, b'-', 0xff]), vec![0xfe, 0xff]);
    assert_eq!(expand_set(&[0x00, b'-', 0xff]).len(), 256);
}

#[test]
fn options_are_told_from_sets() {
    let o = tr_options(&args(&["-d", "abc", "-s", "-c", "-x", "-"]));
    assert!(o.delete && o.squeeze && o.complement);
    assert_eq!(o.sets, args(&["abc", "-x", "-"]));
    let o = tr_options(&args(&[]));
    assert!(!o.delete && !o.squeeze && !o.complement && o.sets.is_empty());
}

#[test]
fn arguments_that_are_refused() {
    assert_eq!(TR_USAGE, 2);
    assert!(run(&[], b"x").is_none());
    assert!(run(&["abc"], b"x").is_none());
    assert!(run(&["a", "b", "c"], b"x").is_none());
    assert!(run(&["-d"], b"x").is_none());
    assert!(run(&["-d", "a", "b"], b"x").is_none());
    assert!(run(&["abc", "xy"], b"x").is_none());
    assert!(run(&["a-c", "x-z"], b"x").is_some());
    assert!(run(&["a-c", "xyz"], b"x").is_some());
    assert!(run(&["a-d", "xyz"], b"x").is_none());
    assert!(run(&["-c", "abc", "xyz"], b"x").is_none());
    assert!(run(&["-s", "a"], b"x").is_some());
    assert!(run(&["-s", "-c", "a"], b"x").is_some());
}

#[test]
fn bytes_are_translated_deleted_and_squeezed() {
    assert_eq!(run(&["abc", "xyz"], b"aabbccdd").unwrap(), b"xxyyzzdd".to_vec());
    assert_eq!(run(&["a-z", "A-Z"], b"Hello, World 9").unwrap(), b"HELLO, WORLD 9".to_vec());
    assert_eq!(run(&["aba", "xyz"], b"ab").unwrap(), b"zy".to_vec());
    assert_eq!(run(&["-d", "[:digit:]"], b"a1b22c333").unwrap(), b"abc".to_vec());
    assert_eq!(run(&["-d", "-c", "[:digit:]"], b"a1b22c333\n").unwrap(), b"122333".to_vec());
    assert_eq!(run(&["-s", " "], b"a  b   c d").unwrap(), b"a b c d".to_vec());
    assert_eq!(run(&["-s", "ab"], b"aabbaacc").unwrap(), b"abacc".to_vec());
    assert_eq!(run(&["-s", "-c", "a"], b"aabbccaa").unwrap(), b"aabcaa".to_vec());
    assert_eq!(run(&["-s", "abc", "xxx"], b"abcabc-aa").unwrap(), b"x-x".to_vec());
    assert_eq!(run(&["-d", "-s", "a"], b"aabbaabb").unwrap(), b"bbbb".to_vec());
    assert_eq!(run(&["abc", "xyz"], b"").unwrap(), Vec::<u8>::new());
}

#[test]
fn squeezing_carries_over_chunks() {
    let plan = tr_plan(&tr_options(&args(&["-s", "a-z"]))).unwrap();
    let text = b"aaabbb  cccaaa";
    let whole = tr_chunk(&plan, START, text).0;
    assert_eq!(whole, b"ab  ca".to_vec());
    for cut in 0..=text.len() {
        let (first, mid) = tr_chunk(&plan, START, &text[..cut]);
        let (second, _) = tr_chunk(&plan, mid, &text[cut..]);
        let mut joined = first;
        joined.extend_from_slice(&second);
        assert_eq!(joined, whole, "cut at {}", cut);
    }
}

fn cond(a1: Option<SedAddr>, a2: Option<SedAddr>, neg: bool) -> SedCond {
    SedCond { a1, a2, neg, in_range: false }
}

#[test]
fn addresses_hold_of_lines() {
    assert!(match_addr(&SedAddr::Line(3), false, 3, false));
    assert!(!match_addr(&SedAddr::Line(3), true, 4, true));
    assert!(match_addr(&SedAddr::Last, false, 9, true));
    assert!(!match_addr(&SedAddr::Last, true, 9, false));
    assert!(match_addr(&SedAddr::Re("x".to_string()), true, 1, false));
    assert!(!match_addr(&SedAddr::Re("x".to_string()), false, 1, true));
}

#[test]
fn conditions_apply_to_lines() {
    let mut always = cond(None, None, false);
    assert!(cond_applies(&mut always, false, false));
    let mut never = cond(None, None, true);
    assert!(!cond_applies(&mut never, true, true));
    let mut one = cond(Some(SedAddr::Line(2)), None, false);
    assert!(!cond_applies(&mut one, false, true));
    assert!(cond_applies(&mut one, true, false));
    assert!(!one.in_range);
    let mut not_one = cond(Some(SedAddr::Line(2)), None, true);
    assert!(cond_applies(&mut not_one, false, false));
    assert!(!cond_applies(&mut not_one, true, false));
    let hits = [(false, false), (true, false), (false, false), (false, true), (false, false)];
    let mut range = cond(Some(SedAddr::Line(2)), Some(SedAddr::Line(4)), false);
    let got: Vec<bool> = hits.iter().map(|(a, b)| cond_applies(&mut range, *a, *b)).collect();
    assert_eq!(got, vec![false, true, true, true, false]);
    let mut outside = cond(Some(SedAddr::Line(2)), Some(SedAddr::Line(4)), true);
    let got: Vec<bool> = hits.iter().map(|(a, b)| cond_applies(&mut outside, *a, *b)).collect();
    assert_eq!(got, vec![true, false, false, false, true]);
    let mut same_line = cond(Some(SedAddr::Line(2)), Some(SedAddr::Line(2)), false);
    assert!(cond_applies(&mut same_line, true, true));
    assert!(!same_line.in_range);
    assert!(!cond_applies(&mut same_line, false, false));
    let mut open_end = cond(None, Some(SedAddr::Last), false);
    assert!(!cond_applies(&mut open_end, true, true));
}
