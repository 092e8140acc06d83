use llmsh_vfs::lines::{count_chunk, head_take, tail_output, wc_options, Counts, WcShow};

const ZERO: Counts = Counts { lines: 0, words: 0, bytes: 0, in_word: false };

#[test]
fn lines_words_and_bytes_are_counted() {
    let c = count_chunk(ZERO, b"one two\nthree\n");
    assert_eq!((c.lines, c.words, c.bytes, c.in_word), (2, 3, 14, false));
    let c = count_chunk(ZERO, b"  a\tb\x0cc\rd\x0be ");
    assert_eq!((c.lines, c.words, c.bytes), (0, 4, 12));
    let c = count_chunk(ZERO, b"");
    assert_eq!(c, ZERO);
    let c = count_chunk(ZERO, b"no newline");
    assert_eq!((c.lines, c.words, c.bytes, c.in_word), (0, 2, 10, true));
}

#[test]
fn counting_does_not_depend_on_how_the_input_is_cut() {
    let text = b"alpha beta\ngam ma\n\n delta";
    let whole = count_chunk(ZERO, text);
    for cut in 0..=text.len() {
        let parts = count_chunk(count_chunk(ZERO, &text[..cut]), &text[cut..]);
        assert_eq!(parts, whole, "cut at {}", cut);
    }
    assert_eq!((whole.lines, whole.words, whole.bytes), (3, 5, 25));
}

#[test]
fn head_takes_whole_lines_only() {
    let mut acc = b"a\nbb\nccc".to_vec();
    assert_eq!(head_take(&mut acc, 1), (b"a\n".to_vec(), 0));
    assert_eq!(acc, b"bb\nccc".to_vec());
    assert_eq!(head_take(&mut acc, 5), (b"bb\n".to_vec(), 4));
    assert_eq!(acc, b"ccc".to_vec());
    assert_eq!(head_take(&mut acc, 5), (vec![], 5));
    acc.extend_from_slice(b"\n\n");
    assert_eq!(head_take(&mut acc, 0), (vec![], 0));
    assert_eq!(head_take(&mut acc, 2), (b"ccc\n\n".to_vec(), 0));
    assert!(acc.is_empty());
    assert_eq!(head_take(&mut acc, 3), (vec![], 3));
}

fn tail_by_lines(all: &[u8], limit: usize) -> Vec<u8> {
    let lines: Vec<&[u8]> = all.split_inclusive(|b| *b == b'\n').collect();
    let mut out = Vec::new();
    for line in lines.iter().skip(lines.len().saturating_sub(limit)) {
        out.extend_from_slice(line);
        if !line.ends_with(b"\n") {
            out.push(b'\n');
        }
    }
    out
}

#[test]
fn tail_keeps_the_last_lines() {
    assert_eq!(tail_output(b"1\n2\n3\n4\n5\n", 2), b"4\n5\n".to_vec());
    assert_eq!(tail_output(b"1\n2\n3", 2), b"2\n3\n".to_vec());
    assert_eq!(tail_output(b"1\n2\n3", 10), b"1\n2\n3\n".to_vec());
    assert_eq!(tail_output(b"1\n2\n3\n", 0), Vec::<u8>::new());
    assert_eq!(tail_output(b"", 3), Vec::<u8>::new());
    assert_eq!(tail_output(b"\n\n", 1), b"\n".to_vec());
    assert_eq!(tail_output(b"x", 1), b"x\n".to_vec());
    let samples: [&[u8]; 6] = [b"a\nb\nc\n", b"a\nb\nc", b"\n", b"\n\nx\n\ny", b"abc", b"a\n\n\n"];
    for s in samples {
        for limit in 0..6 {
            assert_eq!(tail_output(s, limit), tail_by_lines(s, limit), "{:?} {}", s, limit);
        }
    }
}

#[test]
fn wc_options_choose_the_counts() {
    let strings = |v: &[&str]| v.iter().map(|s| s.to_string()).collect::<Vec<String>>();
    let all = WcShow { lines: true, words: true, bytes: true };
    assert_eq!(wc_options(&strings(&[])), (all, vec![]));
    assert_eq!(wc_options(&strings(&["a", "-", "b"])), (all, strings(&["a", "-", "b"])));
    let (show, files) = wc_options(&strings(&["-l", "f"]));
    assert_eq!(show, WcShow { lines: true, words: false, bytes: false });
    assert_eq!(files, strings(&["f"]));
    let (show, _) = wc_options(&strings(&["-w"]));
    assert_eq!(show, WcShow { lines: false, words: true, bytes: false });
    let (show, _) = wc_options(&strings(&["-c"]));
    assert_eq!(show, WcShow { lines: false, words: false, bytes: true });
    let (show, files) = wc_options(&strings(&["-lw", "x", "-z"]));
    assert_eq!(show, WcShow { lines: false, words: false, bytes: false });
    assert_eq!(files, strings(&["x"]));
    let (show, _) = wc_options(&strings(&["-\u{e9}q"]));
    assert_eq!(show, all);
}
