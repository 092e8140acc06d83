//! Counting and cutting lines: what `head`, `tail` and `wc` compute on the
//! bytes of their inputs.

use vstd::prelude::*;
use vstd::string::StrSliceExecFns;
use crate::shell::texts;

verus! {

/// What `wc` has counted, and whether the last byte it saw was inside a
/// word.
#[derive(Debug, Clone, Copy, PartialEq, Eq, Structural)]
pub struct Counts {
    pub lines: usize,
    pub words: usize,
    pub bytes: usize,
    pub in_word: bool,
}

/// One more, held at the largest count there is.
pub open spec fn bump(n: usize) -> usize {
    if n == usize::MAX {
        n
    } else {
        (n + 1) as usize
    }
}

/// Whether a byte is ASCII whitespace: space, tab, line feed, form feed or
/// carriage return.
pub open spec fn is_blank(b: u8) -> bool {
    b == 0x20 || b == 0x09 || b == 0x0a || b == 0x0c || b == 0x0d
}

/// The counts after one more byte: every byte counts, a line feed ends a
/// line, and a word begins with each byte that is not whitespace and does
/// not follow one.
pub open spec fn count_byte(c: Counts, b: u8) -> Counts {
    Counts {
        lines: if b == 0x0a {
            bump(c.lines)
        } else {
            c.lines
        },
        words: if !is_blank(b) && !c.in_word {
            bump(c.words)
        } else {
            c.words
        },
        bytes: bump(c.bytes),
        in_word: !is_blank(b),
    }
}

/// The counts after the bytes of `data`.
pub open spec fn spec_count(c: Counts, data: Seq<u8>) -> Counts
    decreases data.len(),
{
    if data.len() == 0 {
        c
    } else {
        count_byte(spec_count(c, data.drop_last()), data.last())
    }
}

/// Counts the lines, words and bytes of one more chunk.
pub fn count_chunk(c: Counts, data: &[u8]) -> (r: Counts)
    ensures
        r == spec_count(c, data@),
{
    let mut r = c;
    let mut i: usize = 0;
    assert(data@.take(0) =~= Seq::<u8>::empty());
    while i < data.len()
        invariant
            i <= data@.len(),
            r == spec_count(c, data@.take(i as int)),
        decreases data@.len() - i,
    {
        proof {
            assert(data@.take(i + 1).drop_last() =~= data@.take(i as int));
            assert(data@.take(i + 1).last() == data@[i as int]);
        }
        let b = data[i];
        let blank = b == 0x20 || b == 0x09 || b == 0x0a || b == 0x0c || b == 0x0d;
        if b == 0x0a && r.lines < usize::MAX {
            r.lines = r.lines + 1;
        }
        if !blank && !r.in_word && r.words < usize::MAX {
            r.words = r.words + 1;
        }
        if r.bytes < usize::MAX {
            r.bytes = r.bytes + 1;
        }
        r.in_word = !blank;
        i += 1;
    }
    assert(data@.take(i as int) =~= data@);
    r
}

/// Where `head` stands in a buffer: the end of the last line it took and
/// the number of lines it may still take.
pub struct HeadScan {
    pub taken: int,
    pub remaining: usize,
}

/// Takes whole lines from byte `i` of `s` on, as long as any may be
/// taken. A line is whole once its line feed is there.
pub open spec fn head_scan(s: Seq<u8>, i: int, st: HeadScan) -> HeadScan
    decreases s.len() - i,
{
    if i < 0 || i >= s.len() || st.remaining == 0 {
        st
    } else if s[i] == 0x0a {
        head_scan(s, i + 1, HeadScan { taken: i + 1, remaining: (st.remaining - 1) as usize })
    } else {
        head_scan(s, i + 1, st)
    }
}

/// Takes the whole lines at the beginning of a buffer, at most `remaining`
/// of them, out of it. What comes back are these lines and the number of
/// lines that may still be taken; the buffer keeps what follows them.
pub fn head_take(acc: &mut Vec<u8>, remaining: usize) -> (r: (Vec<u8>, usize))
    ensures
        ({
            let end = head_scan(old(acc)@, 0, HeadScan { taken: 0, remaining });
            &&& 0 <= end.taken <= old(acc)@.len()
            &&& r.0@ == old(acc)@.subrange(0, end.taken)
            &&& final(acc)@ == old(acc)@.subrange(end.taken, old(acc)@.len() as int)
            &&& r.1 == end.remaining
        }),
{
    let mut start: usize = 0;
    let mut left: usize = remaining;
    let mut i: usize = 0;
    while i < acc.len() && left > 0
        invariant
            start <= i <= acc@.len(),
            acc@ == old(acc)@,
            head_scan(acc@, i as int, HeadScan { taken: start as int, remaining: left })
                == head_scan(acc@, 0, HeadScan { taken: 0, remaining }),
        decreases acc@.len() - i,
    {
        if acc[i] == 0x0a {
            left = left - 1;
            start = i + 1;
        }
        i += 1;
    }
    let rest = acc.split_off(start);
    let mut out: Vec<u8> = Vec::new();
    out.append(acc);
    let mut rest = rest;
    acc.append(&mut rest);
    (out, left)
}

/// The number of line feeds in `s`.
pub open spec fn newlines(s: Seq<u8>) -> nat
    decreases s.len(),
{
    if s.len() == 0 {
        0
    } else if s.last() == 0x0a {
        newlines(s.drop_last()) + 1
    } else {
        newlines(s.drop_last())
    }
}

/// The number of lines in `s`: one for each line feed, and one more for
/// what follows the last of them.
pub open spec fn line_total(s: Seq<u8>) -> nat {
    if s.len() > 0 && s.last() != 0x0a {
        newlines(s) + 1
    } else {
        newlines(s)
    }
}

/// Where line `k` of `s` begins, counting lines from 0 and bytes from
/// `i`: behind the `k`-th line feed, or at the end where there are fewer.
pub open spec fn line_start(s: Seq<u8>, i: int, k: nat) -> int
    decreases s.len() - i,
{
    if i < 0 || i >= s.len() {
        s.len() as int
    } else if k == 0 {
        i
    } else if s[i] == 0x0a {
        line_start(s, i + 1, (k - 1) as nat)
    } else {
        line_start(s, i + 1, k)
    }
}

/// What `tail` prints of `s`: its last `limit` lines, or all of them
/// where there are fewer, and a line feed behind the last one where it
/// has none.
pub open spec fn spec_tail(s: Seq<u8>, limit: nat) -> Seq<u8> {
    let total = line_total(s);
    if limit == 0 || total == 0 {
        Seq::empty()
    } else {
        let skipped = if total > limit {
            (total - limit) as nat
        } else {
            0
        };
        let kept = s.subrange(line_start(s, 0, skipped), s.len() as int);
        if s.last() != 0x0a {
            kept.push(0x0a)
        } else {
            kept
        }
    }
}

/// A text has no more line feeds than bytes.
pub proof fn newlines_bound(s: Seq<u8>)
    ensures
        newlines(s) <= s.len(),
    decreases s.len(),
{
    if s.len() > 0 {
        newlines_bound(s.drop_last());
    }
}

/// Computes what `tail` prints of the bytes of one input.
pub fn tail_output(all: &[u8], limit: usize) -> (out: Vec<u8>)
    ensures
        out@ == spec_tail(all@, limit as nat),
{
    let n = all.len();
    if limit == 0 || n == 0 {
        return Vec::new();
    }
    let mut count: usize = 0;
    let mut i: usize = 0;
    assert(all@.take(0) =~= Seq::<u8>::empty());
    while i < n
        invariant
            i <= n,
            n == all@.len(),
            count == newlines(all@.take(i as int)),
            count <= i,
        decreases n - i,
    {
        proof {
            assert(all@.take(i + 1).drop_last() =~= all@.take(i as int));
            assert(all@.take(i + 1).last() == all@[i as int]);
        }
        if all[i] == 0x0a {
            count = count + 1;
        }
        i += 1;
    }
    assert(all@.take(n as int) =~= all@);
    let open_end = all[n - 1] != 0x0a;
    proof {
        newlines_bound(all@.drop_last());
    }
    let total: usize = if open_end {
        count + 1
    } else {
        count
    };
    let mut skip: usize = if total > limit {
        total - limit
    } else {
        0
    };
    let ghost skipped = skip as nat;
    let mut start: usize = 0;
    while start < n && skip > 0
        invariant
            start <= n,
            n == all@.len(),
            line_start(all@, start as int, skip as nat) == line_start(all@, 0, skipped),
        decreases n - start,
    {
        if all[start] == 0x0a {
            skip = skip - 1;
        }
        start += 1;
    }
    let mut out = vstd::slice::slice_to_vec(vstd::slice::slice_subrange(all, start, n));
    if open_end {
        out.push(0x0a);
    }
    out
}

/// Which of its three counts `wc` shows.
#[derive(Debug, Clone, Copy, PartialEq, Eq, Structural)]
pub struct WcShow {
    pub lines: bool,
    pub words: bool,
    pub bytes: bool,
}

/// What is shown after the option letter `c`: `l`, `w` and `c` each
/// switch the other two counts off, any other letter changes nothing.
pub open spec fn show_after(show: WcShow, c: char) -> WcShow {
    if c == 'l' {
        WcShow { words: false, bytes: false, ..show }
    } else if c == 'w' {
        WcShow { lines: false, bytes: false, ..show }
    } else if c == 'c' {
        WcShow { lines: false, words: false, ..show }
    } else {
        show
    }
}

/// What is shown after the option letters of `arg` from letter `k` on.
pub open spec fn show_after_letters(show: WcShow, arg: Seq<char>, k: int) -> WcShow
    decreases arg.len() - k,
{
    if k < 0 || k >= arg.len() {
        show
    } else {
        show_after_letters(show_after(show, arg[k]), arg, k + 1)
    }
}

/// What the arguments of `wc` from argument `i` on ask for: an argument
/// of more than one character that begins with `-` holds option letters,
/// every other one names a file.
pub open spec fn spec_wc_options(
    args: Seq<Seq<char>>,
    i: int,
    show: WcShow,
    files: Seq<Seq<char>>,
) -> (WcShow, Seq<Seq<char>>)
    decreases args.len() - i,
{
    if i < 0 || i >= args.len() {
        (show, files)
    } else if args[i].len() > 1 && args[i][0] == '-' {
        spec_wc_options(args, i + 1, show_after_letters(show, args[i], 1), files)
    } else {
        spec_wc_options(args, i + 1, show, files.push(args[i]))
    }
}

/// Reads the arguments of `wc`. Without options all three counts are
/// shown.
pub fn wc_options(args: &[String]) -> (r: (WcShow, Vec<String>))
    ensures
        (r.0, texts(r.1@)) == spec_wc_options(
            texts(args@),
            0,
            WcShow { lines: true, words: true, bytes: true },
            Seq::empty(),
        ),
{
    let mut show = WcShow { lines: true, words: true, bytes: true };
    let mut files: Vec<String> = Vec::new();
    let mut i: usize = 0;
    let ghost all = texts(args@);
    assert(texts(files@) =~= Seq::<Seq<char>>::empty());
    while i < args.len()
        invariant
            i <= args@.len(),
            all == texts(args@),
            spec_wc_options(all, i as int, show, texts(files@)) == spec_wc_options(
                all,
                0,
                WcShow { lines: true, words: true, bytes: true },
                Seq::empty(),
            ),
        decreases args@.len() - i,
    {
        let a = args[i].as_str();
        let n = a.unicode_len();
        if n > 1 && a.get_char(0) == '-' {
            let mut k: usize = 1;
            let ghost before = show;
            while k < n
                invariant
                    1 <= k <= n,
                    n == a@.len(),
                    show_after_letters(show, a@, k as int) == show_after_letters(before, a@, 1),
                decreases n - k,
            {
                let c = a.get_char(k);
                if c == 'l' {
                    show.words = false;
                    show.bytes = false;
                } else if c == 'w' {
                    show.lines = false;
                    show.bytes = false;
                } else if c == 'c' {
                    show.lines = false;
                    show.words = false;
                }
                k += 1;
            }
        } else {
            let ghost before = texts(files@);
            files.push(args[i].clone());
            assert(texts(files@) =~= before.push(all[i as int]));
        }
        i += 1;
    }
    (show, files)
}

} // verus!
