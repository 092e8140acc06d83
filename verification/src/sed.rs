//! The commands of the stream editor, and how a substitution is read.

use vstd::prelude::*;

verus! {

/// One command of the stream editor.
#[derive(Clone)]
pub enum SedCmd {
    S { pat: String, repl: String, g: bool, re: bool, icase: bool },
    P,
    D,
    A(String),
    I(String),
    GUpper,
    GLower,
    HUpper,
    HLower,
    Xchg,
    Label(String),
    BranchIf { on_subst: bool, target: Option<String> },
}

/// What a substitution command holds.
pub struct Substitution {
    pub pat: Seq<char>,
    pub repl: Seq<char>,
    pub g: bool,
    pub re: bool,
    pub icase: bool,
}

/// The two fields of a substitution as far as they have been read.
pub struct Fields {
    /// The fields that are complete.
    pub parts: Seq<Seq<char>>,
    /// The field that is being read.
    pub cur: Seq<char>,
    /// Whether the last character was a backslash that escapes the next.
    pub esc: bool,
    /// Where reading stopped.
    pub end: int,
}

/// Reads the fields of a substitution from character `i` on: a backslash
/// is dropped and makes the character after it part of the field, the
/// delimiter ends a field, and reading stops behind the second field.
pub open spec fn scan_fields(s: Seq<char>, delim: char, i: int, st: Fields) -> Fields
    decreases s.len() - i,
{
    if i < 0 || i >= s.len() || st.parts.len() >= 2 {
        Fields { end: i, ..st }
    } else if st.esc {
        scan_fields(s, delim, i + 1, Fields { cur: st.cur.push(s[i]), esc: false, ..st })
    } else if s[i] == '\\' {
        scan_fields(s, delim, i + 1, Fields { esc: true, ..st })
    } else if s[i] == delim {
        scan_fields(
            s,
            delim,
            i + 1,
            Fields { parts: st.parts.push(st.cur), cur: Seq::empty(), ..st },
        )
    } else {
        scan_fields(s, delim, i + 1, Fields { cur: st.cur.push(s[i]), ..st })
    }
}

/// A field with each backslash that stands before a delimiter taken out,
/// reading from the left.
pub open spec fn unescaped(t: Seq<char>, delim: char) -> Seq<char>
    decreases t.len(),
{
    if t.len() == 0 {
        Seq::empty()
    } else if t.len() >= 2 && t[0] == '\\' && t[1] == delim {
        seq![delim] + unescaped(t.skip(2), delim)
    } else {
        seq![t[0]] + unescaped(t.skip(1), delim)
    }
}

/// The substitution that stands at character `i` of `s`: an `s`, a
/// delimiter, the pattern, the delimiter, the replacement, the delimiter,
/// and flags up to the end, of which `g`, `r` or `E`, and `I` count.
pub open spec fn spec_s_cmd(s: Seq<char>, i: int) -> Option<Substitution> {
    if i < 0 || i >= s.len() || s[i] != 's' || i + 1 >= s.len() {
        None
    } else {
        let delim = s[i + 1];
        let f = scan_fields(
            s,
            delim,
            i + 2,
            Fields { parts: Seq::empty(), cur: Seq::empty(), esc: false, end: i + 2 },
        );
        if f.parts.len() != 2 {
            None
        } else {
            let flags = s.subrange(f.end, s.len() as int);
            Some(
                Substitution {
                    pat: unescaped(f.parts[0], delim),
                    repl: unescaped(f.parts[1], delim),
                    g: flags.contains('g'),
                    re: flags.contains('r') || flags.contains('E'),
                    icase: flags.contains('I'),
                },
            )
        }
    }
}

/// Makes a string of characters.
///
/// Trusted: collects the characters into a `String` with `String::from_iter`,
/// which holds exactly these characters in this order.
#[verifier::external_body]
fn text_of(chars: &Vec<char>) -> (r: String)
    ensures
        r@ == chars@,
{
    String::from_iter(chars.iter())
}

/// Takes out each backslash that stands before a delimiter.
fn unescape(t: &Vec<char>, delim: char) -> (out: Vec<char>)
    ensures
        out@ == unescaped(t@, delim),
{
    let mut out: Vec<char> = Vec::new();
    let mut i: usize = 0;
    assert(t@.skip(0) =~= t@);
    while i < t.len()
        invariant
            i <= t@.len(),
            out@ + unescaped(t@.skip(i as int), delim) == unescaped(t@, delim),
        decreases t@.len() - i,
    {
        let ghost rest = t@.skip(i as int);
        let ghost before = out@;
        if i + 1 < t.len() && t[i] == '\\' && t[i + 1] == delim {
            out.push(delim);
            assert(rest.skip(2) =~= t@.skip(i + 2));
            assert(before + (seq![delim] + unescaped(rest.skip(2), delim)) =~= before.push(delim)
                + unescaped(rest.skip(2), delim));
            i += 2;
        } else {
            out.push(t[i]);
            assert(rest.skip(1) =~= t@.skip(i + 1));
            assert(before + (seq![rest[0]] + unescaped(rest.skip(1), delim)) =~= before.push(
                rest[0],
            ) + unescaped(rest.skip(1), delim));
            i += 1;
        }
    }
    assert(out@ + Seq::<char>::empty() =~= out@);
    out
}

/// Whether the characters of `s` from `from` on hold `c`.
fn holds(s: &[char], from: usize, c: char) -> (r: bool)
    requires
        from <= s@.len(),
    ensures
        r == s@.subrange(from as int, s@.len() as int).contains(c),
{
    let mut i: usize = from;
    let ghost tail = s@.subrange(from as int, s@.len() as int);
    while i < s.len()
        invariant
            from <= i <= s@.len(),
            tail == s@.subrange(from as int, s@.len() as int),
            forall|j: int| 0 <= j < i - from ==> tail[j] != c,
        decreases s@.len() - i,
    {
        if s[i] == c {
            assert(tail[i - from] == c);
            return true;
        }
        i += 1;
    }
    false
}

/// Reads the substitution command that stands at character `i` of `s`.
/// It takes the rest of `s`: what follows its third delimiter are its
/// flags.
pub fn parse_s_cmd(s: &[char], i: usize) -> (r: Option<(SedCmd, usize)>)
    ensures
        match r {
            Some((cmd, end)) => end == s@.len() && spec_s_cmd(s@, i as int) is Some && (
            cmd matches SedCmd::S { pat, repl, g, re, icase } && (Substitution {
                pat: pat@,
                repl: repl@,
                g,
                re,
                icase,
            }) == spec_s_cmd(s@, i as int)->Some_0),
            None => spec_s_cmd(s@, i as int) is None,
        },
{
    if i >= s.len() || s[i] != 's' || i + 1 >= s.len() {
        return None;
    }
    let delim = s[i + 1];
    let mut k: usize = i + 2;
    let mut first: Vec<char> = Vec::new();
    let mut second: Vec<char> = Vec::new();
    let mut cur: Vec<char> = Vec::new();
    let mut done: usize = 0;
    let mut esc = false;
    let ghost start = Fields { parts: Seq::empty(), cur: Seq::empty(), esc: false, end: i + 2 };
    let ghost mut st = start;
    while k < s.len() && done < 2
        invariant
            i + 2 <= k <= s@.len(),
            done <= 2,
            done == st.parts.len(),
            st.cur == cur@,
            st.esc == esc,
            done >= 1 ==> st.parts[0] == first@,
            done >= 2 ==> st.parts[1] == second@,
            start == (Fields { parts: Seq::empty(), cur: Seq::empty(), esc: false, end: i + 2 }),
            scan_fields(s@, delim, k as int, st) == scan_fields(s@, delim, i + 2, start),
        decreases s@.len() - k,
    {
        let c = s[k];
        k += 1;
        if esc {
            cur.push(c);
            esc = false;
            proof {
                st = Fields { cur: st.cur.push(c), esc: false, ..st };
            }
        } else if c == '\\' {
            esc = true;
            proof {
                st = Fields { esc: true, ..st };
            }
        } else if c == delim {
            proof {
                st = Fields { parts: st.parts.push(st.cur), cur: Seq::empty(), ..st };
            }
            if done == 0 {
                first = cur;
            } else {
                second = cur;
            }
            cur = Vec::new();
            done += 1;
        } else {
            cur.push(c);
            proof {
                st = Fields { cur: st.cur.push(c), ..st };
            }
        }
    }
    if done != 2 {
        return None;
    }
    let ghost f = scan_fields(s@, delim, i + 2, start);
    assert(f == (Fields { end: k as int, ..st }));
    let pat = text_of(&unescape(&first, delim));
    let repl = text_of(&unescape(&second, delim));
    let g = holds(s, k, 'g');
    let re = holds(s, k, 'r') || holds(s, k, 'E');
    let icase = holds(s, k, 'I');
    Some((SedCmd::S { pat, repl, g, re, icase }, s.len()))
}

/// An address of a command: a line number, the last line, or a pattern
/// that the line has to match.
pub enum SedAddr {
    Line(usize),
    Last,
    Re(String),
}

/// The condition under which a command applies: no address, one address,
/// or a range from the first to the second, each possibly negated, and
/// whether a range is open.
pub struct SedCond {
    pub a1: Option<SedAddr>,
    pub a2: Option<SedAddr>,
    pub neg: bool,
    pub in_range: bool,
}

/// Whether an address holds of line `n`, where `hit` says whether the
/// line matches the pattern of the address.
pub fn match_addr(addr: &SedAddr, hit: bool, n: usize, is_last: bool) -> (r: bool)
    ensures
        r == (match *addr {
            SedAddr::Line(k) => k == n,
            SedAddr::Last => is_last,
            SedAddr::Re(_) => hit,
        }),
{
    match addr {
        SedAddr::Line(k) => *k == n,
        SedAddr::Last => is_last,
        SedAddr::Re(_) => hit,
    }
}

/// Whether a range is open after a line: it opens on a line where the
/// first address holds and closes on a line, that one included, where the
/// second holds.
pub open spec fn range_after(has2: bool, in_range: bool, first_hit: bool, second_hit: bool) -> bool {
    let opened = in_range || first_hit;
    opened && !(has2 && second_hit)
}

/// Whether a condition applies to a line, where `first_hit` and
/// `second_hit` say whether its two addresses hold of the line. Without
/// an address it applies to every line, with one to the lines where that
/// holds, with a range to the lines from its opening to its closing; a
/// negated condition applies where it otherwise would not.
pub open spec fn spec_cond_applies(
    has1: bool,
    has2: bool,
    neg: bool,
    in_range: bool,
    first_hit: bool,
    second_hit: bool,
) -> bool {
    let plain = if has1 && !has2 {
        first_hit
    } else if !has1 && !has2 {
        true
    } else {
        in_range || (has1 && first_hit)
    };
    plain != neg
}

/// Decides whether a condition applies to a line and keeps track of its
/// range.
pub fn cond_applies(cond: &mut SedCond, first_hit: bool, second_hit: bool) -> (r: bool)
    ensures
        r == spec_cond_applies(
            old(cond).a1 is Some,
            old(cond).a2 is Some,
            old(cond).neg,
            old(cond).in_range,
            first_hit,
            second_hit,
        ),
        final(cond).a1 == old(cond).a1,
        final(cond).a2 == old(cond).a2,
        final(cond).neg == old(cond).neg,
        final(cond).in_range == (if old(cond).a2 is None {
            old(cond).in_range
        } else {
            range_after(
                true,
                old(cond).in_range,
                old(cond).a1 is Some && first_hit,
                second_hit,
            )
        }),
{
    let has1 = cond.a1.is_some();
    let has2 = cond.a2.is_some();
    if has1 && !has2 {
        return first_hit != cond.neg;
    }
    if !has1 && !has2 {
        return !cond.neg;
    }
    if !cond.in_range && has1 && first_hit {
        cond.in_range = true;
    }
    let applies = cond.in_range;
    if cond.in_range && second_hit {
        cond.in_range = false;
    }
    applies != cond.neg
}

} // verus!
