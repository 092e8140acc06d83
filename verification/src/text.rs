//! Small helpers on text and bytes that the rest of the crate shares.

use vstd::prelude::*;
use vstd::string::{StrSliceExecFns, StringExecFns};

verus! {

/// Whether two string slices hold the same characters.
pub fn same_text(a: &str, b: &str) -> (r: bool)
    ensures
        r == (a@ == b@),
{
    let x = a.to_owned();
    let y = b.to_owned();
    x == y
}

/// Whether a character is one of the ten decimal digits.
pub open spec fn is_digit(c: char) -> bool {
    '0' <= c && c <= '9'
}

/// The value of a decimal digit.
pub open spec fn digit_value(c: char) -> nat {
    if c as nat >= 48 {
        (c as nat - 48) as nat
    } else {
        0
    }
}

/// Whether a text holds decimal digits only.
pub open spec fn all_digits(s: Seq<char>) -> bool {
    forall|i: int| 0 <= i < s.len() ==> is_digit(#[trigger] s[i])
}

/// The number that a text of decimal digits spells.
pub open spec fn digits_value(s: Seq<char>) -> nat
    decreases s.len(),
{
    if s.len() == 0 {
        0
    } else {
        digits_value(s.drop_last()) * 10 + digit_value(s.last())
    }
}

/// The number that a text of decimal digits spells, where it has at least
/// one digit and spells no more than `limit`.
pub open spec fn bounded_value(s: Seq<char>, limit: nat) -> Option<nat> {
    if s.len() == 0 || !all_digits(s) || digits_value(s) > limit {
        None
    } else {
        Some(digits_value(s))
    }
}

/// The number that a text spells as a 64-bit unsigned integer: decimal
/// digits, after a `+` or not, that spell a number within range.
pub open spec fn u64_of_text(text: Seq<char>) -> Option<u64> {
    let digits = if text.len() > 0 && text[0] == '+' {
        text.drop_first()
    } else {
        text
    };
    match bounded_value(digits, u64::MAX as nat) {
        Some(v) => Some(v as u64),
        None => None,
    }
}

/// The number that a text spells as a 32-bit signed integer: decimal
/// digits, after a `+`, a `-` or neither, that spell a number within range.
pub open spec fn i32_of_text(text: Seq<char>) -> Option<i32> {
    if text.len() > 0 && text[0] == '-' {
        match bounded_value(text.drop_first(), 0x8000_0000) {
            Some(v) => Some((0 - v) as i32),
            None => None,
        }
    } else {
        let digits = if text.len() > 0 && text[0] == '+' {
            text.drop_first()
        } else {
            text
        };
        match bounded_value(digits, 0x7fff_ffff) {
            Some(v) => Some(v as i32),
            None => None,
        }
    }
}

/// A text spells at least what any of its beginnings spells.
pub proof fn digits_value_grows(s: Seq<char>, k: int)
    requires
        0 <= k <= s.len(),
    ensures
        digits_value(s.take(k)) <= digits_value(s),
    decreases s.len() - k,
{
    if k == s.len() {
        assert(s.take(k) =~= s);
    } else {
        assert(s.drop_last().take(k) =~= s.take(k));
        digits_value_grows(s.drop_last(), k);
    }
}

/// Reads the decimal digits of `text` from character `from` on.
fn read_digits(text: &str, from: usize, limit: u64) -> (r: Option<u64>)
    requires
        from <= text@.len(),
    ensures
        match r {
            Some(v) => bounded_value(text@.skip(from as int), limit as nat) == Some(v as nat),
            None => bounded_value(text@.skip(from as int), limit as nat) is None,
        },
{
    let n = text.unicode_len();
    if from == n {
        return None;
    }
    let ghost digits = text@.skip(from as int);
    let mut acc: u64 = 0;
    let mut i: usize = from;
    assert(digits.take(0) =~= Seq::<char>::empty());
    while i < n
        invariant
            from <= i <= n,
            n == text@.len(),
            digits == text@.skip(from as int),
            all_digits(digits.take(i - from)),
            acc == digits_value(digits.take(i - from)),
            acc <= limit,
        decreases n - i,
    {
        let c = text.get_char(i);
        assert(c == digits[i - from]);
        if !('0' <= c && c <= '9') {
            return None;
        }
        let d: u64 = (c as u32 - 48) as u64;
        proof {
            let next = digits.take(i - from + 1);
            assert(next.drop_last() =~= digits.take(i - from));
            assert(next.last() == c);
            assert(digits_value(next) == acc * 10 + d);
            digits_value_grows(digits, i - from + 1);
            assert forall|j: int| 0 <= j < next.len() implies is_digit(#[trigger] next[j]) by {
                if j < i - from {
                    assert(next[j] == digits.take(i - from)[j]);
                }
            }
        }
        if d > limit || acc > (limit - d) / 10 {
            return None;
        }
        acc = acc * 10 + d;
        i += 1;
    }
    assert(digits.take(n - from) =~= digits);
    Some(acc)
}

/// Reads a 64-bit unsigned integer.
pub fn read_u64(text: &str) -> (r: Option<u64>)
    ensures
        r == u64_of_text(text@),
{
    let n = text.unicode_len();
    let from: usize = if n > 0 && text.get_char(0) == '+' {
        1
    } else {
        0
    };
    assert(text@.skip(0) =~= text@);
    assert(n > 0 ==> text@.skip(1) =~= text@.drop_first());
    read_digits(text, from, u64::MAX)
}

/// Reads a 32-bit signed integer.
pub fn read_i32(text: &str) -> (r: Option<i32>)
    ensures
        r == i32_of_text(text@),
{
    let n = text.unicode_len();
    assert(text@.skip(0) =~= text@);
    assert(n > 0 ==> text@.skip(1) =~= text@.drop_first());
    if n > 0 && text.get_char(0) == '-' {
        match read_digits(text, 1, 0x8000_0000) {
            Some(v) => Some((0 - v as i64) as i32),
            None => None,
        }
    } else {
        let from: usize = if n > 0 && text.get_char(0) == '+' {
            1
        } else {
            0
        };
        match read_digits(text, from, 0x7fff_ffff) {
            Some(v) => Some(v as i32),
            None => None,
        }
    }
}

/// The characters of an optional string.
pub open spec fn opt_text(o: Option<String>) -> Option<Seq<char>> {
    match o {
        Some(s) => Some(s@),
        None => None,
    }
}

/// Copies an optional string.
pub fn clone_opt_text(o: &Option<String>) -> (r: Option<String>)
    ensures
        opt_text(r) == opt_text(*o),
{
    match o {
        Some(s) => Some(s.clone()),
        None => None,
    }
}

/// Whether `list` holds `path`, compared character by character.
pub open spec fn listed(list: Seq<String>, path: Seq<char>) -> bool {
    exists|i: int| 0 <= i < list.len() && (#[trigger] list[i])@ == path
}

/// The character of one decimal digit.
pub open spec fn digit_char(d: nat) -> char
    recommends
        d < 10,
{
    ((48 + d) as u8) as char
}

/// The decimal text of a number, without sign or leading zeros.
pub open spec fn spec_decimal(n: nat) -> Seq<char>
    decreases n,
{
    if n < 10 {
        seq![digit_char(n)]
    } else {
        spec_decimal(n / 10).push(digit_char(n % 10))
    }
}

/// Different numbers have different decimal texts.
pub proof fn decimal_is_injective(a: nat, b: nat)
    requires
        spec_decimal(a) == spec_decimal(b),
    ensures
        a == b,
    decreases a,
{
    let da = spec_decimal(a);
    let db = spec_decimal(b);
    if a < 10 && b < 10 {
        assert(da[0] == db[0]);
        assert(da[0] == digit_char(a) && db[0] == digit_char(b));
        assert(digit_char(a) as u8 == 48 + a && digit_char(b) as u8 == 48 + b);
    } else if a < 10 {
        assert(db.len() == spec_decimal(b / 10).len() + 1);
        decimal_is_not_empty(b / 10);
        assert(da.len() == 1);
    } else if b < 10 {
        assert(da.len() == spec_decimal(a / 10).len() + 1);
        decimal_is_not_empty(a / 10);
        assert(db.len() == 1);
    } else {
        let pa = spec_decimal(a / 10);
        let pb = spec_decimal(b / 10);
        assert(da.last() == digit_char(a % 10));
        assert(db.last() == digit_char(b % 10));
        assert(da.drop_last() =~= pa);
        assert(db.drop_last() =~= pb);
        decimal_is_injective(a / 10, b / 10);
        assert(da.last() == db.last());
        assert(digit_char(a % 10) as u8 == 48 + a % 10 && digit_char(b % 10) as u8 == 48 + b % 10);
        assert(a % 10 == b % 10);
        assert(a == 10 * (a / 10) + a % 10 && b == 10 * (b / 10) + b % 10);
    }
}

/// A decimal text has at least one digit.
pub proof fn decimal_is_not_empty(n: nat)
    ensures
        spec_decimal(n).len() >= 1,
    decreases n,
{
    if n >= 10 {
        decimal_is_not_empty(n / 10);
    }
}

/// The text of one digit.
fn digit_text(d: u64) -> (r: &'static str)
    requires
        d < 10,
    ensures
        r@ == seq![digit_char(d as nat)],
{
    proof {
        reveal_strlit("0");
        reveal_strlit("1");
        reveal_strlit("2");
        reveal_strlit("3");
        reveal_strlit("4");
        reveal_strlit("5");
        reveal_strlit("6");
        reveal_strlit("7");
        reveal_strlit("8");
        reveal_strlit("9");
    }
    let r = if d == 0 {
        "0"
    } else if d == 1 {
        "1"
    } else if d == 2 {
        "2"
    } else if d == 3 {
        "3"
    } else if d == 4 {
        "4"
    } else if d == 5 {
        "5"
    } else if d == 6 {
        "6"
    } else if d == 7 {
        "7"
    } else if d == 8 {
        "8"
    } else {
        "9"
    };
    assert(r@ =~= seq![digit_char(d as nat)]);
    r
}

/// Writes a number in decimal.
pub fn decimal(n: u64) -> (s: String)
    ensures
        s@ == spec_decimal(n as nat),
    decreases n,
{
    if n < 10 {
        digit_text(n).to_owned()
    } else {
        let mut s = decimal(n / 10);
        s.append(digit_text(n % 10));
        assert(s@ =~= spec_decimal(n as nat));
        s
    }
}

} // verus!
