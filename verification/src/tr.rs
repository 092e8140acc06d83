//! What `tr` computes: its sets, what it does to one byte, and what it
//! makes of a chunk of its input.

use vstd::prelude::*;

verus! {

/// The exit status of `tr` where its arguments are refused.
pub const TR_USAGE: i32 = 2;

/// What the arguments of `tr` ask for.
pub struct TrOptions {
    pub delete: bool,
    pub complement: bool,
    pub squeeze: bool,
    pub sets: Vec<Vec<u8>>,
}

/// Mathematical value of the sets of [`TrOptions`].
pub open spec fn set_views(sets: Seq<Vec<u8>>) -> Seq<Seq<u8>> {
    Seq::new(sets.len(), |i: int| sets[i]@)
}

/// Mathematical value of [`TrOptions`].
pub struct TrOptionsView {
    pub delete: bool,
    pub complement: bool,
    pub squeeze: bool,
    pub sets: Seq<Seq<u8>>,
}

impl View for TrOptions {
    type V = TrOptionsView;

    open spec fn view(&self) -> TrOptionsView {
        TrOptionsView {
            delete: self.delete,
            complement: self.complement,
            squeeze: self.squeeze,
            sets: set_views(self.sets@),
        }
    }
}

/// The options after one more argument: `-d`, `-c` and `-s` switch
/// deleting, complementing and squeezing on, every other argument is a
/// set.
pub open spec fn option_after(o: TrOptionsView, arg: Seq<u8>) -> TrOptionsView {
    if arg == seq![0x2du8, 0x64u8] {
        TrOptionsView { delete: true, ..o }
    } else if arg == seq![0x2du8, 0x63u8] {
        TrOptionsView { complement: true, ..o }
    } else if arg == seq![0x2du8, 0x73u8] {
        TrOptionsView { squeeze: true, ..o }
    } else {
        TrOptionsView { sets: o.sets.push(arg), ..o }
    }
}

/// The options that the arguments spell.
pub open spec fn spec_tr_options(args: Seq<Seq<u8>>) -> TrOptionsView
    decreases args.len(),
{
    if args.len() == 0 {
        TrOptionsView { delete: false, complement: false, squeeze: false, sets: Seq::empty() }
    } else {
        option_after(spec_tr_options(args.drop_last()), args.last())
    }
}

/// Whether an argument is the flag `-` followed by `letter`.
fn is_flag(arg: &Vec<u8>, letter: u8) -> (r: bool)
    ensures
        r == (arg@ == seq![0x2du8, letter]),
{
    let r = arg.len() == 2 && arg[0] == 0x2du8 && arg[1] == letter;
    assert(r ==> arg@ =~= seq![0x2du8, letter]);
    r
}

/// Reads the arguments of `tr`, given as bytes.
pub fn tr_options(args: &[Vec<u8>]) -> (o: TrOptions)
    ensures
        o@ == spec_tr_options(set_views(args@)),
{
    let mut o = TrOptions { delete: false, complement: false, squeeze: false, sets: Vec::new() };
    let mut i: usize = 0;
    let ghost all = set_views(args@);
    assert(set_views(o.sets@) =~= Seq::<Seq<u8>>::empty());
    assert(all.take(0) =~= Seq::<Seq<u8>>::empty());
    while i < args.len()
        invariant
            i <= args@.len(),
            all == set_views(args@),
            o@ == spec_tr_options(all.take(i as int)),
        decreases args@.len() - i,
    {
        proof {
            assert(all.take(i + 1).drop_last() =~= all.take(i as int));
            assert(all.take(i + 1).last() == args@[i as int]@);
        }
        if is_flag(&args[i], 0x64u8) {
            o.delete = true;
        } else if is_flag(&args[i], 0x63u8) {
            o.complement = true;
        } else if is_flag(&args[i], 0x73u8) {
            o.squeeze = true;
        } else {
            let ghost before = set_views(o.sets@);
            o.sets.push(args[i].clone());
            assert(set_views(o.sets@) =~= before.push(args@[i as int]@));
        }
        i += 1;
    }
    assert(all.take(i as int) =~= all);
    o
}

/// The bytes from `a` to `b`, counting up, or down where `a` is the
/// greater.
pub open spec fn range_bytes(a: u8, b: u8) -> Seq<u8> {
    if a <= b {
        Seq::new((b - a + 1) as nat, |k: int| (a + k) as u8)
    } else {
        Seq::new((a - b + 1) as nat, |k: int| (a - k) as u8)
    }
}

/// The bytes of a character class; none for a name that is no class.
pub open spec fn class_bytes(name: Seq<u8>) -> Seq<u8> {
    if name == seq![0x64u8, 0x69u8, 0x67u8, 0x69u8, 0x74u8] {
        range_bytes(0x30u8, 0x39u8)
    } else if name == seq![0x61u8, 0x6cu8, 0x70u8, 0x68u8, 0x61u8] {
        range_bytes(0x41u8, 0x5au8) + range_bytes(0x61u8, 0x7au8)
    } else if name == seq![0x61u8, 0x6cu8, 0x6eu8, 0x75u8, 0x6du8] {
        range_bytes(0x30u8, 0x39u8) + range_bytes(0x41u8, 0x5au8) + range_bytes(0x61u8, 0x7au8)
    } else if name == seq![0x6cu8, 0x6fu8, 0x77u8, 0x65u8, 0x72u8] {
        range_bytes(0x61u8, 0x7au8)
    } else if name == seq![0x75u8, 0x70u8, 0x70u8, 0x65u8, 0x72u8] {
        range_bytes(0x41u8, 0x5au8)
    } else if name == seq![0x73u8, 0x70u8, 0x61u8, 0x63u8, 0x65u8] {
        seq![0x20u8, 0x09u8, 0x0au8, 0x0du8, 0x0bu8, 0x0cu8]
    } else if name == seq![0x62u8, 0x6cu8, 0x61u8, 0x6eu8, 0x6bu8] {
        seq![0x20u8, 0x09u8]
    } else if name == seq![0x78u8, 0x64u8, 0x69u8, 0x67u8, 0x69u8, 0x74u8] {
        range_bytes(0x30u8, 0x39u8) + range_bytes(0x41u8, 0x46u8) + range_bytes(0x61u8, 0x66u8)
    } else {
        Seq::empty()
    }
}

/// Where the first `:]` of `s` from byte `j` on begins.
pub open spec fn find_close(s: Seq<u8>, j: int) -> Option<int>
    decreases s.len() - j,
{
    if j < 0 || j + 1 >= s.len() {
        None
    } else if s[j] == 0x3au8 && s[j + 1] == 0x5du8 {
        Some(j)
    } else {
        find_close(s, j + 1)
    }
}

/// Where the name of the class that begins at byte `i` ends: at the first
/// `:]` behind its `[:`; -1 where there is none.
pub open spec fn class_end(s: Seq<u8>, i: int) -> int {
    match find_close(s, i + 2) {
        Some(e) => e,
        None => -1,
    }
}

/// The bytes that a set stands for, reading it from byte `i` on:
/// `[:name:]` stands for the bytes of that class, `a-b` for the bytes from
/// `a` to `b`, and every other byte for itself.
pub open spec fn spec_expand(s: Seq<u8>, i: int) -> Seq<u8>
    decreases s.len() - i,
    when i >= 0
{
    if i >= s.len() {
        Seq::empty()
    } else if i + 1 < s.len() && s[i] == 0x5bu8 && s[i + 1] == 0x3au8 && i + 2 <= class_end(s, i)
        && class_end(s, i) + 2 <= s.len() {
        class_bytes(s.subrange(i + 2, class_end(s, i))) + spec_expand(s, class_end(s, i) + 2)
    } else if i + 2 < s.len() && s[i + 1] == 0x2du8 && s[i] != 0x2du8 && s[i + 2] != 0x2du8 {
        range_bytes(s[i], s[i + 2]) + spec_expand(s, i + 3)
    } else {
        seq![s[i]] + spec_expand(s, i + 1)
    }
}

/// Appends the bytes from `a` to `b`.
fn push_range(out: &mut Vec<u8>, a: u8, b: u8)
    ensures
        final(out)@ == old(out)@ + range_bytes(a, b),
{
    let n: usize = if a <= b {
        (b - a) as usize + 1
    } else {
        (a - b) as usize + 1
    };
    let mut k: usize = 0;
    assert(range_bytes(a, b).take(0) =~= Seq::<u8>::empty());
    assert(out@ + Seq::<u8>::empty() =~= out@);
    while k < n
        invariant
            k <= n,
            n == range_bytes(a, b).len(),
            n <= 256,
            out@ == old(out)@ + range_bytes(a, b).take(k as int),
        decreases n - k,
    {
        let c: u8 = if a <= b {
            a + k as u8
        } else {
            a - k as u8
        };
        out.push(c);
        assert(range_bytes(a, b).take(k + 1) =~= range_bytes(a, b).take(k as int).push(c));
        assert(out@ =~= old(out)@ + range_bytes(a, b).take(k + 1));
        k += 1;
    }
    assert(range_bytes(a, b).take(n as int) =~= range_bytes(a, b));
}

/// Whether the bytes of `s` from `from` up to `to` are those of `word`.
fn is_word(s: &[u8], from: usize, to: usize, word: &[u8]) -> (r: bool)
    requires
        from <= to <= s@.len(),
    ensures
        r == (s@.subrange(from as int, to as int) == word@),
{
    if to - from != word.len() {
        return false;
    }
    let mut k: usize = 0;
    while k < word.len()
        invariant
            k <= word@.len(),
            to - from == word@.len(),
            from <= to <= s@.len(),
            forall|j: int| 0 <= j < k ==> s@[from + j] == word@[j],
        decreases word@.len() - k,
    {
        if s[from + k] != word[k] {
            assert(s@.subrange(from as int, to as int)[k as int] != word@[k as int]);
            return false;
        }
        k += 1;
    }
    assert(s@.subrange(from as int, to as int) =~= word@);
    true
}

/// Appends the bytes of the class whose name stands in `s` from `from` up
/// to `to`.
fn push_class(out: &mut Vec<u8>, s: &[u8], from: usize, to: usize)
    requires
        from <= to <= s@.len(),
    ensures
        final(out)@ == old(out)@ + class_bytes(s@.subrange(from as int, to as int)),
{
    let ghost start = out@;
    if is_word(s, from, to, &[0x64u8, 0x69u8, 0x67u8, 0x69u8, 0x74u8]) {
        push_range(out, 0x30u8, 0x39u8);
    } else if is_word(s, from, to, &[0x61u8, 0x6cu8, 0x70u8, 0x68u8, 0x61u8]) {
        push_range(out, 0x41u8, 0x5au8);
        push_range(out, 0x61u8, 0x7au8);
        assert(out@ =~= start + (range_bytes(0x41u8, 0x5au8) + range_bytes(0x61u8, 0x7au8)));
    } else if is_word(s, from, to, &[0x61u8, 0x6cu8, 0x6eu8, 0x75u8, 0x6du8]) {
        push_range(out, 0x30u8, 0x39u8);
        push_range(out, 0x41u8, 0x5au8);
        push_range(out, 0x61u8, 0x7au8);
        assert(out@ =~= start + (range_bytes(0x30u8, 0x39u8) + range_bytes(0x41u8, 0x5au8) + range_bytes(
            0x61u8,
            0x7au8,
        )));
    } else if is_word(s, from, to, &[0x6cu8, 0x6fu8, 0x77u8, 0x65u8, 0x72u8]) {
        push_range(out, 0x61u8, 0x7au8);
    } else if is_word(s, from, to, &[0x75u8, 0x70u8, 0x70u8, 0x65u8, 0x72u8]) {
        push_range(out, 0x41u8, 0x5au8);
    } else if is_word(s, from, to, &[0x73u8, 0x70u8, 0x61u8, 0x63u8, 0x65u8]) {
        out.push(0x20);
        out.push(0x09);
        out.push(0x0a);
        out.push(0x0d);
        out.push(0x0b);
        out.push(0x0c);
        assert(out@ =~= start + seq![0x20u8, 0x09u8, 0x0au8, 0x0du8, 0x0bu8, 0x0cu8]);
    } else if is_word(s, from, to, &[0x62u8, 0x6cu8, 0x61u8, 0x6eu8, 0x6bu8]) {
        out.push(0x20);
        out.push(0x09);
        assert(out@ =~= start + seq![0x20u8, 0x09u8]);
    } else if is_word(s, from, to, &[0x78u8, 0x64u8, 0x69u8, 0x67u8, 0x69u8, 0x74u8]) {
        push_range(out, 0x30u8, 0x39u8);
        push_range(out, 0x41u8, 0x46u8);
        push_range(out, 0x61u8, 0x66u8);
        assert(out@ =~= start + (range_bytes(0x30u8, 0x39u8) + range_bytes(0x41u8, 0x46u8) + range_bytes(
            0x61u8,
            0x66u8,
        )));
    } else {
        assert(out@ =~= start + Seq::<u8>::empty());
    }
}

/// Looks for the first `:]` of `s` from byte `j` on.
fn close_at(s: &[u8], j: usize) -> (r: Option<usize>)
    ensures
        match r {
            Some(e) => find_close(s@, j as int) == Some(e as int) && j <= e && e + 1 < s@.len(),
            None => find_close(s@, j as int) is None,
        },
{
    let mut k: usize = j;
    while k < s.len() && k + 1 < s.len()
        invariant
            j <= k,
            find_close(s@, k as int) == find_close(s@, j as int),
        decreases s@.len() - k,
    {
        if s[k] == 0x3au8 && s[k + 1] == 0x5du8 {
            return Some(k);
        }
        k += 1;
    }
    None
}

/// Expands a set into the bytes it stands for.
pub fn expand_set(set: &[u8]) -> (out: Vec<u8>)
    ensures
        out@ == spec_expand(set@, 0),
{
    let mut out: Vec<u8> = Vec::new();
    let mut i: usize = 0;
    let n = set.len();
    assert(out@ + spec_expand(set@, 0) =~= spec_expand(set@, 0));
    while i < n
        invariant
            i <= n,
            n == set@.len(),
            out@ + spec_expand(set@, i as int) == spec_expand(set@, 0),
        decreases n - i,
    {
        let ghost before = out@;
        if n - i > 1 && set[i] == 0x5bu8 && set[i + 1] == 0x3au8 {
            match close_at(set, i + 2) {
                Some(e) => {
                    push_class(&mut out, set, i + 2, e);
                    assert(out@ + spec_expand(set@, e + 2) =~= before + (class_bytes(
                        set@.subrange(i + 2, e as int),
                    ) + spec_expand(set@, e + 2)));
                    i = e + 2;
                    continue ;
                },
                None => {},
            }
        }
        if n - i > 2 && set[i + 1] == 0x2du8 && set[i] != 0x2du8 && set[i + 2] != 0x2du8 {
            push_range(&mut out, set[i], set[i + 2]);
            assert(out@ + spec_expand(set@, i + 3) =~= before + (range_bytes(
                set@[i as int],
                set@[i + 2],
            ) + spec_expand(set@, i + 3)));
            i += 3;
        } else {
            out.push(set[i]);
            assert(out@ + spec_expand(set@, i + 1) =~= before + (seq![set@[i as int]]
                + spec_expand(set@, i + 1)));
            i += 1;
        }
    }
    assert(out@ + Seq::<u8>::empty() =~= out@);
    out
}

/// What `tr` does: the set of bytes it looks for, the set it translates
/// them to, and whether it deletes, complements and squeezes.
pub struct TrPlan {
    pub delete: bool,
    pub complement: bool,
    pub squeeze: bool,
    pub set1: Vec<u8>,
    pub set2: Vec<u8>,
}

/// Mathematical value of a [`TrPlan`].
pub struct TrPlanView {
    pub delete: bool,
    pub complement: bool,
    pub squeeze: bool,
    pub set1: Seq<u8>,
    pub set2: Seq<u8>,
}

impl View for TrPlan {
    type V = TrPlanView;

    open spec fn view(&self) -> TrPlanView {
        TrPlanView {
            delete: self.delete,
            complement: self.complement,
            squeeze: self.squeeze,
            set1: self.set1@,
            set2: self.set2@,
        }
    }
}

/// What the options ask `tr` to do; `None` where they are refused.
///
/// Deleting takes one set. Translating takes two sets that are equally
/// long as written and as expanded, and cannot be complemented.
/// Squeezing alone takes one set.
pub open spec fn spec_tr_plan(o: TrOptionsView) -> Option<TrPlanView> {
    let one_set = o.delete || (o.squeeze && o.sets.len() == 1);
    if o.delete && o.sets.len() != 1 {
        None
    } else if !one_set && o.sets.len() != 2 {
        None
    } else if !o.delete && o.sets.len() == 2 && o.sets[0].len() != o.sets[1].len() {
        None
    } else {
        let set1 = spec_expand(o.sets[0], 0);
        let set2 = if one_set {
            Seq::empty()
        } else {
            spec_expand(o.sets[1], 0)
        };
        if !o.delete && set2.len() > 0 && set1.len() != set2.len() {
            None
        } else if o.complement && !o.delete && set2.len() > 0 {
            None
        } else {
            Some(
                TrPlanView {
                    delete: o.delete,
                    complement: o.complement,
                    squeeze: o.squeeze,
                    set1,
                    set2,
                },
            )
        }
    }
}

/// Checks the options of `tr` and expands its sets. Options that are
/// refused end `tr` with the status [`TR_USAGE`].
pub fn tr_plan(o: &TrOptions) -> (r: Option<TrPlan>)
    ensures
        match r {
            Some(p) => spec_tr_plan(o@) == Some(p@),
            None => spec_tr_plan(o@) is None,
        },
{
    let count = o.sets.len();
    let one_set = o.delete || (o.squeeze && count == 1);
    if o.delete && count != 1 {
        return None;
    }
    if !one_set && count != 2 {
        return None;
    }
    if !o.delete && count == 2 && o.sets[0].len() != o.sets[1].len() {
        return None;
    }
    let set1 = expand_set(o.sets[0].as_slice());
    let set2 = if one_set {
        Vec::new()
    } else {
        expand_set(o.sets[1].as_slice())
    };
    if !o.delete && set2.len() > 0 && set1.len() != set2.len() {
        return None;
    }
    if o.complement && !o.delete && set2.len() > 0 {
        return None;
    }
    Some(TrPlan { delete: o.delete, complement: o.complement, squeeze: o.squeeze, set1, set2 })
}

/// The byte that `b` is translated to by the first `k` pairs of the two
/// sets: the partner of its last occurrence among them, and `b` itself
/// where it does not occur.
pub open spec fn last_pair(set1: Seq<u8>, set2: Seq<u8>, b: u8, k: int) -> u8
    decreases k,
{
    if k <= 0 || k > set1.len() || k > set2.len() {
        b
    } else if set1[k - 1] == b {
        set2[k - 1]
    } else {
        last_pair(set1, set2, b, k - 1)
    }
}

/// What becomes of the byte `b`: `None` where it is deleted, and else the
/// byte that is written for it.
pub open spec fn mapped(p: TrPlanView, b: u8) -> Option<u8> {
    if p.delete {
        if p.complement != p.set1.contains(b) {
            None
        } else {
            Some(b)
        }
    } else if p.set2.len() > 0 {
        Some(last_pair(p.set1, p.set2, b, p.set2.len() as int))
    } else {
        Some(b)
    }
}

/// Whether repeats of the written byte `b` are squeezed into one.
pub open spec fn squeezed(p: TrPlanView, b: u8) -> bool {
    let base = if !p.delete && p.set2.len() > 0 {
        p.set2
    } else {
        p.set1
    };
    p.squeeze && (p.complement != base.contains(b))
}

/// What `tr` remembers between bytes: the byte it wrote last while
/// squeezing, and whether that byte is one that is squeezed.
#[derive(Debug, Clone, Copy, PartialEq, Eq, Structural)]
pub struct TrState {
    pub last_out: Option<u8>,
    pub last_in_s: bool,
}

/// What is written for one byte, if anything, and the state after it.
pub open spec fn tr_step(p: TrPlanView, st: TrState, b: u8) -> (Option<u8>, TrState) {
    match mapped(p, b) {
        None => (None, st),
        Some(ob) => if p.squeeze {
            if st.last_out == Some(ob) && squeezed(p, ob) && st.last_in_s {
                (None, st)
            } else {
                (Some(ob), TrState { last_out: Some(ob), last_in_s: squeezed(p, ob) })
            }
        } else {
            (Some(ob), st)
        },
    }
}

/// What is written for the bytes of `data`, and the state after them.
pub open spec fn spec_tr(p: TrPlanView, st: TrState, data: Seq<u8>) -> (Seq<u8>, TrState)
    decreases data.len(),
{
    if data.len() == 0 {
        (Seq::empty(), st)
    } else {
        let (out, mid) = spec_tr(p, st, data.drop_last());
        let (byte, end) = tr_step(p, mid, data.last());
        match byte {
            Some(ob) => (out.push(ob), end),
            None => (out, end),
        }
    }
}

/// Whether `set` holds `b`.
fn holds_byte(set: &Vec<u8>, b: u8) -> (r: bool)
    ensures
        r == set@.contains(b),
{
    let mut i: usize = 0;
    while i < set.len()
        invariant
            i <= set@.len(),
            forall|j: int| 0 <= j < i ==> set@[j] != b,
        decreases set@.len() - i,
    {
        if set[i] == b {
            return true;
        }
        i += 1;
    }
    false
}

/// The byte that `b` is translated to.
fn translate(set1: &Vec<u8>, set2: &Vec<u8>, b: u8) -> (r: u8)
    ensures
        r == last_pair(set1@, set2@, b, set2@.len() as int),
{
    if set2.len() > set1.len() {
        return b;
    }
    let mut k: usize = set2.len();
    while k > 0
        invariant
            k <= set2@.len() <= set1@.len(),
            last_pair(set1@, set2@, b, k as int) == last_pair(set1@, set2@, b, set2@.len() as int),
        decreases k,
    {
        if set1[k - 1] == b {
            return set2[k - 1];
        }
        k -= 1;
    }
    b
}

/// Translates, deletes and squeezes the bytes of one chunk of input.
pub fn tr_chunk(p: &TrPlan, st: TrState, data: &[u8]) -> (r: (Vec<u8>, TrState))
    ensures
        (r.0@, r.1) == spec_tr(p@, st, data@),
{
    let mut out: Vec<u8> = Vec::new();
    let mut cur = st;
    let mut i: usize = 0;
    assert(data@.take(0) =~= Seq::<u8>::empty());
    while i < data.len()
        invariant
            i <= data@.len(),
            (out@, cur) == spec_tr(p@, st, data@.take(i as int)),
        decreases data@.len() - i,
    {
        proof {
            assert(data@.take(i + 1).drop_last() =~= data@.take(i as int));
            assert(data@.take(i + 1).last() == data@[i as int]);
        }
        let b = data[i];
        let m: Option<u8> = if p.delete {
            if p.complement != holds_byte(&p.set1, b) {
                None
            } else {
                Some(b)
            }
        } else if p.set2.len() > 0 {
            Some(translate(&p.set1, &p.set2, b))
        } else {
            Some(b)
        };
        match m {
            None => {},
            Some(ob) => {
                if p.squeeze {
                    let in_s = if !p.delete && p.set2.len() > 0 {
                        p.complement != holds_byte(&p.set2, ob)
                    } else {
                        p.complement != holds_byte(&p.set1, ob)
                    };
                    let repeat = match cur.last_out {
                        Some(prev) => prev == ob && in_s && cur.last_in_s,
                        None => false,
                    };
                    if !repeat {
                        out.push(ob);
                        cur = TrState { last_out: Some(ob), last_in_s: in_s };
                    }
                } else {
                    out.push(ob);
                }
            },
        }
        i += 1;
    }
    assert(data@.take(i as int) =~= data@);
    (out, cur)
}

} // verus!
