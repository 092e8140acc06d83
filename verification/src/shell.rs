//! Reading a pipeline: its stages, their words and their redirections.

use vstd::prelude::*;
use vstd::string::StrSliceExecFns;
use crate::text::{i32_of_text, read_i32, read_u64, same_text, u64_of_text};

verus! {

/// The text utilities that run inside the shell.
#[derive(Debug, Clone, Copy, PartialEq, Eq, Structural)]
pub enum BuiltinKind {
    Cat,
    Head,
    Tail,
    Wc,
    Grep,
    Tr,
    Sed,
    Help,
    Llmsh,
    Exit,
}

/// The redirections of one stage: its input file, and its output file with
/// whether output is appended to it.
#[derive(Debug, Default, Clone)]
pub struct RedirSpec {
    pub in_file: Option<String>,
    pub out_file: Option<(String, bool)>,
}

/// One stage of a pipeline.
#[derive(Debug, Clone)]
pub enum ExecUnit {
    Builtin { kind: BuiltinKind, args: Vec<String>, redir: RedirSpec },
    External { argv: Vec<String>, redir: RedirSpec },
}

/// The characters of each string of a sequence.
pub open spec fn texts(v: Seq<String>) -> Seq<Seq<char>> {
    Seq::new(v.len(), |i: int| v[i]@)
}

/// Mathematical value of a [`RedirSpec`].
pub struct RedirView {
    pub in_file: Option<Seq<char>>,
    pub out_file: Option<(Seq<char>, bool)>,
}

impl View for RedirSpec {
    type V = RedirView;

    open spec fn view(&self) -> RedirView {
        RedirView {
            in_file: match self.in_file {
                Some(s) => Some(s@),
                None => None,
            },
            out_file: match self.out_file {
                Some((s, append)) => Some((s@, append)),
                None => None,
            },
        }
    }
}

/// Mathematical value of an [`ExecUnit`].
pub enum UnitView {
    Builtin { kind: BuiltinKind, args: Seq<Seq<char>>, redir: RedirView },
    External { argv: Seq<Seq<char>>, redir: RedirView },
}

impl View for ExecUnit {
    type V = UnitView;

    open spec fn view(&self) -> UnitView {
        match self {
            ExecUnit::Builtin { kind, args, redir } => UnitView::Builtin {
                kind: *kind,
                args: texts(args@),
                redir: redir@,
            },
            ExecUnit::External { argv, redir } => UnitView::External {
                argv: texts(argv@),
                redir: redir@,
            },
        }
    }
}

/// The exit status that the arguments of `exit` ask for: the number that
/// the first one spells, and `default` where there is none or it spells
/// none.
pub open spec fn spec_exit_code(args: Seq<Seq<char>>, default: i32) -> i32 {
    if args.len() == 0 {
        default
    } else {
        match i32_of_text(args[0]) {
            Some(v) => v,
            None => default,
        }
    }
}

/// Reads the exit status from the arguments of `exit`.
pub fn parse_exit_code(args: &Vec<String>, default: i32) -> (r: i32)
    ensures
        r == spec_exit_code(texts(args@), default),
{
    if args.len() == 0 {
        return default;
    }
    match read_i32(args[0].as_str()) {
        Some(v) => v,
        None => default,
    }
}

/// The exit status of `exit` as a stage of a pipeline: 0 unless its first
/// argument spells another.
pub fn run_builtin_exit(args: &Vec<String>) -> (r: i32)
    ensures
        r == spec_exit_code(texts(args@), 0),
{
    parse_exit_code(args, 0)
}

/// The line count and the files that the arguments of `head` or `tail`
/// name, reading from argument `i` on.
pub open spec fn spec_head_tail(args: Seq<Seq<char>>, i: int, n: usize, files: Seq<Seq<char>>) -> (
    usize,
    Seq<Seq<char>>,
)
    decreases args.len() - i,
{
    if i < 0 || i >= args.len() {
        (n, files)
    } else if args[i] == "-n"@ && i + 1 < args.len() {
        spec_head_tail(args, i + 2, line_count(u64_of_text(args[i + 1]), n), files)
    } else {
        spec_head_tail(args, i + 1, n, files.push(args[i]))
    }
}

/// The line count after an option `-n` whose value spelt `value`: that
/// number where it spelt one that fits, the count so far otherwise.
pub open spec fn line_count(value: Option<u64>, n: usize) -> usize {
    match value {
        Some(v) => if v <= usize::MAX {
            v as usize
        } else {
            n
        },
        None => n,
    }
}

/// Reads the arguments of `head` or `tail`: each `-n N` sets the line
/// count, which starts at 10, and every other argument names a file.
pub fn parse_head_tail_args(_kind: BuiltinKind, args: &[String]) -> (r: (usize, Vec<String>))
    ensures
        (r.0, texts(r.1@)) == spec_head_tail(texts(args@), 0, 10, Seq::empty()),
{
    let mut n: usize = 10;
    let mut files: Vec<String> = Vec::new();
    let mut i: usize = 0;
    assert(texts(files@) =~= Seq::<Seq<char>>::empty());
    while i < args.len()
        invariant
            i <= args@.len(),
            spec_head_tail(texts(args@), i as int, n, texts(files@)) == spec_head_tail(
                texts(args@),
                0,
                10,
                Seq::empty(),
            ),
        decreases args@.len() - i,
    {
        if same_text(args[i].as_str(), "-n") && i + 1 < args.len() {
            n = match read_u64(args[i + 1].as_str()) {
                Some(v) => if v <= usize::MAX as u64 {
                    v as usize
                } else {
                    n
                },
                None => n,
            };
            i += 2;
        } else {
            let ghost before = texts(files@);
            files.push(args[i].clone());
            assert(texts(files@) =~= before.push(texts(args@)[i as int]));
            i += 1;
        }
    }
    (n, files)
}

/// What the words of a stage hold: its redirections, and the words that
/// are left once these are taken out.
pub struct Scan {
    pub redir: RedirView,
    pub words: Seq<Seq<char>>,
}

/// Takes the redirections out of the words of a stage, reading from word
/// `i` on. `<`, `>` and `>>` take the next word as a file, where there is
/// one; the first `<` and the last `>` or `>>` count.
pub open spec fn spec_scan(tokens: Seq<Seq<char>>, i: int, acc: Scan) -> Scan
    decreases tokens.len() - i,
{
    if i < 0 || i >= tokens.len() {
        acc
    } else if i + 1 < tokens.len() && tokens[i] == "<"@ {
        spec_scan(
            tokens,
            i + 2,
            Scan {
                redir: RedirView {
                    in_file: if acc.redir.in_file is None {
                        Some(tokens[i + 1])
                    } else {
                        acc.redir.in_file
                    },
                    ..acc.redir
                },
                ..acc
            },
        )
    } else if i + 1 < tokens.len() && tokens[i] == ">"@ {
        spec_scan(
            tokens,
            i + 2,
            Scan { redir: RedirView { out_file: Some((tokens[i + 1], false)), ..acc.redir }, ..acc },
        )
    } else if i + 1 < tokens.len() && tokens[i] == ">>"@ {
        spec_scan(
            tokens,
            i + 2,
            Scan { redir: RedirView { out_file: Some((tokens[i + 1], true)), ..acc.redir }, ..acc },
        )
    } else {
        spec_scan(tokens, i + 1, Scan { words: acc.words.push(tokens[i]), ..acc })
    }
}

/// The utility that a command word names, if it names one.
pub open spec fn spec_builtin(cmd: Seq<char>) -> Option<BuiltinKind> {
    if cmd == "cat"@ {
        Some(BuiltinKind::Cat)
    } else if cmd == "head"@ {
        Some(BuiltinKind::Head)
    } else if cmd == "tail"@ {
        Some(BuiltinKind::Tail)
    } else if cmd == "wc"@ {
        Some(BuiltinKind::Wc)
    } else if cmd == "grep"@ {
        Some(BuiltinKind::Grep)
    } else if cmd == "tr"@ {
        Some(BuiltinKind::Tr)
    } else if cmd == "sed"@ {
        Some(BuiltinKind::Sed)
    } else if cmd == "help"@ {
        Some(BuiltinKind::Help)
    } else if cmd == "llmsh"@ {
        Some(BuiltinKind::Llmsh)
    } else if cmd == "exit"@ {
        Some(BuiltinKind::Exit)
    } else {
        None
    }
}

/// Looks a command word up among the utilities.
pub fn builtin_of(cmd: &str) -> (r: Option<BuiltinKind>)
    ensures
        r == spec_builtin(cmd@),
{
    if same_text(cmd, "cat") {
        Some(BuiltinKind::Cat)
    } else if same_text(cmd, "head") {
        Some(BuiltinKind::Head)
    } else if same_text(cmd, "tail") {
        Some(BuiltinKind::Tail)
    } else if same_text(cmd, "wc") {
        Some(BuiltinKind::Wc)
    } else if same_text(cmd, "grep") {
        Some(BuiltinKind::Grep)
    } else if same_text(cmd, "tr") {
        Some(BuiltinKind::Tr)
    } else if same_text(cmd, "sed") {
        Some(BuiltinKind::Sed)
    } else if same_text(cmd, "help") {
        Some(BuiltinKind::Help)
    } else if same_text(cmd, "llmsh") {
        Some(BuiltinKind::Llmsh)
    } else if same_text(cmd, "exit") {
        Some(BuiltinKind::Exit)
    } else {
        None
    }
}

/// The stage that a sequence of words spells; `None` where no word is left
/// once the redirections are taken out.
///
/// The first word that is left is the command. `cat` with arguments reads
/// its arguments, so its input redirection does not count.
pub open spec fn spec_unit(tokens: Seq<Seq<char>>) -> Option<UnitView> {
    let scan = spec_scan(
        tokens,
        0,
        Scan { redir: RedirView { in_file: None, out_file: None }, words: Seq::empty() },
    );
    if scan.words.len() == 0 {
        None
    } else {
        let cmd = scan.words[0];
        let args = scan.words.subrange(1, scan.words.len() as int);
        match spec_builtin(cmd) {
            Some(kind) => Some(
                UnitView::Builtin {
                    kind,
                    args,
                    redir: if args.len() > 0 && kind == BuiltinKind::Cat {
                        RedirView { in_file: None, ..scan.redir }
                    } else {
                        scan.redir
                    },
                },
            ),
            None => Some(UnitView::External { argv: scan.words, redir: scan.redir }),
        }
    }
}

/// Reads one stage from its words.
pub fn unit_of_words(toks: &Vec<String>) -> (r: Option<ExecUnit>)
    ensures
        match r {
            Some(u) => spec_unit(texts(toks@)) == Some(u@),
            None => spec_unit(texts(toks@)) is None,
        },
{
    let mut redir = RedirSpec { in_file: None, out_file: None };
    let mut out: Vec<String> = Vec::new();
    let mut i: usize = 0;
    let ghost tokens = texts(toks@);
    assert(texts(out@) =~= Seq::<Seq<char>>::empty());
    while i < toks.len()
        invariant
            i <= toks@.len(),
            tokens == texts(toks@),
            spec_scan(tokens, i as int, Scan { redir: redir@, words: texts(out@) }) == spec_scan(
                tokens,
                0,
                Scan { redir: RedirView { in_file: None, out_file: None }, words: Seq::empty() },
            ),
        decreases toks@.len() - i,
    {
        let t = toks[i].as_str();
        let has_next = i + 1 < toks.len();
        if has_next && same_text(t, "<") {
            if redir.in_file.is_none() {
                redir.in_file = Some(toks[i + 1].clone());
            }
            i += 2;
        } else if has_next && same_text(t, ">") {
            redir.out_file = Some((toks[i + 1].clone(), false));
            i += 2;
        } else if has_next && same_text(t, ">>") {
            redir.out_file = Some((toks[i + 1].clone(), true));
            i += 2;
        } else {
            let ghost before = texts(out@);
            out.push(toks[i].clone());
            assert(texts(out@) =~= before.push(tokens[i as int]));
            i += 1;
        }
    }
    if out.len() == 0 {
        return None;
    }
    let ghost words = texts(out@);
    match builtin_of(out[0].as_str()) {
        Some(kind) => {
            let args = out.split_off(1);
            assert(texts(args@) =~= words.subrange(1, words.len() as int));
            if args.len() > 0 && kind == BuiltinKind::Cat {
                redir.in_file = None;
            }
            Some(ExecUnit::Builtin { kind, args, redir })
        },
        None => Some(ExecUnit::External { argv: out, redir }),
    }
}

/// Reads one stage of a pipeline: a command, its arguments and its
/// redirections, separated by whitespace.
pub fn parse_segment(seg: &str) -> (r: Option<ExecUnit>)
    ensures
        match r {
            Some(u) => spec_unit(words_of(seg@)) == Some(u@),
            None => spec_unit(words_of(seg@)) is None,
        },
{
    let toks = split_words(seg);
    unit_of_words(&toks)
}

/// Whether a character is whitespace.
pub open spec fn is_space(c: char) -> bool {
    let u = c as u32;
    (0x09 <= u && u <= 0x0d) || u == 0x20 || u == 0x85 || u == 0xa0 || u == 0x1680 || (0x2000 <= u
        && u <= 0x200a) || u == 0x2028 || u == 0x2029 || u == 0x202f || u == 0x205f || u == 0x3000
}

/// Whether a character ends a piece: whitespace where a text is cut into
/// words, `|` where it is cut into stages.
pub open spec fn cuts(at_space: bool, c: char) -> bool {
    if at_space {
        is_space(c)
    } else {
        c == '|'
    }
}

/// The pieces of a text between the characters that cut it, reading from
/// character `i` on, where `start` is the beginning of the piece that
/// character `i` belongs to.
pub open spec fn spec_pieces(text: Seq<char>, at_space: bool, start: int, i: int) -> Seq<Seq<char>>
    decreases text.len() - i,
{
    if i < start || start < 0 || i >= text.len() {
        if 0 <= start <= text.len() {
            seq![text.subrange(start, text.len() as int)]
        } else {
            seq![Seq::empty()]
        }
    } else if cuts(at_space, text[i]) {
        seq![text.subrange(start, i)] + spec_pieces(text, at_space, i + 1, i + 1)
    } else {
        spec_pieces(text, at_space, start, i + 1)
    }
}

/// The pieces of a sequence that are not empty, in order.
pub open spec fn not_empty(pieces: Seq<Seq<char>>) -> Seq<Seq<char>>
    decreases pieces.len(),
{
    if pieces.len() == 0 {
        Seq::empty()
    } else if pieces.last().len() > 0 {
        not_empty(pieces.drop_last()).push(pieces.last())
    } else {
        not_empty(pieces.drop_last())
    }
}

/// The words of a text: its maximal runs of characters that are not
/// whitespace, in order.
pub open spec fn words_of(text: Seq<char>) -> Seq<Seq<char>> {
    not_empty(spec_pieces(text, true, 0, 0))
}

/// The stages of a pipeline as text: what stands between its `|`
/// characters.
pub open spec fn stages_of(text: Seq<char>) -> Seq<Seq<char>> {
    spec_pieces(text, false, 0, 0)
}

/// The stages that a sequence of pieces spells: one for each piece that
/// spells one, in order.
pub open spec fn spec_units(pieces: Seq<Seq<char>>) -> Seq<UnitView>
    decreases pieces.len(),
{
    if pieces.len() == 0 {
        Seq::empty()
    } else {
        let rest = spec_units(pieces.drop_last());
        match spec_unit(words_of(pieces.last())) {
            Some(u) => rest.push(u),
            None => rest,
        }
    }
}

/// Mathematical value of a sequence of stages.
pub open spec fn unit_views(units: Seq<ExecUnit>) -> Seq<UnitView> {
    Seq::new(units.len(), |i: int| units[i]@)
}

/// Whether a character ends a piece.
fn is_cut(at_space: bool, c: char) -> (r: bool)
    ensures
        r == cuts(at_space, c),
{
    if at_space {
        let u = c as u32;
        (0x09 <= u && u <= 0x0d) || u == 0x20 || u == 0x85 || u == 0xa0 || u == 0x1680 || (0x2000
            <= u && u <= 0x200a) || u == 0x2028 || u == 0x2029 || u == 0x202f || u == 0x205f || u
            == 0x3000
    } else {
        c == '|'
    }
}

/// Cuts a text at each whitespace character, or at each `|`.
fn split_text(input: &str, at_space: bool) -> (pieces: Vec<String>)
    ensures
        texts(pieces@) == spec_pieces(input@, at_space, 0, 0),
{
    let n = input.unicode_len();
    let mut pieces: Vec<String> = Vec::new();
    let mut start: usize = 0;
    let mut i: usize = 0;
    assert(texts(pieces@) =~= Seq::<Seq<char>>::empty());
    while i < n
        invariant
            n == input@.len(),
            start <= i <= n,
            texts(pieces@) + spec_pieces(input@, at_space, start as int, i as int) == spec_pieces(
                input@,
                at_space,
                0,
                0,
            ),
        decreases n - i,
    {
        if is_cut(at_space, input.get_char(i)) {
            let ghost before = texts(pieces@);
            let piece = input.substring_char(start, i);
            pieces.push(piece.to_owned());
            assert(texts(pieces@) =~= before.push(input@.subrange(start as int, i as int)));
            assert(before + (seq![input@.subrange(start as int, i as int)] + spec_pieces(
                input@,
                at_space,
                i + 1,
                i + 1,
            )) =~= before.push(input@.subrange(start as int, i as int)) + spec_pieces(
                input@,
                at_space,
                i + 1,
                i + 1,
            ));
            start = i + 1;
        }
        i += 1;
    }
    let ghost before = texts(pieces@);
    let last = input.substring_char(start, n);
    pieces.push(last.to_owned());
    assert(texts(pieces@) =~= before + spec_pieces(input@, at_space, start as int, i as int));
    pieces
}

/// Cuts a text at each `|`.
pub fn split_pipes(input: &str) -> (pieces: Vec<String>)
    ensures
        texts(pieces@) == stages_of(input@),
{
    split_text(input, false)
}

/// Splits a text into its words.
pub fn split_words(text: &str) -> (words: Vec<String>)
    ensures
        texts(words@) == words_of(text@),
{
    let pieces = split_text(text, true);
    let mut words: Vec<String> = Vec::new();
    let mut i: usize = 0;
    let ghost all = texts(pieces@);
    assert(all.take(0) =~= Seq::<Seq<char>>::empty());
    assert(texts(words@) =~= Seq::<Seq<char>>::empty());
    while i < pieces.len()
        invariant
            i <= pieces@.len(),
            all == texts(pieces@),
            texts(words@) == not_empty(all.take(i as int)),
        decreases pieces@.len() - i,
    {
        let ghost before = texts(words@);
        proof {
            assert(all.take(i + 1).drop_last() =~= all.take(i as int));
            assert(all.take(i + 1).last() == pieces@[i as int]@);
        }
        if !pieces[i].as_str().is_empty() {
            words.push(pieces[i].clone());
            assert(texts(words@) =~= before.push(pieces@[i as int]@));
        }
        i += 1;
    }
    assert(all.take(i as int) =~= all);
    words
}

/// Reads a pipeline: the stages between its `|` characters, leaving out
/// the pieces that spell none.
pub fn parse_pipeline(input: &str) -> (units: Vec<ExecUnit>)
    ensures
        unit_views(units@) == spec_units(stages_of(input@)),
{
    let pieces = split_pipes(input);
    let mut units: Vec<ExecUnit> = Vec::new();
    let mut i: usize = 0;
    let ghost all = texts(pieces@);
    assert(all.take(0) =~= Seq::<Seq<char>>::empty());
    assert(unit_views(units@) =~= Seq::<UnitView>::empty());
    while i < pieces.len()
        invariant
            i <= pieces@.len(),
            all == texts(pieces@),
            unit_views(units@) == spec_units(all.take(i as int)),
        decreases pieces@.len() - i,
    {
        let ghost before = unit_views(units@);
        proof {
            assert(all.take(i + 1).drop_last() =~= all.take(i as int));
            assert(all.take(i + 1).last() == pieces@[i as int]@);
        }
        match parse_segment(pieces[i].as_str()) {
            Some(u) => {
                units.push(u);
                assert(unit_views(units@) =~= before.push(u@));
            },
            None => {},
        }
        i += 1;
    }
    assert(all.take(i as int) =~= all);
    units
}

} // verus!
