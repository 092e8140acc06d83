//! What the shell says about its utilities.

use vstd::prelude::*;
use vstd::string::{StrSliceExecFns, StringExecFns};
use crate::text::same_text;

verus! {

/// What there is to say about one utility.
pub struct HelpEntry {
    pub name: &'static str,
    pub usage: &'static str,
    pub desc: &'static str,
    /// Each option with what it does.
    pub options: Vec<(&'static str, &'static str)>,
    /// Each example with what it shows.
    pub examples: Vec<(&'static str, &'static str)>,
    /// The names of related utilities.
    pub related: Vec<&'static str>,
}

/// Mathematical value of a [`HelpEntry`].
pub struct HelpView {
    pub name: Seq<char>,
    pub usage: Seq<char>,
    pub desc: Seq<char>,
    pub options: Seq<(Seq<char>, Seq<char>)>,
    pub examples: Seq<(Seq<char>, Seq<char>)>,
    pub related: Seq<Seq<char>>,
}

/// The characters of each pair of texts.
pub open spec fn pair_views(v: Seq<(&'static str, &'static str)>) -> Seq<(Seq<char>, Seq<char>)> {
    Seq::new(v.len(), |i: int| (v[i].0@, v[i].1@))
}

/// The characters of each text.
pub open spec fn name_views(v: Seq<&'static str>) -> Seq<Seq<char>> {
    Seq::new(v.len(), |i: int| v[i]@)
}

impl View for HelpEntry {
    type V = HelpView;

    open spec fn view(&self) -> HelpView {
        HelpView {
            name: self.name@,
            usage: self.usage@,
            desc: self.desc@,
            options: pair_views(self.options@),
            examples: pair_views(self.examples@),
            related: name_views(self.related@),
        }
    }
}

/// The page of `cat`.
pub open spec fn cat_help() -> HelpView {
    HelpView {
        name: "cat"@,
        usage: "cat [file...]"@,
        desc: "concatenate files and print on stdout"@,
        options: Seq::empty(),
        examples: seq![
            ("cat file.txt"@, "Display contents"@),
            ("cat a b"@, "Concatenate a and b"@),
        ],
        related: seq!["head"@, "tail"@],
    }
}

/// The page of `head`.
pub open spec fn head_help() -> HelpView {
    HelpView {
        name: "head"@,
        usage: "head [-n lines] [file...]"@,
        desc: "output the first part of files"@,
        options: seq![
            ("-n N"@, "output first N lines"@),
        ],
        examples: seq![
            ("head -10 file.txt"@, "Show first 10 lines"@),
        ],
        related: seq!["tail"@, "cat"@],
    }
}

/// The page of `tail`.
pub open spec fn tail_help() -> HelpView {
    HelpView {
        name: "tail"@,
        usage: "tail [-n lines] [file...]"@,
        desc: "output the last part of files"@,
        options: seq![
            ("-n N"@, "output last N lines"@),
        ],
        examples: seq![
            ("tail -20 file.txt"@, "Show last 20 lines"@),
        ],
        related: seq!["head"@, "cat"@],
    }
}

/// The page of `wc`.
pub open spec fn wc_help() -> HelpView {
    HelpView {
        name: "wc"@,
        usage: "wc [options] [file...]"@,
        desc: "print line, word, byte counts"@,
        options: seq![
            ("-l"@, "lines only"@),
            ("-w"@, "words only"@),
            ("-c"@, "bytes only"@),
        ],
        examples: seq![
            ("wc file.txt"@, "Show all counts"@),
        ],
        related: seq!["grep"@, "cat"@],
    }
}

/// The page of `grep`.
pub open spec fn grep_help() -> HelpView {
    HelpView {
        name: "grep"@,
        usage: "grep [-i] [-n] [-E] [-v] [-c] [-x] [-w] [-o] [-H|-h] [-q] [-A N] [-B N] [-C N] pattern [file...]"@,
        desc: "search lines matching pattern (literal by default; -E enables regex)"@,
        options: seq![
            ("-i"@, "ignore case"@),
            ("-n"@, "show line numbers"@),
            ("-E"@, "regex pattern (alias -r)"@),
            ("-v"@, "invert match"@),
            ("-c"@, "count matches per file"@),
            ("-x"@, "match whole line"@),
            ("-w"@, "match word"@),
            ("-o"@, "only matching (each match on its own line)"@),
            ("-H"@, "force show filename"@),
            ("-h"@, "suppress filename"@),
            ("-q"@, "quiet (exit on first match, no output)"@),
            ("-A N"@, "print N lines of trailing context"@),
            ("-B N"@, "print N lines of leading context"@),
            ("-C N"@, "print N lines of output context"@),
        ],
        examples: seq![
            ("grep foo file"@, "Find foo"@),
            ("grep -i -E 'foo|bar' file"@, "Regex OR match"@),
            ("cat f | grep -n bar"@, "Pipe with line numbers"@),
            ("grep -c pattern a b"@, "Count per file"@),
            ("grep -w err log"@, "Word match"@),
            ("grep -o -n 'er+'/E log"@, "Only matches with line numbers"@),
            ("grep -C 2 pat file"@, "With context"@),
        ],
        related: seq!["sed"@, "wc"@],
    }
}

/// The page of `tr`.
pub open spec fn tr_help() -> HelpView {
    HelpView {
        name: "tr"@,
        usage: "tr [-d] [-c] [-s] set1 [set2]"@,
        desc: "translate or delete characters with ranges/classes; -s squeeze repeats; -c complement for -d/-s"@,
        options: seq![
            ("-d"@, "delete chars in set1"@),
            ("-c"@, "complement set1 (with -d/-s)"@),
            ("-s"@, "squeeze repeats of set1/translated set"@),
        ],
        examples: seq![
            ("tr abc xyz < in"@, "Map a->x b->y c->z"@),
            ("tr 'a-z' 'A-Z' < in"@, "Uppercase"@),
            ("tr -d '[:digit:]' < in"@, "Delete digits"@),
            ("tr -s ' ' < in"@, "Squeeze spaces"@),
        ],
        related: seq!["sed"@],
    }
}

/// The page of `sed`.
pub open spec fn sed_help() -> HelpView {
    HelpView {
        name: "sed"@,
        usage: "sed [-n] [[addr1][,[addr2]]][!] {p|d|a text|i text|G|g|H|h|x|s/pat/repl/[gEI]|:label|t [label]|T [label]} [file...]"@,
        desc: "stream editor subset: addresses (N, $, /re/), ranges, negation (!); commands p,d,a,i,G,g,H,h,x,s///, labels (:label), and branches t/T. s supports regex (E|r), ignore-case (I), global (g), and &/\\1..\\9 backrefs. t jumps if last s/// substituted; T if not. Label target optional (no label ends the program)."@,
        options: seq![
            ("-n"@, "suppress auto-print"@),
            ("g"@, "global replace for s///"@),
            ("E"@, "enable regex for s/// (alias r)"@),
            ("I"@, "ignore case with regex"@),
        ],
        examples: seq![
            ("sed -n '/error/p' file"@, "Print lines matching 'error'"@),
            ("sed '2,5d' file"@, "Delete lines 2..5"@),
            ("sed '3a appended' file"@, "Append after line 3"@),
            ("sed '1i header' file"@, "Insert before line 1"@),
            ("sed 'G' file"@, "Append hold space to each pattern"@),
            ("sed 'h' file"@, "Copy pattern to hold space"@),
            ("sed 'x' file"@, "Swap pattern and hold"@),
            ("sed ':a; s/aa/a/; t a' file"@, "Loop while substitutions occur"@),
            ("sed 's/foo/bar/; T skip; s/baz/BAZ/; :skip' file"@, "Branch on no-substitution"@),
            ("sed 's/foo/bar/g' file"@, "Replace all foo with bar"@),
        ],
        related: seq!["grep"@, "tr"@],
    }
}

/// The page of `help`.
pub open spec fn help_help() -> HelpView {
    HelpView {
        name: "help"@,
        usage: "help [command]"@,
        desc: "list commands or show detailed help"@,
        options: Seq::empty(),
        examples: seq![
            ("help"@, "List commands"@),
            ("help grep"@, "Show grep help"@),
        ],
        related: Seq::empty(),
    }
}

/// The page of `exit`.
pub open spec fn exit_help() -> HelpView {
    HelpView {
        name: "exit"@,
        usage: "exit [N]"@,
        desc: "exit the current shell or pipeline with status N (default: last command status or 0)"@,
        options: Seq::empty(),
        examples: seq![
            ("exit"@, "Exit with last status"@),
            ("exit 2"@, "Exit with status 2"@),
        ],
        related: Seq::empty(),
    }
}

/// The page of `llmsh`.
pub open spec fn llmsh_help() -> HelpView {
    HelpView {
        name: "llmsh"@,
        usage: "llmsh [-c 'pipeline'] [--vfs-fds R,W | (-i path ... -o path ...)]"@,
        desc: "invoke nested llmsh instance (only -c supported; --vfs-fds is exclusive with -i/-o)"@,
        options: seq![
            ("-c SCRIPT"@, "execute pipeline SCRIPT"@),
            ("--vfs-fds R,W"@, "reuse parent VFS pipe fds (no -i/-o allowed)"@),
        ],
        examples: seq![
            ("llmsh -c 'cat file.txt' -i file.txt"@, "Run with allow list"@),
            ("llmsh -c 'grep foo a | wc -l' --vfs-fds 5,6"@, "Nested pipeline sharing VFS pipes"@),
        ],
        related: seq!["help"@],
    }
}

/// The help table: one page for each utility, in this order.
pub open spec fn help_table() -> Seq<HelpView> {
    seq![cat_help(), head_help(), tail_help(), wc_help(), grep_help(), tr_help(), sed_help(), help_help(), exit_help(), llmsh_help()]
}

fn cat_entry() -> (e: HelpEntry)
    ensures
        e@ == cat_help(),
{
    let e = HelpEntry {
        name: "cat",
        usage: "cat [file...]",
        desc: "concatenate files and print on stdout",
        options: Vec::new(),
        examples: vec![
            ("cat file.txt", "Display contents"),
            ("cat a b", "Concatenate a and b"),
        ],
        related: vec!["head", "tail"],
    };
    assert(pair_views(e.options@) =~= cat_help().options);
    assert(pair_views(e.examples@) =~= cat_help().examples);
    assert(name_views(e.related@) =~= cat_help().related);
    e
}

fn head_entry() -> (e: HelpEntry)
    ensures
        e@ == head_help(),
{
    let e = HelpEntry {
        name: "head",
        usage: "head [-n lines] [file...]",
        desc: "output the first part of files",
        options: vec![
            ("-n N", "output first N lines"),
        ],
        examples: vec![
            ("head -10 file.txt", "Show first 10 lines"),
        ],
        related: vec!["tail", "cat"],
    };
    assert(pair_views(e.options@) =~= head_help().options);
    assert(pair_views(e.examples@) =~= head_help().examples);
    assert(name_views(e.related@) =~= head_help().related);
    e
}

fn tail_entry() -> (e: HelpEntry)
    ensures
        e@ == tail_help(),
{
    let e = HelpEntry {
        name: "tail",
        usage: "tail [-n lines] [file...]",
        desc: "output the last part of files",
        options: vec![
            ("-n N", "output last N lines"),
        ],
        examples: vec![
            ("tail -20 file.txt", "Show last 20 lines"),
        ],
        related: vec!["head", "cat"],
    };
    assert(pair_views(e.options@) =~= tail_help().options);
    assert(pair_views(e.examples@) =~= tail_help().examples);
    assert(name_views(e.related@) =~= tail_help().related);
    e
}

fn wc_entry() -> (e: HelpEntry)
    ensures
        e@ == wc_help(),
{
    let e = HelpEntry {
        name: "wc",
        usage: "wc [options] [file...]",
        desc: "print line, word, byte counts",
        options: vec![
            ("-l", "lines only"),
            ("-w", "words only"),
            ("-c", "bytes only"),
        ],
        examples: vec![
            ("wc file.txt", "Show all counts"),
        ],
        related: vec!["grep", "cat"],
    };
    assert(pair_views(e.options@) =~= wc_help().options);
    assert(pair_views(e.examples@) =~= wc_help().examples);
    assert(name_views(e.related@) =~= wc_help().related);
    e
}

fn grep_entry() -> (e: HelpEntry)
    ensures
        e@ == grep_help(),
{
    let e = HelpEntry {
        name: "grep",
        usage: "grep [-i] [-n] [-E] [-v] [-c] [-x] [-w] [-o] [-H|-h] [-q] [-A N] [-B N] [-C N] pattern [file...]",
        desc: "search lines matching pattern (literal by default; -E enables regex)",
        options: vec![
            ("-i", "ignore case"),
            ("-n", "show line numbers"),
            ("-E", "regex pattern (alias -r)"),
            ("-v", "invert match"),
            ("-c", "count matches per file"),
            ("-x", "match whole line"),
            ("-w", "match word"),
            ("-o", "only matching (each match on its own line)"),
            ("-H", "force show filename"),
            ("-h", "suppress filename"),
            ("-q", "quiet (exit on first match, no output)"),
            ("-A N", "print N lines of trailing context"),
            ("-B N", "print N lines of leading context"),
            ("-C N", "print N lines of output context"),
        ],
        examples: vec![
            ("grep foo file", "Find foo"),
            ("grep -i -E 'foo|bar' file", "Regex OR match"),
            ("cat f | grep -n bar", "Pipe with line numbers"),
            ("grep -c pattern a b", "Count per file"),
            ("grep -w err log", "Word match"),
            ("grep -o -n 'er+'/E log", "Only matches with line numbers"),
            ("grep -C 2 pat file", "With context"),
        ],
        related: vec!["sed", "wc"],
    };
    assert(pair_views(e.options@) =~= grep_help().options);
    assert(pair_views(e.examples@) =~= grep_help().examples);
    assert(name_views(e.related@) =~= grep_help().related);
    e
}

fn tr_entry() -> (e: HelpEntry)
    ensures
        e@ == tr_help(),
{
    let e = HelpEntry {
        name: "tr",
        usage: "tr [-d] [-c] [-s] set1 [set2]",
        desc: "translate or delete characters with ranges/classes; -s squeeze repeats; -c complement for -d/-s",
        options: vec![
            ("-d", "delete chars in set1"),
            ("-c", "complement set1 (with -d/-s)"),
            ("-s", "squeeze repeats of set1/translated set"),
        ],
        examples: vec![
            ("tr abc xyz < in", "Map a->x b->y c->z"),
            ("tr 'a-z' 'A-Z' < in", "Uppercase"),
            ("tr -d '[:digit:]' < in", "Delete digits"),
            ("tr -s ' ' < in", "Squeeze spaces"),
        ],
        related: vec!["sed"],
    };
    assert(pair_views(e.options@) =~= tr_help().options);
    assert(pair_views(e.examples@) =~= tr_help().examples);
    assert(name_views(e.related@) =~= tr_help().related);
    e
}

fn sed_entry() -> (e: HelpEntry)
    ensures
        e@ == sed_help(),
{
    let e = HelpEntry {
        name: "sed",
        usage: "sed [-n] [[addr1][,[addr2]]][!] {p|d|a text|i text|G|g|H|h|x|s/pat/repl/[gEI]|:label|t [label]|T [label]} [file...]",
        desc: "stream editor subset: addresses (N, $, /re/), ranges, negation (!); commands p,d,a,i,G,g,H,h,x,s///, labels (:label), and branches t/T. s supports regex (E|r), ignore-case (I), global (g), and &/\\1..\\9 backrefs. t jumps if last s/// substituted; T if not. Label target optional (no label ends the program).",
        options: vec![
            ("-n", "suppress auto-print"),
            ("g", "global replace for s///"),
            ("E", "enable regex for s/// (alias r)"),
            ("I", "ignore case with regex"),
        ],
        examples: vec![
            ("sed -n '/error/p' file", "Print lines matching 'error'"),
            ("sed '2,5d' file", "Delete lines 2..5"),
            ("sed '3a appended' file", "Append after line 3"),
            ("sed '1i header' file", "Insert before line 1"),
            ("sed 'G' file", "Append hold space to each pattern"),
            ("sed 'h' file", "Copy pattern to hold space"),
            ("sed 'x' file", "Swap pattern and hold"),
            ("sed ':a; s/aa/a/; t a' file", "Loop while substitutions occur"),
            ("sed 's/foo/bar/; T skip; s/baz/BAZ/; :skip' file", "Branch on no-substitution"),
            ("sed 's/foo/bar/g' file", "Replace all foo with bar"),
        ],
        related: vec!["grep", "tr"],
    };
    assert(pair_views(e.options@) =~= sed_help().options);
    assert(pair_views(e.examples@) =~= sed_help().examples);
    assert(name_views(e.related@) =~= sed_help().related);
    e
}

fn help_entry() -> (e: HelpEntry)
    ensures
        e@ == help_help(),
{
    let e = HelpEntry {
        name: "help",
        usage: "help [command]",
        desc: "list commands or show detailed help",
        options: Vec::new(),
        examples: vec![
            ("help", "List commands"),
            ("help grep", "Show grep help"),
        ],
        related: Vec::new(),
    };
    assert(pair_views(e.options@) =~= help_help().options);
    assert(pair_views(e.examples@) =~= help_help().examples);
    assert(name_views(e.related@) =~= help_help().related);
    e
}

fn exit_entry() -> (e: HelpEntry)
    ensures
        e@ == exit_help(),
{
    let e = HelpEntry {
        name: "exit",
        usage: "exit [N]",
        desc: "exit the current shell or pipeline with status N (default: last command status or 0)",
        options: Vec::new(),
        examples: vec![
            ("exit", "Exit with last status"),
            ("exit 2", "Exit with status 2"),
        ],
        related: Vec::new(),
    };
    assert(pair_views(e.options@) =~= exit_help().options);
    assert(pair_views(e.examples@) =~= exit_help().examples);
    assert(name_views(e.related@) =~= exit_help().related);
    e
}

fn llmsh_entry() -> (e: HelpEntry)
    ensures
        e@ == llmsh_help(),
{
    let e = HelpEntry {
        name: "llmsh",
        usage: "llmsh [-c 'pipeline'] [--vfs-fds R,W | (-i path ... -o path ...)]",
        desc: "invoke nested llmsh instance (only -c supported; --vfs-fds is exclusive with -i/-o)",
        options: vec![
            ("-c SCRIPT", "execute pipeline SCRIPT"),
            ("--vfs-fds R,W", "reuse parent VFS pipe fds (no -i/-o allowed)"),
        ],
        examples: vec![
            ("llmsh -c 'cat file.txt' -i file.txt", "Run with allow list"),
            ("llmsh -c 'grep foo a | wc -l' --vfs-fds 5,6", "Nested pipeline sharing VFS pipes"),
        ],
        related: vec!["help"],
    };
    assert(pair_views(e.options@) =~= llmsh_help().options);
    assert(pair_views(e.examples@) =~= llmsh_help().examples);
    assert(name_views(e.related@) =~= llmsh_help().related);
    e
}

/// The entries of the help table.
pub fn help_entries() -> (t: Vec<HelpEntry>)
    ensures
        t@.len() == help_table().len(),
        forall|k: int| 0 <= k < t@.len() ==> (#[trigger] t@[k])@ == help_table()[k],
{
    let mut t: Vec<HelpEntry> = Vec::new();
    t.push(cat_entry());
    t.push(head_entry());
    t.push(tail_entry());
    t.push(wc_entry());
    t.push(grep_entry());
    t.push(tr_entry());
    t.push(sed_entry());
    t.push(help_entry());
    t.push(exit_entry());
    t.push(llmsh_entry());
    t
}

/// The first page of `table` from page `i` on whose name is `name`.
pub open spec fn first_named(table: Seq<HelpView>, name: Seq<char>, i: int) -> Option<HelpView>
    decreases table.len() - i,
{
    if i < 0 || i >= table.len() {
        None
    } else if table[i].name == name {
        Some(table[i])
    } else {
        first_named(table, name, i + 1)
    }
}

/// The entry of the utility called `name`: the first of the help table
/// with that name, if there is one.
pub fn find_help(name: &str) -> (r: Option<HelpEntry>)
    ensures
        match r {
            Some(e) => first_named(help_table(), name@, 0) == Some(e@),
            None => first_named(help_table(), name@, 0) is None,
        },
{
    let mut t = help_entries();
    let mut i: usize = 0;
    while i < t.len()
        invariant
            i <= t@.len(),
            t@.len() == help_table().len(),
            forall|k: int| 0 <= k < t@.len() ==> (#[trigger] t@[k])@ == help_table()[k],
            first_named(help_table(), name@, i as int) == first_named(help_table(), name@, 0),
        decreases t@.len() - i,
    {
        if same_text(t[i].name, name) {
            assert(t@[i as int]@ == help_table()[i as int]);
            return Some(t.remove(i));
        }
        assert(t@[i as int]@ == help_table()[i as int]);
        i += 1;
    }
    None
}

/// `width` spaces less one for each character of a text of `len`
/// characters: what fills the text up to `width`.
pub open spec fn padding(len: nat, width: nat) -> Seq<char> {
    if len >= width {
        Seq::empty()
    } else {
        Seq::new((width - len) as nat, |i: int| ' ')
    }
}

/// The lines for the options of an entry, from option `k` on.
pub open spec fn option_lines(options: Seq<(&'static str, &'static str)>, k: int) -> Seq<char>
    decreases options.len() - k,
{
    if k < 0 || k >= options.len() {
        Seq::empty()
    } else {
        "    "@ + options[k].0@ + padding(options[k].0@.len(), 12) + " "@ + options[k].1@ + "\n"@
            + option_lines(options, k + 1)
    }
}

/// The lines for the examples of an entry, from example `k` on.
pub open spec fn example_lines(examples: Seq<(&'static str, &'static str)>, k: int) -> Seq<char>
    decreases examples.len() - k,
{
    if k < 0 || k >= examples.len() {
        Seq::empty()
    } else {
        "    "@ + examples[k].0@ + "\n        "@ + examples[k].1@ + "\n\n"@ + example_lines(
            examples,
            k + 1,
        )
    }
}

/// The related names from name `k` on, each after a comma but the first.
pub open spec fn related_list(related: Seq<&'static str>, k: int) -> Seq<char>
    decreases related.len() - k,
{
    if k < 0 || k >= related.len() {
        Seq::empty()
    } else if k == 0 {
        related[k]@ + related_list(related, k + 1)
    } else {
        ", "@ + related[k]@ + related_list(related, k + 1)
    }
}

/// The page of an entry: name and description, usage, and then, each only
/// where the entry has any, options, examples and related utilities.
pub open spec fn spec_format_entry(e: HelpEntry) -> Seq<char> {
    "NAME\n    "@ + e.name@ + " - "@ + e.desc@ + "\n\n"@ + "USAGE\n    "@ + e.usage@ + "\n\n"@ + (
    if e.options@.len() > 0 {
        "OPTIONS\n"@ + option_lines(e.options@, 0) + "\n"@
    } else {
        Seq::empty()
    }) + (if e.examples@.len() > 0 {
        "EXAMPLES\n"@ + example_lines(e.examples@, 0)
    } else {
        Seq::empty()
    }) + (if e.related@.len() > 0 {
        "SEE ALSO\n    "@ + related_list(e.related@, 0) + "\n"@
    } else {
        Seq::empty()
    })
}

/// Appends to `s` the spaces that fill a text of `len` characters up to
/// `width`.
fn pad(s: &mut String, len: usize, width: usize)
    ensures
        final(s)@ == old(s)@ + padding(len as nat, width as nat),
{
    let mut n: usize = len;
    assert(old(s)@ + Seq::<char>::empty() =~= old(s)@);
    proof {
        reveal_strlit(" ");
    }
    while n < width
        invariant
            len <= n,
            n <= width || n == len,
            s@ == old(s)@ + padding(len as nat, n as nat),
        decreases width - n,
    {
        proof {
            reveal_strlit(" ");
        }
        let ghost before = s@;
        s.append(" ");
        assert(s@ =~= old(s)@ + padding(len as nat, (n + 1) as nat));
        n += 1;
    }
}

/// Writes the page of an entry.
pub fn format_entry(e: &HelpEntry) -> (s: String)
    ensures
        s@ == spec_format_entry(*e),
{
    let mut s = String::new();
    s.append("NAME\n    ");
    s.append(e.name);
    s.append(" - ");
    s.append(e.desc);
    s.append("\n\n");
    s.append("USAGE\n    ");
    s.append(e.usage);
    s.append("\n\n");
    let ghost head = s@;
    assert(head =~= "NAME\n    "@ + e.name@ + " - "@ + e.desc@ + "\n\n"@ + "USAGE\n    "@ + e.usage@
        + "\n\n"@);
    if e.options.len() > 0 {
        s.append("OPTIONS\n");
        let mut k: usize = 0;
        let ghost base = s@;
        assert(base + Seq::<char>::empty() =~= base);
        while k < e.options.len()
            invariant
                k <= e.options@.len(),
                s@ + option_lines(e.options@, k as int) == base + option_lines(e.options@, 0),
            decreases e.options@.len() - k,
        {
            let ghost before = s@;
            let ghost rest = option_lines(e.options@, k + 1);
            s.append("    ");
            s.append(e.options[k].0);
            pad(&mut s, e.options[k].0.unicode_len(), 12);
            s.append(" ");
            s.append(e.options[k].1);
            s.append("\n");
            assert(s@ + rest =~= before + option_lines(e.options@, k as int));
            k += 1;
        }
        assert(s@ + Seq::<char>::empty() =~= s@);
        s.append("\n");
    }
    let ghost with_options = s@;
    if e.examples.len() > 0 {
        s.append("EXAMPLES\n");
        let mut k: usize = 0;
        let ghost base = s@;
        while k < e.examples.len()
            invariant
                k <= e.examples@.len(),
                s@ + example_lines(e.examples@, k as int) == base + example_lines(e.examples@, 0),
            decreases e.examples@.len() - k,
        {
            let ghost before = s@;
            let ghost rest = example_lines(e.examples@, k + 1);
            s.append("    ");
            s.append(e.examples[k].0);
            s.append("\n        ");
            s.append(e.examples[k].1);
            s.append("\n\n");
            assert(s@ + rest =~= before + example_lines(e.examples@, k as int));
            k += 1;
        }
        assert(s@ + Seq::<char>::empty() =~= s@);
    }
    let ghost with_examples = s@;
    if e.related.len() > 0 {
        s.append("SEE ALSO\n    ");
        let mut k: usize = 0;
        let ghost base = s@;
        while k < e.related.len()
            invariant
                k <= e.related@.len(),
                s@ + related_list(e.related@, k as int) == base + related_list(e.related@, 0),
            decreases e.related@.len() - k,
        {
            let ghost before = s@;
            let ghost rest = related_list(e.related@, k + 1);
            if k > 0 {
                s.append(", ");
            }
            s.append(e.related[k]);
            assert(s@ + rest =~= before + related_list(e.related@, k as int));
            k += 1;
        }
        assert(s@ + Seq::<char>::empty() =~= s@);
        s.append("\n");
    }
    assert(s@ =~= spec_format_entry(*e));
    s
}

} // verus!
