use llmsh_vfs::help::{find_help, format_entry, help_entries, HelpEntry};
use llmsh_vfs::sed::{parse_s_cmd, SedCmd};

fn page(e: &HelpEntry) -> String {
    let mut s = String::new();
    s.push_str(&format!("NAME\n    {} - {}\n\n", e.name, e.desc));
    s.push_str(&format!("USAGE\n    {}\n\n", e.usage));
    if !e.options.is_empty() {
        s.push_str("OPTIONS\n");
        for (f, d) in &e.options {
            s.push_str(&format!("    {:<12} {}\n", f, d));
        }
        s.push_str("\n");
    }
    if !e.examples.is_empty() {
        s.push_str("EXAMPLES\n");
        for (cmd, desc) in &e.examples {
            s.push_str(&format!("    {}\n        {}\n\n", cmd, desc));
        }
    }
    if !e.related.is_empty() {
        s.push_str(&format!("SEE ALSO\n    {}\n", e.related.join(", ")));
    }
    s
}

#[test]
fn every_utility_has_an_entry() {
    let names: Vec<&str> = help_entries().iter().map(|e| e.name).collect();
    assert_eq!(
        names,
        vec!["cat", "head", "tail", "wc", "grep", "tr", "sed", "help", "exit", "llmsh"]
    );
    for name in names {
        assert_eq!(find_help(name).unwrap().name, name);
    }
    assert!(find_help("ls").is_none());
    assert!(find_help("").is_none());
    assert!(find_help("Cat").is_none());
}

#[test]
fn pages_are_laid_out_in_sections() {
    let cat = find_help("cat").unwrap();
    assert_eq!(
        format_entry(&cat),
        "NAME\n    cat - concatenate files and print on stdout\n\nUSAGE\n    cat [file...]\n\nEXAMPLES\n    cat file.txt\n        Display contents\n\n    cat a b\n        Concatenate a and b\n\nSEE ALSO\n    head, tail\n"
    );
    let head = format_entry(&find_help("head").unwrap());
    assert!(head.contains("OPTIONS\n    -n N         output first N lines\n\nEXAMPLES\n"));
    let exit = format_entry(&find_help("exit").unwrap());
    assert!(exit.ends_with("    exit 2\n        Exit with status 2\n\n"));
    for e in help_entries() {
        assert_eq!(format_entry(&e), page(&e), "page of {}", e.name);
    }
    let wide = HelpEntry {
        name: "x",
        usage: "x",
        desc: "y",
        options: vec![("--a-very-long-option", "long"), ("exactly12chr", "twelve"), ("", "none")],
        examples: Vec::new(),
        related: vec!["one"],
    };
    assert_eq!(format_entry(&wide), page(&wide));
}

fn chars(s: &str) -> Vec<char> {
    s.chars().collect()
}

fn subst(s: &str, at: usize) -> Option<(String, String, bool, bool, bool, usize)> {
    match parse_s_cmd(&chars(s), at) {
        Some((SedCmd::S { pat, repl, g, re, icase }, end)) => Some((pat, repl, g, re, icase, end)),
        Some(_) => panic!("not a substitution"),
        None => None,
    }
}

#[test]
fn substitution_commands_are_read() {
    let t = |p: &str, r: &str, g, re, i, end| Some((p.to_string(), r.to_string(), g, re, i, end));
    assert_eq!(subst("s/a/b/", 0), t("a", "b", false, false, false, 6));
    assert_eq!(subst("s/foo/bar/g", 0), t("foo", "bar", true, false, false, 11));
    assert_eq!(subst("s/a+/X/gEI", 0), t("a+", "X", true, true, true, 10));
    assert_eq!(subst("s/a/b/r", 0), t("a", "b", false, true, false, 7));
    assert_eq!(subst("s|x/y|z|I", 0), t("x/y", "z", false, false, true, 9));
    assert_eq!(subst("s/a\\/b/c/", 0), t("a/b", "c", false, false, false, 9));
    assert_eq!(subst("s/\\\\\\//x/", 0), t("/", "x", false, false, false, 9));
    assert_eq!(subst("s/a\\nb/c/", 0), t("anb", "c", false, false, false, 9));
    assert_eq!(subst("s///", 0), t("", "", false, false, false, 4));
    assert_eq!(subst("2s/a/b/g", 1), t("a", "b", true, false, false, 8));
    assert_eq!(subst("sxaxbxg", 0), t("a", "b", true, false, false, 7));
    assert_eq!(subst("s/a/b", 0), None);
    assert_eq!(subst("s/a", 0), None);
    assert_eq!(subst("s/a/b\\/", 0), None);
    assert_eq!(subst("s", 0), None);
    assert_eq!(subst("", 0), None);
    assert_eq!(subst("p", 0), None);
    assert_eq!(subst("s/a/b/", 1), None);
    assert_eq!(subst("s/a/b/", 9), None);
    assert_eq!(subst("s\\a\\b\\", 0), None);
}
