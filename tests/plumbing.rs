use ward::config::{Config, CustomRule};
use ward::git::{install_into_hook, staged_paths, HOOK_SCRIPT};
use ward::report::mask_snippet;

#[test]
fn hook_call_goes_after_shebang_line() {
    let r = install_into_hook("#!/bin/bash\necho hi\n").unwrap();
    assert_eq!(r, format!("#!/bin/bash\n{}echo hi\n", HOOK_SCRIPT));
}

#[test]
fn hook_with_shebang_only_gets_call_appended() {
    let r = install_into_hook("#!/bin/sh").unwrap();
    assert_eq!(r, format!("#!/bin/sh{}", HOOK_SCRIPT));
}

#[test]
fn hook_without_shebang_gets_one() {
    let r = install_into_hook("echo hi\n").unwrap();
    assert_eq!(r, format!("#!/bin/sh\n{}echo hi\n", HOOK_SCRIPT));
    let fresh = install_into_hook("").unwrap();
    assert_eq!(fresh, format!("#!/bin/sh\n{}", HOOK_SCRIPT));
}

#[test]
fn hook_already_running_scan_is_left_alone() {
    assert_eq!(install_into_hook("#!/bin/sh\nward scan\n"), None);
    let once = install_into_hook("#!/bin/sh\n").unwrap();
    assert_eq!(install_into_hook(&once), None);
}

#[test]
fn staged_paths_are_trimmed_lines() {
    assert_eq!(staged_paths("src/a.rs\n  b.txt \r\n\nc d.md"), vec!["src/a.rs", "b.txt", "", "c d.md"]);
    assert!(staged_paths("").is_empty());
}

#[test]
fn short_snippets_are_redacted() {
    assert_eq!(mask_snippet("12345678"), "[REDACTED]");
    assert_eq!(mask_snippet(""), "[REDACTED]");
}

#[test]
fn long_snippets_show_their_ends() {
    assert_eq!(mask_snippet("123456789"), "1234...6789");
    assert_eq!(mask_snippet("ééééxyzxyzüüüü"), "éééé...üüüü");
}

#[test]
fn ignore_file_entries_are_appended() {
    let mut c = Config::default();
    c.rules = vec![CustomRule { name: "n".to_string(), regex: "r".to_string() }];
    c.add_ignore_file("# comment\n\n  build/  \n*.key\r\n   # indented comment\n!keep.key");
    assert_eq!(c.exclude, vec!["*.lock", "package-lock.json", "yarn.lock", "build/", "*.key", "!keep.key"]);
    assert_eq!(c.skip_entropy_checks, vec!["*.min.js", "*.svg"]);
    assert_eq!(c.rules.len(), 1);
}

#[test]
fn file_name_agrees_with_std_path() {
    let cases = [
        "", ".", "..", "/", "a", ".env", "config/.env.local", "a/b/", "a/b/.", "a/b/./",
        "a//b", "./a", "a/..", "../a", "/x/y.txt", "a/./b", "./.", "a/.../b", "...",
    ];
    for p in cases {
        let ours: Option<String> =
            ward::path::file_name(&p.chars().collect()).map(|v| v.into_iter().collect());
        let std_name = std::path::Path::new(p).file_name().map(|s| s.to_str().unwrap().to_string());
        assert_eq!(ours, std_name, "path {:?}", p);
    }
}
