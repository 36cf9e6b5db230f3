use std::collections::HashMap;
use ward::config::{Config, CustomRule};
use ward::scanner::{Scanner, Violation};

const WORDS: &str = "abandon\nability\nable\nabout\nabove\nabsent\nabsorb\nabstract\nabsurd\nabuse\naccess\naccident\naccount\naccuse\nachieve\nacid\n";
const ETH_KEY: &str = "0x4c0883a69102937d6231471b5dbb6204fe5129617082792ae468d01a3f362318";
const RANDOM_TOKEN: &str = "aZ3kQ9xP2mL7vB8nR4tY6wE1uI5oS0dF";

fn entropy(s: &str) -> f64 {
    let mut counts: HashMap<char, f64> = HashMap::new();
    let mut n = 0.0;
    for c in s.chars() {
        *counts.entry(c).or_insert(0.0) += 1.0;
        n += 1.0;
    }
    counts.values().fold(0.0, |acc, &k| {
        let p = k / n;
        acc - p * p.log2()
    })
}

fn scan_with(s: &Scanner, path: &str, content: &str) -> Vec<Violation> {
    let labels: Vec<Option<String>> = s
        .entropy_candidates(path, content)
        .iter()
        .map(|t| {
            let e = entropy(t);
            if e > 4.5 {
                Some(format!("High Entropy ({:.2})", e))
            } else {
                None
            }
        })
        .collect();
    s.scan_content(path, content, &labels)
}

fn empty_config() -> Config {
    Config { exclude: vec![], skip_entropy_checks: vec![], rules: vec![] }
}

fn rules_of(v: &[Violation]) -> Vec<String> {
    v.iter().map(|x| x.rule.clone()).collect()
}

#[test]
fn excluded_path_yields_nothing() {
    let s = Scanner::new(Config::default(), WORDS);
    let content = format!("key = {}\napi_key = \"AAAAAAAAAAAAAAAAAAAABBBB\"\n", ETH_KEY);
    assert!(scan_with(&s, "Cargo.lock", &content).is_empty());
    assert!(scan_with(&s, "yarn.lock", &content).is_empty());
    assert!(s.entropy_candidates("Cargo.lock", RANDOM_TOKEN).is_empty());
}

#[test]
fn excluded_parent_directory_covers_children() {
    let mut c = empty_config();
    c.exclude = vec!["vendor/".to_string()];
    let s = Scanner::new(c, WORDS);
    let content = format!("key = {}\n", ETH_KEY);
    assert!(scan_with(&s, "vendor/lib/keys.txt", &content).is_empty());
    assert_eq!(scan_with(&s, "src/keys.txt", &content).len(), 1);
}

#[test]
fn negated_exclusion_reincludes_path() {
    let mut c = empty_config();
    c.exclude = vec!["*.txt".to_string(), "!keep.txt".to_string()];
    let s = Scanner::new(c, WORDS);
    let content = format!("key = {}\n", ETH_KEY);
    assert!(scan_with(&s, "other.txt", &content).is_empty());
    assert_eq!(rules_of(&scan_with(&s, "keep.txt", &content)), vec!["Ethereum Private Key"]);
}

#[test]
fn env_file_gives_one_finding() {
    let s = Scanner::new(Config::default(), WORDS);
    let content = format!("A=1\nkey = {}\napi_key = \"AAAAAAAAAAAAAAAAAAAABBBB\"\n", ETH_KEY);
    let v = scan_with(&s, ".env", &content);
    assert_eq!(v.len(), 1);
    assert_eq!(v[0].line, 1);
    assert_eq!(v[0].file, ".env");
    assert_eq!(v[0].rule, "Critical: .env detected");
    assert_eq!(v[0].snippet, "Do not commit .env files. Use .env.example instead.");
    assert!(s.entropy_candidates(".env", RANDOM_TOKEN).is_empty());
}

#[test]
fn env_file_in_subdirectory_names_its_base_name() {
    let s = Scanner::new(Config::default(), WORDS);
    let v = scan_with(&s, "config/.env.local", "");
    assert_eq!(v.len(), 1);
    assert_eq!(v[0].rule, "Critical: .env.local detected");
    assert_eq!(v[0].file, "config/.env.local");
}

#[test]
fn env_example_is_scanned_normally() {
    let s = Scanner::new(Config::default(), WORDS);
    let content = format!("PRIVATE_KEY={}\n", ETH_KEY);
    let v = scan_with(&s, ".env.example", &content);
    assert_eq!(rules_of(&v), vec!["Ethereum Private Key"]);
    assert_eq!(v[0].line, 1);
    let w = scan_with(&s, ".env.sample", &content);
    assert_eq!(rules_of(&w), vec!["Ethereum Private Key"]);
}

#[test]
fn generic_api_key_reported() {
    let s = Scanner::new(Config::default(), WORDS);
    let v = scan_with(&s, "src/settings.py", "x = 1\napi_key = \"AAAAAAAAAAAAAAAAAAAABBBB\"\n");
    assert_eq!(v.len(), 1);
    assert_eq!(v[0].rule, "Generic API Key");
    assert_eq!(v[0].line, 2);
    assert_eq!(v[0].snippet, "api_key = \"AAAAAAAAAAAAAAAAAAAABBBB\"");
}

#[test]
fn ethereum_key_reported_on_its_line() {
    let s = Scanner::new(Config::default(), WORDS);
    let content = format!("first\nsecond\nconst KEY = \"{}\";\nlast\n", ETH_KEY);
    let v = scan_with(&s, "src/main.js", &content);
    assert_eq!(rules_of(&v), vec!["Ethereum Private Key"]);
    assert_eq!(v[0].line, 3);
    assert_eq!(v[0].file, "src/main.js");
}

#[test]
fn prose_is_not_a_mnemonic() {
    let s = Scanner::new(Config::default(), WORDS);
    let v = scan_with(
        &s,
        "README.md",
        "the quick brown fox jumps over the lazy dog and then runs away",
    );
    assert!(v.is_empty());
}

#[test]
fn wordlist_phrase_is_a_mnemonic() {
    let s = Scanner::new(Config::default(), WORDS);
    let line = "abandon ability able about above absent absorb abstract absurd abuse access accident";
    let v = scan_with(&s, "notes.txt", line);
    assert_eq!(rules_of(&v), vec!["BIP-39 Mnemonic"]);
    assert_eq!(v[0].line, 1);
    assert_eq!(v[0].snippet, "abandon ability able about above absent absorb abs");
}

#[test]
fn uppercase_mnemonic_words_are_lowercased() {
    let s = Scanner::new(Config::default(), WORDS);
    let line = "ABANDON ABILITY ABLE ABOUT ABOVE ABSENT ABSORB ABSTRACT ABSURD ABUSE ACCESS ACCIDENT";
    assert_eq!(rules_of(&scan_with(&s, "notes.txt", line)), vec!["BIP-39 Mnemonic"]);
}

#[test]
fn mnemonic_ninety_percent_boundary() {
    let s = Scanner::new(Config::default(), WORDS);
    // 11 of 12 known: 110 >= 108
    let eleven = "abandon ability able about above absent absorb abstract absurd abuse access zebrafish";
    assert_eq!(rules_of(&scan_with(&s, "a.txt", eleven)), vec!["BIP-39 Mnemonic"]);
    // 10 of 12 known: 100 < 108
    let ten = "abandon ability able about above absent absorb abstract absurd abuse zebrafish walrus";
    assert!(scan_with(&s, "a.txt", ten).is_empty());
}

#[test]
fn wordlist_entries_are_trimmed_and_lowercased() {
    let words = "  ABANDON \r\nAbility\n\nable\nabout\nabove\nabsent\nabsorb\nabstract\nabsurd\nabuse\naccess\naccident";
    let s = Scanner::new(Config::default(), words);
    let line = "abandon ability able about above absent absorb abstract absurd abuse access accident";
    assert_eq!(rules_of(&scan_with(&s, "a.txt", line)), vec!["BIP-39 Mnemonic"]);
}

#[test]
fn high_entropy_token_reported() {
    let s = Scanner::new(Config::default(), WORDS);
    let content = format!("token: ({})\n", RANDOM_TOKEN);
    assert_eq!(s.entropy_candidates("src/a.rs", &content), vec![RANDOM_TOKEN.to_string()]);
    let v = scan_with(&s, "src/a.rs", &content);
    assert_eq!(v.len(), 1);
    assert_eq!(v[0].rule, "High Entropy (5.00)");
    assert_eq!(v[0].snippet, "aZ3kQ9xP2mL7vB8nR4tY");
    assert_eq!(v[0].line, 1);
}

#[test]
fn code_like_tokens_are_never_scored() {
    let s = Scanner::new(Config::default(), WORDS);
    let content = "aZ3kQ9xP2mL7vB8nR4tY->6wE1uI5oS0dF\n${aZ3kQ9xP2mL7vB8nR4tY6wE1uI5oS0dF}\n";
    assert!(s.entropy_candidates("src/a.rs", content).is_empty());
    let labels = vec![Some("High Entropy (9.99)".to_string()); 4];
    assert!(s.scan_content("src/a.rs", content, &labels).is_empty());
}

#[test]
fn short_tokens_are_not_scored() {
    let s = Scanner::new(Config::default(), WORDS);
    assert!(s.entropy_candidates("a.rs", "aZ3kQ9xP2mL7vB8nR4tY").is_empty());
    assert_eq!(s.entropy_candidates("a.rs", "aZ3kQ9xP2mL7vB8nR4tY6").len(), 1);
}

#[test]
fn skip_pattern_exempts_path_from_entropy() {
    let s = Scanner::new(Config::default(), WORDS);
    assert!(s.entropy_candidates("dist/app.min.js", RANDOM_TOKEN).is_empty());
    assert!(scan_with(&s, "dist/app.min.js", RANDOM_TOKEN).is_empty());
    assert_eq!(scan_with(&s, "dist/app.js", RANDOM_TOKEN).len(), 1);
}

#[test]
fn missing_labels_give_no_entropy_finding() {
    let s = Scanner::new(Config::default(), WORDS);
    assert!(s.scan_content("a.rs", RANDOM_TOKEN, &vec![]).is_empty());
}

#[test]
fn labels_follow_candidates_across_lines() {
    let s = Scanner::new(empty_config(), WORDS);
    let content = "bbbbbbbbbbbbbbbbbbbbbbbbb1 bbbbbbbbbbbbbbbbbbbbbbbbb2\nbbbbbbbbbbbbbbbbbbbbbbbbb3\n";
    assert_eq!(s.entropy_candidates("a.rs", content).len(), 3);
    let labels = vec![None, None, Some("third".to_string())];
    let v = s.scan_content("a.rs", content, &labels);
    assert_eq!(v.len(), 1);
    assert_eq!(v[0].line, 2);
    assert_eq!(v[0].rule, "third");
    assert_eq!(v[0].snippet, "bbbbbbbbbbbbbbbbbbbb");
}

#[test]
fn rules_and_entropy_keep_their_order() {
    let s = Scanner::new(Config::default(), WORDS);
    let content = format!("{} api_key={} {}\n", ETH_KEY, "AAAAAAAAAAAAAAAAAAAABBBB", RANDOM_TOKEN);
    let v = scan_with(&s, "a.rs", &content);
    assert_eq!(rules_of(&v), vec!["Ethereum Private Key", "Generic API Key", "High Entropy (5.00)"]);
}

#[test]
fn custom_rules_follow_builtins_and_bad_ones_are_dropped() {
    let mut c = empty_config();
    c.rules = vec![
        CustomRule { name: "Broken".to_string(), regex: "(unclosed".to_string() },
        CustomRule { name: "Internal Token".to_string(), regex: "tok_[0-9]{8}".to_string() },
        CustomRule { name: "Internal Token".to_string(), regex: "tok_".to_string() },
    ];
    let s = Scanner::new(c, WORDS);
    let v = scan_with(&s, "a.rs", &format!("x tok_12345678 {}", ETH_KEY));
    assert_eq!(rules_of(&v), vec!["Ethereum Private Key", "Internal Token", "Internal Token"]);
}

#[test]
fn crlf_lines_and_snippet_bounds() {
    let s = Scanner::new(Config::default(), WORDS);
    let long = format!("      secret_key: {}{}   ", "Z".repeat(30), "Y".repeat(30));
    let content = format!("one\r\n{}\r\n", long);
    let v = scan_with(&s, "a.yml", &content);
    assert_eq!(rules_of(&v), vec!["Generic API Key"]);
    assert_eq!(v[0].line, 2);
    assert_eq!(v[0].snippet.chars().count(), 50);
    assert!(v[0].snippet.starts_with("secret_key: ZZZ"));
}

#[test]
fn empty_content_has_no_findings() {
    let s = Scanner::new(Config::default(), WORDS);
    assert!(scan_with(&s, "a.rs", "").is_empty());
}

#[test]
fn scanning_twice_gives_the_same_result() {
    let s = Scanner::new(Config::default(), WORDS);
    let content = format!("{}\napi_key = \"AAAAAAAAAAAAAAAAAAAABBBB\"\n{}\n", ETH_KEY, RANDOM_TOKEN);
    let a = scan_with(&s, "a.rs", &content);
    let b = scan_with(&s, "a.rs", &content);
    assert_eq!(a.len(), 3);
    assert_eq!(a, b);
}

#[test]
fn merge_order_does_not_matter() {
    let s = Scanner::new(Config::default(), WORDS);
    let ca = format!("{}\n", ETH_KEY);
    let cb = "api_key = \"AAAAAAAAAAAAAAAAAAAABBBB\"\n".to_string();
    let a1 = scan_with(&s, "a.rs", &ca);
    let b1 = scan_with(&s, "b.rs", &cb);
    let b2 = scan_with(&s, "b.rs", &cb);
    let a2 = scan_with(&s, "a.rs", &ca);
    assert_eq!(a1, a2);
    assert_eq!(b1, b2);
    let mut m1: Vec<Violation> = a1.into_iter().chain(b1).collect();
    let mut m2: Vec<Violation> = b2.into_iter().chain(a2).collect();
    m1.sort_by(|x, y| (x.file.clone(), x.line, x.rule.clone()).cmp(&(y.file.clone(), y.line, y.rule.clone())));
    m2.sort_by(|x, y| (x.file.clone(), x.line, x.rule.clone()).cmp(&(y.file.clone(), y.line, y.rule.clone())));
    assert_eq!(m1, m2);
}

#[test]
fn default_config_values() {
    let c = Config::default();
    assert_eq!(c.exclude, vec!["*.lock", "package-lock.json", "yarn.lock"]);
    assert_eq!(c.skip_entropy_checks, vec!["*.min.js", "*.svg"]);
    assert!(c.rules.is_empty());
}
