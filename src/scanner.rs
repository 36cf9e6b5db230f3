//! The scan engine: signature patterns, mnemonic confirmation, entropy
//! candidates, the `.env` sentinel and path exclusion, over one file.
use vstd::prelude::*;
use regex::Regex;
use crate::config::{rule_pairs, Config};
use crate::entropy::{entropy_tokens, line_candidates, path_skips_entropy, skips_entropy};
use crate::external::{
    compile_regex, exclusions_from, find_first, ignores_path, is_ignored, regex_compiles,
    Exclusions,
    regex_first_match, regex_source, relative_path,
};
use crate::path::{file_name, file_name_of};
use crate::text::{
    chars_of, ends_with, ends_with_chars, first_chars, lines_of, split_lines, starts_with,
    starts_with_chars, string_of, take_chars, trim, trim_chars, views_of,
};
use crate::vocabulary::{confirms_mnemonic, load_vocabulary, mnemonic_confirmed, vocabulary_of};

verus! {

/// One reported line: the file, its 1-based line number, the rule's label
/// and a short excerpt.
#[derive(Debug, Clone, PartialEq, Eq)]
pub struct Violation {
    pub file: String,
    pub line: usize,
    pub rule: String,
    pub snippet: String,
}

/// What a `Violation` says, as plain values.
pub struct Finding {
    pub file: Seq<char>,
    pub line: int,
    pub rule: Seq<char>,
    pub snippet: Seq<char>,
}

impl View for Violation {
    type V = Finding;

    open spec fn view(&self) -> Finding {
        Finding { file: self.file@, line: self.line as int, rule: self.rule@, snippet: self.snippet@ }
    }
}

pub open spec fn findings_of(v: Seq<Violation>) -> Seq<Finding> {
    v.map_values(|x: Violation| x@)
}

/// A compiled signature: its label and regex.
struct Pattern {
    name: String,
    re: Regex,
}

spec fn pattern_pairs(v: Seq<Pattern>) -> Seq<(Seq<char>, Seq<char>)> {
    v.map_values(|p: Pattern| (p.name@, regex_source(p.re)))
}

/// The engine, built once from a configuration and a mnemonic word list.
pub struct Scanner {
    config: Config,
    patterns: Vec<Pattern>,
    exclude_globnet: Exclusions,
    bip39_words: Vec<String>,
}

/// What a scanner decides by: its (label, pattern text) rules in order, the
/// exclusion lines, the entropy skip patterns and the word list.
pub struct ScannerModel {
    pub rules: Seq<(Seq<char>, Seq<char>)>,
    pub exclude: Seq<Seq<char>>,
    pub skip: Seq<Seq<char>>,
    pub vocabulary: Seq<Seq<char>>,
}

impl View for Scanner {
    type V = ScannerModel;

    closed spec fn view(&self) -> ScannerModel {
        ScannerModel {
            rules: pattern_pairs(self.patterns@),
            exclude: self.exclude_globnet@,
            skip: self.config.skip_entropy_checks.deep_view(),
            vocabulary: self.bip39_words.deep_view(),
        }
    }
}

pub open spec fn mnemonic_label() -> Seq<char> {
    "BIP-39 Mnemonic"@
}

/// The built-in signatures, in the order they are tried.
pub open spec fn builtin_rules() -> Seq<(Seq<char>, Seq<char>)> {
    seq![
        ("Ethereum Private Key"@, "(?i)0x[a-fA-F0-9]{64}"@),
        (mnemonic_label(), "(?i)(\\b[a-z]{3,}\\b\\s+){11,}\\b[a-z]{3,}\\b"@),
        ("Generic API Key"@, "(?i)(api_key|access_token|secret_key)[\\s:=]+['\"\"]?[a-zA-Z0-9_\\-]{20,}"@),
    ]
}

/// The rules whose pattern text compiles, in order.
pub open spec fn compiled_rules(rs: Seq<(Seq<char>, Seq<char>)>) -> Seq<(Seq<char>, Seq<char>)>
    decreases rs.len(),
{
    if rs.len() == 0 {
        Seq::empty()
    } else {
        let prev = compiled_rules(rs.drop_last());
        if regex_compiles(rs.last().1) {
            prev.push(rs.last())
        } else {
            prev
        }
    }
}

/// The base name starts with `.env` and ends neither in `.example` nor in
/// `.sample`.
pub open spec fn env_sentinel(path: Seq<char>) -> bool {
    match file_name_of(path) {
        Some(n) => starts_with(n, ".env"@) && !ends_with(n, ".example"@) && !ends_with(
            n,
            ".sample"@,
        ),
        None => false,
    }
}

pub open spec fn sentinel_finding(path: Seq<char>, name: Seq<char>) -> Finding {
    Finding {
        file: path,
        line: 1,
        rule: "Critical: "@ + name + " detected"@,
        snippet: "Do not commit .env files. Use .env.example instead."@,
    }
}

/// The line's excerpt in a signature finding: trimmed, at most 50 characters.
pub open spec fn line_snippet(line: Seq<char>) -> Seq<char> {
    first_chars(trim(line, false), 50)
}

/// The signature findings of line `n`, one per matching rule in rule order;
/// a mnemonic match counts only when the word list confirms it.
pub open spec fn rule_findings(
    rules: Seq<(Seq<char>, Seq<char>)>,
    vocab: Seq<Seq<char>>,
    path: Seq<char>,
    n: int,
    line: Seq<char>,
) -> Seq<Finding>
    decreases rules.len(),
{
    if rules.len() == 0 {
        Seq::empty()
    } else {
        let prev = rule_findings(rules.drop_last(), vocab, path, n, line);
        let name = rules.last().0;
        match regex_first_match(rules.last().1, line) {
            Some(m) => if name == mnemonic_label() && !mnemonic_confirmed(vocab, m) {
                prev
            } else {
                prev.push(Finding { file: path, line: n, rule: name, snippet: line_snippet(line) })
            },
            None => prev,
        }
    }
}

/// The label handed in for the `k`-th entropy candidate of the file; none
/// past the end.
pub open spec fn label_at(labels: Seq<Option<Seq<char>>>, k: int) -> Option<Seq<char>> {
    if 0 <= k < labels.len() {
        labels[k]
    } else {
        None
    }
}

/// The entropy findings of line `n`, whose candidates are numbered from
/// `offset` in the file: one for each candidate that has a label.
pub open spec fn entropy_findings(
    path: Seq<char>,
    n: int,
    cands: Seq<Seq<char>>,
    labels: Seq<Option<Seq<char>>>,
    offset: int,
) -> Seq<Finding>
    decreases cands.len(),
{
    if cands.len() == 0 {
        Seq::empty()
    } else {
        let prev = entropy_findings(path, n, cands.drop_last(), labels, offset);
        match label_at(labels, offset + cands.len() - 1) {
            Some(l) => prev.push(
                Finding { file: path, line: n, rule: l, snippet: first_chars(cands.last(), 20) },
            ),
            None => prev,
        }
    }
}

/// The entropy candidates of the lines, in order; none when the path is
/// exempt.
pub open spec fn lines_candidates(skip: bool, lines: Seq<Seq<char>>) -> Seq<Seq<char>>
    decreases lines.len(),
{
    if lines.len() == 0 || skip {
        Seq::empty()
    } else {
        lines_candidates(skip, lines.drop_last()) + line_candidates(lines.last())
    }
}

/// The findings of the lines in order: for each line its signature findings,
/// then its entropy findings.
pub open spec fn lines_findings(
    m: ScannerModel,
    path: Seq<char>,
    lines: Seq<Seq<char>>,
    labels: Seq<Option<Seq<char>>>,
) -> Seq<Finding>
    decreases lines.len(),
{
    if lines.len() == 0 {
        Seq::empty()
    } else {
        let skip = skips_entropy(m.skip, path);
        let before = lines.drop_last();
        lines_findings(m, path, before, labels) + rule_findings(
            m.rules,
            m.vocabulary,
            path,
            lines.len() as int,
            lines.last(),
        ) + entropy_findings(
            path,
            lines.len() as int,
            if skip {
                Seq::empty()
            } else {
                line_candidates(lines.last())
            },
            labels,
            lines_candidates(skip, before).len() as int,
        )
    }
}

/// What scanning a file gives: nothing for an excluded path, the one
/// sentinel finding for a `.env` file, else the findings of its lines.
pub open spec fn scan_model(
    m: ScannerModel,
    path: Seq<char>,
    content: Seq<char>,
    labels: Seq<Option<Seq<char>>>,
) -> Seq<Finding> {
    if ignores_path(m.exclude, path) {
        Seq::empty()
    } else if env_sentinel(path) {
        seq![sentinel_finding(path, file_name_of(path)->0)]
    } else {
        lines_findings(m, path, lines_of(content), labels)
    }
}

/// The tokens of the file that the entropy score is asked about, in order.
pub open spec fn candidates_model(m: ScannerModel, path: Seq<char>, content: Seq<char>) -> Seq<
    Seq<char>,
> {
    if ignores_path(m.exclude, path) || env_sentinel(path) {
        Seq::empty()
    } else {
        lines_candidates(skips_entropy(m.skip, path), lines_of(content))
    }
}


/// With every candidate numbered past the last label, a line has no entropy
/// finding.
proof fn lemma_no_labels_left(
    path: Seq<char>,
    n: int,
    cands: Seq<Seq<char>>,
    labels: Seq<Option<Seq<char>>>,
    offset: int,
)
    requires
        offset >= labels.len(),
    ensures
        entropy_findings(path, n, cands, labels, offset) == Seq::<Finding>::empty(),
    decreases cands.len(),
{
    if cands.len() > 0 {
        lemma_no_labels_left(path, n, cands.drop_last(), labels, offset);
    }
}

/// Appends the entropy findings of line `n`, candidates numbered from `off`.
fn push_entropy_findings(
    out: &mut Vec<Violation>,
    path: &str,
    n: usize,
    cands: &Vec<Vec<char>>,
    labels: &Vec<Option<String>>,
    off: usize,
)
    requires
        off <= labels.len(),
    ensures
        findings_of(final(out)@) == findings_of(old(out)@) + entropy_findings(
            path@,
            n as int,
            views_of(cands@),
            labels.deep_view(),
            off as int,
        ),
{
    let ghost cv = views_of(cands@);
    let ghost start = findings_of(out@);
    let mut k: usize = 0;
    assert(cv.take(0) =~= Seq::<Seq<char>>::empty());
    assert(start + Seq::<Finding>::empty() =~= start);
    while k < cands.len()
        invariant
            k <= cands.len(),
            off <= labels.len(),
            cv == views_of(cands@),
            findings_of(out@) == start + entropy_findings(
                path@,
                n as int,
                cv.take(k as int),
                labels.deep_view(),
                off as int,
            ),
        decreases cands.len() - k,
    {
        assert(cv.take(k + 1).drop_last() =~= cv.take(k as int));
        assert(cv.take(k + 1).last() == cv[k as int]);
        assert(cv[k as int] == cands@[k as int]@);
        let ghost prev = findings_of(out@);
        if k < labels.len() - off {
            assert(labels.deep_view()[(off + k) as int] == labels@[(off + k) as int].deep_view());
            match &labels[off + k] {
                Some(l) => {
                    let v = Violation {
                        file: path.to_owned(),
                        line: n,
                        rule: l.clone(),
                        snippet: string_of(&take_chars(&cands[k], 20)),
                    };
                    out.push(v);
                    assert(findings_of(out@) =~= prev.push(v@));
                },
                None => {},
            }
        }
        assert(findings_of(out@) =~= start + entropy_findings(
            path@,
            n as int,
            cv.take(k + 1),
            labels.deep_view(),
            off as int,
        ));
        k = k + 1;
    }
    assert(cv.take(k as int) =~= cv);
}

impl Scanner {
    /// Compiles the built-in signatures and then the custom ones (dropping
    /// any that do not compile), builds the path exclusions, and reads the
    /// mnemonic word list (one word per line).
    pub fn new(config: Config, wordlist: &str) -> (s: Scanner)
        ensures
            s@.rules == compiled_rules(builtin_rules() + rule_pairs(config.rules@)),
            s@.exclude == config.exclude.deep_view(),
            s@.skip == config.skip_entropy_checks.deep_view(),
            s@.vocabulary == vocabulary_of(wordlist@),
    {
        let mut all: Vec<(String, String)> = Vec::new();
        all.push(("Ethereum Private Key".to_owned(), "(?i)0x[a-fA-F0-9]{64}".to_owned()));
        all.push(
            (
                "BIP-39 Mnemonic".to_owned(),
                "(?i)(\\b[a-z]{3,}\\b\\s+){11,}\\b[a-z]{3,}\\b".to_owned(),
            ),
        );
        all.push(
            (
                "Generic API Key".to_owned(),
                "(?i)(api_key|access_token|secret_key)[\\s:=]+['\"\"]?[a-zA-Z0-9_\\-]{20,}".to_owned(),
            ),
        );
        let ghost custom = rule_pairs(config.rules@);
        assert(all.deep_view() =~= builtin_rules() + custom.take(0));
        let mut j: usize = 0;
        while j < config.rules.len()
            invariant
                j <= config.rules.len(),
                custom == rule_pairs(config.rules@),
                all.deep_view() == builtin_rules() + custom.take(j as int),
            decreases config.rules.len() - j,
        {
            let r = &config.rules[j];
            let ghost prev = all.deep_view();
            assert(custom[j as int] == (r.name@, r.regex@));
            let pair = (r.name.clone(), r.regex.clone());
            assert(pair.deep_view() == (r.name@, r.regex@));
            all.push(pair);
            assert(all.deep_view() =~= prev.push((r.name@, r.regex@)));
            assert(all.deep_view() =~= builtin_rules() + custom.take(j + 1));
            j = j + 1;
        }
        assert(custom.take(j as int) =~= custom);
        let ghost allv = all.deep_view();
        let mut patterns: Vec<Pattern> = Vec::new();
        let mut k: usize = 0;
        assert(allv.take(0) =~= Seq::<(Seq<char>, Seq<char>)>::empty());
        assert(pattern_pairs(patterns@) =~= Seq::<(Seq<char>, Seq<char>)>::empty());
        while k < all.len()
            invariant
                k <= all.len(),
                allv == all.deep_view(),
                pattern_pairs(patterns@) == compiled_rules(allv.take(k as int)),
            decreases all.len() - k,
        {
            assert(allv.take(k + 1).drop_last() =~= allv.take(k as int));
            assert(allv.take(k + 1).last() == allv[k as int]);
            match compile_regex(all[k].1.as_str()) {
                Some(re) => {
                    let p = Pattern { name: all[k].0.clone(), re };
                    assert(pattern_pairs(patterns@.push(p)) =~= pattern_pairs(patterns@).push(
                        (p.name@, regex_source(p.re)),
                    ));
                    patterns.push(p);
                },
                None => {},
            }
            k = k + 1;
        }
        assert(allv.take(k as int) =~= allv);
        let exclude_globnet = exclusions_from(&config.exclude);
        let bip39_words = load_vocabulary(wordlist);
        Scanner { config, patterns, exclude_globnet, bip39_words }
    }

    /// Appends the signature findings of line `n`.
    fn push_rule_findings(
        &self,
        out: &mut Vec<Violation>,
        path: &str,
        n: usize,
        line: &String,
        line_chars: &Vec<char>,
    )
        requires
            line@ == line_chars@,
        ensures
            findings_of(final(out)@) == findings_of(old(out)@) + rule_findings(
                self@.rules,
                self@.vocabulary,
                path@,
                n as int,
                line@,
            ),
    {
        let snippet = string_of(&take_chars(&trim_chars(line_chars, false), 50));
        let mnemonic = "BIP-39 Mnemonic".to_owned();
        let ghost rules = self@.rules;
        let ghost start = findings_of(out@);
        assert(rules.take(0) =~= Seq::<(Seq<char>, Seq<char>)>::empty());
        assert(start + Seq::<Finding>::empty() =~= start);
        let mut k: usize = 0;
        while k < self.patterns.len()
            invariant
                k <= self.patterns.len(),
                rules == self@.rules,
                rules == pattern_pairs(self.patterns@),
                snippet@ == line_snippet(line@),
                mnemonic@ == mnemonic_label(),
                findings_of(out@) == start + rule_findings(
                    rules.take(k as int),
                    self@.vocabulary,
                    path@,
                    n as int,
                    line@,
                ),
            decreases self.patterns.len() - k,
        {
            assert(rules.take(k + 1).drop_last() =~= rules.take(k as int));
            assert(rules.take(k + 1).last() == rules[k as int]);
            let p = &self.patterns[k];
            assert(rules[k as int] == (p.name@, regex_source(p.re)));
            let ghost prev = findings_of(out@);
            match find_first(&p.re, line.as_str()) {
                Some(m) => {
                    if p.name == mnemonic && !confirms_mnemonic(&self.bip39_words, &m) {
                    } else {
                        let v = Violation {
                            file: path.to_owned(),
                            line: n,
                            rule: p.name.clone(),
                            snippet: snippet.clone(),
                        };
                        out.push(v);
                        assert(findings_of(out@) =~= prev.push(v@));
                    }
                },
                None => {},
            }
            assert(findings_of(out@) =~= start + rule_findings(
                rules.take(k + 1),
                self@.vocabulary,
                path@,
                n as int,
                line@,
            ));
            k = k + 1;
        }
        assert(rules.take(k as int) =~= rules);
    }

    /// Whether the `.env` sentinel fires for this path; gives the base name.
    fn sentinel_name(path: &str) -> (r: Option<String>)
        ensures
            r is Some <==> env_sentinel(path@),
            r matches Some(n) ==> file_name_of(path@) == Some(n@),
    {
        match file_name(&chars_of(path)) {
            Some(nc) => {
                if starts_with_chars(&nc, &chars_of(".env")) && !ends_with_chars(
                    &nc,
                    &chars_of(".example"),
                ) && !ends_with_chars(&nc, &chars_of(".sample")) {
                    Some(string_of(&nc))
                } else {
                    None
                }
            },
            None => None,
        }
    }

    /// Scans one file. `entropy_labels` gives, for each token that
    /// `entropy_candidates` lists for the same path and content, in that
    /// order, the rule label of its entropy finding, or `None` where the
    /// token scores at or under the threshold.
    pub fn scan_content(
        &self,
        path: &str,
        content: &str,
        entropy_labels: &Vec<Option<String>>,
    ) -> (r: Vec<Violation>)
        requires
            relative_path(path@),
        ensures
            findings_of(r@) == scan_model(self@, path@, content@, entropy_labels.deep_view()),
    {
        if is_ignored(&self.exclude_globnet, path) {
            let out: Vec<Violation> = Vec::new();
            assert(findings_of(out@) =~= Seq::<Finding>::empty());
            return out;
        }
        match Self::sentinel_name(path) {
            Some(name) => {
                let rule = "Critical: ".to_owned().concat(name.as_str()).concat(" detected");
                let mut out: Vec<Violation> = Vec::new();
                out.push(
                    Violation {
                        file: path.to_owned(),
                        line: 1,
                        rule,
                        snippet: "Do not commit .env files. Use .env.example instead.".to_owned(),
                    },
                );
                assert(findings_of(out@) =~= seq![sentinel_finding(path@, name@)]);
                return out;
            },
            None => {},
        }
        let skip = path_skips_entropy(&self.config.skip_entropy_checks, &chars_of(path));
        let lines = split_lines(&chars_of(content));
        let ghost lv = views_of(lines@);
        let ghost labels = entropy_labels.deep_view();
        let mut out: Vec<Violation> = Vec::new();
        let mut off: usize = 0;
        let mut i: usize = 0;
        assert(lv.take(0) =~= Seq::<Seq<char>>::empty());
        assert(findings_of(out@) =~= Seq::<Finding>::empty());
        while i < lines.len()
            invariant
                i <= lines.len(),
                lv == views_of(lines@),
                lv == lines_of(content@),
                labels == entropy_labels.deep_view(),
                labels.len() == entropy_labels.len(),
                skip == skips_entropy(self@.skip, path@),
                off <= labels.len(),
                off < labels.len() ==> off == lines_candidates(skip, lv.take(i as int)).len(),
                off == labels.len() ==> lines_candidates(skip, lv.take(i as int)).len()
                    >= labels.len(),
                findings_of(out@) == lines_findings(self@, path@, lv.take(i as int), labels),
            decreases lines.len() - i,
        {
            assert(lv.take(i + 1).drop_last() =~= lv.take(i as int));
            assert(lv.take(i + 1).last() == lv[i as int]);
            let ghost before = findings_of(out@);
            let ghost true_off = lines_candidates(skip, lv.take(i as int)).len() as int;
            let line_str = string_of(&lines[i]);
            self.push_rule_findings(&mut out, path, i + 1, &line_str, &lines[i]);
            let ghost after_rules = findings_of(out@);
            if !skip {
                let cands = entropy_tokens(&lines[i]);
                push_entropy_findings(&mut out, path, i + 1, &cands, entropy_labels, off);
                proof {
                    if off == labels.len() {
                        lemma_no_labels_left(path@, i + 1, views_of(cands@), labels, off as int);
                        lemma_no_labels_left(path@, i + 1, views_of(cands@), labels, true_off);
                    }
                }
                if cands.len() >= entropy_labels.len() - off {
                    off = entropy_labels.len();
                } else {
                    off = off + cands.len();
                }
                assert(lines_candidates(skip, lv.take(i + 1)) == lines_candidates(
                    skip,
                    lv.take(i as int),
                ) + line_candidates(lv[i as int]));
            } else {
                assert(entropy_findings(path@, i + 1, Seq::empty(), labels, true_off)
                    =~= Seq::<Finding>::empty());
                assert(findings_of(out@) =~= after_rules + Seq::<Finding>::empty());
            }
            assert(findings_of(out@) =~= lines_findings(self@, path@, lv.take(i + 1), labels));
            i = i + 1;
        }
        assert(lv.take(i as int) =~= lv);
        out
    }

    /// The tokens of the file, in order, that the caller scores for entropy
    /// before calling `scan_content`.
    pub fn entropy_candidates(&self, path: &str, content: &str) -> (r: Vec<String>)
        requires
            relative_path(path@),
        ensures
            r.deep_view() == candidates_model(self@, path@, content@),
    {
        let mut r: Vec<String> = Vec::new();
        if is_ignored(&self.exclude_globnet, path) {
            assert(r.deep_view() =~= Seq::<Seq<char>>::empty());
            return r;
        }
        if Self::sentinel_name(path).is_some() {
            assert(r.deep_view() =~= Seq::<Seq<char>>::empty());
            return r;
        }
        let skip = path_skips_entropy(&self.config.skip_entropy_checks, &chars_of(path));
        if skip {
            assert(r.deep_view() =~= Seq::<Seq<char>>::empty());
            return r;
        }
        let lines = split_lines(&chars_of(content));
        let ghost lv = views_of(lines@);
        let mut i: usize = 0;
        assert(lv.take(0) =~= Seq::<Seq<char>>::empty());
        assert(r.deep_view() =~= Seq::<Seq<char>>::empty());
        while i < lines.len()
            invariant
                i <= lines.len(),
                lv == views_of(lines@),
                lv == lines_of(content@),
                !skip,
                r.deep_view() == lines_candidates(skip, lv.take(i as int)),
            decreases lines.len() - i,
        {
            assert(lv.take(i + 1).drop_last() =~= lv.take(i as int));
            assert(lv.take(i + 1).last() == lv[i as int]);
            let cands = entropy_tokens(&lines[i]);
            let ghost cv = views_of(cands@);
            let ghost base = r.deep_view();
            let mut k: usize = 0;
            assert(base + cv.take(0) =~= base);
            while k < cands.len()
                invariant
                    k <= cands.len(),
                    cv == views_of(cands@),
                    r.deep_view() == base + cv.take(k as int),
                decreases cands.len() - k,
            {
                let ghost prev = r.deep_view();
                let t = string_of(&cands[k]);
                assert(cv[k as int] == t@);
                r.push(t);
                assert(r.deep_view() =~= prev.push(t@));
                assert(r.deep_view() =~= base + cv.take(k + 1));
                k = k + 1;
            }
            assert(cv.take(k as int) =~= cv);
            i = i + 1;
        }
        assert(lv.take(i as int) =~= lv);
        r
    }
}

} // verus!
