//! What holds of every scan, proved over the scan's model.
use vstd::prelude::*;
use crate::entropy::{candidates_in, code_like, is_census, line_candidates, occurrences};
use crate::external::ignores_path;
use crate::path::file_name_of;
use crate::scanner::{
    candidates_model, entropy_findings, env_sentinel, lines_candidates, lines_findings,
    mnemonic_label, rule_findings, scan_model, sentinel_finding, Finding, Scanner, ScannerModel,
};
use crate::external::regex_first_match;
use crate::vocabulary::mnemonic_confirmed;
use crate::text::{contains, words_of};

verus! {

/// A path that the exclusion lines cover, itself or through a parent
/// directory, yields no finding, whatever the content.
pub proof fn lemma_excluded_path_yields_nothing(
    s: Scanner,
    path: Seq<char>,
    content: Seq<char>,
    labels: Seq<Option<Seq<char>>>,
)
    requires
        ignores_path(s@.exclude, path),
    ensures
        scan_model(s@, path, content, labels) == Seq::<Finding>::empty(),
        candidates_model(s@, path, content) == Seq::<Seq<char>>::empty(),
{
}

/// A `.env` file that is not a `.example` or `.sample` (and is not
/// excluded) yields exactly one finding, on line 1, whatever the content.
pub proof fn lemma_env_file_single_finding(
    s: Scanner,
    path: Seq<char>,
    content: Seq<char>,
    labels: Seq<Option<Seq<char>>>,
)
    requires
        !ignores_path(s@.exclude, path),
        env_sentinel(path),
    ensures
        scan_model(s@, path, content, labels).len() == 1,
        scan_model(s@, path, content, labels)[0] == sentinel_finding(path, file_name_of(path)->0),
        scan_model(s@, path, content, labels)[0].line == 1,
        candidates_model(s@, path, content) == Seq::<Seq<char>>::empty(),
{
}

proof fn lemma_candidates_in_not_code_like(words: Seq<Seq<char>>)
    ensures
        forall|k: int|
            0 <= k < candidates_in(words).len() ==> !code_like(#[trigger] candidates_in(words)[k]),
    decreases words.len(),
{
    if words.len() > 0 {
        lemma_candidates_in_not_code_like(words.drop_last());
        let prev = candidates_in(words.drop_last());
        let t = crate::text::trim(words.last(), true);
        if crate::entropy::scored_token(t) {
            assert forall|k: int| 0 <= k < prev.push(t).len() implies !code_like(
                #[trigger] prev.push(t)[k],
            ) by {
                if k < prev.len() {
                    assert(prev.push(t)[k] == prev[k]);
                }
            }
        }
    }
}

proof fn lemma_lines_candidates_not_code_like(skip: bool, lines: Seq<Seq<char>>)
    ensures
        forall|k: int|
            0 <= k < lines_candidates(skip, lines).len() ==> !code_like(
                #[trigger] lines_candidates(skip, lines)[k],
            ),
    decreases lines.len(),
{
    if lines.len() > 0 && !skip {
        lemma_lines_candidates_not_code_like(skip, lines.drop_last());
        lemma_candidates_in_not_code_like(words_of(lines.last()));
        let a = lines_candidates(skip, lines.drop_last());
        let b = line_candidates(lines.last());
        assert forall|k: int| 0 <= k < (a + b).len() implies !code_like(#[trigger] (a + b)[k]) by {
            if k < a.len() {
                assert((a + b)[k] == a[k]);
            } else {
                assert((a + b)[k] == b[k - a.len()]);
            }
        }
    }
}

/// No token that contains `->` or `${` (nor `::`, `=>`, `</`) is ever put
/// to the entropy score, so none gets an entropy finding, whatever its score.
pub proof fn lemma_code_like_tokens_never_scored(s: Scanner, path: Seq<char>, content: Seq<char>)
    ensures
        forall|k: int|
            0 <= k < candidates_model(s@, path, content).len() ==> {
                let t = #[trigger] candidates_model(s@, path, content)[k];
                !contains(t, "->"@) && !contains(t, "${"@) && !code_like(t)
            },
{
    if !ignores_path(s@.exclude, path) && !env_sentinel(path) {
        lemma_lines_candidates_not_code_like(
            crate::entropy::skips_entropy(s@.skip, path),
            crate::text::lines_of(content),
        );
    }
}

/// Scanning the same file twice with the same scanner gives the same
/// findings in the same order: the result is a function of its inputs.
pub proof fn lemma_scan_idempotent(
    s: Scanner,
    path: Seq<char>,
    content: Seq<char>,
    labels: Seq<Option<Seq<char>>>,
    first: Seq<Finding>,
    second: Seq<Finding>,
)
    requires
        first == scan_model(s@, path, content, labels),
        second == scan_model(s@, path, content, labels),
    ensures
        first == second,
{
}

proof fn lemma_rule_findings_file(
    rules: Seq<(Seq<char>, Seq<char>)>,
    vocab: Seq<Seq<char>>,
    path: Seq<char>,
    n: int,
    line: Seq<char>,
)
    ensures
        forall|k: int|
            0 <= k < rule_findings(rules, vocab, path, n, line).len() ==> {
                let f = #[trigger] rule_findings(rules, vocab, path, n, line)[k];
                &&& f.file == path
                &&& f.line == n
                &&& exists|j: int|
                    0 <= j < rules.len() && (#[trigger] rules[j]).0 == f.rule && regex_first_match(
                        rules[j].1,
                        line,
                    ) is Some && (f.rule == mnemonic_label() ==> mnemonic_confirmed(
                        vocab,
                        regex_first_match(rules[j].1, line)->0,
                    ))
            },
    decreases rules.len(),
{
    if rules.len() > 0 {
        let before = rules.drop_last();
        lemma_rule_findings_file(before, vocab, path, n, line);
        let prev = rule_findings(before, vocab, path, n, line);
        let last = rules.len() - 1;
        let f = Finding {
            file: path,
            line: n,
            rule: rules.last().0,
            snippet: crate::scanner::line_snippet(line),
        };
        assert forall|k: int| 0 <= k < prev.len() implies exists|j: int|
            0 <= j < rules.len() && (#[trigger] rules[j]).0 == (#[trigger] prev[k]).rule && regex_first_match(
                rules[j].1,
                line,
            ) is Some && (prev[k].rule == mnemonic_label() ==> mnemonic_confirmed(
                vocab,
                regex_first_match(rules[j].1, line)->0,
            )) by {
            let j = choose|j: int|
                0 <= j < before.len() && (#[trigger] before[j]).0 == prev[k].rule
                    && regex_first_match(before[j].1, line) is Some && (prev[k].rule
                    == mnemonic_label() ==> mnemonic_confirmed(
                    vocab,
                    regex_first_match(before[j].1, line)->0,
                ));
            assert(rules[j] == before[j]);
        }
        assert(rules[last] == rules.last());
        if regex_first_match(rules.last().1, line) is Some && !(f.rule == mnemonic_label()
            && !mnemonic_confirmed(vocab, regex_first_match(rules.last().1, line)->0)) {
            assert forall|k: int| 0 <= k < prev.push(f).len() implies {
                let g = #[trigger] prev.push(f)[k];
                &&& g.file == path
                &&& g.line == n
                &&& exists|j: int|
                    0 <= j < rules.len() && (#[trigger] rules[j]).0 == g.rule && regex_first_match(
                        rules[j].1,
                        line,
                    ) is Some && (g.rule == mnemonic_label() ==> mnemonic_confirmed(
                        vocab,
                        regex_first_match(rules[j].1, line)->0,
                    ))
            } by {
                if k < prev.len() {
                    assert(prev.push(f)[k] == prev[k]);
                } else {
                    assert(prev.push(f)[k] == f);
                    assert(rules[last].0 == f.rule);
                }
            }
        }
    }
}

proof fn lemma_entropy_findings_file(
    path: Seq<char>,
    n: int,
    cands: Seq<Seq<char>>,
    labels: Seq<Option<Seq<char>>>,
    offset: int,
)
    ensures
        forall|k: int|
            0 <= k < entropy_findings(path, n, cands, labels, offset).len() ==> {
                let f = #[trigger] entropy_findings(path, n, cands, labels, offset)[k];
                &&& f.file == path
                &&& f.line == n
                &&& exists|j: int| 0 <= j < labels.len() && #[trigger] labels[j] == Some(f.rule)
            },
        cands.len() == 0 ==> entropy_findings(path, n, cands, labels, offset).len() == 0,
    decreases cands.len(),
{
    if cands.len() > 0 {
        lemma_entropy_findings_file(path, n, cands.drop_last(), labels, offset);
        let prev = entropy_findings(path, n, cands.drop_last(), labels, offset);
        let idx = offset + cands.len() - 1;
        match crate::scanner::label_at(labels, idx) {
            Some(l) => {
                let f = Finding {
                    file: path,
                    line: n,
                    rule: l,
                    snippet: crate::text::first_chars(cands.last(), 20),
                };
                assert(labels[idx] == Some(f.rule));
                assert forall|k: int| 0 <= k < prev.push(f).len() implies {
                    let g = #[trigger] prev.push(f)[k];
                    &&& g.file == path
                    &&& g.line == n
                    &&& exists|j: int| 0 <= j < labels.len() && #[trigger] labels[j] == Some(g.rule)
                } by {
                    if k < prev.len() {
                        assert(prev.push(f)[k] == prev[k]);
                    }
                }
            },
            None => {},
        }
    }
}

proof fn lemma_lines_findings_file(
    m: ScannerModel,
    path: Seq<char>,
    lines: Seq<Seq<char>>,
    labels: Seq<Option<Seq<char>>>,
)
    ensures
        forall|k: int|
            0 <= k < lines_findings(m, path, lines, labels).len() ==> {
                let f = #[trigger] lines_findings(m, path, lines, labels)[k];
                f.file == path && 1 <= f.line <= lines.len()
            },
    decreases lines.len(),
{
    if lines.len() > 0 {
        let skip = crate::entropy::skips_entropy(m.skip, path);
        let before = lines.drop_last();
        let cands = if skip {
            Seq::empty()
        } else {
            line_candidates(lines.last())
        };
        lemma_lines_findings_file(m, path, before, labels);
        lemma_rule_findings_file(m.rules, m.vocabulary, path, lines.len() as int, lines.last());
        lemma_entropy_findings_file(
            path,
            lines.len() as int,
            cands,
            labels,
            lines_candidates(skip, before).len() as int,
        );
        let a = lines_findings(m, path, before, labels);
        let b = rule_findings(m.rules, m.vocabulary, path, lines.len() as int, lines.last());
        let c = entropy_findings(
            path,
            lines.len() as int,
            cands,
            labels,
            lines_candidates(skip, before).len() as int,
        );
        assert(lines_findings(m, path, lines, labels) == a + b + c);
        assert forall|k: int| 0 <= k < (a + b + c).len() implies {
            let f = #[trigger] (a + b + c)[k];
            f.file == path && 1 <= f.line <= lines.len()
        } by {
            if k < a.len() {
                assert((a + b + c)[k] == a[k]);
            } else if k < a.len() + b.len() {
                assert((a + b + c)[k] == b[k - a.len()]);
            } else {
                assert((a + b + c)[k] == c[k - a.len() - b.len()]);
            }
        }
    }
}

/// Every finding of a scan names the scanned path.
pub proof fn lemma_findings_name_their_file(
    s: Scanner,
    path: Seq<char>,
    content: Seq<char>,
    labels: Seq<Option<Seq<char>>>,
)
    ensures
        forall|k: int|
            0 <= k < scan_model(s@, path, content, labels).len() ==> (
            #[trigger] scan_model(s@, path, content, labels)[k]).file == path,
{
    if !ignores_path(s@.exclude, path) && !env_sentinel(path) {
        lemma_lines_findings_file(s@, path, crate::text::lines_of(content), labels);
    }
}

/// Scans leave no state behind, so merging the findings of two files gives
/// the same findings whichever file was scanned first, and each finding
/// still names its own file.
pub proof fn lemma_merge_order_irrelevant(
    s: Scanner,
    path_a: Seq<char>,
    content_a: Seq<char>,
    labels_a: Seq<Option<Seq<char>>>,
    path_b: Seq<char>,
    content_b: Seq<char>,
    labels_b: Seq<Option<Seq<char>>>,
)
    ensures
        ({
            let a = scan_model(s@, path_a, content_a, labels_a);
            let b = scan_model(s@, path_b, content_b, labels_b);
            &&& (a + b).to_multiset() == (b + a).to_multiset()
            &&& forall|k: int| 0 <= k < a.len() ==> (#[trigger] a[k]).file == path_a
            &&& forall|k: int| 0 <= k < b.len() ==> (#[trigger] b[k]).file == path_b
        }),
{
    let a = scan_model(s@, path_a, content_a, labels_a);
    let b = scan_model(s@, path_b, content_b, labels_b);
    vstd::seq_lib::lemma_seq_union_to_multiset_commutative(a, b);
    lemma_findings_name_their_file(s, path_a, content_a, labels_a);
    lemma_findings_name_their_file(s, path_b, content_b, labels_b);
}


proof fn lemma_occurrences_of_repeat(s: Seq<char>, c: char)
    requires
        forall|i: int| 0 <= i < s.len() ==> s[i] == c,
    ensures
        occurrences(s, c) == s.len(),
    decreases s.len(),
{
    if s.len() > 0 {
        lemma_occurrences_of_repeat(s.drop_last(), c);
    }
}

/// A token made of one repeated character has a census of one entry, that
/// character with the token's length: its entropy, `-(n/n) log2(n/n)`, is 0.
pub proof fn lemma_census_of_repeated_char(s: Seq<char>, c: char, counts: Seq<(char, usize)>)
    requires
        s.len() > 0,
        forall|i: int| 0 <= i < s.len() ==> s[i] == c,
        is_census(s, counts),
    ensures
        counts.len() == 1,
        counts[0].0 == c,
        counts[0].1 == s.len(),
{
    assert(s[0] == c);
    assert(s.contains(c));
    let k = choose|k: int| 0 <= k < counts.len() && (#[trigger] counts[k]).0 == c;
    assert forall|i: int| 0 <= i < counts.len() implies (#[trigger] counts[i]).0 == c by {
        assert(exists|j: int| 0 <= j < counts.len() && (#[trigger] counts[j]).0 == counts[i].0);
        assert(s.contains(counts[i].0));
    }
    if counts.len() > 1 {
        assert(counts[0].0 != counts[1].0);
    }
    lemma_occurrences_of_repeat(s, c);
}

/// In a token whose distinct characters each occur `k` times, the census
/// has one entry per distinct character, each with count `k`: with `n`
/// such characters its entropy, `-n (1/n) log2(1/n)`, is `log2(n)`.
pub proof fn lemma_census_of_uniform_chars(s: Seq<char>, k: nat, counts: Seq<(char, usize)>)
    requires
        forall|c: char| s.contains(c) ==> occurrences(s, c) == k,
        is_census(s, counts),
    ensures
        counts.len() == s.to_set().len(),
        forall|i: int| 0 <= i < counts.len() ==> (#[trigger] counts[i]).1 == k,
{
    let keys = counts.map_values(|p: (char, usize)| p.0);
    assert forall|i: int| 0 <= i < counts.len() implies (#[trigger] counts[i]).1 == k by {
        let x = counts[i].0;
        assert(exists|j: int| 0 <= j < counts.len() && (#[trigger] counts[j]).0 == x);
        assert(s.contains(x));
    }
    assert(keys.no_duplicates()) by {
        assert forall|i: int, j: int| 0 <= i < keys.len() && 0 <= j < keys.len() && i != j
            implies keys[i] != keys[j] by {
            if i < j {
                assert(counts[i].0 != counts[j].0);
            } else {
                assert(counts[j].0 != counts[i].0);
            }
        }
    }
    keys.unique_seq_to_set();
    assert forall|c: char| keys.to_set().contains(c) <==> s.to_set().contains(c) by {
        if keys.to_set().contains(c) {
            let i = choose|i: int| 0 <= i < keys.len() && keys[i] == c;
            assert(counts[i].0 == c);
        }
        if s.to_set().contains(c) {
            assert(s.contains(c));
            let i = choose|i: int| 0 <= i < counts.len() && (#[trigger] counts[i]).0 == c;
            assert(keys[i] == c);
        }
    }
    assert(keys.to_set() =~= s.to_set());
}


/// What line `k` (1-based) contributes to a scan: its signature findings,
/// then its entropy findings.
pub open spec fn line_part(
    m: ScannerModel,
    path: Seq<char>,
    lines: Seq<Seq<char>>,
    labels: Seq<Option<Seq<char>>>,
    k: int,
) -> Seq<Finding> {
    let skip = crate::entropy::skips_entropy(m.skip, path);
    rule_findings(m.rules, m.vocabulary, path, k, lines[k - 1]) + entropy_findings(
        path,
        k,
        if skip {
            Seq::empty()
        } else {
            line_candidates(lines[k - 1])
        },
        labels,
        lines_candidates(skip, lines.take(k - 1)).len() as int,
    )
}

proof fn lemma_findings_of_line(
    m: ScannerModel,
    path: Seq<char>,
    lines: Seq<Seq<char>>,
    labels: Seq<Option<Seq<char>>>,
    k: int,
)
    requires
        1 <= k <= lines.len(),
    ensures
        forall|i: int|
            0 <= i < lines_findings(m, path, lines, labels).len() && (#[trigger] lines_findings(
                m,
                path,
                lines,
                labels,
            )[i]).line == k ==> line_part(m, path, lines, labels, k).contains(
                lines_findings(m, path, lines, labels)[i],
            ),
    decreases lines.len(),
{
    let n = lines.len() as int;
    let skip = crate::entropy::skips_entropy(m.skip, path);
    let before = lines.drop_last();
    let a = lines_findings(m, path, before, labels);
    let b = rule_findings(m.rules, m.vocabulary, path, n, lines.last());
    let cands = if skip {
        Seq::empty()
    } else {
        line_candidates(lines.last())
    };
    let c = entropy_findings(path, n, cands, labels, lines_candidates(skip, before).len() as int);
    assert(lines_findings(m, path, lines, labels) == a + b + c);
    lemma_lines_findings_file(m, path, before, labels);
    lemma_rule_findings_file(m.rules, m.vocabulary, path, n, lines.last());
    lemma_entropy_findings_file(path, n, cands, labels, lines_candidates(skip, before).len() as int);
    if k < n {
        lemma_findings_of_line(m, path, before, labels, k);
        assert(before[k - 1] == lines[k - 1]);
        assert(before.take(k - 1) =~= lines.take(k - 1));
        assert(line_part(m, path, before, labels, k) == line_part(m, path, lines, labels, k));
    } else {
        assert(lines.take(n - 1) =~= before);
        assert(lines[n - 1] == lines.last());
        assert(line_part(m, path, lines, labels, k) == b + c);
    }
    assert forall|i: int|
        0 <= i < (a + b + c).len() && (#[trigger] (a + b + c)[i]).line == k implies line_part(
        m,
        path,
        lines,
        labels,
        k,
    ).contains((a + b + c)[i]) by {
        let x = (a + b + c)[i];
        if i < a.len() {
            assert(x == a[i]);
            if k == n {
                assert(a[i].line <= n - 1);
            }
        } else if i < a.len() + b.len() {
            assert(x == b[i - a.len()]);
            assert((b + c)[i - a.len()] == x);
        } else {
            assert(x == c[i - a.len() - b.len()]);
            assert((b + c)[i - a.len()] == x);
        }
    }
}

proof fn lemma_no_candidates(words: Seq<Seq<char>>)
    requires
        forall|i: int|
            0 <= i < words.len() ==> !crate::entropy::scored_token(
                crate::text::trim(#[trigger] words[i], true),
            ),
    ensures
        candidates_in(words).len() == 0,
    decreases words.len(),
{
    if words.len() > 0 {
        assert(words.last() == words[words.len() - 1]);
        lemma_no_candidates(words.drop_last());
    }
}

/// A line whose tokens, trimmed of wrapping punctuation, are each at most
/// 20 characters long or contain `->`, `${`, `::`, `=>` or `</` gets no
/// entropy finding, whatever the scores: every finding on it is a
/// signature finding of that line.
pub proof fn lemma_unscored_line_has_only_signature_findings(
    s: Scanner,
    path: Seq<char>,
    content: Seq<char>,
    labels: Seq<Option<Seq<char>>>,
    k: int,
)
    requires
        !env_sentinel(path),
        1 <= k <= crate::text::lines_of(content).len(),
        forall|i: int|
            0 <= i < words_of(crate::text::lines_of(content)[k - 1]).len() ==> !(
            crate::entropy::scored_token(
                crate::text::trim(#[trigger] words_of(crate::text::lines_of(content)[k - 1])[i], true),
            )),
    ensures
        forall|i: int|
            0 <= i < scan_model(s@, path, content, labels).len() && (#[trigger] scan_model(
                s@,
                path,
                content,
                labels,
            )[i]).line == k ==> rule_findings(
                s@.rules,
                s@.vocabulary,
                path,
                k,
                crate::text::lines_of(content)[k - 1],
            ).contains(scan_model(s@, path, content, labels)[i]),
{
    if !ignores_path(s@.exclude, path) {
        let lines = crate::text::lines_of(content);
        let line = lines[k - 1];
        lemma_no_candidates(words_of(line));
        lemma_findings_of_line(s@, path, lines, labels, k);
        let skip = crate::entropy::skips_entropy(s@.skip, path);
        let cands = if skip {
            Seq::empty()
        } else {
            line_candidates(line)
        };
        lemma_entropy_findings_file(
            path,
            k,
            cands,
            labels,
            lines_candidates(skip, lines.take(k - 1)).len() as int,
        );
        let rf = rule_findings(s@.rules, s@.vocabulary, path, k, line);
        assert(line_part(s@, path, lines, labels, k) =~= rf);
    }
}

/// When every rule labelled `BIP-39 Mnemonic` either does not match line
/// `k` or matches a phrase that the word list does not confirm, and no
/// entropy label handed in reads `BIP-39 Mnemonic`, line `k` gets no
/// `BIP-39 Mnemonic` finding; the line's other findings are unaffected.
pub proof fn lemma_unconfirmed_mnemonic_not_reported(
    s: Scanner,
    path: Seq<char>,
    content: Seq<char>,
    labels: Seq<Option<Seq<char>>>,
    k: int,
)
    requires
        !env_sentinel(path),
        1 <= k <= crate::text::lines_of(content).len(),
        forall|j: int| 0 <= j < labels.len() ==> #[trigger] labels[j] != Some(mnemonic_label()),
        forall|j: int|
            0 <= j < s@.rules.len() && (#[trigger] s@.rules[j]).0 == mnemonic_label()
                && regex_first_match(s@.rules[j].1, crate::text::lines_of(content)[k - 1]) is Some
                ==> !mnemonic_confirmed(
                s@.vocabulary,
                regex_first_match(s@.rules[j].1, crate::text::lines_of(content)[k - 1])->0,
            ),
    ensures
        forall|i: int|
            0 <= i < scan_model(s@, path, content, labels).len() && (#[trigger] scan_model(
                s@,
                path,
                content,
                labels,
            )[i]).line == k ==> scan_model(s@, path, content, labels)[i].rule != mnemonic_label(),
{
    if !ignores_path(s@.exclude, path) {
        let lines = crate::text::lines_of(content);
        let line = lines[k - 1];
        lemma_findings_of_line(s@, path, lines, labels, k);
        let skip = crate::entropy::skips_entropy(s@.skip, path);
        let cands = if skip {
            Seq::empty()
        } else {
            line_candidates(line)
        };
        let off = lines_candidates(skip, lines.take(k - 1)).len() as int;
        lemma_entropy_findings_file(path, k, cands, labels, off);
        lemma_rule_findings_file(s@.rules, s@.vocabulary, path, k, line);
        let rf = rule_findings(s@.rules, s@.vocabulary, path, k, line);
        let ef = entropy_findings(path, k, cands, labels, off);
        let part = line_part(s@, path, lines, labels, k);
        assert(part == rf + ef);
        let r = scan_model(s@, path, content, labels);
        assert forall|i: int| 0 <= i < r.len() && (#[trigger] r[i]).line == k implies r[i].rule
            != mnemonic_label() by {
            assert(part.contains(r[i]));
            let q = choose|q: int| 0 <= q < part.len() && part[q] == r[i];
            if q < rf.len() {
                assert(part[q] == rf[q]);
            } else {
                assert(part[q] == ef[q - rf.len()]);
            }
        }
    }
}


proof fn lemma_matching_rule_reported(
    rules: Seq<(Seq<char>, Seq<char>)>,
    vocab: Seq<Seq<char>>,
    path: Seq<char>,
    n: int,
    line: Seq<char>,
    j: int,
)
    requires
        0 <= j < rules.len(),
        rules[j].0 != mnemonic_label(),
        regex_first_match(rules[j].1, line) is Some,
    ensures
        rule_findings(rules, vocab, path, n, line).contains(
            Finding {
                file: path,
                line: n,
                rule: rules[j].0,
                snippet: crate::scanner::line_snippet(line),
            },
        ),
    decreases rules.len(),
{
    let f = Finding {
        file: path,
        line: n,
        rule: rules[j].0,
        snippet: crate::scanner::line_snippet(line),
    };
    let prev = rule_findings(rules.drop_last(), vocab, path, n, line);
    if j < rules.len() - 1 {
        assert(rules.drop_last()[j] == rules[j]);
        lemma_matching_rule_reported(rules.drop_last(), vocab, path, n, line, j);
        let q = choose|q: int| 0 <= q < prev.len() && prev[q] == f;
        let r = rule_findings(rules, vocab, path, n, line);
        assert(r == prev || r == prev.push(r.last()));
        assert(r[q] == f);
    } else {
        assert(rules.last() == rules[j]);
        let r = rule_findings(rules, vocab, path, n, line);
        assert(r == prev.push(f));
        assert(r[prev.len() as int] == f);
    }
}

proof fn lemma_rule_findings_in_scan(
    m: ScannerModel,
    path: Seq<char>,
    lines: Seq<Seq<char>>,
    labels: Seq<Option<Seq<char>>>,
    k: int,
    f: Finding,
)
    requires
        1 <= k <= lines.len(),
        rule_findings(m.rules, m.vocabulary, path, k, lines[k - 1]).contains(f),
    ensures
        lines_findings(m, path, lines, labels).contains(f),
    decreases lines.len(),
{
    let n = lines.len() as int;
    let skip = crate::entropy::skips_entropy(m.skip, path);
    let before = lines.drop_last();
    let a = lines_findings(m, path, before, labels);
    let b = rule_findings(m.rules, m.vocabulary, path, n, lines.last());
    let cands = if skip {
        Seq::empty()
    } else {
        line_candidates(lines.last())
    };
    let c = entropy_findings(path, n, cands, labels, lines_candidates(skip, before).len() as int);
    assert(lines_findings(m, path, lines, labels) == a + b + c);
    if k < n {
        assert(before[k - 1] == lines[k - 1]);
        lemma_rule_findings_in_scan(m, path, before, labels, k, f);
        let q = choose|q: int| 0 <= q < a.len() && a[q] == f;
        assert((a + b + c)[q] == f);
    } else {
        assert(lines.last() == lines[k - 1]);
        let q = choose|q: int| 0 <= q < b.len() && b[q] == f;
        assert((a + b + c)[a.len() + q] == f);
    }
}

/// A rule not labelled `BIP-39 Mnemonic` (such as `Ethereum Private Key`)
/// whose regex matches line `k` yields a finding on that line, with the
/// line's trimmed excerpt of at most 50 characters.
pub proof fn lemma_matching_rule_yields_finding(
    s: Scanner,
    path: Seq<char>,
    content: Seq<char>,
    labels: Seq<Option<Seq<char>>>,
    k: int,
    j: int,
)
    requires
        !ignores_path(s@.exclude, path),
        !env_sentinel(path),
        1 <= k <= crate::text::lines_of(content).len(),
        0 <= j < s@.rules.len(),
        s@.rules[j].0 != mnemonic_label(),
        regex_first_match(s@.rules[j].1, crate::text::lines_of(content)[k - 1]) is Some,
    ensures
        scan_model(s@, path, content, labels).contains(
            Finding {
                file: path,
                line: k,
                rule: s@.rules[j].0,
                snippet: crate::scanner::line_snippet(crate::text::lines_of(content)[k - 1]),
            },
        ),
{
    let lines = crate::text::lines_of(content);
    let f = Finding {
        file: path,
        line: k,
        rule: s@.rules[j].0,
        snippet: crate::scanner::line_snippet(lines[k - 1]),
    };
    lemma_matching_rule_reported(s@.rules, s@.vocabulary, path, k, lines[k - 1], j);
    lemma_rule_findings_in_scan(s@, path, lines, labels, k, f);
}

} // verus!
