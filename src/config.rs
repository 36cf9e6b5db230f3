//! The resolved configuration the engine is built from.
use vstd::prelude::*;
use crate::text::{chars_of, lines_of, split_lines, string_of, trim, trim_chars, views_of};

verus! {

/// A user-defined signature: a label and the pattern text of its regex.
#[derive(Debug, Clone)]
pub struct CustomRule {
    pub name: String,
    pub regex: String,
}

/// Path exclusions (gitignore lines), path fragments exempt from the entropy
/// scan (a leading `*` is ignored), and custom signatures in order.
#[derive(Debug, Clone)]
pub struct Config {
    pub exclude: Vec<String>,
    pub skip_entropy_checks: Vec<String>,
    pub rules: Vec<CustomRule>,
}

impl Default for Config {
    /// Lock files excluded, minified scripts and SVG exempt from the entropy
    /// scan, no custom rule.
    fn default() -> (r: Config)
        ensures
            r.exclude.deep_view() == seq!["*.lock"@, "package-lock.json"@, "yarn.lock"@],
            r.skip_entropy_checks.deep_view() == seq!["*.min.js"@, "*.svg"@],
            r.rules@.len() == 0,
    {
        let mut exclude: Vec<String> = Vec::new();
        exclude.push("*.lock".to_owned());
        exclude.push("package-lock.json".to_owned());
        exclude.push("yarn.lock".to_owned());
        let mut skip_entropy_checks: Vec<String> = Vec::new();
        skip_entropy_checks.push("*.min.js".to_owned());
        skip_entropy_checks.push("*.svg".to_owned());
        let r = Config { exclude, skip_entropy_checks, rules: Vec::new() };
        assert(r.exclude.deep_view() =~= seq!["*.lock"@, "package-lock.json"@, "yarn.lock"@]);
        assert(r.skip_entropy_checks.deep_view() =~= seq!["*.min.js"@, "*.svg"@]);
        r
    }
}

/// The (label, pattern text) pairs of the custom rules, in order.
pub open spec fn rule_pairs(rules: Seq<CustomRule>) -> Seq<(Seq<char>, Seq<char>)> {
    rules.map_values(|r: CustomRule| (r.name@, r.regex@))
}


/// The exclusion entries of an ignore file: its lines trimmed of whitespace,
/// without empty lines and `#` comments, in order.
pub open spec fn ignore_entries(lines: Seq<Seq<char>>) -> Seq<Seq<char>>
    decreases lines.len(),
{
    if lines.len() == 0 {
        Seq::empty()
    } else {
        let prev = ignore_entries(lines.drop_last());
        let t = trim(lines.last(), false);
        if t.len() > 0 && t[0] != '#' {
            prev.push(t)
        } else {
            prev
        }
    }
}

impl Config {
    /// Appends the entries of an ignore file's text to the exclusions.
    pub fn add_ignore_file(&mut self, content: &str)
        ensures
            final(self).exclude.deep_view() == old(self).exclude.deep_view() + ignore_entries(
                lines_of(content@),
            ),
            final(self).skip_entropy_checks == old(self).skip_entropy_checks,
            final(self).rules == old(self).rules,
    {
        let lines = split_lines(&chars_of(content));
        let ghost lv = views_of(lines@);
        let ghost start = self.exclude.deep_view();
        let mut k: usize = 0;
        assert(start + lv.take(0).take(0) =~= start);
        assert(lv.take(0) =~= Seq::<Seq<char>>::empty());
        while k < lines.len()
            invariant
                k <= lines.len(),
                lv == views_of(lines@),
                self.exclude.deep_view() == start + ignore_entries(lv.take(k as int)),
                self.skip_entropy_checks == old(self).skip_entropy_checks,
                self.rules == old(self).rules,
            decreases lines.len() - k,
        {
            assert(lv.take(k + 1).drop_last() =~= lv.take(k as int));
            assert(lv.take(k + 1).last() == lv[k as int]);
            let t = trim_chars(&lines[k], false);
            if t.len() > 0 && t[0] != '#' {
                let ghost prev = self.exclude.deep_view();
                let e = string_of(&t);
                self.exclude.push(e);
                assert(self.exclude.deep_view() =~= prev.push(e@));
            }
            k = k + 1;
        }
        assert(lv.take(k as int) =~= lv);
    }
}

} // verus!
