//! The calls this library makes into `regex`, `ignore` and std's case
//! mapping, each with the contract the library relies on.
use vstd::prelude::*;
use ignore::gitignore::{Gitignore, GitignoreBuilder};
use regex::Regex;

verus! {

#[verifier::external_type_specification]
#[verifier::external_body]
pub struct ExRegex(Regex);

#[verifier::external_type_specification]
#[verifier::external_body]
pub struct ExGitignore(Gitignore);

/// The pattern text a compiled regex was built from (`Regex::as_str`).
pub uninterp spec fn regex_source(re: Regex) -> Seq<char>;

/// Whether `Regex::new` accepts the pattern text.
pub uninterp spec fn regex_compiles(pattern: Seq<char>) -> bool;

/// The text of the leftmost-first match of the pattern in the haystack,
/// as `Regex::find` reports it.
pub uninterp spec fn regex_first_match(pattern: Seq<char>, haystack: Seq<char>) -> Option<Seq<char>>;

/// Whether a matcher built from these lines (lines that fail to parse left
/// out, no glob at all if the set fails to build) reports the path, or one
/// of its parent directories, as ignored.
pub uninterp spec fn ignores_path(lines: Seq<Seq<char>>, path: Seq<char>) -> bool;

/// The lowercase mapping of a string, as `str::to_lowercase` gives it.
pub uninterp spec fn lower_of(s: Seq<char>) -> Seq<char>;

/// Relies on `regex::Regex::new`: `Ok` exactly for the patterns it accepts,
/// and the regex keeps its pattern text (`Regex::as_str`).
#[verifier::external_body]
pub(crate) fn compile_regex(pattern: &str) -> (r: Option<Regex>)
    ensures
        r is Some <==> regex_compiles(pattern@),
        r matches Some(re) ==> regex_source(re) == pattern@,
{
    Regex::new(pattern).ok()
}

/// Relies on `regex::Regex::find` and `regex::Match::as_str`: the text of
/// the leftmost-first match, if any.
#[verifier::external_body]
pub(crate) fn find_first(re: &Regex, haystack: &str) -> (r: Option<String>)
    ensures
        r is None <==> regex_first_match(regex_source(*re), haystack@) is None,
        r matches Some(m) ==> regex_first_match(regex_source(*re), haystack@) == Some(m@),
{
    re.find(haystack).map(|m| m.as_str().to_string())
}

/// Gitignore-style exclusion lines, kept as given, beside the matcher that
/// was built from exactly those lines.
pub struct Exclusions {
    lines: Vec<String>,
    matcher: Gitignore,
}

impl View for Exclusions {
    type V = Seq<Seq<char>>;

    closed spec fn view(&self) -> Seq<Seq<char>> {
        self.lines.deep_view()
    }
}

/// Relies on `GitignoreBuilder::new`, `add_line` for each line in order,
/// and `build` (or `Gitignore::empty` when the build fails): the matcher is
/// made from the given lines alone.
#[verifier::external_body]
pub(crate) fn exclusions_from(lines: &Vec<String>) -> (r: Exclusions)
    ensures
        r@ == lines.deep_view(),
{
    let mut b = GitignoreBuilder::new("");
    for line in lines.iter() {
        let _ = b.add_line(None, line);
    }
    let matcher = match b.build() {
        Ok(g) => g,
        Err(_) => Gitignore::empty(),
    };
    Exclusions { lines: lines.clone(), matcher }
}

/// A repository-relative path: no leading `/`, also after one leading `./`
/// is removed. `Gitignore::matched_path_or_any_parents` strips a leading
/// `./` and then one `/` from a path holding a `/`, and panics if what is
/// left has a root; on these paths nothing is left with a root.
pub open spec fn relative_path(p: Seq<char>) -> bool {
    !(p.len() > 0 && p[0] == '/') && !(p.len() > 2 && p[0] == '.' && p[1] == '/' && p[2] == '/')
}

/// Relies on `Gitignore::matched_path_or_any_parents` and `Match::is_ignore`.
#[verifier::external_body]
pub(crate) fn is_ignored(e: &Exclusions, path: &str) -> (r: bool)
    requires
        relative_path(path@),
    ensures
        r == ignores_path(e@, path@),
{
    e.matcher.matched_path_or_any_parents(path, false).is_ignore()
}

/// Relies on `str::to_lowercase`.
#[verifier::external_body]
pub(crate) fn lowercase(s: &str) -> (r: String)
    ensures
        r@ == lower_of(s@),
{
    s.to_lowercase()
}

} // verus!
