//! The text work around git: adding the scan call to a pre-commit hook, and
//! reading the staged-file list that git prints.
use vstd::prelude::*;
use crate::text::{
    chars_of, concat_chars, contains, contains_chars, slice_chars, lines_of, split_lines, starts_with, starts_with_chars,
    string_of, trim, trim_chars, views_of,
};

verus! {

/// The shell text added to a pre-commit hook.
pub const HOOK_SCRIPT: &'static str = "
# Ward - Local-First Git Guard
# This hook was automatically installed by Ward.
if command -v ward >/dev/null 2>&1; then
    ward scan
else
    # Fallback to local npx if global command not found
    if [ -f \"node_modules/.bin/ward\" ]; then
        ./node_modules/.bin/ward scan
    # Check if npx is available and try running via npx
    elif command -v npx >/dev/null 2>&1; then
        npx -y git-ward scan
    else
        echo \"Ward not found in path or node_modules. Skipping scan.\"
    fi
fi
";

/// `i` is the position of the first line feed of `s`.
pub open spec fn first_newline(s: Seq<char>, i: int) -> bool {
    0 <= i < s.len() && s[i] == '\n' && forall|k: int| 0 <= k < i ==> s[k] != '\n'
}

/// The hook text with the scan call added, or `None` when it already runs
/// `ward scan`. A script with a shebang gets the call right after its first
/// line; one without gets a `#!/bin/sh` line and the call in front.
pub open spec fn hook_with_scan(existing: Seq<char>) -> Option<Seq<char>> {
    if contains(existing, "ward scan"@) {
        None
    } else if starts_with(existing, "#!"@) {
        if exists|i: int| first_newline(existing, i) {
            let i = choose|i: int| first_newline(existing, i);
            Some(existing.take(i + 1) + HOOK_SCRIPT@ + existing.skip(i + 1))
        } else {
            Some(existing + HOOK_SCRIPT@)
        }
    } else {
        Some("#!/bin/sh\n"@ + HOOK_SCRIPT@ + existing)
    }
}

proof fn lemma_first_newline_unique(s: Seq<char>, i: int, j: int)
    requires
        first_newline(s, i),
        first_newline(s, j),
    ensures
        i == j,
{
    if i < j {
        assert(s[i] != '\n');
    } else if j < i {
        assert(s[j] != '\n');
    }
}

/// Adds the scan call to a pre-commit hook's text, unless it is there.
pub fn install_into_hook(existing: &str) -> (r: Option<String>)
    ensures
        r matches Some(t) ==> hook_with_scan(existing@) == Some(t@),
        r is None <==> hook_with_scan(existing@) is None,
{
    let e = chars_of(existing);
    if contains_chars(&e, &chars_of("ward scan")) {
        return None;
    }
    let script = chars_of(HOOK_SCRIPT);
    if starts_with_chars(&e, &chars_of("#!")) {
        let mut i: usize = 0;
        while i < e.len() && e[i] != '\n'
            invariant
                i <= e.len(),
                forall|k: int| 0 <= k < i ==> e@[k] != '\n',
            decreases e.len() - i,
        {
            i = i + 1;
        }
        if i < e.len() {
            assert(first_newline(e@, i as int));
            assert forall|j: int| first_newline(e@, j) implies j == i by {
                lemma_first_newline_unique(e@, i as int, j);
            }
            let head = concat_chars(&slice_chars(&e, 0, i + 1), &script);
            let all = concat_chars(&head, &slice_chars(&e, i + 1, e.len()));
            assert(e@.subrange(0, i + 1) =~= e@.take(i + 1));
            assert(e@.subrange(i + 1, e@.len() as int) =~= e@.skip(i + 1));
            Some(string_of(&all))
        } else {
            assert forall|j: int| !first_newline(e@, j) by {
                if 0 <= j < e@.len() {
                    assert(e@[j] != '\n');
                }
            }
            Some(string_of(&concat_chars(&e, &script)))
        }
    } else {
        let head = concat_chars(&chars_of("#!/bin/sh\n"), &script);
        Some(string_of(&concat_chars(&head, &e)))
    }
}

/// The paths of `git diff --name-only` output: its lines, trimmed.
pub open spec fn listed_paths(lines: Seq<Seq<char>>) -> Seq<Seq<char>> {
    lines.map_values(|l: Seq<char>| trim(l, false))
}

/// Reads the staged-file list that git printed, one path per line.
pub fn staged_paths(output: &str) -> (r: Vec<String>)
    ensures
        r.deep_view() == listed_paths(lines_of(output@)),
{
    let lines = split_lines(&chars_of(output));
    let ghost lv = views_of(lines@);
    let mut r: Vec<String> = Vec::new();
    let mut k: usize = 0;
    while k < lines.len()
        invariant
            k <= lines.len(),
            lv == views_of(lines@),
            r.deep_view() == listed_paths(lv.take(k as int)),
        decreases lines.len() - k,
    {
        let ghost prev = r.deep_view();
        let p = string_of(&trim_chars(&lines[k], false));
        assert(lv[k as int] == lines@[k as int]@);
        r.push(p);
        assert(r.deep_view() =~= prev.push(p@));
        assert(listed_paths(lv.take(k + 1)) =~= listed_paths(lv.take(k as int)).push(
            trim(lv[k as int], false),
        ));
        k = k + 1;
    }
    assert(lv.take(k as int) =~= lv);
    r
}

} // verus!
