//! Which tokens of a line are handed to the entropy score, and which paths
//! are exempt from that scan.
use vstd::prelude::*;
use crate::text::{
    chars_of, contains, contains_chars, split_words, trim, trim_chars, views_of, words_of,
};

verus! {

/// Long tokens that contain one of these read as code, arrows, templates or
/// markup, and are not scored: `::`, `->`, `=>`, `${`, `</`.
pub open spec fn code_like(t: Seq<char>) -> bool {
    contains(t, "::"@) || contains(t, "->"@) || contains(t, "=>"@) || contains(t, "${"@)
        || contains(t, "</"@)
}

/// A trimmed token is scored when it is longer than 20 characters and does
/// not look like code.
pub open spec fn scored_token(t: Seq<char>) -> bool {
    t.len() > 20 && !code_like(t)
}

/// The words, trimmed of wrapping punctuation, that are scored, in order.
pub open spec fn candidates_in(words: Seq<Seq<char>>) -> Seq<Seq<char>>
    decreases words.len(),
{
    if words.len() == 0 {
        Seq::empty()
    } else {
        let prev = candidates_in(words.drop_last());
        let t = trim(words.last(), true);
        if scored_token(t) {
            prev.push(t)
        } else {
            prev
        }
    }
}

pub open spec fn line_candidates(line: Seq<char>) -> Seq<Seq<char>> {
    candidates_in(words_of(line))
}

/// A skip pattern without its leading `*` characters.
pub open spec fn strip_stars(p: Seq<char>) -> Seq<char>
    decreases p.len(),
{
    if p.len() > 0 && p[0] == '*' {
        strip_stars(p.drop_first())
    } else {
        p
    }
}

/// The path contains one of the skip patterns, leading `*` stripped.
pub open spec fn skips_entropy(skip: Seq<Seq<char>>, path: Seq<char>) -> bool {
    exists|i: int| 0 <= i < skip.len() && contains(path, strip_stars(#[trigger] skip[i]))
}

/// The tokens of a line that the entropy score is asked about.
pub fn entropy_tokens(line: &Vec<char>) -> (r: Vec<Vec<char>>)
    ensures
        views_of(r@) == line_candidates(line@),
{
    let ws = split_words(line);
    let ghost wv = views_of(ws@);
    let f1 = chars_of("::");
    let f2 = chars_of("->");
    let f3 = chars_of("=>");
    let f4 = chars_of("${");
    let f5 = chars_of("</");
    let mut r: Vec<Vec<char>> = Vec::new();
    let mut k: usize = 0;
    while k < ws.len()
        invariant
            k <= ws.len(),
            wv == views_of(ws@),
            wv == words_of(line@),
            f1@ == "::"@,
            f2@ == "->"@,
            f3@ == "=>"@,
            f4@ == "${"@,
            f5@ == "</"@,
            views_of(r@) == candidates_in(wv.take(k as int)),
        decreases ws.len() - k,
    {
        let t = trim_chars(&ws[k], true);
        assert(wv.take(k + 1).drop_last() =~= wv.take(k as int));
        if t.len() > 20 && !contains_chars(&t, &f1) && !contains_chars(&t, &f2) && !contains_chars(
            &t,
            &f3,
        ) && !contains_chars(&t, &f4) && !contains_chars(&t, &f5) {
            assert(views_of(r@.push(t)) =~= views_of(r@).push(t@));
            r.push(t);
        }
        k = k + 1;
    }
    assert(wv.take(k as int) =~= wv);
    r
}

fn strip_stars_exec(p: &Vec<char>) -> (r: Vec<char>)
    ensures
        r@ == strip_stars(p@),
{
    let mut a: usize = 0;
    assert(p@.skip(0) =~= p@);
    while a < p.len() && p[a] == '*'
        invariant
            a <= p.len(),
            strip_stars(p@.skip(a as int)) == strip_stars(p@),
        decreases p.len() - a,
    {
        assert(p@.skip(a as int).drop_first() =~= p@.skip(a + 1));
        a = a + 1;
    }
    let mut r: Vec<char> = Vec::new();
    let mut k: usize = a;
    while k < p.len()
        invariant
            a <= k <= p.len(),
            r@ == p@.subrange(a as int, k as int),
        decreases p.len() - k,
    {
        r.push(p[k]);
        k = k + 1;
        assert(r@ =~= p@.subrange(a as int, k as int));
    }
    assert(r@ =~= p@.skip(a as int));
    r
}

/// Decides `skips_entropy`.
pub fn path_skips_entropy(skip: &Vec<String>, path: &Vec<char>) -> (r: bool)
    ensures
        r == skips_entropy(skip.deep_view(), path@),
{
    let mut j: usize = 0;
    while j < skip.len()
        invariant
            j <= skip.len(),
            forall|i: int|
                0 <= i < j ==> !contains(path@, strip_stars(#[trigger] skip.deep_view()[i])),
        decreases skip.len() - j,
    {
        let p = strip_stars_exec(&chars_of(skip[j].as_str()));
        if contains_chars(path, &p) {
            assert(contains(path@, strip_stars(skip.deep_view()[j as int])));
            return true;
        }
        j = j + 1;
    }
    false
}


/// How often `c` occurs in `s`.
pub open spec fn occurrences(s: Seq<char>, c: char) -> nat
    decreases s.len(),
{
    if s.len() == 0 {
        0
    } else {
        occurrences(s.drop_last(), c) + if s.last() == c {
            1nat
        } else {
            0nat
        }
    }
}

/// `counts` lists each distinct character of `s` exactly once, with the
/// number of times it occurs there.
pub open spec fn is_census(s: Seq<char>, counts: Seq<(char, usize)>) -> bool {
    &&& forall|i: int| 0 <= i < counts.len() ==> (#[trigger] counts[i]).1 == occurrences(s, counts[i].0)
    &&& forall|i: int, j: int| 0 <= i < j < counts.len() ==> counts[i].0 != counts[j].0
    &&& forall|c: char| s.contains(c) <==> exists|i: int| 0 <= i < counts.len() && (#[trigger] counts[i]).0 == c
}

proof fn lemma_occurrences_bounded(s: Seq<char>, c: char)
    ensures
        occurrences(s, c) <= s.len(),
    decreases s.len(),
{
    if s.len() > 0 {
        lemma_occurrences_bounded(s.drop_last(), c);
    }
}

/// The character frequencies of a token, which its entropy is computed from.
pub fn char_counts(s: &str) -> (r: Vec<(char, usize)>)
    ensures
        is_census(s@, r@),
{
    let v = chars_of(s);
    let mut r: Vec<(char, usize)> = Vec::new();
    let mut i: usize = 0;
    assert(v@.take(0) =~= Seq::<char>::empty());
    while i < v.len()
        invariant
            i <= v.len(),
            v@ == s@,
            is_census(v@.take(i as int), r@),
        decreases v.len() - i,
    {
        let c = v[i];
        let ghost pre = v@.take(i as int);
        let ghost post = v@.take(i + 1);
        assert(post.drop_last() =~= pre);
        assert(post.last() == c);
        assert forall|x: char| post.contains(x) <==> (pre.contains(x) || x == c) by {
            if post.contains(x) {
                let k = choose|k: int| 0 <= k < post.len() && post[k] == x;
                if k < pre.len() {
                    assert(pre[k] == x);
                }
            }
            if pre.contains(x) {
                let k = choose|k: int| 0 <= k < pre.len() && pre[k] == x;
                assert(post[k] == x);
            }
            if x == c {
                assert(post[i as int] == x);
            }
        }
        let mut j: usize = 0;
        while j < r.len() && r[j].0 != c
            invariant
                j <= r.len(),
                forall|k: int| 0 <= k < j ==> r@[k].0 != c,
            decreases r.len() - j,
        {
            j = j + 1;
        }
        if j < r.len() {
            proof {
                lemma_occurrences_bounded(pre, c);
            }
            let n = r[j].1 + 1;
            let ghost old_r = r@;
            r.set(j, (c, n));
            assert forall|k: int| 0 <= k < r@.len() implies (#[trigger] r@[k]).1 == occurrences(
                post,
                r@[k].0,
            ) by {
                if k != j {
                    assert(r@[k] == old_r[k]);
                }
            }
            assert forall|x: char| post.contains(x) implies exists|k: int|
                0 <= k < r@.len() && (#[trigger] r@[k]).0 == x by {
                if pre.contains(x) {
                    let k = choose|k: int| 0 <= k < old_r.len() && (#[trigger] old_r[k]).0 == x;
                    assert(r@[k].0 == x);
                } else {
                    assert(r@[j as int].0 == x);
                }
            }
            assert forall|x: char| (exists|k: int| 0 <= k < r@.len() && (#[trigger] r@[k]).0 == x)
                implies post.contains(x) by {
                let k = choose|k: int| 0 <= k < r@.len() && (#[trigger] r@[k]).0 == x;
                if k != j {
                    assert(old_r[k].0 == x);
                }
            }
        } else {
            let ghost old_r = r@;
            assert(!pre.contains(c));
            assert(occurrences(pre, c) == 0) by {
                lemma_absent_no_occurrences(pre, c);
            }
            r.push((c, 1));
            assert forall|k: int| 0 <= k < r@.len() implies (#[trigger] r@[k]).1 == occurrences(
                post,
                r@[k].0,
            ) by {
                if k < old_r.len() {
                    assert(r@[k] == old_r[k]);
                }
            }
            assert forall|x: char| post.contains(x) implies exists|k: int|
                0 <= k < r@.len() && (#[trigger] r@[k]).0 == x by {
                if pre.contains(x) {
                    let k = choose|k: int| 0 <= k < old_r.len() && (#[trigger] old_r[k]).0 == x;
                    assert(r@[k].0 == x);
                } else {
                    assert(r@[old_r.len() as int].0 == x);
                }
            }
            assert forall|x: char| (exists|k: int| 0 <= k < r@.len() && (#[trigger] r@[k]).0 == x)
                implies post.contains(x) by {
                let k = choose|k: int| 0 <= k < r@.len() && (#[trigger] r@[k]).0 == x;
                if k < old_r.len() {
                    assert(old_r[k].0 == x);
                }
            }
        }
        i = i + 1;
    }
    assert(v@.take(i as int) =~= v@);
    r
}

proof fn lemma_absent_no_occurrences(s: Seq<char>, c: char)
    requires
        !s.contains(c),
    ensures
        occurrences(s, c) == 0,
    decreases s.len(),
{
    if s.len() > 0 {
        assert(s.drop_last().contains(c) ==> s.contains(c)) by {
            if s.drop_last().contains(c) {
                let k = choose|k: int| 0 <= k < s.drop_last().len() && s.drop_last()[k] == c;
                assert(s[k] == c);
            }
        }
        assert(s[s.len() - 1] != c);
        lemma_absent_no_occurrences(s.drop_last(), c);
    }
}

} // verus!
