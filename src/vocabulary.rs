//! The mnemonic word list and the check that a candidate phrase is drawn
//! from it.
use vstd::prelude::*;
use crate::external::{lower_of, lowercase};
use crate::text::{chars_of, lines_of, split_lines, split_words, string_of, trim, trim_chars, views_of, words_of};

verus! {

/// The entries of a word list text: each line trimmed of whitespace and
/// lowercased, empty entries left out, in order.
pub open spec fn entries_of(lines: Seq<Seq<char>>) -> Seq<Seq<char>>
    decreases lines.len(),
{
    if lines.len() == 0 {
        Seq::empty()
    } else {
        let prev = entries_of(lines.drop_last());
        let w = lower_of(trim(lines.last(), false));
        if w.len() > 0 {
            prev.push(w)
        } else {
            prev
        }
    }
}

pub open spec fn vocabulary_of(wordlist: Seq<char>) -> Seq<Seq<char>> {
    entries_of(lines_of(wordlist))
}

/// How many of `words`, lowercased, are entries of `vocab`.
pub open spec fn known_count(vocab: Seq<Seq<char>>, words: Seq<Seq<char>>) -> nat
    decreases words.len(),
{
    if words.len() == 0 {
        0
    } else {
        known_count(vocab, words.drop_last()) + if vocab.contains(lower_of(words.last())) {
            1nat
        } else {
            0nat
        }
    }
}

/// At least nine tenths of the whitespace-separated words of `phrase` are
/// in `vocab`, in integer arithmetic.
pub open spec fn mnemonic_confirmed(vocab: Seq<Seq<char>>, phrase: Seq<char>) -> bool {
    let ws = words_of(phrase);
    known_count(vocab, ws) * 10 >= ws.len() * 9
}

/// Reads a word list, one word per line.
pub fn load_vocabulary(wordlist: &str) -> (r: Vec<String>)
    ensures
        r.deep_view() == vocabulary_of(wordlist@),
{
    let lines = split_lines(&chars_of(wordlist));
    let ghost ls = views_of(lines@);
    let mut r: Vec<String> = Vec::new();
    let mut k: usize = 0;
    while k < lines.len()
        invariant
            k <= lines.len(),
            ls == views_of(lines@),
            ls == lines_of(wordlist@),
            r.deep_view() == entries_of(ls.take(k as int)),
        decreases lines.len() - k,
    {
        let t = string_of(&trim_chars(&lines[k], false));
        let w = lowercase(t.as_str());
        assert(ls.take(k + 1).drop_last() =~= ls.take(k as int));
        if w.as_str().is_empty() {
        } else {
            r.push(w);
            assert(r.deep_view() =~= entries_of(ls.take(k + 1)));
        }
        k = k + 1;
    }
    assert(ls.take(k as int) =~= ls);
    r
}

/// Whether `w` is an entry of `vocab`.
pub fn is_known(vocab: &Vec<String>, w: &String) -> (r: bool)
    ensures
        r == vocab.deep_view().contains(w@),
{
    let mut j: usize = 0;
    while j < vocab.len()
        invariant
            j <= vocab.len(),
            forall|i: int| 0 <= i < j ==> vocab.deep_view()[i] != w@,
        decreases vocab.len() - j,
    {
        if vocab[j] == *w {
            assert(vocab.deep_view()[j as int] == w@);
            return true;
        }
        j = j + 1;
    }
    false
}

/// Decides `mnemonic_confirmed` for a candidate phrase.
pub fn confirms_mnemonic(vocab: &Vec<String>, phrase: &String) -> (r: bool)
    ensures
        r == mnemonic_confirmed(vocab.deep_view(), phrase@),
{
    let ws = split_words(&chars_of(phrase.as_str()));
    let ghost wv = views_of(ws@);
    let mut hits: usize = 0;
    let mut k: usize = 0;
    while k < ws.len()
        invariant
            k <= ws.len(),
            wv == views_of(ws@),
            hits <= k,
            hits == known_count(vocab.deep_view(), wv.take(k as int)),
        decreases ws.len() - k,
    {
        let w = string_of(&ws[k]);
        let lw = lowercase(w.as_str());
        assert(wv.take(k + 1).drop_last() =~= wv.take(k as int));
        if is_known(vocab, &lw) {
            hits = hits + 1;
        }
        k = k + 1;
    }
    assert(wv.take(k as int) =~= wv);
    (hits as u128) * 10 >= (ws.len() as u128) * 9
}

} // verus!
