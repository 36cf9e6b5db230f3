//! How a finding's excerpt is shown to a person.
use vstd::prelude::*;
use crate::text::{chars_of, concat_chars, slice_chars, string_of};

verus! {

/// An excerpt as displayed: its first and last four characters around
/// `...` when it is longer than eight characters, else `[REDACTED]`.
pub open spec fn masked(snippet: Seq<char>) -> Seq<char> {
    if snippet.len() <= 8 {
        "[REDACTED]"@
    } else {
        snippet.take(4) + "..."@ + snippet.skip(snippet.len() - 4)
    }
}

/// Masks an excerpt for display.
pub fn mask_snippet(snippet: &str) -> (r: String)
    ensures
        r@ == masked(snippet@),
{
    let s = chars_of(snippet);
    if s.len() <= 8 {
        "[REDACTED]".to_owned()
    } else {
        let head = concat_chars(&slice_chars(&s, 0, 4), &chars_of("..."));
        let all = concat_chars(&head, &slice_chars(&s, s.len() - 4, s.len()));
        assert(s@.subrange(0, 4) =~= s@.take(4));
        assert(s@.subrange(s@.len() - 4, s@.len() as int) =~= s@.skip(s@.len() - 4));
        string_of(&all)
    }
}

} // verus!
