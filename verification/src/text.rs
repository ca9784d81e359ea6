//! Strings as sequences of characters, and contracts for the few string
//! operations of the standard library that the crate calls and that `vstd`
//! leaves unspecified. Of those contracts nothing is proved: each states what
//! the standard library documents.

use vstd::prelude::*;

verus! {

/// The strings of `v`, each as the sequence of its characters.
pub open spec fn texts(v: Seq<String>) -> Seq<Seq<char>> {
    Seq::new(v.len(), |i: int| v[i]@)
}

/// `String::push` appends the given character to the end of the string and
/// leaves the characters before it as they were.
pub assume_specification[ String::push ](s: &mut String, ch: char)
    ensures
        final(s)@ == old(s)@.push(ch),
;

/// The lowercase equivalent of `s` by the rules of Unicode, which is what
/// `str::to_lowercase` returns. The rules fill tables; they are not restated
/// here.
pub uninterp spec fn lowercase(s: Seq<char>) -> Seq<char>;

/// `str::to_lowercase` returns the lowercase equivalent of the string as a
/// new `String`. The result depends on the characters alone.
pub assume_specification[ str::to_lowercase ](s: &str) -> (lower: String)
    ensures
        lower@ == lowercase(s@),
;

} // verus!
