//! Unicode facts the analytics engine depends on: character classification,
//! lowercasing, and grapheme-cluster counting. The classifications themselves
//! are large tables, so each outside result is given a name that the rest of
//! the library reasons about.

use vstd::prelude::*;
use vstd::string::StrSliceExecFns;
use unicode_segmentation::UnicodeSegmentation;

verus! {

/// The sequence of characters that `str::to_lowercase` produces for `s`;
/// it is a function of the characters of `s` alone.
pub uninterp spec fn lower_of(s: Seq<char>) -> Seq<char>;

/// Whether `c` has the Unicode White_Space property, as `char::is_whitespace`
/// decides it.
pub uninterp spec fn is_ws_char(c: char) -> bool;

/// Whether `c` has the Unicode Alphabetic property, as `char::is_alphabetic`
/// decides it.
pub uninterp spec fn is_alpha_char(c: char) -> bool;

/// The number of extended grapheme clusters in the string whose characters
/// are `s`, as `unicode_segmentation` counts them.
pub uninterp spec fn grapheme_len_of(s: Seq<char>) -> nat;

/// Relies on `char::is_whitespace`: true exactly on characters with the
/// Unicode White_Space property, a function of the character alone.
#[verifier::external_body]
pub(crate) fn char_is_whitespace(c: char) -> (r: bool)
    ensures
        r == is_ws_char(c),
{
    c.is_whitespace()
}

/// Relies on `char::is_alphabetic`: true exactly on characters with the
/// Unicode Alphabetic property, a function of the character alone.
#[verifier::external_body]
pub(crate) fn char_is_alphabetic(c: char) -> (r: bool)
    ensures
        r == is_alpha_char(c),
{
    c.is_alphabetic()
}

/// Relies on `str::to_lowercase`: the result is a function of the characters
/// alone, and lowercasing the empty string yields the empty string.
#[verifier::external_body]
pub(crate) fn to_lowercase(s: &str) -> (r: String)
    ensures
        r@ == lower_of(s@),
        s@.len() == 0 ==> r@.len() == 0,
{
    s.to_lowercase()
}

/// Relies on `String: FromIterator<char>`: collecting characters yields the
/// string of exactly those characters, in order.
#[verifier::external_body]
pub(crate) fn chars_to_string(v: &Vec<char>) -> (r: String)
    ensures
        r@ == v@,
{
    v.iter().collect()
}

/// Relies on `UnicodeSegmentation::graphemes` (extended grapheme clusters):
/// the count is a function of the characters alone, and every cluster holds
/// at least one character, so the count never exceeds the character count.
#[verifier::external_body]
pub(crate) fn grapheme_count(s: &str) -> (r: usize)
    ensures
        r as nat == grapheme_len_of(s@),
        r <= s@.len(),
{
    s.graphemes(true).count()
}

/// Collects the characters of `s` into a vector.
pub(crate) fn str_chars(s: &str) -> (v: Vec<char>)
    ensures
        v@ == s@,
{
    let n = s.unicode_len();
    let mut v: Vec<char> = Vec::new();
    let mut i: usize = 0;
    while i < n
        invariant
            i <= n,
            v@ == s@.take(i as int),
        decreases n - i,
    {
        let c = s.get_char(i);
        proof {
            s@.lemma_take_succ_push(i as int);
        }
        v.push(c);
        i += 1;
    }
    proof {
        s@.lemma_take_len();
    }
    v
}

} // verus!
