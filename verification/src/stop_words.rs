//! The stopword predicate: a fixed set of English function words (articles,
//! conjunctions, prepositions, pronouns, auxiliaries) matched exactly after
//! lowercasing. The empty word counts as a stopword, so the artifact token of
//! a chunk with no alphabetic character never enters the ranking.

use vstd::prelude::*;
use crate::unicode::{lower_of, to_lowercase};

verus! {

/// Whether `w` is one of the listed stopwords (already lowercased).
pub open spec fn in_stop_list(w: Seq<char>) -> bool {
    ||| w == ""@
    ||| w == "a"@
    ||| w == "about"@
    ||| w == "above"@
    ||| w == "after"@
    ||| w == "again"@
    ||| w == "against"@
    ||| w == "all"@
    ||| w == "am"@
    ||| w == "an"@
    ||| w == "and"@
    ||| w == "any"@
    ||| w == "are"@
    ||| w == "as"@
    ||| w == "at"@
    ||| w == "be"@
    ||| w == "because"@
    ||| w == "been"@
    ||| w == "before"@
    ||| w == "being"@
    ||| w == "below"@
    ||| w == "between"@
    ||| w == "both"@
    ||| w == "but"@
    ||| w == "by"@
    ||| w == "could"@
    ||| w == "did"@
    ||| w == "do"@
    ||| w == "does"@
    ||| w == "doing"@
    ||| w == "down"@
    ||| w == "during"@
    ||| w == "each"@
    ||| w == "few"@
    ||| w == "for"@
    ||| w == "from"@
    ||| w == "further"@
    ||| w == "had"@
    ||| w == "has"@
    ||| w == "have"@
    ||| w == "having"@
    ||| w == "he"@
    ||| w == "her"@
    ||| w == "here"@
    ||| w == "hers"@
    ||| w == "herself"@
    ||| w == "him"@
    ||| w == "himself"@
    ||| w == "his"@
    ||| w == "how"@
    ||| w == "i"@
    ||| w == "if"@
    ||| w == "in"@
    ||| w == "into"@
    ||| w == "is"@
    ||| w == "it"@
    ||| w == "its"@
    ||| w == "itself"@
    ||| w == "just"@
    ||| w == "me"@
    ||| w == "more"@
    ||| w == "most"@
    ||| w == "my"@
    ||| w == "myself"@
    ||| w == "no"@
    ||| w == "nor"@
    ||| w == "not"@
    ||| w == "now"@
    ||| w == "of"@
    ||| w == "off"@
    ||| w == "on"@
    ||| w == "once"@
    ||| w == "only"@
    ||| w == "or"@
    ||| w == "other"@
    ||| w == "our"@
    ||| w == "ours"@
    ||| w == "ourselves"@
    ||| w == "out"@
    ||| w == "over"@
    ||| w == "own"@
    ||| w == "same"@
    ||| w == "she"@
    ||| w == "should"@
    ||| w == "so"@
    ||| w == "some"@
    ||| w == "such"@
    ||| w == "than"@
    ||| w == "that"@
    ||| w == "the"@
    ||| w == "their"@
    ||| w == "theirs"@
    ||| w == "them"@
    ||| w == "themselves"@
    ||| w == "then"@
    ||| w == "there"@
    ||| w == "these"@
    ||| w == "they"@
    ||| w == "this"@
    ||| w == "those"@
    ||| w == "through"@
    ||| w == "to"@
    ||| w == "too"@
    ||| w == "under"@
    ||| w == "until"@
    ||| w == "up"@
    ||| w == "very"@
    ||| w == "was"@
    ||| w == "we"@
    ||| w == "were"@
    ||| w == "what"@
    ||| w == "when"@
    ||| w == "where"@
    ||| w == "which"@
    ||| w == "while"@
    ||| w == "who"@
    ||| w == "whom"@
    ||| w == "why"@
    ||| w == "will"@
    ||| w == "with"@
    ||| w == "would"@
    ||| w == "you"@
    ||| w == "your"@
    ||| w == "yours"@
    ||| w == "yourself"@
    ||| w == "yourselves"@
}

/// Whether `w` is a stopword: its lowercase form is in the fixed list.
pub open spec fn is_stopword_spec(w: Seq<char>) -> bool {
    in_stop_list(lower_of(w))
}

/// Compares a word with a fixed spelling, character for character.
fn eq_lit(s: &String, lit: &str) -> (r: bool)
    ensures
        r == (s@ == lit@),
{
    let other: String = lit.to_owned();
    *s == other
}

/// Decides whether `word` is a stopword. The test lowercases first, so it is
/// case-insensitive; the empty word always passes it.
pub fn is_stopword(word: &str) -> (r: bool)
    ensures
        r == is_stopword_spec(word@),
        word@.len() == 0 ==> r,
{
    let lw = to_lowercase(word);
    proof {
        if word@.len() == 0 {
            reveal_strlit("");
            assert(lw@ =~= ""@);
        }
    }
    eq_lit(&lw, "")
        || eq_lit(&lw, "a")
        || eq_lit(&lw, "about")
        || eq_lit(&lw, "above")
        || eq_lit(&lw, "after")
        || eq_lit(&lw, "again")
        || eq_lit(&lw, "against")
        || eq_lit(&lw, "all")
        || eq_lit(&lw, "am")
        || eq_lit(&lw, "an")
        || eq_lit(&lw, "and")
        || eq_lit(&lw, "any")
        || eq_lit(&lw, "are")
        || eq_lit(&lw, "as")
        || eq_lit(&lw, "at")
        || eq_lit(&lw, "be")
        || eq_lit(&lw, "because")
        || eq_lit(&lw, "been")
        || eq_lit(&lw, "before")
        || eq_lit(&lw, "being")
        || eq_lit(&lw, "below")
        || eq_lit(&lw, "between")
        || eq_lit(&lw, "both")
        || eq_lit(&lw, "but")
        || eq_lit(&lw, "by")
        || eq_lit(&lw, "could")
        || eq_lit(&lw, "did")
        || eq_lit(&lw, "do")
        || eq_lit(&lw, "does")
        || eq_lit(&lw, "doing")
        || eq_lit(&lw, "down")
        || eq_lit(&lw, "during")
        || eq_lit(&lw, "each")
        || eq_lit(&lw, "few")
        || eq_lit(&lw, "for")
        || eq_lit(&lw, "from")
        || eq_lit(&lw, "further")
        || eq_lit(&lw, "had")
        || eq_lit(&lw, "has")
        || eq_lit(&lw, "have")
        || eq_lit(&lw, "having")
        || eq_lit(&lw, "he")
        || eq_lit(&lw, "her")
        || eq_lit(&lw, "here")
        || eq_lit(&lw, "hers")
        || eq_lit(&lw, "herself")
        || eq_lit(&lw, "him")
        || eq_lit(&lw, "himself")
        || eq_lit(&lw, "his")
        || eq_lit(&lw, "how")
        || eq_lit(&lw, "i")
        || eq_lit(&lw, "if")
        || eq_lit(&lw, "in")
        || eq_lit(&lw, "into")
        || eq_lit(&lw, "is")
        || eq_lit(&lw, "it")
        || eq_lit(&lw, "its")
        || eq_lit(&lw, "itself")
        || eq_lit(&lw, "just")
        || eq_lit(&lw, "me")
        || eq_lit(&lw, "more")
        || eq_lit(&lw, "most")
        || eq_lit(&lw, "my")
        || eq_lit(&lw, "myself")
        || eq_lit(&lw, "no")
        || eq_lit(&lw, "nor")
        || eq_lit(&lw, "not")
        || eq_lit(&lw, "now")
        || eq_lit(&lw, "of")
        || eq_lit(&lw, "off")
        || eq_lit(&lw, "on")
        || eq_lit(&lw, "once")
        || eq_lit(&lw, "only")
        || eq_lit(&lw, "or")
        || eq_lit(&lw, "other")
        || eq_lit(&lw, "our")
        || eq_lit(&lw, "ours")
        || eq_lit(&lw, "ourselves")
        || eq_lit(&lw, "out")
        || eq_lit(&lw, "over")
        || eq_lit(&lw, "own")
        || eq_lit(&lw, "same")
        || eq_lit(&lw, "she")
        || eq_lit(&lw, "should")
        || eq_lit(&lw, "so")
        || eq_lit(&lw, "some")
        || eq_lit(&lw, "such")
        || eq_lit(&lw, "than")
        || eq_lit(&lw, "that")
        || eq_lit(&lw, "the")
        || eq_lit(&lw, "their")
        || eq_lit(&lw, "theirs")
        || eq_lit(&lw, "them")
        || eq_lit(&lw, "themselves")
        || eq_lit(&lw, "then")
        || eq_lit(&lw, "there")
        || eq_lit(&lw, "these")
        || eq_lit(&lw, "they")
        || eq_lit(&lw, "this")
        || eq_lit(&lw, "those")
        || eq_lit(&lw, "through")
        || eq_lit(&lw, "to")
        || eq_lit(&lw, "too")
        || eq_lit(&lw, "under")
        || eq_lit(&lw, "until")
        || eq_lit(&lw, "up")
        || eq_lit(&lw, "very")
        || eq_lit(&lw, "was")
        || eq_lit(&lw, "we")
        || eq_lit(&lw, "were")
        || eq_lit(&lw, "what")
        || eq_lit(&lw, "when")
        || eq_lit(&lw, "where")
        || eq_lit(&lw, "which")
        || eq_lit(&lw, "while")
        || eq_lit(&lw, "who")
        || eq_lit(&lw, "whom")
        || eq_lit(&lw, "why")
        || eq_lit(&lw, "will")
        || eq_lit(&lw, "with")
        || eq_lit(&lw, "would")
        || eq_lit(&lw, "you")
        || eq_lit(&lw, "your")
        || eq_lit(&lw, "yours")
        || eq_lit(&lw, "yourself")
        || eq_lit(&lw, "yourselves")
}

} // verus!
