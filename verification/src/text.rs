//! Tokenization: a text splits on runs of whitespace into chunks, and each
//! chunk normalizes to a word by keeping only its alphabetic characters and
//! lowercasing the remainder. A chunk with no alphabetic character still
//! yields a token, the empty word.

use vstd::prelude::*;
use crate::unicode::{
    char_is_alphabetic, char_is_whitespace, chars_to_string, is_alpha_char, is_ws_char, lower_of,
    str_chars, to_lowercase,
};

verus! {

/// The chunks of `s` once `cur` has been read as the start of a chunk:
/// a maximal run of non-whitespace characters forms a chunk, and whitespace
/// only separates.
pub open spec fn split_ws(s: Seq<char>, cur: Seq<char>) -> Seq<Seq<char>>
    decreases s.len(),
{
    if s.len() == 0 {
        if cur.len() == 0 {
            Seq::empty()
        } else {
            seq![cur]
        }
    } else if is_ws_char(s[0]) {
        if cur.len() == 0 {
            split_ws(s.drop_first(), Seq::empty())
        } else {
            seq![cur] + split_ws(s.drop_first(), Seq::empty())
        }
    } else {
        split_ws(s.drop_first(), cur.push(s[0]))
    }
}

/// The whitespace-delimited chunks of `s`: maximal runs of non-whitespace
/// characters, in order. Leading, trailing and repeated whitespace produce
/// no chunks.
pub open spec fn chunks_of(s: Seq<char>) -> Seq<Seq<char>> {
    split_ws(s, Seq::empty())
}

/// The alphabetic characters of `chunk`, in order.
pub open spec fn alpha_only(chunk: Seq<char>) -> Seq<char> {
    chunk.filter(|c: char| is_alpha_char(c))
}

/// The normalized word of a chunk: its alphabetic characters, lowercased.
pub open spec fn normalize(chunk: Seq<char>) -> Seq<char> {
    lower_of(alpha_only(chunk))
}

/// The normalized tokens of a text, one per whitespace-delimited chunk,
/// in chunk order.
pub open spec fn tokens_of(s: Seq<char>) -> Seq<Seq<char>> {
    chunks_of(s).map_values(|c: Seq<char>| normalize(c))
}

/// The views of a vector of words.
pub open spec fn views_of(toks: Seq<String>) -> Seq<Seq<char>> {
    toks.map_values(|t: String| t@)
}

/// A text has at most as many chunks as characters, since every chunk holds
/// at least one character.
proof fn lemma_split_ws_len(s: Seq<char>, cur: Seq<char>)
    ensures
        split_ws(s, cur).len() <= s.len() + if cur.len() == 0 { 0int } else { 1int },
    decreases s.len(),
{
    if s.len() == 0 {
    } else if is_ws_char(s[0]) {
        lemma_split_ws_len(s.drop_first(), Seq::empty());
    } else {
        lemma_split_ws_len(s.drop_first(), cur.push(s[0]));
    }
}

/// A text has at least as many characters as chunks.
pub proof fn lemma_chunks_len(s: Seq<char>)
    ensures
        chunks_of(s).len() <= s.len(),
{
    lemma_split_ws_len(s, Seq::empty());
}

/// The empty text has no chunks.
pub proof fn lemma_chunks_empty()
    ensures
        chunks_of(Seq::<char>::empty()) == Seq::<Seq<char>>::empty(),
{
}

/// Keeping the alphabetic characters commutes with appending one character.
proof fn lemma_alpha_only_push(s: Seq<char>, c: char)
    ensures
        alpha_only(s.push(c)) == if is_alpha_char(c) {
            alpha_only(s).push(c)
        } else {
            alpha_only(s)
        },
{
    reveal(Seq::filter);
    assert(s.push(c).drop_last() =~= s);
}

/// Normalizes one chunk: keeps the alphabetic characters and lowercases them.
fn normalize_chunk(chunk: &Vec<char>) -> (t: String)
    ensures
        t@ == normalize(chunk@),
{
    let mut kept: Vec<char> = Vec::new();
    let mut j: usize = 0;
    while j < chunk.len()
        invariant
            j <= chunk@.len(),
            kept@ == alpha_only(chunk@.take(j as int)),
        decreases chunk@.len() - j,
    {
        let c = chunk[j];
        proof {
            chunk@.lemma_take_succ_push(j as int);
            lemma_alpha_only_push(chunk@.take(j as int), c);
        }
        if char_is_alphabetic(c) {
            kept.push(c);
        }
        j += 1;
    }
    proof {
        chunk@.lemma_take_len();
    }
    let s = chars_to_string(&kept);
    to_lowercase(s.as_str())
}

/// Splits a text on whitespace and normalizes each chunk, yielding one token
/// per chunk, in order.
pub fn tokenize(text: &str) -> (toks: Vec<String>)
    ensures
        views_of(toks@) == tokens_of(text@),
        toks@.len() == chunks_of(text@).len(),
{
    let chars = str_chars(text);
    let n = chars.len();
    let mut toks: Vec<String> = Vec::new();
    let mut cur: Vec<char> = Vec::new();
    let ghost mut done: Seq<Seq<char>> = Seq::empty();
    let mut i: usize = 0;
    proof {
        assert(text@.skip(0) =~= text@);
        assert(Seq::<Seq<char>>::empty() + split_ws(text@, Seq::empty()) =~= split_ws(
            text@,
            Seq::empty(),
        ));
    }
    while i < n
        invariant
            i <= n,
            n == text@.len(),
            chars@ == text@,
            chunks_of(text@) == done + split_ws(text@.skip(i as int), cur@),
            views_of(toks@) == done.map_values(|c: Seq<char>| normalize(c)),
            toks@.len() == done.len(),
        decreases n - i,
    {
        let c = chars[i];
        proof {
            assert(text@.skip(i as int).len() == n - i);
            assert(text@.skip(i as int)[0] == text@[i as int]);
            assert(text@.skip(i as int).drop_first() =~= text@.skip(i as int + 1));
        }
        if char_is_whitespace(c) {
            if cur.len() > 0 {
                proof {
                    assert(split_ws(text@.skip(i as int), cur@) == seq![cur@] + split_ws(
                        text@.skip(i as int + 1),
                        Seq::empty(),
                    ));
                    assert(done + (seq![cur@] + split_ws(text@.skip(i as int + 1), Seq::empty()))
                        =~= (done + seq![cur@]) + split_ws(text@.skip(i as int + 1), Seq::empty()));
                }
                let t = normalize_chunk(&cur);
                toks.push(t);
                proof {
                    let ghost done2 = done + seq![cur@];
                    assert(done2.map_values(|c: Seq<char>| normalize(c)) =~= done.map_values(
                        |c: Seq<char>| normalize(c),
                    ).push(normalize(cur@)));
                    assert(views_of(toks@) =~= done2.map_values(|c: Seq<char>| normalize(c)));
                    done = done2;
                }
                cur = Vec::new();
            } else {
                proof {
                    assert(cur@ =~= Seq::<char>::empty());
                    assert(split_ws(text@.skip(i as int), cur@) == split_ws(
                        text@.skip(i as int + 1),
                        Seq::empty(),
                    ));
                }
            }
        } else {
            proof {
                assert(split_ws(text@.skip(i as int), cur@) == split_ws(
                    text@.skip(i as int + 1),
                    cur@.push(text@[i as int]),
                ));
            }
            cur.push(c);
        }
        i += 1;
    }
    proof {
        assert(text@.skip(n as int) =~= Seq::<char>::empty());
    }
    if cur.len() > 0 {
        let t = normalize_chunk(&cur);
        toks.push(t);
        proof {
            let done2 = done + seq![cur@];
            assert(done2.map_values(|c: Seq<char>| normalize(c)) =~= done.map_values(
                |c: Seq<char>| normalize(c),
            ).push(normalize(cur@)));
            assert(views_of(toks@) =~= views_of(toks@.drop_last()).push(t@));
            assert(chunks_of(text@) == done2);
            done = done2;
        }
    } else {
        proof {
            assert(chunks_of(text@) =~= done);
        }
    }
    proof {
        assert(views_of(toks@) =~= tokens_of(text@));
    }
    toks
}

} // verus!
