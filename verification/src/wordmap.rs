//! The word map: an association list from normalized words to occurrence
//! counts, with unique keys. Its contents are characterized against the token
//! sequence of the source text: every token's word is present, with the number
//! of tokens that carry it as its count.

use vstd::prelude::*;
use vstd::multiset::Multiset;
use crate::unicode::grapheme_len_of;

verus! {

/// The count stored for word `w`: the count of the first entry whose word is
/// `w`, if any. With unique keys this is the association's value.
pub open spec fn lookup(m: Seq<(String, u32)>, w: Seq<char>) -> Option<u32>
    decreases m.len(),
{
    if m.len() == 0 {
        None
    } else if m[0].0@ == w {
        Some(m[0].1)
    } else {
        lookup(m.drop_first(), w)
    }
}

/// Whether some entry of `m` holds the word `w`.
pub open spec fn has_word(m: Seq<(String, u32)>, w: Seq<char>) -> bool {
    lookup(m, w) is Some
}

/// No two entries hold the same word.
pub open spec fn unique_words(m: Seq<(String, u32)>) -> bool {
    forall|i: int, j: int| 0 <= i < j < m.len() ==> m[i].0@ != m[j].0@
}

/// The sum of all stored counts.
pub open spec fn sum_counts(m: Seq<(String, u32)>) -> int
    decreases m.len(),
{
    if m.len() == 0 {
        0
    } else {
        sum_counts(m.drop_last()) + m.last().1
    }
}

/// The sum over all entries of the word's grapheme-cluster length weighted by
/// its count.
pub open spec fn grapheme_total(m: Seq<(String, u32)>) -> int
    decreases m.len(),
{
    if m.len() == 0 {
        0
    } else {
        grapheme_total(m.drop_last()) + grapheme_len_of(m.last().0@) * m.last().1
    }
}

/// How many tokens of `toks` carry the word `w`.
pub open spec fn tok_count(toks: Seq<Seq<char>>, w: Seq<char>) -> nat {
    toks.to_multiset().count(w)
}

/// The map `m` records exactly the words of `toks`, each with the number of
/// tokens that carry it.
pub open spec fn counts_tokens(m: Seq<(String, u32)>, toks: Seq<Seq<char>>) -> bool {
    &&& forall|w: Seq<char>| #[trigger] lookup(m, w) is Some <==> tok_count(toks, w) > 0
    &&& forall|w: Seq<char>|
        #[trigger] lookup(m, w) matches Some(c) ==> c as nat == tok_count(toks, w)
}

/// If the first entry holding `w` stands at `j`, the lookup returns its count.
pub proof fn lemma_lookup_found(m: Seq<(String, u32)>, w: Seq<char>, j: int)
    requires
        0 <= j < m.len(),
        m[j].0@ == w,
        forall|j2: int| 0 <= j2 < j ==> m[j2].0@ != w,
    ensures
        lookup(m, w) == Some(m[j].1),
    decreases j,
{
    if j > 0 {
        lemma_lookup_found(m.drop_first(), w, j - 1);
    }
}

/// The lookup fails exactly when no entry holds `w`.
pub proof fn lemma_lookup_none_iff(m: Seq<(String, u32)>, w: Seq<char>)
    ensures
        lookup(m, w) is None <==> forall|j: int| 0 <= j < m.len() ==> (#[trigger] m[j]).0@ != w,
    decreases m.len(),
{
    if m.len() > 0 {
        lemma_lookup_none_iff(m.drop_first(), w);
        assert(forall|j: int|
            0 <= j < m.drop_first().len() ==> #[trigger] m.drop_first()[j] == m[j + 1]);
        if lookup(m, w) is None {
            assert forall|j: int| 0 <= j < m.len() implies (#[trigger] m[j]).0@ != w by {
                if j > 0 {
                    assert(m.drop_first()[j - 1] == m[j]);
                }
            }
        }
    }
}

/// A successful lookup names some entry.
pub proof fn lemma_lookup_some_index(m: Seq<(String, u32)>, w: Seq<char>)
    requires
        lookup(m, w) is Some,
    ensures
        exists|j: int|
            0 <= j < m.len() && (#[trigger] m[j]).0@ == w && lookup(m, w) == Some(m[j].1),
    decreases m.len(),
{
    if m.len() > 0 && m[0].0@ != w {
        lemma_lookup_some_index(m.drop_first(), w);
        let j = choose|j: int|
            0 <= j < m.drop_first().len() && (#[trigger] m.drop_first()[j]).0@ == w && lookup(
                m.drop_first(),
                w,
            ) == Some(m.drop_first()[j].1);
        assert(m[j + 1] == m.drop_first()[j]);
    }
}

/// Appending an entry leaves every earlier association in place and adds one
/// for its word if that word was absent.
pub proof fn lemma_lookup_push(m: Seq<(String, u32)>, p: (String, u32), w: Seq<char>)
    ensures
        lookup(m.push(p), w) == (if lookup(m, w) is Some {
            lookup(m, w)
        } else if p.0@ == w {
            Some(p.1)
        } else {
            None::<u32>
        }),
    decreases m.len(),
{
    if m.len() == 0 {
        reveal_with_fuel(lookup, 2);
        assert(m.push(p)[0] == p);
        assert(m.push(p).drop_first() =~= Seq::<(String, u32)>::empty());
    } else {
        assert(m.push(p)[0] == m[0]);
        assert(m.push(p).drop_first() =~= m.drop_first().push(p));
        lemma_lookup_push(m.drop_first(), p, w);
    }
}

/// Updating the count at `j` without changing its word changes exactly that
/// word's association, provided words are unique.
pub proof fn lemma_lookup_update(m: Seq<(String, u32)>, j: int, p: (String, u32), w: Seq<char>)
    requires
        0 <= j < m.len(),
        p.0@ == m[j].0@,
        unique_words(m),
    ensures
        lookup(m.update(j, p), w) == (if w == m[j].0@ {
            Some(p.1)
        } else {
            lookup(m, w)
        }),
    decreases m.len(),
{
    let m2 = m.update(j, p);
    if j == 0 {
        if m[0].0@ == w {
            assert(m2[0] == p);
        } else {
            assert(m2.drop_first() =~= m.drop_first());
        }
    } else {
        assert(m2[0] == m[0]);
        if m[0].0@ == w {
            // uniqueness: the word at j differs from the word at 0
            assert(m[j].0@ != m[0].0@);
        } else {
            assert(m2.drop_first() =~= m.drop_first().update(j - 1, p));
            assert(unique_words(m.drop_first())) by {
                assert(forall|i1: int, i2: int|
                    0 <= i1 < i2 < m.drop_first().len() ==> m.drop_first()[i1]
                        == m[i1 + 1] && m.drop_first()[i2] == m[i2 + 1]);
            }
            lemma_lookup_update(m.drop_first(), j - 1, p, w);
        }
    }
}

/// Appending an entry adds its count to the sum.
pub proof fn lemma_sum_push(m: Seq<(String, u32)>, p: (String, u32))
    ensures
        sum_counts(m.push(p)) == sum_counts(m) + p.1,
{
    assert(m.push(p).drop_last() =~= m);
}

/// Updating one entry moves the sum by the difference of the counts.
pub proof fn lemma_sum_update(m: Seq<(String, u32)>, j: int, p: (String, u32))
    requires
        0 <= j < m.len(),
    ensures
        sum_counts(m.update(j, p)) == sum_counts(m) - m[j].1 + p.1,
    decreases m.len(),
{
    let m2 = m.update(j, p);
    if j == m.len() - 1 {
        assert(m2.drop_last() =~= m.drop_last());
        assert(m2.last() == p);
    } else {
        assert(m2.drop_last() =~= m.drop_last().update(j, p));
        assert(m2.last() == m.last());
        lemma_sum_update(m.drop_last(), j, p);
    }
}

/// A prefix of the entries sums to no more than the whole.
pub proof fn lemma_sum_take_le(m: Seq<(String, u32)>, i: int)
    requires
        0 <= i <= m.len(),
    ensures
        sum_counts(m.take(i)) <= sum_counts(m),
    decreases m.len() - i,
{
    if i == m.len() {
        assert(m.take(i) =~= m);
    } else {
        assert(m.take(i + 1).drop_last() =~= m.take(i));
        assert(m.take(i + 1).last() == m[i]);
        lemma_sum_take_le(m, i + 1);
    }
}

/// Finds the entry holding `w`, if one exists.
pub(crate) fn find_word(m: &Vec<(String, u32)>, w: &String) -> (r: Option<usize>)
    ensures
        match r {
            Some(j) => j < m@.len() && m@[j as int].0@ == w@ && lookup(m@, w@) == Some(
                m@[j as int].1,
            ),
            None => lookup(m@, w@) is None,
        },
{
    let mut j: usize = 0;
    while j < m.len()
        invariant
            j <= m@.len(),
            forall|j2: int| 0 <= j2 < j ==> m@[j2].0@ != w@,
        decreases m@.len() - j,
    {
        if m[j].0 == *w {
            proof {
                lemma_lookup_found(m@, w@, j as int);
            }
            return Some(j);
        }
        j += 1;
    }
    proof {
        lemma_lookup_none_iff(m@, w@);
    }
    None
}

/// Builds the word map of a token sequence: one entry per distinct word, in
/// first-occurrence order, counting how many tokens carry it.
pub(crate) fn build_word_map(toks: &Vec<String>) -> (m: Vec<(String, u32)>)
    requires
        toks@.len() <= u32::MAX,
    ensures
        unique_words(m@),
        counts_tokens(m@, crate::text::views_of(toks@)),
        sum_counts(m@) == toks@.len(),
{
    broadcast use vstd::seq_lib::group_to_multiset_ensures;
    broadcast use vstd::multiset::group_multiset_axioms;

    let ghost tv = crate::text::views_of(toks@);
    let mut m: Vec<(String, u32)> = Vec::new();
    let mut k: usize = 0;
    proof {
        assert(tv.take(0) =~= Seq::<Seq<char>>::empty());
        assert(Seq::<Seq<char>>::empty().to_multiset() =~= Multiset::<Seq<char>>::empty());
    }
    while k < toks.len()
        invariant
            k <= toks@.len(),
            unique_words(m@),
            counts_tokens(m@, tv.take(k as int)),
            sum_counts(m@) == k,
        decreases toks@.len() - k,
    {
        let t: &String = &toks[k];
        proof {
            assert(tv[k as int] == t@);
            tv.lemma_take_succ_push(k as int);
        }
        let ghost prefix = tv.take(k as int);
        let ghost prefix2 = tv.take(k as int + 1);
        proof {
            assert(prefix2.to_multiset() =~= prefix.to_multiset().insert(t@));
            assert(forall|w: Seq<char>|
                #[trigger] tok_count(prefix2, w) == tok_count(prefix, w) + (if w == t@ {
                    1int
                } else {
                    0int
                }));
        }
        match find_word(&m, t) {
            Some(j) => {
                proof {
                    // the stored count is the token count so far, which is
                    // below the total number of tokens
                    assert(m@[j as int].1 as nat == tok_count(prefix, t@));
                    assert(tok_count(prefix, t@) <= prefix.to_multiset().len());
                    assert(prefix.to_multiset().len() == prefix.len());
                    assert(prefix.len() == k);
                }
                let ghost m0 = m@;
                let (key, c) = m.remove(j);
                let ghost p = (key, (c + 1) as u32);
                m.insert(j, (key, c + 1));
                proof {
                    assert(m@ =~= m0.update(j as int, p));
                    lemma_sum_update(m0, j as int, p);
                    assert forall|w: Seq<char>| #[trigger] lookup(m@, w) == (if w == t@ {
                        Some(p.1)
                    } else {
                        lookup(m0, w)
                    }) by {
                        lemma_lookup_update(m0, j as int, p, w);
                    }
                    assert(unique_words(m@)) by {
                        assert(forall|i: int| 0 <= i < m@.len() ==> (#[trigger] m@[i]).0@
                            == m0[i].0@);
                    }
                }
            },
            None => {
                let key = t.clone();
                let ghost m0 = m@;
                let ghost p = (key, 1u32);
                m.push((key, 1));
                proof {
                    assert(m@ =~= m0.push(p));
                    lemma_sum_push(m0, p);
                    assert forall|w: Seq<char>| #[trigger] lookup(m@, w) == (if w == t@ {
                        Some(1u32)
                    } else {
                        lookup(m0, w)
                    }) by {
                        lemma_lookup_push(m0, p, w);
                    }
                    // the new word was absent, so uniqueness is preserved
                    lemma_lookup_none_iff(m0, t@);
                    assert forall|i1: int, i2: int|
                        0 <= i1 < i2 < m@.len() implies (#[trigger] m@[i1]).0@ != (
                    #[trigger] m@[i2]).0@ by {
                        if i2 == m@.len() - 1 {
                            assert(m@[i1] == m0[i1]);
                            assert(m0[i1].0@ != t@);
                        } else {
                            assert(m@[i1] == m0[i1]);
                            assert(m@[i2] == m0[i2]);
                        }
                    }
                    assert(unique_words(m@));
                }
            },
        }
        proof {
            assert(counts_tokens(m@, prefix2)) by {
                assert forall|w: Seq<char>| #[trigger] lookup(m@, w) is Some <==> tok_count(
                    prefix2,
                    w,
                ) > 0 by {
                    assert(tok_count(prefix2, w) == tok_count(prefix, w) + (if w == t@ {
                        1int
                    } else {
                        0int
                    }));
                }
                assert forall|w: Seq<char>| (#[trigger] lookup(m@, w) matches Some(c2) ==> c2
                    as nat == tok_count(prefix2, w)) by {
                    assert(tok_count(prefix2, w) == tok_count(prefix, w) + (if w == t@ {
                        1int
                    } else {
                        0int
                    }));
                }
            }
        }
        k += 1;
    }
    proof {
        assert(tv.take(toks@.len() as int) =~= tv);
    }
    m
}

} // verus!
