//! Ranking: the non-stopword entries of the word map, ordered by count
//! descending. The order among entries of equal count follows the word map's
//! first-occurrence order and is an implementation detail, not a contract.

use vstd::prelude::*;
use crate::stop_words::{is_stopword, is_stopword_spec};
use crate::wordmap::{has_word, lemma_lookup_found, lemma_lookup_none_iff, lookup, unique_words};

verus! {

/// The entry `p` may stand in the ranking of word map `m`: its word is `m`'s,
/// with `m`'s count, is no stopword, and is not empty.
pub open spec fn ranked_entry_ok(m: Seq<(String, u32)>, p: (String, u32)) -> bool {
    &&& lookup(m, p.0@) == Some(p.1)
    &&& !is_stopword_spec(p.0@)
    &&& p.0@.len() > 0
}

/// Some entry of `m` equals `p`.
pub open spec fn contains_pair(m: Seq<(String, u32)>, p: (String, u32)) -> bool {
    exists|j: int| 0 <= j < m.len() && m[j] == p
}

/// Keeps the entries of the word map whose word is not a stopword, in order.
pub(crate) fn filter_ranked(m: &Vec<(String, u32)>) -> (f: Vec<(String, u32)>)
    requires
        unique_words(m@),
    ensures
        unique_words(f@),
        forall|i: int| 0 <= i < f@.len() ==> ranked_entry_ok(m@, #[trigger] f@[i]),
        forall|j: int|
            0 <= j < m@.len() && !is_stopword_spec((#[trigger] m@[j]).0@) ==> has_word(
                f@,
                m@[j].0@,
            ),
{
    let mut f: Vec<(String, u32)> = Vec::new();
    let mut j: usize = 0;
    while j < m.len()
        invariant
            j <= m@.len(),
            forall|i: int| 0 <= i < f@.len() ==> ranked_entry_ok(m@, #[trigger] f@[i]),
            forall|i: int|
                0 <= i < f@.len() ==> exists|j2: int|
                    0 <= j2 < j && (#[trigger] f@[i]).0@ == m@[j2].0@,
            forall|j2: int|
                0 <= j2 < j && !is_stopword_spec((#[trigger] m@[j2]).0@) ==> has_word(
                    f@,
                    m@[j2].0@,
                ),
            unique_words(f@),
        decreases m@.len() - j,
    {
        let stop = is_stopword(m[j].0.as_str());
        let ghost f0 = f@;
        if !stop {
            let key = m[j].0.clone();
            let count = m[j].1;
            let ghost p = (key, count);
            f.push((key, count));
            proof {
                assert(f@ =~= f0.push(p));
                assert(p.0@ == m@[j as int].0@);
                // the word map's entry at j is the first with this word
                assert forall|j2: int| 0 <= j2 < j as int implies m@[j2].0@ != m@[j as int].0@ by {
                }
                lemma_lookup_found(m@, m@[j as int].0@, j as int);
                assert(ranked_entry_ok(m@, p));
                // the new word differs from every word already kept
                assert forall|i: int| 0 <= i < f0.len() implies f0[i].0@ != p.0@ by {
                    let j2 = choose|j2: int| 0 <= j2 < j && (#[trigger] f0[i]).0@ == m@[j2].0@;
                    assert(m@[j2].0@ != m@[j as int].0@);
                }
                assert forall|i1: int, i2: int|
                    0 <= i1 < i2 < f@.len() implies (#[trigger] f@[i1]).0@ != (
                #[trigger] f@[i2]).0@ by {
                    if i2 < f0.len() {
                        assert(f@[i1] == f0[i1] && f@[i2] == f0[i2]);
                    } else {
                        assert(f@[i1] == f0[i1] && f@[i2] == p);
                    }
                }
                assert forall|i: int| 0 <= i < f@.len() implies exists|j2: int|
                    0 <= j2 < j + 1 && (#[trigger] f@[i]).0@ == m@[j2].0@ by {
                    if i < f0.len() {
                        let j2 = choose|j2: int| 0 <= j2 < j && (#[trigger] f0[i]).0@ == m@[j2].0@;
                        assert(0 <= j2 < j + 1 && f@[i].0@ == m@[j2].0@);
                    } else {
                        assert(f@[i].0@ == m@[j as int].0@);
                    }
                }
                assert forall|j2: int|
                    0 <= j2 < j + 1 && !is_stopword_spec((#[trigger] m@[j2]).0@) implies has_word(
                    f@,
                    m@[j2].0@,
                ) by {
                    if j2 < j as int {
                        assert(has_word(f0, m@[j2].0@));
                        crate::wordmap::lemma_lookup_push(f0, p, m@[j2].0@);
                    } else {
                        crate::wordmap::lemma_lookup_push(f0, p, m@[j2].0@);
                        if lookup(f0, m@[j2].0@) is None {
                            assert(lookup(f@, m@[j2].0@) == Some(p.1));
                        }
                    }
                }
            }
        }
        j += 1;
    }
    f
}

/// Sorts the entries by count, descending. Entries move but do not change,
/// so the result holds exactly the entries of the input.
pub(crate) fn sort_desc(v: Vec<(String, u32)>) -> (r: Vec<(String, u32)>)
    requires
        unique_words(v@),
    ensures
        r@.len() == v@.len(),
        unique_words(r@),
        forall|i: int, j: int| 0 <= i < j < r@.len() ==> r@[i].1 >= r@[j].1,
        forall|i: int| 0 <= i < r@.len() ==> contains_pair(v@, #[trigger] r@[i]),
        forall|j: int| 0 <= j < v@.len() ==> contains_pair(r@, #[trigger] v@[j]),
{
    let ghost v0 = v@;
    let mut rest = v;
    let mut out: Vec<(String, u32)> = Vec::new();
    while rest.len() > 0
        invariant
            out@.len() + rest@.len() == v0.len(),
            forall|i: int| 0 <= i < out@.len() ==> contains_pair(v0, #[trigger] out@[i]),
            forall|i: int| 0 <= i < rest@.len() ==> contains_pair(v0, #[trigger] rest@[i]),
            forall|j: int|
                0 <= j < v0.len() ==> contains_pair(out@, #[trigger] v0[j]) || contains_pair(
                    rest@,
                    v0[j],
                ),
            forall|i: int, j: int| 0 <= i < j < out@.len() ==> out@[i].1 >= out@[j].1,
            forall|i: int, j: int|
                0 <= i < out@.len() && 0 <= j < rest@.len() ==> out@[i].1 >= rest@[j].1,
            forall|i1: int, i2: int| 0 <= i1 < i2 < out@.len() ==> out@[i1].0@ != out@[i2].0@,
            forall|i1: int, i2: int| 0 <= i1 < i2 < rest@.len() ==> rest@[i1].0@ != rest@[i2].0@,
            forall|i1: int, i2: int|
                0 <= i1 < out@.len() && 0 <= i2 < rest@.len() ==> out@[i1].0@ != rest@[i2].0@,
        decreases rest@.len(),
    {
        // find the index of a maximal count among the remaining entries
        let mut mi: usize = 0;
        let mut q: usize = 1;
        while q < rest.len()
            invariant
                mi < rest@.len(),
                q <= rest@.len(),
                forall|p: int| 0 <= p < q ==> rest@[mi as int].1 >= rest@[p].1,
            decreases rest@.len() - q,
        {
            if rest[q].1 > rest[mi].1 {
                mi = q;
            }
            q += 1;
        }
        let ghost rest0 = rest@;
        let ghost out0 = out@;
        let e = rest.remove(mi);
        out.push(e);
        proof {
            assert(e == rest0[mi as int]);
            assert(rest@ =~= rest0.remove(mi as int));
            assert(out@ =~= out0.push(e));
            assert(forall|i: int| 0 <= i < mi as int ==> rest@[i] == rest0[i]);
            assert(forall|i: int|
                mi as int <= i < rest@.len() ==> rest@[i] == rest0[i + 1]);
            assert forall|j: int|
                0 <= j < v0.len() implies contains_pair(out@, #[trigger] v0[j]) || contains_pair(
                rest@,
                v0[j],
            ) by {
                if contains_pair(out0, v0[j]) {
                    let i = choose|i: int| 0 <= i < out0.len() && out0[i] == v0[j];
                    assert(out@[i] == v0[j]);
                } else if contains_pair(rest0, v0[j]) {
                    let i = choose|i: int| 0 <= i < rest0.len() && rest0[i] == v0[j];
                    if i == mi as int {
                        assert(out@[out0.len() as int] == v0[j]);
                    } else if i < mi as int {
                        assert(rest@[i] == v0[j]);
                    } else {
                        assert(rest@[i - 1] == v0[j]);
                    }
                }
            }
        }
    }
    proof {
        assert forall|j: int| 0 <= j < v0.len() implies contains_pair(out@, #[trigger] v0[j]) by {
            assert(rest@.len() == 0);
        }
    }
    out
}

} // verus!
