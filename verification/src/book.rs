//! The analytics of one text: a word map counting every normalized token,
//! stopwords as well, and a ranked list of the non-stopword words by count
//! descending, with derived totals.

use vstd::prelude::*;
use crate::rank::{contains_pair, filter_ranked, ranked_entry_ok, sort_desc};
use crate::stop_words::is_stopword_spec;
use crate::text::{chunks_of, tokens_of, tokenize};
use crate::unicode::{grapheme_count, grapheme_len_of, lower_of, to_lowercase};
use crate::wordmap::{
    build_word_map, counts_tokens, find_word, grapheme_total, has_word, lemma_lookup_none_iff,
    lemma_lookup_some_index, lemma_sum_take_le, lookup, sum_counts, tok_count, unique_words,
};

verus! {

/// A subject a book may be filed under.
#[derive(Clone, Debug)]
pub struct Subject {
    pub subject_name: String,
    pub subject_id: i32,
}

/// A bookshelf a book may stand on.
#[derive(Clone, Debug)]
pub struct Bookshelf {
    pub shelf_name: String,
    pub shelf_id: i32,
}

/// The analytics of one text.
///
/// `word_map` associates every normalized word of the text, the stopwords as
/// well, with the number of tokens carrying it; its keys are unique and its
/// entries stand in first-occurrence order. `sorted_words` holds exactly the
/// non-stopword entries of `word_map`, by count descending; the order among
/// equal counts is an implementation detail, not a contract.
#[derive(Clone, Debug)]
pub struct Analytics {
    pub word_map: Vec<(String, u32)>,
    pub sorted_words: Vec<(String, u32)>,
}

impl Analytics {
    /// The invariant of a well-formed `Analytics` value: unique words in both
    /// sequences; the ranked entries are exactly the non-stopword associations
    /// of the word map, none of them empty, by count descending; and the
    /// counts sum to a value its 32-bit counters can carry.
    pub open spec fn wf(self) -> bool {
        &&& unique_words(self.word_map@)
        &&& unique_words(self.sorted_words@)
        &&& sum_counts(self.word_map@) <= u32::MAX
        &&& forall|i: int|
            0 <= i < self.sorted_words@.len() ==> ranked_entry_ok(
                self.word_map@,
                #[trigger] self.sorted_words@[i],
            )
        &&& forall|j: int|
            0 <= j < self.word_map@.len() && !is_stopword_spec((#[trigger] self.word_map@[j]).0@)
                ==> has_word(self.sorted_words@, self.word_map@[j].0@)
        &&& forall|i: int, j: int|
            0 <= i < j < self.sorted_words@.len() ==> self.sorted_words@[i].1
                >= self.sorted_words@[j].1
    }

    /// `self` is the analysis of a text: it is well formed, its word map
    /// records exactly the words of the text's tokens with their occurrence
    /// counts, and the counts sum to the number of tokens.
    pub open spec fn analyzes(self, text: Seq<char>) -> bool {
        &&& self.wf()
        &&& counts_tokens(self.word_map@, tokens_of(text))
        &&& sum_counts(self.word_map@) == tokens_of(text).len()
    }

    /// Analyzes a text: splits it on whitespace, normalizes each chunk to a
    /// lowercase alphabetic word, counts every word, and ranks the
    /// non-stopword words by count descending.
    ///
    /// The text must have at most `u32::MAX` characters so that the 32-bit
    /// counters cannot overflow.
    pub fn new(content: &String) -> (result: Self)
        requires
            content@.len() <= u32::MAX,
        ensures
            result.analyzes(content@),
    {
        let toks = tokenize(content.as_str());
        proof {
            crate::text::lemma_chunks_len(content@);
        }
        let word_map = build_word_map(&toks);
        let filtered = filter_ranked(&word_map);
        let ghost fv = filtered@;
        let sorted_words = sort_desc(filtered);
        let result = Analytics { word_map, sorted_words };
        proof {
            let m = result.word_map@;
            let s = result.sorted_words@;
            assert forall|i: int| 0 <= i < s.len() implies ranked_entry_ok(
                m,
                #[trigger] s[i],
            ) by {
                let j = choose|j: int| 0 <= j < fv.len() && fv[j] == s[i];
            }
            assert forall|j: int|
                0 <= j < m.len() && !is_stopword_spec((#[trigger] m[j]).0@) implies has_word(
                s,
                m[j].0@,
            ) by {
                let w = m[j].0@;
                lemma_lookup_some_index(fv, w);
                let i = choose|i: int|
                    0 <= i < fv.len() && (#[trigger] fv[i]).0@ == w && lookup(fv, w) == Some(
                        fv[i].1,
                    );
                assert(contains_pair(s, fv[i]));
                let i2 = choose|i2: int| 0 <= i2 < s.len() && s[i2] == fv[i];
                lemma_lookup_none_iff(s, w);
            }
        }
        result
    }

    /// Looks up the count of a word, case-insensitively. Only lowercasing is
    /// applied: a word carrying punctuation misses, since the stored words
    /// are already stripped to their alphabetic characters.
    pub fn get_count(&self, word: &String) -> (r: Option<u32>)
        ensures
            r == lookup(self.word_map@, lower_of(word@)),
    {
        let lw = to_lowercase(word.as_str());
        match find_word(&self.word_map, &lw) {
            Some(j) => Some(self.word_map[j].1),
            None => None,
        }
    }

    /// The first `amount` ranked words (all of them if fewer exist), each
    /// with its 1-based rank.
    pub fn get_top_words(&self, amount: u32) -> (r: Vec<(usize, (String, u32))>)
        ensures
            top_words_post(*self, amount, r@),
            amount as int >= self.sorted_words@.len() ==> r@.len() == self.sorted_words@.len(),
    {
        let len = self.sorted_words.len();
        let wanted = amount as usize;
        let take_n: usize = if wanted > len {
            len
        } else {
            wanted
        };
        let mut r: Vec<(usize, (String, u32))> = Vec::new();
        let mut i: usize = 0;
        while i < take_n
            invariant
                i <= take_n,
                r@.len() == i,
                forall|k: int| 0 <= k < i ==> (#[trigger] r@[k]).0 == k + 1,
                forall|k: int|
                    0 <= k < i ==> (#[trigger] r@[k]).1.0@ == self.sorted_words@[k].0@ && r@[k].1.1
                        == self.sorted_words@[k].1,
            decreases take_n - i,
        {
            let entry = (i + 1, (self.sorted_words[i].0.clone(), self.sorted_words[i].1));
            r.push(entry);
            i += 1;
        }
        r
    }

    /// The total number of tokens of the text: the sum of every count in the
    /// word map, stopwords and the empty-word artifact as well.
    pub fn get_total_word_count(&self) -> (r: u32)
        requires
            self.wf(),
        ensures
            r as int == sum_counts(self.word_map@),
    {
        let mut acc: u32 = 0;
        let mut i: usize = 0;
        proof {
            assert(self.word_map@.take(0) =~= Seq::<(String, u32)>::empty());
        }
        while i < self.word_map.len()
            invariant
                i <= self.word_map@.len(),
                acc as int == sum_counts(self.word_map@.take(i as int)),
            decreases self.word_map@.len() - i,
        {
            proof {
                assert(self.word_map@.take(i as int + 1).drop_last() =~= self.word_map@.take(
                    i as int,
                ));
                assert(self.word_map@.take(i as int + 1).last() == self.word_map@[i as int]);
                lemma_sum_take_le(self.word_map@, i as int + 1);
            }
            acc = acc + self.word_map[i].1;
            i += 1;
        }
        proof {
            assert(self.word_map@.take(self.word_map@.len() as int) =~= self.word_map@);
        }
        acc
    }

    /// The total number of characters over all distinct words, weighted by
    /// their counts, where a word's length is its number of extended grapheme
    /// clusters. On a text so large that the total exceeds `usize::MAX` the
    /// count saturates there instead of wrapping.
    pub fn get_character_count(&self) -> (r: usize)
        ensures
            r as int == min_int(grapheme_total(self.word_map@), usize::MAX as int),
    {
        let mut acc: usize = 0;
        let mut i: usize = 0;
        proof {
            assert(self.word_map@.take(0) =~= Seq::<(String, u32)>::empty());
        }
        while i < self.word_map.len()
            invariant
                i <= self.word_map@.len(),
                acc as int == min_int(
                    grapheme_total(self.word_map@.take(i as int)),
                    usize::MAX as int,
                ),
            decreases self.word_map@.len() - i,
        {
            let g = grapheme_count(self.word_map[i].0.as_str());
            let c = self.word_map[i].1;
            proof {
                let prev = self.word_map@.take(i as int);
                assert(self.word_map@.take(i as int + 1).drop_last() =~= prev);
                assert(self.word_map@.take(i as int + 1).last() == self.word_map@[i as int]);
                lemma_grapheme_total_nonneg(prev);
                assert(g as int * c as int >= 0) by (nonlinear_arith);
                assert(grapheme_len_of(self.word_map@[i as int].0@) * self.word_map@[i as int].1
                    == g as int * c as int);
            }
            match g.checked_mul(c as usize) {
                Some(p) => {
                    acc = acc.saturating_add(p);
                },
                None => {
                    acc = usize::MAX;
                },
            }
            i += 1;
        }
        proof {
            assert(self.word_map@.take(self.word_map@.len() as int) =~= self.word_map@);
        }
        acc
    }
}

/// The smaller of two integers.
pub open spec fn min_int(a: int, b: int) -> int {
    if a <= b {
        a
    } else {
        b
    }
}

/// What `get_top_words` returns for `a` and `amount`: the first `amount`
/// ranked entries (all of them if fewer exist), each with its 1-based rank.
pub open spec fn top_words_post(a: Analytics, amount: u32, r: Seq<(usize, (String, u32))>) -> bool {
    &&& r.len() == min_int(amount as int, a.sorted_words@.len() as int)
    &&& forall|k: int| 0 <= k < r.len() ==> (#[trigger] r[k]).0 == k + 1
    &&& forall|k: int|
        0 <= k < r.len() ==> (#[trigger] r[k]).1.0@ == a.sorted_words@[k].0@ && r[k].1.1
            == a.sorted_words@[k].1
}

/// The mathematical content of a ranking result: rank, word and count of each
/// entry.
pub open spec fn rank_views(r: Seq<(usize, (String, u32))>) -> Seq<(int, (Seq<char>, u32))> {
    r.map_values(|p: (usize, (String, u32))| (p.0 as int, (p.1.0@, p.1.1)))
}

/// The weighted grapheme total is never negative.
pub proof fn lemma_grapheme_total_nonneg(m: Seq<(String, u32)>)
    ensures
        grapheme_total(m) >= 0,
    decreases m.len(),
{
    if m.len() > 0 {
        lemma_grapheme_total_nonneg(m.drop_last());
        assert(grapheme_len_of(m.last().0@) * m.last().1 >= 0) by (nonlinear_arith);
    }
}

/// Law: the counts in the word map sum to the number of whitespace-delimited
/// chunks of the text, the empty-word artifact as well.
pub proof fn lemma_total_count_is_chunk_count(a: Analytics, text: Seq<char>)
    requires
        a.analyzes(text),
    ensures
        sum_counts(a.word_map@) == chunks_of(text).len(),
{
}

/// Law: the ranked words are exactly the non-stopword words of the word map.
pub proof fn lemma_ranked_words_exact(a: Analytics)
    requires
        a.wf(),
    ensures
        forall|w: Seq<char>|
            #![trigger has_word(a.sorted_words@, w)]
            #![trigger has_word(a.word_map@, w)]
            has_word(a.sorted_words@, w) <==> (has_word(a.word_map@, w) && !is_stopword_spec(w)),
{
    assert forall|w: Seq<char>|
        #![trigger has_word(a.sorted_words@, w)]
        #![trigger has_word(a.word_map@, w)]
        has_word(a.sorted_words@, w) <==> (has_word(a.word_map@, w) && !is_stopword_spec(
            w,
        )) by {
        if has_word(a.sorted_words@, w) {
            lemma_lookup_some_index(a.sorted_words@, w);
            let i = choose|i: int|
                0 <= i < a.sorted_words@.len() && (#[trigger] a.sorted_words@[i]).0@ == w && lookup(
                    a.sorted_words@,
                    w,
                ) == Some(a.sorted_words@[i].1);
            assert(ranked_entry_ok(a.word_map@, a.sorted_words@[i]));
        }
        if has_word(a.word_map@, w) && !is_stopword_spec(w) {
            lemma_lookup_some_index(a.word_map@, w);
            let j = choose|j: int|
                0 <= j < a.word_map@.len() && (#[trigger] a.word_map@[j]).0@ == w && lookup(
                    a.word_map@,
                    w,
                ) == Some(a.word_map@[j].1);
            assert(has_word(a.sorted_words@, a.word_map@[j].0@));
        }
    }
}

/// Law: the ranked list is sorted by count, descending.
pub proof fn lemma_sorted_descending(a: Analytics, i: int, j: int)
    requires
        a.wf(),
        0 <= i <= j < a.sorted_words@.len(),
    ensures
        a.sorted_words@[i].1 >= a.sorted_words@[j].1,
{
}

/// Law: ranking is a pure read; two results of `get_top_words` for the same
/// value and the same bound carry the same ranks, words and counts.
pub proof fn lemma_top_words_deterministic(
    a: Analytics,
    amount: u32,
    r1: Seq<(usize, (String, u32))>,
    r2: Seq<(usize, (String, u32))>,
)
    requires
        top_words_post(a, amount, r1),
        top_words_post(a, amount, r2),
    ensures
        rank_views(r1) == rank_views(r2),
{
    assert(rank_views(r1) =~= rank_views(r2));
}

/// Law: the empty text yields empty analytics with zero totals.
pub proof fn lemma_empty_text(a: Analytics)
    requires
        a.analyzes(Seq::empty()),
    ensures
        a.word_map@ == Seq::<(String, u32)>::empty(),
        a.sorted_words@ == Seq::<(String, u32)>::empty(),
        sum_counts(a.word_map@) == 0,
        grapheme_total(a.word_map@) == 0,
{
    broadcast use vstd::seq_lib::group_to_multiset_ensures;

    crate::text::lemma_chunks_empty();
    assert(tokens_of(Seq::empty()) =~= Seq::<Seq<char>>::empty());
    if a.word_map@.len() > 0 {
        let w = a.word_map@[0].0@;
        assert(lookup(a.word_map@, w) is Some);
        assert(tok_count(Seq::empty(), w) > 0);
        assert(Seq::<Seq<char>>::empty().contains(w));
        assert(false);
    }
    assert(a.word_map@ =~= Seq::<(String, u32)>::empty());
    if a.sorted_words@.len() > 0 {
        assert(ranked_entry_ok(a.word_map@, a.sorted_words@[0]));
        assert(false);
    }
    assert(a.sorted_words@ =~= Seq::<(String, u32)>::empty());
}

} // verus!
