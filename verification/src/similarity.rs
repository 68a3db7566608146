//! Similarity scores, and the search for the best of them.

use crate::binary64::{
    is_above_zero, is_greater, is_near_one, lemma_greater_has_greater_pattern, lemma_nine_tenths,
    lemma_patterns_above_zero, lemma_patterns_near_one, INFINITY_BITS, NEAR_ONE_FIRST,
    NEAR_ONE_LAST, NINE_TENTHS_BITS, ONE_BITS,
};
use crate::text::trimmed;
use handy::pattern::string_similarity;
use vstd::prelude::*;

verus! {

/// How alike two names are: a double-precision number, held as its bit
/// pattern.
#[derive(Debug, Clone, Copy, PartialEq, Eq)]
pub struct Similarity {
    /// The bit pattern of the score.
    pub bits: u64,
}

/// The pattern of the score that `handy::pattern::string_similarity` gives
/// two texts.
pub uninterp spec fn similarity_bits(s1: Seq<char>, s2: Seq<char>) -> u64;

/// `handy::pattern::string_similarity`: the Jaro-Winkler similarity of the
/// two texts, taken without the white space around them and in lower case.
/// The score depends on the two texts alone. Where one of them is nothing
/// but white space, it is zero; where they are the same text, and not
/// blank, it is one.
#[verifier::external_body]
pub(crate) fn similarity(s1: &str, s2: &str) -> (score: Similarity)
    ensures
        score.bits == similarity_bits(s1@, s2@),
        trimmed(s1@).len() == 0 || trimmed(s2@).len() == 0 ==> score.bits == 0,
        s1@ == s2@ && trimmed(s1@).len() > 0 ==> score.bits == ONE_BITS,
{
    Similarity { bits: string_similarity(s1, s2).to_bits() }
}

impl Similarity {
    /// The place of the score among the scores: `0` for every score that
    /// is not above zero (zero itself, a negative number, not a number),
    /// and its pattern for a score above zero, so that of two such scores
    /// the greater has the greater rank.
    pub open spec fn rank(self) -> nat {
        if is_above_zero(self.bits) {
            self.bits as nat
        } else {
            0
        }
    }

    /// Whether the score is so near the upper bound, one, that the names
    /// count as the same: whether it differs from one by less than a
    /// thousandth.
    pub open spec fn is_close(self) -> bool {
        is_near_one(self.bits)
    }

    /// Computes [`Similarity::rank`].
    pub fn score_rank(&self) -> (r: u64)
        ensures
            r == self.rank(),
    {
        proof {
            lemma_patterns_above_zero(self.bits);
        }
        if 0 < self.bits && self.bits <= INFINITY_BITS {
            self.bits
        } else {
            0
        }
    }

    /// Checks if the score is close to the upper bound, which indicates a
    /// perfect match.
    pub fn is_close_to_upper_bound(&self) -> (close: bool)
        ensures
            close == self.is_close(),
    {
        proof {
            lemma_patterns_near_one(self.bits);
        }
        NEAR_ONE_FIRST <= self.bits && self.bits <= NEAR_ONE_LAST
    }
}

/// Whether the search looks at score `i`: it stops behind the first score
/// that is close to the upper bound.
pub open spec fn is_scanned(scores: Seq<Similarity>, i: int) -> bool {
    &&& 0 <= i < scores.len()
    &&& forall|j: int| 0 <= j < i ==> !(#[trigger] scores[j]).is_close()
}

/// Whether score `i` is the one that the search settles on: it is above
/// zero, no score that the search looks at is greater, and every score
/// before it is smaller.
pub open spec fn is_best(scores: Seq<Similarity>, i: int) -> bool {
    &&& is_scanned(scores, i)
    &&& scores[i].rank() > 0
    &&& forall|j: int| is_scanned(scores, j) ==> (#[trigger] scores[j]).rank() <= scores[i].rank()
    &&& forall|j: int| 0 <= j < i ==> (#[trigger] scores[j]).rank() < scores[i].rank()
}

/// Whether the search finds nothing: no score that it looks at is above
/// zero.
pub open spec fn none_matches(scores: Seq<Similarity>) -> bool {
    forall|j: int| is_scanned(scores, j) ==> (#[trigger] scores[j]).rank() == 0
}

/// Finds the best of the scores: the greatest score above zero, the
/// earliest where several are equal. A score that is close to the upper
/// bound ends the search, and the scores behind it are not looked at.
pub fn best_match(scores: &[Similarity]) -> (found: Option<usize>)
    ensures
        match found {
            Some(i) => is_best(scores@, i as int),
            None => none_matches(scores@),
        },
        scores@.len() == 0 ==> found is None,
{
    let mut best_rank: u64 = 0;
    let mut best: Option<usize> = None;
    let mut i: usize = 0;
    while i < scores.len()
        invariant
            i <= scores.len(),
            forall|j: int| 0 <= j < i ==> !(#[trigger] scores@[j]).is_close(),
            forall|j: int| 0 <= j < i ==> (#[trigger] scores@[j]).rank() <= best_rank,
            match best {
                Some(b) => b < i && best_rank > 0 && scores@[b as int].rank() == best_rank
                    && forall|j: int| 0 <= j < b ==> (#[trigger] scores@[j]).rank() < best_rank,
                None => best_rank == 0,
            },
        decreases scores.len() - i,
    {
        let rank = scores[i].score_rank();
        if rank > best_rank {
            best_rank = rank;
            best = Some(i);
        }
        if scores[i].is_close_to_upper_bound() {
            return best;
        }
        i = i + 1;
    }
    best
}

/// The rank above which two names count as one: that of the number nearest
/// to nine tenths.
pub const DUPLICATE_BITS: u64 = NINE_TENTHS_BITS;

/// Whether one of the scores says that the new name is so like a saved one
/// that the machine is there already: whether one is above nine tenths.
pub open spec fn is_duplicate(scores: Seq<Similarity>) -> bool {
    exists|i: int| 0 <= i < scores.len() && (#[trigger] scores[i]).rank() > DUPLICATE_BITS
}

/// Tells whether a new name is taken: whether one of its scores against the
/// saved names is above nine tenths.
pub fn has_duplicate(scores: &[Similarity]) -> (taken: bool)
    ensures
        taken == is_duplicate(scores@),
{
    let mut i: usize = 0;
    while i < scores.len()
        invariant
            i <= scores.len(),
            forall|j: int| 0 <= j < i ==> (#[trigger] scores@[j]).rank() <= DUPLICATE_BITS,
        decreases scores.len() - i,
    {
        if scores[i].score_rank() > DUPLICATE_BITS {
            return true;
        }
        i = i + 1;
    }
    false
}

/// Ranks order the scores above zero as numbers: a score has a rank above
/// `0` exactly when it is above zero, and of two such scores the one of
/// greater rank is the greater number.
pub proof fn lemma_rank_follows_the_numbers(a: Similarity, b: Similarity)
    ensures
        a.rank() > 0 <==> is_above_zero(a.bits),
        is_above_zero(a.bits) && is_above_zero(b.bits) ==> (a.rank() > b.rank() <==> is_greater(
            a.bits,
            b.bits,
        )),
{
    lemma_patterns_above_zero(a.bits);
    if is_above_zero(a.bits) && is_above_zero(b.bits) {
        lemma_greater_has_greater_pattern(a.bits, b.bits);
    }
}

/// A score counts as that of the same name exactly when it is a number
/// greater than the one nearest to nine tenths.
pub proof fn lemma_rank_above_nine_tenths(a: Similarity)
    ensures
        a.rank() > DUPLICATE_BITS <==> is_above_zero(a.bits) && is_greater(a.bits, NINE_TENTHS_BITS),
{
    lemma_nine_tenths();
    lemma_rank_follows_the_numbers(a, Similarity { bits: NINE_TENTHS_BITS });
}

/// The search settles on at most one score.
pub proof fn lemma_best_is_unique(scores: Seq<Similarity>, i: int, j: int)
    requires
        is_best(scores, i),
        is_best(scores, j),
    ensures
        i == j,
{
}

/// Where the search settles on a score, it did not find nothing.
pub proof fn lemma_best_excludes_none(scores: Seq<Similarity>, i: int)
    requires
        is_best(scores, i),
    ensures
        !none_matches(scores),
{
}

/// Among no scores the search finds nothing.
pub proof fn lemma_nothing_among_none(scores: Seq<Similarity>)
    requires
        scores.len() == 0,
    ensures
        none_matches(scores),
        forall|i: int| !is_best(scores, i),
{
}

/// Whether score `i` is the one that a search without the early end
/// settles on: it is above zero, no score is greater, and every score
/// before it is smaller.
pub open spec fn is_best_of_all(scores: Seq<Similarity>, i: int) -> bool {
    &&& 0 <= i < scores.len()
    &&& scores[i].rank() > 0
    &&& forall|j: int| 0 <= j < scores.len() ==> (#[trigger] scores[j]).rank() <= scores[i].rank()
    &&& forall|j: int| 0 <= j < i ==> (#[trigger] scores[j]).rank() < scores[i].rank()
}

/// Before every score that the search does not look at stands a close score
/// that it does look at.
proof fn lemma_first_close(scores: Seq<Similarity>, j: int) -> (c: int)
    requires
        0 <= j < scores.len(),
        !is_scanned(scores, j),
    ensures
        0 <= c < j,
        scores[c].is_close(),
        is_scanned(scores, c),
    decreases j,
{
    let c = choose|c: int| 0 <= c < j && (#[trigger] scores[c]).is_close();
    if is_scanned(scores, c) {
        c
    } else {
        lemma_first_close(scores, c)
    }
}

/// Ending the search at the first close score changes nothing where no
/// score behind a close one is greater than it: the search that looks at
/// every score settles on the same one, or also finds nothing.
pub proof fn lemma_early_end_keeps_result(scores: Seq<Similarity>)
    requires
        forall|c: int, j: int|
            0 <= c < j < scores.len() && (#[trigger] scores[c]).is_close() ==> (
            #[trigger] scores[j]).rank() <= scores[c].rank(),
    ensures
        forall|i: int| is_best(scores, i) <==> is_best_of_all(scores, i),
        none_matches(scores) <==> forall|j: int|
            0 <= j < scores.len() ==> (#[trigger] scores[j]).rank() == 0,
{
    assert forall|i: int| is_best(scores, i) implies is_best_of_all(scores, i) by {
        assert forall|j: int| 0 <= j < scores.len() implies (#[trigger] scores[j]).rank()
            <= scores[i].rank() by {
            if !is_scanned(scores, j) {
                lemma_first_close(scores, j);
            }
        }
    }
    assert forall|i: int| is_best_of_all(scores, i) implies is_best(scores, i) by {
        assert forall|j: int| 0 <= j < i implies !(#[trigger] scores[j]).is_close() by {}
    }
    if none_matches(scores) {
        assert forall|j: int| 0 <= j < scores.len() implies (#[trigger] scores[j]).rank() == 0 by {
            if !is_scanned(scores, j) {
                lemma_first_close(scores, j);
            }
        }
    }
}

/// A score that is close to the upper bound is above zero.
pub proof fn lemma_close_is_above_zero(score: Similarity)
    requires
        score.is_close(),
    ensures
        score.rank() > 0,
{
    lemma_patterns_near_one(score.bits);
    lemma_patterns_above_zero(score.bits);
}

/// The score one is close to the upper bound, and a name with that score
/// counts as the same name.
pub proof fn lemma_one_is_close()
    ensures
        (Similarity { bits: ONE_BITS }).is_close(),
        (Similarity { bits: ONE_BITS }).rank() > DUPLICATE_BITS,
{
    lemma_patterns_near_one(ONE_BITS);
    lemma_patterns_above_zero(ONE_BITS);
}

} // verus!
