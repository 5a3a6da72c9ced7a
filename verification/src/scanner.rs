//! Bounded scanning primitives over a nibble sequence: run lengths, counts,
//! and fixed-pattern matches. Each primitive is a single linear scan with no
//! allocation.

use vstd::prelude::*;

verus! {

/// Length of the maximal prefix of `seq` whose elements all equal `target`.
pub open spec fn leading_run_of(seq: Seq<u8>, target: u8) -> int
    decreases seq.len(),
{
    if seq.len() == 0 || seq[0] != target {
        0
    } else {
        1 + leading_run_of(seq.drop_first(), target)
    }
}

/// Number of elements of `seq` equal to `target`.
pub open spec fn count_matching(seq: Seq<u8>, target: u8) -> int
    decreases seq.len(),
{
    if seq.len() == 0 {
        0
    } else {
        count_matching(seq.drop_last(), target) + if seq.last() == target {
            1int
        } else {
            0int
        }
    }
}

/// `pattern` occurs in `seq` exactly at position `start`, entirely in bounds.
pub open spec fn pattern_at(seq: Seq<u8>, start: int, pattern: Seq<u8>) -> bool {
    &&& 0 <= start
    &&& start + pattern.len() <= seq.len()
    &&& forall|j: int| 0 <= j < pattern.len() ==> seq[start + j] == pattern[j]
}

/// The final `pattern.len()` elements of `seq` equal `pattern` exactly.
pub open spec fn pattern_at_end(seq: Seq<u8>, pattern: Seq<u8>) -> bool {
    pattern.len() <= seq.len() && pattern_at(seq, seq.len() - pattern.len(), pattern)
}

/// A leading run is a maximal matching prefix: it never exceeds the sequence,
/// every element before it matches the target, and the element just past it,
/// if any, does not.
pub proof fn lemma_leading_run_bounds(seq: Seq<u8>, target: u8)
    ensures
        0 <= leading_run_of(seq, target) <= seq.len(),
        forall|i: int| 0 <= i < leading_run_of(seq, target) ==> seq[i] == target,
        leading_run_of(seq, target) < seq.len() ==> seq[leading_run_of(seq, target)] != target,
    decreases seq.len(),
{
    if seq.len() == 0 || seq[0] != target {
    } else {
        lemma_leading_run_bounds(seq.drop_first(), target);
        assert forall|i: int| 0 <= i < leading_run_of(seq, target) implies seq[i] == target by {
            if i > 0 {
                assert(seq.drop_first()[i - 1] == target);
            }
        }
    }
}

/// One step of a run scan: at a matching element the run of the remaining
/// suffix is one longer than the run one position further on; at a
/// non-matching element it is zero.
pub proof fn lemma_leading_run_step(seq: Seq<u8>, k: int, target: u8)
    requires
        0 <= k < seq.len(),
    ensures
        seq[k] == target ==> leading_run_of(seq.skip(k), target) == 1 + leading_run_of(
            seq.skip(k + 1),
            target,
        ),
        seq[k] != target ==> leading_run_of(seq.skip(k), target) == 0,
{
    assert(seq.skip(k)[0] == seq[k]);
    assert(seq.skip(k).drop_first() =~= seq.skip(k + 1));
}

/// The count of a non-empty sequence splits into its first element's
/// contribution and the count of the rest.
pub proof fn lemma_count_first(seq: Seq<u8>, target: u8)
    ensures
        seq.len() > 0 ==> count_matching(seq, target) == (if seq[0] == target {
            1int
        } else {
            0int
        }) + count_matching(seq.drop_first(), target),
    decreases seq.len(),
{
    if seq.len() == 1 {
        assert(seq.drop_last() =~= Seq::<u8>::empty());
        assert(seq.drop_first() =~= Seq::<u8>::empty());
    } else if seq.len() > 1 {
        lemma_count_first(seq.drop_last(), target);
        assert(seq.drop_last().drop_first() =~= seq.drop_first().drop_last());
        assert(seq.drop_first().last() == seq.last());
        assert(seq.drop_last()[0] == seq[0]);
    }
}

/// One step of a counting scan over the suffix starting at `k`.
pub proof fn lemma_count_step(seq: Seq<u8>, k: int, target: u8)
    requires
        0 <= k < seq.len(),
    ensures
        count_matching(seq.skip(k), target) == (if seq[k] == target {
            1int
        } else {
            0int
        }) + count_matching(seq.skip(k + 1), target),
{
    lemma_count_first(seq.skip(k), target);
    assert(seq.skip(k)[0] == seq[k]);
    assert(seq.skip(k).drop_first() =~= seq.skip(k + 1));
}

/// Length of the run of `target` nibbles starting exactly at `start`.
pub fn run_from(seq: &Vec<u8>, start: usize, target: u8) -> (n: usize)
    requires
        start <= seq@.len(),
    ensures
        n == leading_run_of(seq@.skip(start as int), target),
        start + n <= seq@.len(),
{
    let mut i: usize = start;
    while i < seq.len() && seq[i] == target
        invariant
            start <= i <= seq@.len(),
            leading_run_of(seq@.skip(start as int), target) == i - start + leading_run_of(
                seq@.skip(i as int),
                target,
            ),
        decreases seq@.len() - i,
    {
        proof {
            lemma_leading_run_step(seq@, i as int, target);
        }
        i += 1;
    }
    proof {
        if i < seq@.len() {
            lemma_leading_run_step(seq@, i as int, target);
        } else {
            assert(seq@.skip(i as int) =~= Seq::<u8>::empty());
        }
    }
    i - start
}

/// Length of the maximal prefix of `seq` equal to `target`; at most 40 for a
/// nibble sequence and at most `seq.len()` in general.
pub fn leading_run(seq: &Vec<u8>, target: u8) -> (n: usize)
    ensures
        n == leading_run_of(seq@, target),
        n <= seq@.len(),
{
    proof {
        assert(seq@.skip(0) =~= seq@);
    }
    run_from(seq, 0, target)
}

/// Number of nibbles equal to `target` at positions `start..seq.len()`.
pub fn count_in_range(seq: &Vec<u8>, start: usize, target: u8) -> (n: usize)
    requires
        start <= seq@.len(),
    ensures
        n == count_matching(seq@.skip(start as int), target),
        start + n <= seq@.len(),
{
    let mut n: usize = 0;
    let mut i: usize = start;
    while i < seq.len()
        invariant
            start <= i <= seq@.len(),
            start + n <= i,
            count_matching(seq@.skip(start as int), target) == n + count_matching(
                seq@.skip(i as int),
                target,
            ),
        decreases seq@.len() - i,
    {
        proof {
            lemma_count_step(seq@, i as int, target);
        }
        if seq[i] == target {
            n += 1;
        }
        i += 1;
    }
    proof {
        assert(seq@.skip(i as int) =~= Seq::<u8>::empty());
    }
    n
}

/// True iff `pattern` occurs exactly at `start` and fits within bounds;
/// false whenever it would run out of bounds.
pub fn matches_at(seq: &Vec<u8>, start: usize, pattern: &Vec<u8>) -> (b: bool)
    ensures
        b == pattern_at(seq@, start as int, pattern@),
{
    if pattern.len() > seq.len() || start > seq.len() - pattern.len() {
        return false;
    }
    let mut j: usize = 0;
    while j < pattern.len()
        invariant
            j <= pattern@.len(),
            start + pattern@.len() <= seq@.len(),
            seq@.len() <= usize::MAX,
            forall|k: int| 0 <= k < j ==> seq@[start + k] == pattern@[k],
        decreases pattern@.len() - j,
    {
        if seq[start + j] != pattern[j] {
            return false;
        }
        j += 1;
    }
    true
}

/// True iff the final `pattern.len()` nibbles of `seq` equal `pattern`.
pub fn matches_suffix(seq: &Vec<u8>, pattern: &Vec<u8>) -> (b: bool)
    ensures
        b == pattern_at_end(seq@, pattern@),
{
    if pattern.len() > seq.len() {
        return false;
    }
    matches_at(seq, seq.len() - pattern.len(), pattern)
}

} // verus!
