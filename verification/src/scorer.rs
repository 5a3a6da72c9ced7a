//! The family of versioned scoring policies. Each policy is a pure function
//! from a 40-nibble sequence to a signed integer score; gate-style policies
//! also report a diagnostic breakdown.

use vstd::prelude::*;
use crate::nibbles::{decode_nibbles, nibbles_of, ScoreError, ADDRESS_BYTES, NIBBLE_COUNT};
use crate::scanner::{
    count_in_range, count_matching, leading_run, leading_run_of, lemma_leading_run_bounds,
    matches_at, matches_suffix, pattern_at, pattern_at_end, run_from,
};

verus! {

/// Diagnostic breakdown of a single-target gate evaluation: the total
/// score together with the counts behind it. The field names speak of
/// zeroes, after the zero-target gate; the same breakdown serves any
/// target nibble.
#[derive(Clone, Copy, Debug, PartialEq, Eq, Structural)]
pub struct ScoreBreakdownZeros {
    pub total_score: i32,
    pub leading_zero_count: usize,
    pub extra_leading_zero_count: usize,
    pub other_zero_count: usize,
}

/// The closed set of historical scoring policies. Exactly one is active for
/// a given search run; the caller selects it.
#[derive(Clone, Copy, Debug, PartialEq, Eq, Structural)]
pub enum Policy {
    /// Single-target gate on the nibble 0xb: threshold 10, base 500,
    /// extra-weight 300, other-weight 25.
    GateTargetB,
    /// Single-target gate on the nibble 0x0, with the same weights.
    GateTargetZero,
    /// Composite zero-prefix (threshold 6, base 50) with a secondary 0xb run
    /// and 15 points per further 0xb nibble.
    CompositePrefix,
    /// Ungated additive formula rewarding leading zeroes, a 0xb quad after
    /// them, a 0xb quad suffix, and every 0xb nibble globally.
    UngatedAdditive,
}

/// Score of a single-target gate policy: 0 if fewer than 10 leading nibbles
/// equal the target; otherwise 500, plus 300 per leading target nibble
/// beyond the tenth, plus 25 per further target nibble after the run.
pub open spec fn gate_score_of(seq: Seq<u8>, target: u8) -> int {
    let leading = leading_run_of(seq, target);
    if leading < 10 {
        0
    } else {
        500 + 300 * (leading - 10) + 25 * count_matching(seq.skip(leading), target)
    }
}

/// The extra count a gate breakdown reports: leading target nibbles beyond
/// the tenth, or 0 below the threshold.
pub open spec fn gate_extra_of(seq: Seq<u8>, target: u8) -> int {
    let leading = leading_run_of(seq, target);
    if leading < 10 {
        0
    } else {
        leading - 10
    }
}

/// The other count a gate breakdown reports: target nibbles after the
/// leading run, or 0 below the threshold.
pub open spec fn gate_other_of(seq: Seq<u8>, target: u8) -> int {
    let leading = leading_run_of(seq, target);
    if leading < 10 {
        0
    } else {
        count_matching(seq.skip(leading), target)
    }
}

/// Score of the composite-prefix policy: 0 if fewer than 6 leading zero
/// nibbles; otherwise a base of 50, a bonus for the 0xb run immediately
/// after the zero prefix (200 + 400 + 250 per nibble beyond the fourth when
/// the run reaches 4, else 25 per nibble), and 15 per 0xb nibble after that
/// run.
pub open spec fn composite_score_of(seq: Seq<u8>) -> int {
    let leading = leading_run_of(seq, 0x0);
    if leading < 6 {
        0
    } else {
        let run = leading_run_of(seq.skip(leading), 0xb);
        let run_bonus = if run >= 4 {
            200 + 400 + 250 * (run - 4)
        } else {
            25 * run
        };
        50 + run_bonus + 15 * count_matching(seq.skip(leading + run), 0xb)
    }
}

/// The four-nibble pattern `[0xb, 0xb, 0xb, 0xb]`.
pub open spec fn quad_b() -> Seq<u8> {
    seq![0xbu8, 0xbu8, 0xbu8, 0xbu8]
}

/// Score of the ungated additive policy: 10 per leading zero nibble; 40 if
/// the four nibbles right after the zero run are `[0xb, 0xb, 0xb, 0xb]`,
/// plus 20 more if the nibble after that quad exists and is not 0xb; 20 if
/// the final four nibbles are that quad (independently, possibly the same
/// nibbles); and 1 per 0xb nibble anywhere, already-rewarded nibbles
/// included.
pub open spec fn additive_score_of(seq: Seq<u8>) -> int {
    let leading = leading_run_of(seq, 0x0);
    let prefix_bonus = if pattern_at(seq, leading, quad_b()) {
        40 + if leading + 4 < seq.len() && seq[leading + 4] != 0xb {
            20int
        } else {
            0int
        }
    } else {
        0int
    };
    let suffix_bonus: int = if pattern_at_end(seq, quad_b()) {
        20
    } else {
        0
    };
    10 * leading + prefix_bonus + suffix_bonus + count_matching(seq, 0xb)
}

/// Score of a policy on a 40-nibble sequence.
pub open spec fn policy_score_of(policy: Policy, seq: Seq<u8>) -> int {
    match policy {
        Policy::GateTargetB => gate_score_of(seq, 0xb),
        Policy::GateTargetZero => gate_score_of(seq, 0x0),
        Policy::CompositePrefix => composite_score_of(seq),
        Policy::UngatedAdditive => additive_score_of(seq),
    }
}

/// Runs the single-target gate scan over a 40-nibble sequence and reports
/// the full breakdown.
pub fn gate_breakdown(nibbles: &Vec<u8>, target: u8) -> (r: ScoreBreakdownZeros)
    requires
        nibbles@.len() == NIBBLE_COUNT,
    ensures
        r.total_score == gate_score_of(nibbles@, target),
        r.leading_zero_count == leading_run_of(nibbles@, target),
        r.extra_leading_zero_count == gate_extra_of(nibbles@, target),
        r.other_zero_count == gate_other_of(nibbles@, target),
{
    let leading = leading_run(nibbles, target);
    if leading < 10 {
        return ScoreBreakdownZeros {
            total_score: 0,
            leading_zero_count: leading,
            extra_leading_zero_count: 0,
            other_zero_count: 0,
        };
    }
    let extra = leading - 10;
    let other = count_in_range(nibbles, leading, target);
    let total: i32 = 500 + 300 * (extra as i32) + 25 * (other as i32);
    ScoreBreakdownZeros {
        total_score: total,
        leading_zero_count: leading,
        extra_leading_zero_count: extra,
        other_zero_count: other,
    }
}

/// Computes the composite-prefix score of a 40-nibble sequence.
pub fn composite_prefix_score(nibbles: &Vec<u8>) -> (s: i32)
    requires
        nibbles@.len() == NIBBLE_COUNT,
    ensures
        s == composite_score_of(nibbles@),
{
    let leading = leading_run(nibbles, 0x0);
    if leading < 6 {
        return 0;
    }
    let run = run_from(nibbles, leading, 0xb);
    let mut score: i32 = 50;
    if run >= 4 {
        score += 200 + 400 + 250 * ((run - 4) as i32);
    } else if run > 0 {
        score += 25 * (run as i32);
    }
    let rest = count_in_range(nibbles, leading + run, 0xb);
    score += 15 * (rest as i32);
    score
}

/// Computes the ungated additive score of a 40-nibble sequence.
pub fn ungated_additive_score(nibbles: &Vec<u8>) -> (s: i32)
    requires
        nibbles@.len() == NIBBLE_COUNT,
    ensures
        s == additive_score_of(nibbles@),
{
    let leading = leading_run(nibbles, 0x0);
    let mut pattern: Vec<u8> = Vec::new();
    pattern.push(0xb);
    pattern.push(0xb);
    pattern.push(0xb);
    pattern.push(0xb);
    proof {
        assert(pattern@ =~= quad_b());
    }
    let mut score: i32 = 10 * (leading as i32);
    if matches_at(nibbles, leading, &pattern) {
        score += 40;
        if leading + 4 < nibbles.len() && nibbles[leading + 4] != 0xb {
            score += 20;
        }
    }
    if matches_suffix(nibbles, &pattern) {
        score += 20;
    }
    let all = count_in_range(nibbles, 0, 0xb);
    proof {
        assert(nibbles@.skip(0) =~= nibbles@);
    }
    score += all as i32;
    score
}

/// Scores a candidate address under the selected policy. Only a 20-byte
/// address is valid; any other length is rejected with
/// `InvalidAddressLength` before any scanning.
pub fn score(address: &[u8], policy: Policy) -> (r: Result<i32, ScoreError>)
    ensures
        address@.len() == ADDRESS_BYTES ==> (r matches Ok(s) && s == policy_score_of(
            policy,
            nibbles_of(address@),
        )),
        address@.len() != ADDRESS_BYTES ==> (r matches Err(e) && e
            == ScoreError::InvalidAddressLength),
{
    let nibbles = match decode_nibbles(address) {
        Ok(n) => n,
        Err(e) => {
            return Err(e);
        },
    };
    match policy {
        Policy::GateTargetB => Ok(gate_breakdown(&nibbles, 0xb).total_score),
        Policy::GateTargetZero => Ok(gate_breakdown(&nibbles, 0x0).total_score),
        Policy::CompositePrefix => Ok(composite_prefix_score(&nibbles)),
        Policy::UngatedAdditive => Ok(ungated_additive_score(&nibbles)),
    }
}

/// Scores a candidate address under the single-target gate policy for the
/// given target nibble and reports the full diagnostic breakdown. Only a
/// 20-byte address is valid.
pub fn score_gate_address(address: &[u8], target: u8) -> (r: Result<
    ScoreBreakdownZeros,
    ScoreError,
>)
    ensures
        address@.len() == ADDRESS_BYTES ==> (r matches Ok(b) && b.total_score == gate_score_of(
            nibbles_of(address@),
            target,
        ) && b.leading_zero_count == leading_run_of(nibbles_of(address@), target)
            && b.extra_leading_zero_count == gate_extra_of(nibbles_of(address@), target)
            && b.other_zero_count == gate_other_of(nibbles_of(address@), target)),
        address@.len() != ADDRESS_BYTES ==> (r matches Err(e) && e
            == ScoreError::InvalidAddressLength),
{
    let nibbles = match decode_nibbles(address) {
        Ok(n) => n,
        Err(e) => {
            return Err(e);
        },
    };
    Ok(gate_breakdown(&nibbles, target))
}

/// Scores a candidate address under the historical zero-target gate policy
/// and reports the full diagnostic breakdown. Only a 20-byte address is
/// valid.
pub fn score_address(address: &[u8]) -> (r: Result<ScoreBreakdownZeros, ScoreError>)
    ensures
        address@.len() == ADDRESS_BYTES ==> (r matches Ok(b) && b.total_score == gate_score_of(
            nibbles_of(address@),
            0x0,
        ) && b.leading_zero_count == leading_run_of(nibbles_of(address@), 0x0)
            && b.extra_leading_zero_count == gate_extra_of(nibbles_of(address@), 0x0)
            && b.other_zero_count == gate_other_of(nibbles_of(address@), 0x0)),
        address@.len() != ADDRESS_BYTES ==> (r matches Err(e) && e
            == ScoreError::InvalidAddressLength),
{
    score_gate_address(address, 0x0)
}

/// Determinism: the score is a function of the input bytes and the selected
/// policy alone, so any two evaluations of the same address under the same
/// policy yield the same score.
pub proof fn lemma_score_deterministic(policy: Policy, bytes: Seq<u8>, s1: int, s2: int)
    requires
        s1 == policy_score_of(policy, nibbles_of(bytes)),
        s2 == policy_score_of(policy, nibbles_of(bytes)),
    ensures
        s1 == s2,
{
}

/// Gate rejection: an address whose first ten nibbles are not uniformly the
/// target — witnessed by one mismatching nibble among them — scores 0, with
/// zero extra and other counts, regardless of the rest of the address.
pub proof fn lemma_gate_rejects_broken_prefix(seq: Seq<u8>, target: u8, j: int)
    requires
        seq.len() == NIBBLE_COUNT,
        0 <= j < 10,
        seq[j] != target,
    ensures
        leading_run_of(seq, target) < 10,
        gate_score_of(seq, target) == 0,
        gate_extra_of(seq, target) == 0,
        gate_other_of(seq, target) == 0,
{
    lemma_leading_run_bounds(seq, target);
    if leading_run_of(seq, target) >= 10 {
        assert(seq[j] == target);
    }
}

/// Gate monotonicity: extending the leading run by one further target
/// nibble, while the run stays above the threshold and every nibble past
/// the extended run is held fixed, raises the score by exactly the
/// extra-weight of 300.
pub proof fn lemma_gate_extra_nibble_raises_score(s1: Seq<u8>, s2: Seq<u8>, target: u8)
    requires
        s1.len() == s2.len(),
        leading_run_of(s1, target) >= 10,
        leading_run_of(s2, target) == leading_run_of(s1, target) + 1,
        s2.skip(leading_run_of(s1, target) + 1) == s1.skip(leading_run_of(s1, target) + 1),
    ensures
        gate_score_of(s2, target) == gate_score_of(s1, target) + 300,
{
    let l = leading_run_of(s1, target);
    lemma_leading_run_bounds(s1, target);
    lemma_leading_run_bounds(s2, target);
    crate::scanner::lemma_count_step(s1, l, target);
    assert(s1[l] != target);
    assert(count_matching(s1.skip(l), target) == count_matching(s1.skip(l + 1), target));
    assert(count_matching(s2.skip(l + 1), target) == count_matching(s1.skip(l + 1), target));
}

/// Gate threshold boundary: an address whose leading run equals the
/// threshold exactly earns the base score of 500 with zero extra-bonus
/// contribution; only the other-count term of 25 per later target nibble
/// can add to it.
pub proof fn lemma_gate_threshold_boundary(seq: Seq<u8>, target: u8)
    requires
        seq.len() == NIBBLE_COUNT,
        leading_run_of(seq, target) == 10,
    ensures
        gate_extra_of(seq, target) == 0,
        gate_score_of(seq, target) == 500 + 25 * count_matching(seq.skip(10), target),
        count_matching(seq.skip(10), target) == 0 ==> gate_score_of(seq, target) == 500,
{
}

} // verus!
