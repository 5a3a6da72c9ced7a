use create2crunch::scanner::{count_in_range, leading_run, matches_at, matches_suffix, run_from};
use create2crunch::{decode_nibbles, score, score_address, score_gate_address, Policy, ScoreError};

fn padded(prefix: &[u8], fill: u8) -> Vec<u8> {
    let mut v = prefix.to_vec();
    while v.len() < 20 {
        v.push(fill);
    }
    v
}

#[test]
fn decoder_splits_bytes_most_significant_first() {
    let addr = padded(&[0x12, 0xAB], 0x00);
    let nibbles = decode_nibbles(&addr).unwrap();
    assert_eq!(nibbles.len(), 40);
    assert_eq!(nibbles[0], 0x1);
    assert_eq!(nibbles[1], 0x2);
    assert_eq!(nibbles[2], 0xA);
    assert_eq!(nibbles[3], 0xB);
    assert_eq!(nibbles[39], 0x0);
}

#[test]
fn decoder_rejects_wrong_lengths() {
    assert_eq!(
        decode_nibbles(&[0u8; 19]).unwrap_err(),
        ScoreError::InvalidAddressLength
    );
    assert_eq!(
        decode_nibbles(&[0u8; 21]).unwrap_err(),
        ScoreError::InvalidAddressLength
    );
    assert_eq!(
        decode_nibbles(&[]).unwrap_err(),
        ScoreError::InvalidAddressLength
    );
}

#[test]
fn scanner_leading_run() {
    assert_eq!(leading_run(&vec![7, 7, 7, 2, 7], 7), 3);
    assert_eq!(leading_run(&vec![2, 7, 7], 7), 0);
    assert_eq!(leading_run(&vec![], 7), 0);
    assert_eq!(leading_run(&vec![7, 7], 7), 2);
}

#[test]
fn scanner_run_from() {
    assert_eq!(run_from(&vec![1, 7, 7, 2], 1, 7), 2);
    assert_eq!(run_from(&vec![1, 7, 7, 2], 4, 7), 0);
    assert_eq!(run_from(&vec![1, 7, 7], 0, 7), 0);
}

#[test]
fn scanner_count_in_range() {
    assert_eq!(count_in_range(&vec![5, 7, 5, 7, 7], 1, 7), 3);
    assert_eq!(count_in_range(&vec![5, 7, 5, 7, 7], 2, 7), 2);
    assert_eq!(count_in_range(&vec![5, 7, 5, 7, 7], 5, 7), 0);
    assert_eq!(count_in_range(&vec![5, 5], 0, 7), 0);
}

#[test]
fn scanner_matches_at() {
    assert_eq!(matches_at(&vec![1, 2, 3], 2, &vec![3]), true);
    assert_eq!(matches_at(&vec![1, 2, 3], 0, &vec![1, 2]), true);
    assert_eq!(matches_at(&vec![1, 2, 3], 1, &vec![1, 2]), false);
    assert_eq!(matches_at(&vec![1, 2, 3], 2, &vec![3, 4]), false);
    assert_eq!(matches_at(&vec![1, 2, 3], 9, &vec![3]), false);
}

#[test]
fn scanner_matches_suffix() {
    assert_eq!(matches_suffix(&vec![1, 2, 3, 4], &vec![3, 4]), true);
    assert_eq!(matches_suffix(&vec![1, 2, 3, 4], &vec![2, 4]), false);
    assert_eq!(matches_suffix(&vec![1, 2], &vec![1, 2, 3]), false);
}

#[test]
fn score_is_deterministic() {
    let addr = padded(&[0xBB, 0xBB, 0xBB, 0xBB, 0xBB, 0x12], 0x34);
    for policy in [
        Policy::GateTargetB,
        Policy::GateTargetZero,
        Policy::CompositePrefix,
        Policy::UngatedAdditive,
    ] {
        let first = score(&addr, policy).unwrap();
        let second = score(&addr, policy).unwrap();
        assert_eq!(first, second);
    }
    assert_eq!(
        score_address(&addr).unwrap(),
        score_address(&addr).unwrap()
    );
}

#[test]
fn gate_b_at_threshold_earns_exactly_the_base() {
    let addr = padded(&[0xBB, 0xBB, 0xBB, 0xBB, 0xBB], 0x00);
    let b = score_gate_address(&addr, 0xb).unwrap();
    assert_eq!(b.leading_zero_count, 10);
    assert_eq!(b.extra_leading_zero_count, 0);
    assert_eq!(b.other_zero_count, 0);
    assert_eq!(b.total_score, 500);
    assert_eq!(score(&addr, Policy::GateTargetB).unwrap(), 500);
}

#[test]
fn gate_b_twelve_leading_nibbles() {
    let addr = padded(&[0xBB, 0xBB, 0xBB, 0xBB, 0xBB, 0xBB], 0x00);
    let b = score_gate_address(&addr, 0xb).unwrap();
    assert_eq!(b.leading_zero_count, 12);
    assert_eq!(b.extra_leading_zero_count, 2);
    assert_eq!(b.other_zero_count, 0);
    assert_eq!(b.total_score, 1100);
}

#[test]
fn gate_rejects_any_broken_prefix() {
    let first_off = padded(&[0xAB], 0xBB);
    let b = score_gate_address(&first_off, 0xb).unwrap();
    assert_eq!(b.total_score, 0);
    assert_eq!(b.leading_zero_count, 0);
    assert_eq!(b.extra_leading_zero_count, 0);
    assert_eq!(b.other_zero_count, 0);

    let nine_leading = padded(&[0xBB, 0xBB, 0xBB, 0xBB, 0xB0], 0xBB);
    let b = score_gate_address(&nine_leading, 0xb).unwrap();
    assert_eq!(b.leading_zero_count, 9);
    assert_eq!(b.total_score, 0);
    assert_eq!(b.extra_leading_zero_count, 0);
    assert_eq!(b.other_zero_count, 0);
}

#[test]
fn gate_zero_breakdown_of_the_historical_scorer() {
    let at_threshold = padded(&[0x00, 0x00, 0x00, 0x00, 0x00], 0x11);
    let b = score_address(&at_threshold).unwrap();
    assert_eq!(b.leading_zero_count, 10);
    assert_eq!(b.extra_leading_zero_count, 0);
    assert_eq!(b.other_zero_count, 0);
    assert_eq!(b.total_score, 500);

    let all_zero = [0u8; 20];
    let b = score_address(&all_zero).unwrap();
    assert_eq!(b.leading_zero_count, 40);
    assert_eq!(b.extra_leading_zero_count, 30);
    assert_eq!(b.other_zero_count, 0);
    assert_eq!(b.total_score, 9500);

    let below = padded(&[0x10], 0x00);
    let b = score_address(&below).unwrap();
    assert_eq!(b.leading_zero_count, 0);
    assert_eq!(b.total_score, 0);
}

#[test]
fn gate_zero_counts_zeroes_after_the_run() {
    let addr = padded(&[0x00, 0x00, 0x00, 0x00, 0x00, 0x01], 0x11);
    let b = score_address(&addr).unwrap();
    assert_eq!(b.leading_zero_count, 11);
    assert_eq!(b.extra_leading_zero_count, 1);
    assert_eq!(b.other_zero_count, 0);
    assert_eq!(b.total_score, 800);

    let addr = padded(&[0x00, 0x00, 0x00, 0x00, 0x00, 0x11, 0x01], 0x11);
    let b = score_address(&addr).unwrap();
    assert_eq!(b.leading_zero_count, 10);
    assert_eq!(b.extra_leading_zero_count, 0);
    assert_eq!(b.other_zero_count, 1);
    assert_eq!(b.total_score, 525);
}

#[test]
fn gate_with_any_target_nibble() {
    let addr = padded(&[0x77, 0x77, 0x77, 0x77, 0x77], 0x00);
    let b = score_gate_address(&addr, 0x7).unwrap();
    assert_eq!(b.leading_zero_count, 10);
    assert_eq!(b.total_score, 500);
}

#[test]
fn one_more_leading_nibble_adds_the_extra_weight() {
    let ten = padded(&[0xBB, 0xBB, 0xBB, 0xBB, 0xBB], 0x00);
    let eleven = padded(&[0xBB, 0xBB, 0xBB, 0xBB, 0xBB, 0xB0], 0x00);
    let s10 = score(&ten, Policy::GateTargetB).unwrap();
    let s11 = score(&eleven, Policy::GateTargetB).unwrap();
    assert_eq!(s10, 500);
    assert_eq!(s11, 800);
    assert_eq!(s11 - s10, 300);
}

#[test]
fn composite_prefix_with_a_quad_run() {
    let addr = padded(&[0x00, 0x00, 0x00, 0xBB, 0xBB, 0x12, 0x34, 0x56], 0x12);
    assert_eq!(score(&addr, Policy::CompositePrefix).unwrap(), 650);
}

#[test]
fn composite_prefix_with_a_short_run() {
    let addr = padded(&[0x00, 0x00, 0x00, 0xB1], 0x11);
    assert_eq!(score(&addr, Policy::CompositePrefix).unwrap(), 75);
}

#[test]
fn composite_prefix_with_a_long_run_and_stray_nibbles() {
    let addr = padded(&[0x00, 0x00, 0x00, 0xBB, 0xBB, 0xBB], 0x11);
    assert_eq!(score(&addr, Policy::CompositePrefix).unwrap(), 1150);

    let mut with_stray = padded(&[0x00, 0x00, 0x00, 0xBB, 0xBB, 0xBB], 0x11);
    with_stray[19] = 0x0B;
    assert_eq!(score(&with_stray, Policy::CompositePrefix).unwrap(), 1165);
}

#[test]
fn composite_prefix_rejects_a_short_zero_prefix() {
    let addr = padded(&[0x00, 0x00, 0x0B], 0xBB);
    assert_eq!(score(&addr, Policy::CompositePrefix).unwrap(), 0);
}

#[test]
fn additive_all_zero_address() {
    let addr = [0u8; 20];
    assert_eq!(score(&addr, Policy::UngatedAdditive).unwrap(), 400);
}

#[test]
fn additive_suffix_quad_is_also_counted_globally() {
    let mut addr = padded(&[0x12, 0x34], 0x11);
    addr[18] = 0xBB;
    addr[19] = 0xBB;
    assert_eq!(score(&addr, Policy::UngatedAdditive).unwrap(), 24);
}

#[test]
fn additive_prefix_quad_with_break_bonus() {
    let addr = padded(&[0x00, 0xBB, 0xBB, 0x12], 0x11);
    assert_eq!(score(&addr, Policy::UngatedAdditive).unwrap(), 84);
}

#[test]
fn additive_prefix_quad_followed_by_another_b() {
    let addr = padded(&[0x00, 0xBB, 0xBB, 0xB1], 0x11);
    assert_eq!(score(&addr, Policy::UngatedAdditive).unwrap(), 65);
}

#[test]
fn every_policy_rejects_wrong_lengths() {
    let short = [0u8; 19];
    let long = [0u8; 21];
    for policy in [
        Policy::GateTargetB,
        Policy::GateTargetZero,
        Policy::CompositePrefix,
        Policy::UngatedAdditive,
    ] {
        assert_eq!(
            score(&short, policy).unwrap_err(),
            ScoreError::InvalidAddressLength
        );
        assert_eq!(
            score(&long, policy).unwrap_err(),
            ScoreError::InvalidAddressLength
        );
    }
    assert_eq!(
        score_address(&short).unwrap_err(),
        ScoreError::InvalidAddressLength
    );
    assert_eq!(
        score_address(&long).unwrap_err(),
        ScoreError::InvalidAddressLength
    );
    assert_eq!(
        score_gate_address(&short, 0xb).unwrap_err(),
        ScoreError::InvalidAddressLength
    );
    assert_eq!(
        score_gate_address(&long, 0xb).unwrap_err(),
        ScoreError::InvalidAddressLength
    );
}
