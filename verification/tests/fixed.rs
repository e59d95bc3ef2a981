use ccp_copa::fixed::{Delta, FIXED_ONE};

#[test]
fn one_half_has_reciprocal_two() {
    let d = Delta::from_ratio(1, 2).unwrap();
    assert_eq!(d.inverse_scaled(), 2 * FIXED_ONE);
    assert_eq!(d.inverse_scaled(), 131072);
    assert_eq!(d, Delta::half());
    assert!(d.is_at_most_one());
}

#[test]
fn ratio_rounds_the_reciprocal_down() {
    // 1/δ = 3/2 · 65536 = 98304 exactly, and 1/δ = 1/3 · 65536 = 21845.33..
    assert_eq!(Delta::from_ratio(2, 3).unwrap().inverse_scaled(), 98304);
    assert_eq!(Delta::from_ratio(3, 1).unwrap().inverse_scaled(), 21845);
    assert!(!Delta::from_ratio(3, 1).unwrap().is_at_most_one());
    assert!(Delta::from_ratio(1, 1).unwrap().is_at_most_one());
}

#[test]
fn no_delta_without_a_positive_reciprocal() {
    assert_eq!(Delta::from_inverse(0), None);
    assert_eq!(Delta::from_ratio(0, 5), None);
    assert_eq!(Delta::from_ratio(5, 0), None);
    // 1/δ = 1/65537 rounds down to no unit at all.
    assert_eq!(Delta::from_ratio(65537, 1), None);
    assert_eq!(Delta::from_ratio(65536, 1).unwrap().inverse_scaled(), 1);
}

#[test]
fn from_inverse_keeps_the_reciprocal() {
    let d = Delta::from_inverse(12345).unwrap();
    assert_eq!(d.inverse_scaled(), 12345);
    assert!(!d.is_at_most_one());
    assert!(Delta::from_inverse(65536).unwrap().is_at_most_one());
    assert!(!Delta::from_inverse(65535).unwrap().is_at_most_one());
}

#[test]
fn doubling_halves_the_reciprocal() {
    let d = Delta::from_inverse(8 * FIXED_ONE).unwrap();
    assert_eq!(d.doubled().inverse_scaled(), 4 * FIXED_ONE);
    assert_eq!(Delta::from_inverse(7).unwrap().doubled().inverse_scaled(), 3);
    // The largest δ stays where it is.
    assert_eq!(Delta::from_inverse(1).unwrap().doubled().inverse_scaled(), 1);
}

#[test]
fn stepping_down_adds_one_to_the_reciprocal() {
    let d = Delta::half();
    assert_eq!(d.stepped_down().inverse_scaled(), 3 * FIXED_ONE);
    assert_eq!(d.stepped_down(), Delta::from_ratio(1, 3).unwrap());
    // The smallest δ stays where it is.
    let tiny = Delta::from_inverse(u64::MAX - 5).unwrap();
    assert_eq!(tiny.stepped_down().inverse_scaled(), u64::MAX);
}

#[test]
fn capping_takes_the_smaller_delta() {
    let half = Delta::half();
    let quarter = Delta::from_ratio(1, 4).unwrap();
    assert_eq!(half.capped(&quarter), quarter);
    assert_eq!(quarter.capped(&half), quarter);
    assert_eq!(half.capped(&half), half);
}
