use euphoria::decay::{linear_crossing_ms, linear_decay, next_level, Decay, EPSILON, FULL_SCALE};

#[test]
fn linear_literal_half_way() {
    assert_eq!(linear_decay(FULL_SCALE, 2000, 4000), Some(500_000_000));
}

#[test]
fn linear_literal_reaches_off() {
    assert_eq!(linear_decay(FULL_SCALE, 4000, 4000), None);
    assert_eq!(linear_decay(FULL_SCALE, 5000, 4000), None);
}

#[test]
fn linear_decay_zero_elapsed_keeps_level() {
    assert_eq!(linear_decay(123_456, 0, 4000), Some(123_456));
}

#[test]
fn linear_decay_exact_drop() {
    // 3 s of a 2 s law shed one and a half full scales.
    assert_eq!(linear_decay(2 * FULL_SCALE, 3000, 2000), Some(500_000_000));
    // One unit remains just before the end.
    assert_eq!(linear_decay(FULL_SCALE + 1, 4000, 4000), Some(1));
}

#[test]
fn linear_composes_within_one_unit() {
    let cases: [(u64, u64, u64, u64); 5] = [
        (FULL_SCALE, 1000, 1000, 4000),
        (777_777_777, 333, 667, 3000),
        (FULL_SCALE, 1, 2, 3),
        (5, 1, 1, 3_000_000_000),
        (FULL_SCALE, 2500, 2500, 4000),
    ];
    for (v, a, b, d) in cases {
        let two = linear_decay(v, a, d).and_then(|x| linear_decay(x, b, d)).unwrap_or(0);
        let one = linear_decay(v, a + b, d).unwrap_or(0);
        assert!(one <= two && two <= one + 1, "{v} {a} {b} {d}: {one} vs {two}");
    }
}

#[test]
fn quantization_crossing_literal() {
    assert_eq!(next_level(950_000_000, 10), 9);
    assert_eq!(linear_crossing_ms(950_000_000, 10, 10_000), 500);
}

#[test]
fn next_level_on_exact_level_goes_one_down() {
    assert_eq!(next_level(900_000_000, 10), 8);
    assert_eq!(next_level(FULL_SCALE, 10), 9);
    assert_eq!(next_level(1, 10), 0);
}

#[test]
fn linear_crossing_rounds_up() {
    // One third of a level of a 3-step actuator under a 1 s law: 111.1 ms.
    assert_eq!(next_level(FULL_SCALE / 9 * 4, 3), 1);
    assert_eq!(linear_crossing_ms(FULL_SCALE, 3, 1000), 334);
}

#[test]
fn decay_law_validity() {
    assert!(Decay::Linear(1).is_valid());
    assert!(Decay::HalfLife(1000).is_valid());
    assert!(!Decay::Linear(0).is_valid());
    assert!(!Decay::HalfLife(0).is_valid());
    assert_eq!(EPSILON, 10);
}

#[test]
fn waiting_the_wake_delay_reaches_the_next_level() {
    let v = 950_000_000;
    let delay = linear_crossing_ms(v, 10, 10_000) + 1;
    let after = linear_decay(v, delay, 10_000).unwrap();
    assert_eq!(after, 899_900_000);
    assert!(after * 10 <= (next_level(v, 10) as u64) * FULL_SCALE);
}
