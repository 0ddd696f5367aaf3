use atomic_calc::transition::{calculate_electronic_transition_energy, DomainError, TransitionEnergy};

#[test]
fn transition_down_releases_energy() {
    // RYDBERG * (1/1 - 1/4) = -2178 * 3/4 zJ
    let e = calculate_electronic_transition_energy(1, 2).unwrap();
    assert_eq!(e, TransitionEnergy { numerator: -6534, denominator: 4 });
    assert!(e.numerator < 0);
}

#[test]
fn transition_from_two_to_one() {
    // RYDBERG * (1/4 - 1/1) = -2178 * (-3/4) zJ, which is positive
    let e = calculate_electronic_transition_energy(2, 1).unwrap();
    assert_eq!(e, TransitionEnergy { numerator: 6534, denominator: 4 });
    let joules = e.numerator as f64 / e.denominator as f64 * 1e-21;
    assert!((joules - 1.6335e-18).abs() < 1e-30);
}

#[test]
fn equal_levels_release_nothing() {
    let e = calculate_electronic_transition_energy(3, 3).unwrap();
    assert_eq!(e.numerator, 0);
    assert_eq!(e.denominator, 81);
}

#[test]
fn non_positive_levels_are_domain_errors() {
    assert_eq!(calculate_electronic_transition_energy(0, 1), Err(DomainError::NonPositiveLevel));
    assert_eq!(calculate_electronic_transition_energy(2, 0), Err(DomainError::NonPositiveLevel));
    assert_eq!(calculate_electronic_transition_energy(-1, 3), Err(DomainError::NonPositiveLevel));
}

#[test]
fn largest_levels_do_not_overflow() {
    let e = calculate_electronic_transition_energy(i32::MAX, 1).unwrap();
    let n2 = (i32::MAX as i128) * (i32::MAX as i128);
    assert_eq!(e.numerator, -2178 * (1 - n2));
    assert_eq!(e.denominator, n2 as u128);
}
