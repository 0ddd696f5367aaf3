use atomic_calc::configuration::{electron_configuration, get_electron_configuration};
use atomic_calc::elements::atomic_number;

#[test]
fn test_electron_configuration() {
    assert_eq!(get_electron_configuration("H"), Some(String::from("1s1")));
    assert_eq!(get_electron_configuration("He"), Some(String::from("1s2")));
    assert_eq!(get_electron_configuration("Li"), Some(String::from("1s2 2s1")));
    assert_eq!(get_electron_configuration("Be"), Some(String::from("1s2 2s2")));
    assert_eq!(get_electron_configuration("B"), Some(String::from("1s2 2s2 2p1")));
    assert_eq!(get_electron_configuration("C"), Some(String::from("1s2 2s2 2p2")));
    assert_eq!(get_electron_configuration("N"), Some(String::from("1s2 2s2 2p3")));
    assert_eq!(get_electron_configuration("O"), Some(String::from("1s2 2s2 2p4")));
    assert_eq!(get_electron_configuration("F"), Some(String::from("1s2 2s2 2p5")));
    assert_eq!(get_electron_configuration("Ne"), Some(String::from("1s2 2s2 2p6")));
    assert_eq!(get_electron_configuration("Na"), Some(String::from("1s2 2s2 2p6 3s1")));
    assert_eq!(get_electron_configuration("Mg"), Some(String::from("1s2 2s2 2p6 3s2")));
    assert_eq!(get_electron_configuration("Al"), Some(String::from("1s2 2s2 2p6 3s2 3p1")));
    assert_eq!(get_electron_configuration("Si"), Some(String::from("1s2 2s2 2p6 3s2 3p2")));
    assert_eq!(get_electron_configuration("P"), Some(String::from("1s2 2s2 2p6 3s2 3p3")));
    assert_eq!(get_electron_configuration("S"), Some(String::from("1s2 2s2 2p6 3s2 3p4")));
}

#[test]
fn unknown_element_is_reported() {
    assert_eq!(get_electron_configuration("Xx"), None);
    assert_eq!(get_electron_configuration(""), None);
    assert_eq!(get_electron_configuration("h"), None);
    assert_eq!(get_electron_configuration("Heli"), None);
}

#[test]
fn symbols_give_atomic_numbers() {
    assert_eq!(atomic_number("H"), Some(1));
    assert_eq!(atomic_number("S"), Some(16));
    assert_eq!(atomic_number("Fe"), Some(26));
    assert_eq!(atomic_number("Og"), Some(118));
    assert_eq!(atomic_number("Xx"), None);
}

#[test]
fn naive_filling_beyond_argon() {
    assert_eq!(electron_configuration(18), "1s2 2s2 2p6 3s2 3p6");
    // level 3 takes its d subshell before level 4 begins
    assert_eq!(electron_configuration(19), "1s2 2s2 2p6 3s2 3p6 3d1");
    assert_eq!(electron_configuration(28), "1s2 2s2 2p6 3s2 3p6 3d10");
    assert_eq!(electron_configuration(29), "1s2 2s2 2p6 3s2 3p6 3d10 4s1");
    assert_eq!(
        electron_configuration(60),
        "1s2 2s2 2p6 3s2 3p6 3d10 4s2 4p6 4d10 4f14"
    );
    assert_eq!(
        get_electron_configuration("Og"),
        Some(String::from("1s2 2s2 2p6 3s2 3p6 3d10 4s2 4p6 4d10 4f14 5s2 5p6 5d10 5f14 6s2 6p6 6d10 6f8"))
    );
}

#[test]
fn zero_electrons_give_empty_configuration() {
    assert_eq!(electron_configuration(0), "");
}
