use atomic_calc::readers::{prompt_sigfigs, read_i32, read_string, read_usize, InputError};

#[test]
fn strings_are_trimmed() {
    assert_eq!(read_string("  He \n"), "He");
    assert_eq!(read_string("\t\u{3000}Na\u{a0}"), "Na");
    assert_eq!(read_string("   "), "");
    assert_eq!(read_string("a b"), "a b");
}

#[test]
fn signed_integers_are_read() {
    assert_eq!(read_i32("42\n"), Ok(42));
    assert_eq!(read_i32(" -7 "), Ok(-7));
    assert_eq!(read_i32("+3"), Ok(3));
    assert_eq!(read_i32("007"), Ok(7));
    assert_eq!(read_i32("2147483647"), Ok(i32::MAX));
    assert_eq!(read_i32("-2147483648"), Ok(i32::MIN));
}

#[test]
fn malformed_integers_are_rejected() {
    assert_eq!(read_i32("2147483648"), Err(InputError::NotANumber));
    assert_eq!(read_i32("-2147483649"), Err(InputError::NotANumber));
    assert_eq!(read_i32(""), Err(InputError::NotANumber));
    assert_eq!(read_i32("-"), Err(InputError::NotANumber));
    assert_eq!(read_i32("+"), Err(InputError::NotANumber));
    assert_eq!(read_i32("1.5"), Err(InputError::NotANumber));
    assert_eq!(read_i32("abc"), Err(InputError::NotANumber));
    assert_eq!(read_i32("--1"), Err(InputError::NotANumber));
}

#[test]
fn unsigned_integers_are_read() {
    assert_eq!(read_usize("12"), Ok(12));
    assert_eq!(read_usize("+12"), Ok(12));
    assert_eq!(read_usize("-0"), Err(InputError::NotANumber));
    assert_eq!(read_usize("18446744073709551615"), Ok(usize::MAX));
    assert_eq!(read_usize("18446744073709551616"), Err(InputError::NotANumber));
}

#[test]
fn significant_figures_become_precision() {
    assert_eq!(prompt_sigfigs("4"), Ok(3));
    assert_eq!(prompt_sigfigs("1"), Ok(0));
    assert_eq!(prompt_sigfigs("0"), Err(InputError::NoSignificantFigures));
    assert_eq!(prompt_sigfigs("x"), Err(InputError::NotANumber));
}
