use vstd::prelude::*;
use crate::constants::RYDBERG_ZJ;

verus! {

/// An energy level that is not a positive integer.
#[derive(Clone, Copy, Debug, PartialEq, Eq, Structural)]
pub enum DomainError {
    NonPositiveLevel,
}

/// An energy held exactly as the fraction `numerator / denominator` of a
/// zeptojoule (1e-21 J).
#[derive(Clone, Copy, Debug, PartialEq, Eq, Structural)]
pub struct TransitionEnergy {
    pub numerator: i128,
    pub denominator: u128,
}

/// The numerator of `RYDBERG * (1/n² - 1/m²)` over the denominator `n² m²`,
/// in zeptojoules.
pub open spec fn transition_numerator(n: int, m: int) -> int {
    RYDBERG_ZJ * (m * m - n * n)
}

/// The denominator `n² m²` of the transition energy between levels `n` and `m`.
pub open spec fn transition_denominator(n: int, m: int) -> int {
    n * n * (m * m)
}

/// The energy released when an electron moves between energy levels `n`
/// and `m`: `RYDBERG * (1/n² - 1/m²)`, held exactly. Levels must be
/// positive; any other level is a domain error.
pub fn calculate_electronic_transition_energy(n: i32, m: i32) -> (r: Result<TransitionEnergy, DomainError>)
    ensures
        (n <= 0 || m <= 0) <==> r is Err,
        r is Err ==> r == Err::<TransitionEnergy, DomainError>(DomainError::NonPositiveLevel),
        r matches Ok(e) ==> e.numerator == transition_numerator(n as int, m as int)
            && e.denominator == transition_denominator(n as int, m as int),
{
    if n <= 0 || m <= 0 {
        return Err(DomainError::NonPositiveLevel);
    }
    assert(0 < n * n <= 0x4000_0000_0000_0000 && 0 < m * m <= 0x4000_0000_0000_0000)
        by (nonlinear_arith)
        requires
            0 < n <= i32::MAX,
            0 < m <= i32::MAX,
    ;
    let n2 = (n as i64) * (n as i64);
    let m2 = (m as i64) * (m as i64);
    let diff = (m2 as i128) - (n2 as i128);
    assert(-2178 * diff <= 0x1_0000_0000_0000_0000_0000 && -2178 * diff >= -0x1_0000_0000_0000_0000_0000)
        by (nonlinear_arith)
        requires
            -0x4000_0000_0000_0000 <= diff <= 0x4000_0000_0000_0000,
    ;
    let numerator = (RYDBERG_ZJ as i128) * diff;
    assert((n2 as u128) * (m2 as u128) <= 0x1000_0000_0000_0000_0000_0000_0000_0000)
        by (nonlinear_arith)
        requires
            0 < n2 <= 0x4000_0000_0000_0000,
            0 < m2 <= 0x4000_0000_0000_0000,
    ;
    let denominator = (n2 as u128) * (m2 as u128);
    Ok(TransitionEnergy { numerator, denominator })
}

/// Moving down from an outer level `m` to an inner level `n < m` releases
/// energy: the transition energy is negative. Moving up (`n > m`) gives a
/// positive value, and equal levels give zero.
pub proof fn lemma_transition_sign(n: int, m: int)
    requires
        0 < n,
        0 < m,
    ensures
        transition_denominator(n, m) > 0,
        n < m ==> transition_numerator(n, m) < 0,
        n > m ==> transition_numerator(n, m) > 0,
        n == m ==> transition_numerator(n, m) == 0,
{
    assert(n * n > 0 && m * m > 0 && n * n * (m * m) > 0) by (nonlinear_arith)
        requires
            0 < n,
            0 < m,
    ;
    assert(n < m ==> n * n < m * m) by (nonlinear_arith)
        requires
            0 < n,
            0 < m,
    ;
    assert(n > m ==> n * n > m * m) by (nonlinear_arith)
        requires
            0 < n,
            0 < m,
    ;
}

} // verus!
