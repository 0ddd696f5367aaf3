use vstd::prelude::*;

verus! {

/// The Rydberg energy, -2.178e-18 J, in zeptojoules (1 zJ = 1e-21 J).
/// The negative sign models a binding energy.
pub const RYDBERG_ZJ: i64 = -2178;

} // verus!
