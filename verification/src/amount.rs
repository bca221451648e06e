//! Exact monetary quantities.
//!
//! An `Amount` counts minor units: ten-thousandths of the currency's main
//! unit, so four decimal places are representable exactly. All ledger
//! arithmetic happens on this integer representation; conversion from and
//! to decimal notation is the caller's concern.

use vstd::prelude::*;

verus! {

/// How many minor units make one main unit.
pub const MINOR_UNITS_PER_UNIT: u64 = 10000;

/// An exact, non-negative monetary quantity in minor units
/// (ten-thousandths of the main unit).
#[derive(Clone, Copy, Debug, PartialEq, Eq, Structural)]
pub struct Amount {
    pub minor: u64,
}

impl View for Amount {
    type V = int;

    open spec fn view(&self) -> int {
        self.minor as int
    }
}

impl Amount {
    /// The zero quantity.
    pub fn zero() -> (a: Amount)
        ensures
            a@ == 0,
    {
        Amount { minor: 0 }
    }

    /// An amount of `minor` minor units.
    pub fn from_minor(minor: u64) -> (a: Amount)
        ensures
            a@ == minor,
    {
        Amount { minor }
    }
}

} // verus!
