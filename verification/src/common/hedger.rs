//! The result of a hedger's pulse.
use vstd::prelude::*;

verus! {

/// Represents the result of a hedger's pulse.
#[derive(Clone, Copy, Debug, PartialEq, Eq, Structural)]
pub struct HedgerPulseResult {
    /// The size executed during the pulse: negative for sells, positive for
    /// buys.
    pub size_executed: i128,
}

} // verus!
