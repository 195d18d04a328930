//! Desired quote volumes and spreads.
use vstd::prelude::*;
use crate::fixed_point::Fixed;

verus! {

/// Represents information about desired quote volumes.
#[derive(Clone, Copy, Debug, PartialEq, Eq, Structural)]
pub struct QuoteVolumes {
    pub delta: Fixed,
    pub bid_size: Fixed,
    pub ask_size: Fixed,
}

/// Represents information about a spread.
#[derive(Clone, Copy, Debug, PartialEq, Eq, Structural)]
pub struct SpreadInfo {
    pub oracle_price: Fixed,
    pub bid: Fixed,
    pub ask: Fixed,
}

} // verus!
