//! The liquidator's configuration.
use vstd::prelude::*;

verus! {

/// The liquidator's settings.
#[derive(Debug, Clone, Copy, PartialEq, Eq, Structural)]
pub struct LiquidatorConfig {
    /// Whether the liquidator rebalances what it receives.
    pub rebalance: bool,
}

impl Default for LiquidatorConfig {
    /// No rebalancing.
    fn default() -> (r: Self)
        ensures
            !r.rebalance,
    {
        LiquidatorConfig { rebalance: false }
    }
}

} // verus!
