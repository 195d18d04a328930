//! Liquidator errors.
use vstd::prelude::*;

verus! {

/// Errors of the liquidator. Errors raised by the client libraries carry
/// their message.
#[derive(Debug)]
pub enum Error {
    /// An RPC client error.
    ClientError(String),
    /// An error of the on-chain program's framework.
    AnchorError(String),
    /// A program error.
    ProgramError(String),
    /// The liquidator's own collateral ratio is below the initialization ratio.
    LiquidatorCRatio,
    /// An unrecognized account was received.
    UnrecognizedAccount,
}

} // verus!
