//! The liquidator's decisions: which accounts are eligible, which positions
//! to liquidate and what a liquidation would move.
pub mod accounts;
pub mod check;
pub mod config;
pub mod error;
pub mod info;
pub mod simulation;
pub mod planning;
