//! Order-placement, order-tracking and liquidation logic of the cypher
//! command line utilities, with its fixed-point arithmetic, stated and
//! proved with Verus.
use vstd::prelude::*;

pub mod address;
pub mod cli;
pub mod common;
pub mod config;
pub mod fixed_point;
pub mod liquidator;
pub mod seq_util;

verus! {

} // verus!
