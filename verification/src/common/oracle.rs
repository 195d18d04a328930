//! Where oracle prices come from, and an oracle price feed.
use vstd::prelude::*;
use crate::fixed_point::Fixed;

verus! {

/// Centralized exchange based oracle sources.
#[derive(Clone, Copy, Debug, PartialEq, Eq, Structural)]
pub enum CentralizedExchangeSource {
    Binance,
}

impl Default for CentralizedExchangeSource {
    fn default() -> (r: Self)
        ensures
            r == CentralizedExchangeSource::Binance,
    {
        Self::Binance
    }
}

/// Decentralized exchange based oracle sources.
#[derive(Clone, Copy, Debug, PartialEq, Eq, Structural)]
pub enum DecentralizedExchangeSource {
    Cypher,
}

impl Default for DecentralizedExchangeSource {
    fn default() -> (r: Self)
        ensures
            r == DecentralizedExchangeSource::Cypher,
    {
        Self::Cypher
    }
}

/// On-chain oracle sources.
#[derive(Clone, Copy, Debug, PartialEq, Eq, Structural)]
pub enum OnchainOracleSource {
    Pyth,
}

impl Default for OnchainOracleSource {
    fn default() -> (r: Self)
        ensures
            r == OnchainOracleSource::Pyth,
    {
        Self::Pyth
    }
}

/// The kind of source of an oracle price.
#[derive(Clone, Copy, Debug, PartialEq, Eq, Structural)]
pub enum OracleInfoSource {
    /// Centralized exchange.
    Cex(CentralizedExchangeSource),
    /// Decentralized exchange.
    Dex(DecentralizedExchangeSource),
    /// On-chain.
    Onchain(OnchainOracleSource),
}

impl Default for OracleInfoSource {
    fn default() -> (r: Self)
        ensures
            r == OracleInfoSource::Onchain(OnchainOracleSource::Pyth),
    {
        Self::Onchain(OnchainOracleSource::Pyth)
    }
}

/// An oracle price feed.
#[derive(Debug)]
pub struct OracleInfo {
    /// The symbol of the underlying asset this price feed represents.
    pub symbol: String,
    /// The source of this oracle info.
    pub source: OracleInfoSource,
    /// The price of the asset.
    pub price: Fixed,
    /// Timestamp of when this price feed was recorded, in milliseconds.
    pub timestamp: u128,
}

impl OracleInfo {
    /// A feed with no symbol, the default source, a zero price and time.
    pub fn empty() -> (r: OracleInfo)
        ensures
            r.symbol@.len() == 0,
            r.source == OracleInfoSource::Onchain(OnchainOracleSource::Pyth),
            r.price.val() == 0,
            r.timestamp == 0,
    {
        OracleInfo {
            symbol: String::new(),
            source: OracleInfoSource::default(),
            price: Fixed::zero(),
            timestamp: 0,
        }
    }
}

} // verus!
