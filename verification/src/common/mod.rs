//! Components shared by the market maker and the liquidator.
pub mod orders;
pub mod order_manager;
pub mod layers;
pub mod inventory;
pub mod maker;
pub mod oracle;
pub mod hedger;
pub mod identifier;
pub mod info;
pub mod context;
pub mod runner;
