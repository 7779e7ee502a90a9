//! An order-fulfillment network: a dispatcher that hands purchase orders to
//! store nodes and moves rejected orders on to stores not yet tried, and the
//! stores' side, which reserves stock for an order and gives it back when a
//! delivery fails.

pub mod catalog;
pub mod decimal;
pub mod ecommerce;
mod rng;
pub mod stores;
pub mod wire;
