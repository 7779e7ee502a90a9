//! The store node: its inventory and its delivery workers.

pub mod messages;
pub mod orders_processor;
pub mod product;
pub mod store;
pub mod store_server;
