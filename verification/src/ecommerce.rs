//! The dispatcher: the orders it reads, the mailbox it keeps for each store,
//! and the connection that carries a mailbox's orders to its store.

pub mod assignment;
pub mod file_reader;
pub mod messages;
pub mod product;
pub mod read_stores;
pub mod shared_state;
pub mod store_connection;
