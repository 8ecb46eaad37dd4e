//! The name service: answers AAAA queries with synthetic addresses.

pub mod handler;
pub mod message;
pub mod server;
