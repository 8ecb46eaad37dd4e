//! The daemon's decisions: loading the data plane and keeping its domain map in step with
//! the database.

pub mod interface;
pub mod listener;
pub mod loader;
pub mod sync;
