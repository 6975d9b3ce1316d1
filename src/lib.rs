//! Genesis state import: validates snapshot entries per table kind, stages them in a
//! transaction over the node's store, and commits the whole run at once or not at all.

pub mod entities;
pub mod table;
pub mod transaction;
pub mod handlers;
pub mod workers;
pub mod laws;
