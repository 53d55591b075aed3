//! Verified core of a heterogeneous-memory allocator front end.
pub mod jemalloc;
pub mod decimal;
pub mod env;
pub mod state;
pub mod front;
pub mod mapping;
pub mod policy;
