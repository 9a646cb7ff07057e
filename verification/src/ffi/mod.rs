//! Plain-value parts of the foreign-function bindings: configuration
//! selectors and the opaque model handles.

pub mod config;
pub mod models;
pub mod pool;
pub mod txn;
