//! A deterministic execution engine for actor messages over a journaled state
//! tree, with metered gas, bounded call depth and atomic rollback of failed calls.

pub mod blockstore;
pub mod call_manager;
pub mod config;
pub mod content_id;
pub mod executor;
pub mod externs;
pub mod gas;
pub mod kernel;
pub mod laws;
pub mod machine;
pub mod state_tree;

pub use config::Config;
