//! Verified core of a replicated message log: a master stamps each posted
//! message, broadcasts it to its registered secondaries and records who
//! acknowledged it; secondaries keep what they receive keyed by timestamp.
//! The storage, HTTP and container plumbing lives in the application crate;
//! this library holds the data model and every decision made around it.

pub mod text;
pub mod model;
pub mod keys;
pub mod timeline;
pub mod clock;
pub mod broadcast;
pub mod registry;
pub mod containers;
pub mod settings;
pub mod config;
