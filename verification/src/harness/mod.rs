//! The harness: everything that is decided between two calls of the model.

pub mod chain;
pub mod firebreak;
pub mod ingest;
pub mod mcp;
pub mod modules;
pub mod session;
pub mod soul;
pub mod step;
pub mod trust;
pub mod wakes;
pub mod workers;
