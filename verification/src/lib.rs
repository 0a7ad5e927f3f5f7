//! The decision core of an event-driven actor harness.

pub mod agent_def;
pub mod bus;
pub mod cli;
pub mod config;
pub mod decode;
pub mod error;
pub mod harness;
pub mod identity;
pub mod json;
pub mod model;
pub mod paths;
pub mod queue;
pub mod repo;
pub mod rows;
pub mod runlog;
pub mod runtime;
pub mod sandbox;
pub mod secrets;
pub mod sensor;
pub mod sources;
pub mod state;
pub mod state_prompt;
pub mod stimuli;
pub mod strmap;
pub mod text;
pub mod webserver;
