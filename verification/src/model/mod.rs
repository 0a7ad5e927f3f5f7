//! The data that moves through the harness: the stimulus that wakes it, the baton that
//! crosses from one state to the next, what the agent returns, and the record of a run.

pub mod baton;
pub mod proposal;
pub mod runlog;
pub mod stimulus;
