//! The one-shot engine. It decides permissions by flags and has no live approval, so nothing
//! that cannot be undone runs on it.

use vstd::prelude::*;

use crate::text::owned;

verus! {

/// The one-shot engine.
#[derive(Debug)]
pub struct ClaudeCliClient {
    /// The program.
    pub binary: String,
}

impl ClaudeCliClient {
    /// The engine behind a program.
    pub fn new(binary: &str) -> (r: ClaudeCliClient)
        ensures
            r.binary@ == binary@,
    {
        ClaudeCliClient { binary: owned(binary) }
    }
}

} // verus!
