//! The record of a run. The harness writes it; the agent never does, so that an agent that
//! went wrong cannot erase the evidence.

use vstd::prelude::*;

use crate::model::baton::Baton;
use crate::model::proposal::AgentOutput;
use crate::model::stimulus::StimulusId;
use crate::state::ConsciousnessState;

verus! {

/// One decision of the wall.
#[derive(Debug)]
pub struct ToolCallRecord {
    pub tool: String,
    /// `allow`, or `deny: ` and the reason.
    pub decision: String,
    /// A clipped rendering of what the tool was called with.
    pub input: Option<String>,
}

/// What a [`ToolCallRecord`] holds.
#[verifier::ext_equal]
pub struct ToolCallV {
    pub tool: Seq<char>,
    pub decision: Seq<char>,
    pub input: Option<Seq<char>>,
}

impl View for ToolCallRecord {
    type V = ToolCallV;

    open spec fn view(&self) -> ToolCallV {
        ToolCallV { tool: self.tool@, decision: self.decision@, input: self.input.deep_view() }
    }
}

impl DeepView for ToolCallRecord {
    type V = ToolCallV;

    open spec fn deep_view(&self) -> ToolCallV {
        self@
    }
}

#[derive(Debug)]
pub enum Outcome {
    Success,
    /// Errors are entries of the same log.
    Error(String),
}

#[derive(Debug)]
pub struct RunLogEntry {
    /// The anchor that a reference points at.
    pub run_id: String,
    pub stimulus_id: StimulusId,
    pub state: ConsciousnessState,
    /// What the invocation was assembled from.
    pub context_summary: String,
    pub baton: Option<Baton>,
    /// The raw stimulus, which is written in a fence that marks it untrusted.
    pub raw_stimulus: String,
    pub tool_calls: Vec<ToolCallRecord>,
    pub output: Option<AgentOutput>,
    pub outcome: Outcome,
    pub timestamp: i64,
    /// Labels under which the entry can be recalled.
    pub tags: Vec<String>,
}

} // verus!
