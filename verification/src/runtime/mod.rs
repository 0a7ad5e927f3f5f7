//! The seam to the model: what an invocation is made of, and the wall that every tool call
//! of the model passes.

use vstd::prelude::*;

use crate::json::Json;
use crate::state::StateSpec;
use crate::strmap::StrMap;

pub mod action_required;
pub mod claude_cli;
pub mod classify;
pub mod openclaude;
pub mod settle;

verus! {

/// A session of the engine.
#[derive(Debug, PartialEq, Eq, Hash)]
pub struct SessionId(pub String);

impl View for SessionId {
    type V = Seq<char>;

    open spec fn view(&self) -> Seq<char> {
        self.0@
    }
}

impl DeepView for SessionId {
    type V = Seq<char>;

    open spec fn deep_view(&self) -> Seq<char> {
        self.0@
    }
}

impl Clone for SessionId {
    fn clone(&self) -> (r: SessionId)
        ensures
            r == *self,
    {
        SessionId(self.0.clone())
    }
}

/// One block of context. Trusted briefing and untrusted world data are never in the same
/// block.
#[derive(Debug)]
pub struct ContextBlock {
    pub label: String,
    pub body: String,
    pub trusted: bool,
}

/// What a [`ContextBlock`] holds.
#[verifier::ext_equal]
pub struct BlockV {
    pub label: Seq<char>,
    pub body: Seq<char>,
    pub trusted: bool,
}

impl DeepView for ContextBlock {
    type V = BlockV;

    open spec fn deep_view(&self) -> BlockV {
        BlockV { label: self.label@, body: self.body@, trusted: self.trusted }
    }
}

/// Everything that is needed to run one state.
#[derive(Debug)]
pub struct InvocationRequest {
    pub spec: StateSpec,
    pub system_prompt: String,
    pub blocks: Vec<ContextBlock>,
    /// The session that is resumed; a fresh one where there is none.
    pub session: Option<SessionId>,
    /// Where the agent's file tools work.
    pub workdir: Option<String>,
    /// Secrets in the agent's own environment. The harness hands out none.
    pub secret_env: StrMap<String>,
    /// The capability servers, with their tokens in the transport.
    pub mcp_servers: StrMap<Json>,
    pub model: Option<String>,
}

/// A tool call that asks for permission.
#[derive(Debug)]
pub struct ActionRequest {
    pub tool: String,
    /// By which the decision finds its call.
    pub tool_use_id: String,
    pub input: Json,
}

/// The answer of the wall.
#[derive(Debug)]
pub enum ActionDecision {
    Allow,
    Deny(String),
}

/// What an [`ActionDecision`] holds: nothing for an allowance, the reason for a denial.
pub type DecisionV = Option<Seq<char>>;

impl View for ActionDecision {
    type V = DecisionV;

    open spec fn view(&self) -> DecisionV {
        match self {
            ActionDecision::Allow => None,
            ActionDecision::Deny(why) => Some(why@),
        }
    }
}

} // verus!
