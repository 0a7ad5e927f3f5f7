//! The baton: what crosses from one state to the next. It carries the agent's own digested
//! product and references that the harness derived, never the raw payload.

use vstd::prelude::*;

use crate::model::stimulus::TrustTier;
use crate::strmap::{texts, StrMap};

verus! {

#[derive(Debug)]
pub struct Baton {
    /// The digested intent.
    pub gist: String,
    /// The references the next state needs to act.
    pub refs: StrMap<String>,
    /// Trust of the standing duty.
    pub directive_tier: TrustTier,
    /// The trust that the cycle has accumulated.
    pub payload_tier: TrustTier,
    /// Where the raw stimulus can be read, framed as untrusted.
    pub runlog_ref: String,
    /// The reasoning so far. For continuity only.
    pub thoughts: String,
}

/// What a [`Baton`] holds.
#[verifier::ext_equal]
pub struct BatonV {
    pub gist: Seq<char>,
    pub refs: Map<Seq<char>, Seq<char>>,
    pub directive_tier: Seq<char>,
    pub payload_tier: Seq<char>,
    pub runlog_ref: Seq<char>,
    pub thoughts: Seq<char>,
}

impl View for Baton {
    type V = BatonV;

    open spec fn view(&self) -> BatonV {
        BatonV {
            gist: self.gist@,
            refs: texts(self.refs),
            directive_tier: self.directive_tier@,
            payload_tier: self.payload_tier@,
            runlog_ref: self.runlog_ref@,
            thoughts: self.thoughts@,
        }
    }
}

impl Clone for Baton {
    fn clone(&self) -> (r: Baton)
        ensures
            r@ == self@,
    {
        Baton {
            gist: self.gist.clone(),
            refs: self.refs.copy(),
            directive_tier: self.directive_tier.clone(),
            payload_tier: self.payload_tier.clone(),
            runlog_ref: self.runlog_ref.clone(),
            thoughts: self.thoughts.clone(),
        }
    }
}

} // verus!
