//! The stimulus: inert event data until a state reasons about it. It carries two trust
//! tiers that are never merged: that of the standing directive and that of the payload.

use vstd::prelude::*;

use crate::json::{Json, JsonV};
use crate::model::baton::{Baton, BatonV};
use crate::text::{owned, owned_opt, same_text};

verus! {

/// A trust tier, assigned by provenance and never by the model. An operator may name tiers
/// of their own beside the four known ones; two tiers are the same where their names are.
#[derive(Debug, PartialEq, Eq, Hash)]
pub enum TrustTier {
    /// Proven by the operator's signature.
    OperatorSigned,
    /// A known peer. Trusted as that peer, not trusted to instruct.
    AuthedPeer,
    /// The agent's own wakes and directives.
    SelfTier,
    /// The outside world.
    Public,
    /// A tier that the operator's lattice names.
    Named(String),
}

/// The name of a tier in configuration.
pub open spec fn tier_name(t: TrustTier) -> Seq<char> {
    match t {
        TrustTier::OperatorSigned => "operator_signed"@,
        TrustTier::AuthedPeer => "authed_peer"@,
        TrustTier::SelfTier => "self"@,
        TrustTier::Public => "public"@,
        TrustTier::Named(s) => s@,
    }
}

/// The name of a tier as it is shown in records.
pub open spec fn tier_label(name: Seq<char>) -> Seq<char> {
    if name == "operator_signed"@ {
        "OperatorSigned"@
    } else if name == "authed_peer"@ {
        "AuthedPeer"@
    } else if name == "self"@ {
        "SelfTier"@
    } else if name == "public"@ {
        "Public"@
    } else {
        name
    }
}

impl View for TrustTier {
    type V = Seq<char>;

    /// A tier is its name.
    open spec fn view(&self) -> Seq<char> {
        tier_name(*self)
    }
}

impl DeepView for TrustTier {
    type V = Seq<char>;

    open spec fn deep_view(&self) -> Seq<char> {
        tier_name(*self)
    }
}

impl Clone for TrustTier {
    fn clone(&self) -> (r: TrustTier)
        ensures
            r == *self,
    {
        match self {
            TrustTier::OperatorSigned => TrustTier::OperatorSigned,
            TrustTier::AuthedPeer => TrustTier::AuthedPeer,
            TrustTier::SelfTier => TrustTier::SelfTier,
            TrustTier::Public => TrustTier::Public,
            TrustTier::Named(s) => TrustTier::Named(s.clone()),
        }
    }
}

impl TrustTier {
    /// The tier of the outside world.
    pub fn public() -> (r: TrustTier)
        ensures
            r == TrustTier::Public,
    {
        TrustTier::Public
    }

    /// The agent's own tier.
    pub fn self_() -> (r: TrustTier)
        ensures
            r == TrustTier::SelfTier,
    {
        TrustTier::SelfTier
    }

    /// The operator's tier.
    pub fn operator() -> (r: TrustTier)
        ensures
            r == TrustTier::OperatorSigned,
    {
        TrustTier::OperatorSigned
    }

    /// The tier with this name.
    pub fn named(name: &str) -> (r: TrustTier)
        ensures
            r@ == name@,
            r is Named <==> name@ != "operator_signed"@ && name@ != "authed_peer"@ && name@
                != "self"@ && name@ != "public"@,
    {
        proof {
            tier_names_differ();
        }
        if same_text(name, "operator_signed") {
            TrustTier::OperatorSigned
        } else if same_text(name, "authed_peer") {
            TrustTier::AuthedPeer
        } else if same_text(name, "self") {
            TrustTier::SelfTier
        } else if same_text(name, "public") {
            TrustTier::Public
        } else {
            TrustTier::Named(owned(name))
        }
    }

    /// The tier's name in configuration.
    pub fn name(&self) -> (r: &str)
        ensures
            r@ == self@,
    {
        match self {
            TrustTier::OperatorSigned => "operator_signed",
            TrustTier::AuthedPeer => "authed_peer",
            TrustTier::SelfTier => "self",
            TrustTier::Public => "public",
            TrustTier::Named(s) => s.as_str(),
        }
    }

    /// The tier's name as it is shown in records.
    pub fn label(&self) -> (r: &str)
        ensures
            r@ == tier_label(self@),
    {
        let name = self.name();
        if same_text(name, "operator_signed") {
            "OperatorSigned"
        } else if same_text(name, "authed_peer") {
            "AuthedPeer"
        } else if same_text(name, "self") {
            "SelfTier"
        } else if same_text(name, "public") {
            "Public"
        } else {
            name
        }
    }

    /// Whether two tiers are the same tier.
    pub fn same(&self, other: &TrustTier) -> (r: bool)
        ensures
            r == (self@ == other@),
    {
        same_text(self.name(), other.name())
    }
}

/// The four known tiers have four names.
pub proof fn tier_names_differ()
    ensures
        "operator_signed"@ != "authed_peer"@,
        "operator_signed"@ != "self"@,
        "operator_signed"@ != "public"@,
        "authed_peer"@ != "self"@,
        "authed_peer"@ != "public"@,
        "self"@ != "public"@,
{
    reveal_strlit("operator_signed");
    reveal_strlit("authed_peer");
    reveal_strlit("self");
    reveal_strlit("public");
    assert("operator_signed"@.len() == 15);
    assert("authed_peer"@.len() == 11);
    assert("self"@.len() == 4);
    assert("public"@.len() == 6);
}

/// The open vocabulary of stimulus types ("mention", "scheduled_post", ...).
#[derive(Debug, PartialEq, Eq, Hash)]
pub struct StimulusType(pub String);

impl View for StimulusType {
    type V = Seq<char>;

    open spec fn view(&self) -> Seq<char> {
        self.0@
    }
}

impl Clone for StimulusType {
    fn clone(&self) -> (r: StimulusType)
        ensures
            r == *self,
    {
        StimulusType(self.0.clone())
    }
}

impl StimulusType {
    /// The type with this name.
    pub fn named(s: &str) -> (r: StimulusType)
        ensures
            r@ == s@,
    {
        StimulusType(owned(s))
    }
}

/// A stable id, by which a row is found again.
#[derive(Debug, PartialEq, Eq, Hash)]
pub struct StimulusId(pub String);

impl View for StimulusId {
    type V = Seq<char>;

    open spec fn view(&self) -> Seq<char> {
        self.0@
    }
}

impl DeepView for StimulusId {
    type V = Seq<char>;

    open spec fn deep_view(&self) -> Seq<char> {
        self.0@
    }
}

impl Clone for StimulusId {
    fn clone(&self) -> (r: StimulusId)
        ensures
            r == *self,
    {
        StimulusId(self.0.clone())
    }
}

/// Where a row stands in its life.
#[derive(Debug, Clone, Copy, PartialEq, Eq, Structural)]
pub enum StimulusStatus {
    Pending,
    Coalesced,
    Dispatched,
    Done,
    Failed,
}

#[derive(Debug, Clone, Copy, PartialEq, Eq, PartialOrd, Ord, Structural)]
pub enum Priority {
    Low,
    Normal,
    High,
    Urgent,
}

/// The rank by which rows are popped: the lowest first.
pub open spec fn priority_rank(p: Priority) -> int {
    match p {
        Priority::Urgent => 0,
        Priority::High => 10,
        Priority::Normal => 20,
        Priority::Low => 30,
    }
}

/// The label of a priority.
pub open spec fn priority_name(p: Priority) -> Seq<char> {
    match p {
        Priority::Low => "low"@,
        Priority::Normal => "normal"@,
        Priority::High => "high"@,
        Priority::Urgent => "urgent"@,
    }
}

/// The label of a status.
pub open spec fn status_name(s: StimulusStatus) -> Seq<char> {
    match s {
        StimulusStatus::Pending => "pending"@,
        StimulusStatus::Coalesced => "coalesced"@,
        StimulusStatus::Dispatched => "dispatched"@,
        StimulusStatus::Done => "done"@,
        StimulusStatus::Failed => "failed"@,
    }
}

/// The status that a label names.
pub open spec fn status_of(s: Seq<char>) -> Option<StimulusStatus> {
    if s == "pending"@ {
        Some(StimulusStatus::Pending)
    } else if s == "coalesced"@ {
        Some(StimulusStatus::Coalesced)
    } else if s == "dispatched"@ {
        Some(StimulusStatus::Dispatched)
    } else if s == "done"@ {
        Some(StimulusStatus::Done)
    } else if s == "failed"@ {
        Some(StimulusStatus::Failed)
    } else {
        None
    }
}

impl StimulusStatus {
    /// The label of the status.
    pub fn label(self) -> (r: &'static str)
        ensures
            r@ == status_name(self),
    {
        match self {
            StimulusStatus::Pending => "pending",
            StimulusStatus::Coalesced => "coalesced",
            StimulusStatus::Dispatched => "dispatched",
            StimulusStatus::Done => "done",
            StimulusStatus::Failed => "failed",
        }
    }

    /// The status that a label names.
    pub fn from_label(s: &str) -> (r: Option<StimulusStatus>)
        ensures
            r == status_of(s@),
    {
        if same_text(s, "pending") {
            Some(StimulusStatus::Pending)
        } else if same_text(s, "coalesced") {
            Some(StimulusStatus::Coalesced)
        } else if same_text(s, "dispatched") {
            Some(StimulusStatus::Dispatched)
        } else if same_text(s, "done") {
            Some(StimulusStatus::Done)
        } else if same_text(s, "failed") {
            Some(StimulusStatus::Failed)
        } else {
            None
        }
    }
}

/// A label of a status names that status.
pub proof fn a_status_reads_back(s: StimulusStatus)
    ensures
        status_of(status_name(s)) == Some(s),
{
    reveal_strlit("pending");
    reveal_strlit("coalesced");
    reveal_strlit("dispatched");
    reveal_strlit("done");
    reveal_strlit("failed");
    assert("pending"@[0] == 'p' && "coalesced"@[0] == 'c' && "failed"@[0] == 'f');
    assert("dispatched"@.len() == 10 && "done"@.len() == 4 && "pending"@.len() == 7);
    assert("coalesced"@.len() == 9 && "failed"@.len() == 6);
}

impl DeepView for Priority {
    type V = Priority;

    open spec fn deep_view(&self) -> Priority {
        *self
    }
}

impl Priority {
    /// The label of the priority.
    pub fn label(self) -> (r: &'static str)
        ensures
            r@ == priority_name(self),
    {
        match self {
            Priority::Low => "low",
            Priority::Normal => "normal",
            Priority::High => "high",
            Priority::Urgent => "urgent",
        }
    }

    /// The rank by which rows are popped: the lowest first.
    pub fn numeric(self) -> (r: i32)
        ensures
            r == priority_rank(self),
    {
        match self {
            Priority::Urgent => 0,
            Priority::High => 10,
            Priority::Normal => 20,
            Priority::Low => 30,
        }
    }
}

/// One row of the queue.
#[derive(Debug)]
pub struct Stimulus {
    pub id: StimulusId,
    /// The duty that produced the row.
    pub source: String,
    pub type_: StimulusType,
    /// Trust of the standing directive.
    pub directive_tier: TrustTier,
    /// Trust of the payload.
    pub payload_tier: TrustTier,
    /// World data. Untrusted unless `payload_tier` says otherwise.
    pub payload: Json,
    /// Evidence for the tiers.
    pub provenance: Option<String>,
    /// Unix seconds.
    pub received_at: i64,
    /// What the row folds together with.
    pub dedup_key: Option<String>,
    /// The first second at which the row may be popped.
    pub pop_after: Option<i64>,
    pub priority: Priority,
    pub status: StimulusStatus,
    /// The trusted directive, kept apart from the payload.
    pub directive_body: String,
    /// The state-prompt at which the cycle opens.
    pub entry: String,
    /// The baton of a deferred branch; such a row resumes from it, not from its payload.
    pub baton: Option<Baton>,
}

/// What a [`Stimulus`] holds.
#[verifier::ext_equal]
pub struct StimulusV {
    pub id: Seq<char>,
    pub source: Seq<char>,
    pub type_: Seq<char>,
    pub directive_tier: Seq<char>,
    pub payload_tier: Seq<char>,
    pub payload: JsonV,
    pub provenance: Option<Seq<char>>,
    pub received_at: i64,
    pub dedup_key: Option<Seq<char>>,
    pub pop_after: Option<i64>,
    pub priority: Priority,
    pub status: StimulusStatus,
    pub directive_body: Seq<char>,
    pub entry: Seq<char>,
    pub baton: Option<BatonV>,
}

impl View for Stimulus {
    type V = StimulusV;

    open spec fn view(&self) -> StimulusV {
        StimulusV {
            id: self.id@,
            source: self.source@,
            type_: self.type_@,
            directive_tier: self.directive_tier@,
            payload_tier: self.payload_tier@,
            payload: self.payload@,
            provenance: self.provenance.deep_view(),
            received_at: self.received_at,
            dedup_key: self.dedup_key.deep_view(),
            pop_after: self.pop_after,
            priority: self.priority,
            status: self.status,
            directive_body: self.directive_body@,
            entry: self.entry@,
            baton: match self.baton {
                Some(b) => Some(b@),
                None => None,
            },
        }
    }
}

impl Clone for Stimulus {
    fn clone(&self) -> (r: Stimulus)
        ensures
            r@ == self@,
            r.directive_tier == self.directive_tier,
            r.payload_tier == self.payload_tier,
    {
        Stimulus {
            id: self.id.clone(),
            source: self.source.clone(),
            type_: self.type_.clone(),
            directive_tier: self.directive_tier.clone(),
            payload_tier: self.payload_tier.clone(),
            payload: self.payload.clone(),
            provenance: owned_opt(&self.provenance),
            received_at: self.received_at,
            dedup_key: owned_opt(&self.dedup_key),
            pop_after: self.pop_after,
            priority: self.priority,
            status: self.status,
            directive_body: self.directive_body.clone(),
            entry: self.entry.clone(),
            baton: match &self.baton {
                Some(b) => Some(b.clone()),
                None => None,
            },
        }
    }
}

/// A tier is labelled by its own name unless it is one of the four of every soul.
pub proof fn a_tier_has_its_label(name: Seq<char>)
    ensures
        name == "operator_signed"@ ==> tier_label(name) == "OperatorSigned"@,
        name == "authed_peer"@ ==> tier_label(name) == "AuthedPeer"@,
        name == "self"@ ==> tier_label(name) == "SelfTier"@,
        name == "public"@ ==> tier_label(name) == "Public"@,
        name != "operator_signed"@ && name != "authed_peer"@ && name != "self"@ && name != "public"@
            ==> tier_label(name) == name,
{
    tier_names_differ();
}

/// The four tiers of every soul have their names, and a named one has its own.
pub proof fn a_tier_has_its_name(s: String)
    ensures
        tier_name(TrustTier::OperatorSigned) == "operator_signed"@,
        tier_name(TrustTier::AuthedPeer) == "authed_peer"@,
        tier_name(TrustTier::SelfTier) == "self"@,
        tier_name(TrustTier::Public) == "public"@,
        tier_name(TrustTier::Named(s)) == s@,
{
}

/// A status is read from the name that it is written by, and no other text is a status.
pub proof fn a_status_is_read_by_its_name(text: Seq<char>, s: StimulusStatus)
    ensures
        status_of(text) == Some(s) <==> text == status_name(s),
        status_name(StimulusStatus::Pending) == "pending"@,
        status_name(StimulusStatus::Coalesced) == "coalesced"@,
        status_name(StimulusStatus::Dispatched) == "dispatched"@,
        status_name(StimulusStatus::Done) == "done"@,
        status_name(StimulusStatus::Failed) == "failed"@,
{
    a_status_reads_back(s);
}

/// What is urgent goes before what is high, that before what is normal, and that before what is
/// low.
pub proof fn priorities_go_in_their_order()
    ensures
        priority_rank(Priority::Urgent) < priority_rank(Priority::High),
        priority_rank(Priority::High) < priority_rank(Priority::Normal),
        priority_rank(Priority::Normal) < priority_rank(Priority::Low),
        priority_name(Priority::Urgent) == "urgent"@,
        priority_name(Priority::High) == "high"@,
        priority_name(Priority::Normal) == "normal"@,
        priority_name(Priority::Low) == "low"@,
{
}

} // verus!
