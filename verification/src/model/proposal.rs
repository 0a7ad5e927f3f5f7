//! What the agent returns: its reasoning, and the branches it wants to take next.
//!
//! The shape is read leniently where a field is only descriptive (the intent, the
//! references), so that a weaker model's spelling never ends a cycle, and strictly where a
//! field steers the walk.

use vstd::prelude::*;

use crate::decode::{
    fault_unless, get_opt_text, get_text, get_text_or, get_texts, misfit, opt_text_at,
    opt_text_fault, or_fault, text_at, text_fault, text_or_at, text_or_fault, texts_fault,
    texts_or_at,
};
use crate::json::{field, json_text, Json, JsonV};
use crate::model::stimulus::Priority;
use crate::strmap::{texts, StrMap};
use crate::text::{a_number_reads_back, int_text, owned_all, owned_opt, same_text, u64_text};

verus! {

/// What the agent says it is doing. Descriptive only: nothing is decided on it.
#[derive(Debug, Clone, Copy, PartialEq, Eq, Structural)]
pub enum Intent {
    Reply,
    Post,
    Research,
    Delegate,
    Ignore,
    Noop,
    /// Any other label.
    Other,
}

/// The intent that a label names.
pub open spec fn intent_of(s: Seq<char>) -> Intent {
    if s == "reply"@ {
        Intent::Reply
    } else if s == "post"@ {
        Intent::Post
    } else if s == "research"@ {
        Intent::Research
    } else if s == "delegate"@ {
        Intent::Delegate
    } else if s == "ignore"@ {
        Intent::Ignore
    } else if s == "noop"@ {
        Intent::Noop
    } else {
        Intent::Other
    }
}

/// An intent's name as it is shown in records.
pub open spec fn intent_name(i: Intent) -> Seq<char> {
    match i {
        Intent::Reply => "Reply"@,
        Intent::Post => "Post"@,
        Intent::Research => "Research"@,
        Intent::Delegate => "Delegate"@,
        Intent::Ignore => "Ignore"@,
        Intent::Noop => "Noop"@,
        Intent::Other => "Other"@,
    }
}

impl Intent {
    /// The intent that a label names.
    pub fn from_label(s: &str) -> (r: Intent)
        ensures
            r == intent_of(s@),
    {
        if same_text(s, "reply") {
            Intent::Reply
        } else if same_text(s, "post") {
            Intent::Post
        } else if same_text(s, "research") {
            Intent::Research
        } else if same_text(s, "delegate") {
            Intent::Delegate
        } else if same_text(s, "ignore") {
            Intent::Ignore
        } else if same_text(s, "noop") {
            Intent::Noop
        } else {
            Intent::Other
        }
    }

    /// The intent's name as it is shown in records.
    pub fn label(self) -> (r: &'static str)
        ensures
            r@ == intent_name(self),
    {
        match self {
            Intent::Reply => "Reply",
            Intent::Post => "Post",
            Intent::Research => "Research",
            Intent::Delegate => "Delegate",
            Intent::Ignore => "Ignore",
            Intent::Noop => "Noop",
            Intent::Other => "Other",
        }
    }
}

/// The digested proposal that a baton is made of.
#[derive(Debug)]
pub struct Proposal {
    pub intent: Intent,
    /// Digested intent, not raw stimulus text.
    pub gist: String,
    /// The agent's own annotations.
    pub refs: StrMap<String>,
}

/// What a [`Proposal`] holds.
#[verifier::ext_equal]
pub struct ProposalV {
    pub intent: Intent,
    pub gist: Seq<char>,
    pub refs: Map<Seq<char>, Seq<char>>,
}

impl View for Proposal {
    type V = ProposalV;

    open spec fn view(&self) -> ProposalV {
        ProposalV { intent: self.intent, gist: self.gist@, refs: texts(self.refs) }
    }
}

/// A requested single next step.
#[derive(Debug)]
pub struct Transition {
    /// The next state-prompt, or nothing to stop.
    pub to_prompt: Option<String>,
    pub reason: String,
}

/// One branch that the agent wants to take.
#[derive(Debug)]
pub struct BatonIntent {
    /// The state-prompt that this branch continues at.
    pub to_prompt: String,
    /// The digested intent of this branch.
    pub gist: String,
    /// The priority that the agent proposes.
    pub priority: Option<Priority>,
    /// The message that this branch replies to.
    pub reply_to: Option<String>,
    /// Labels under which the record of this branch can be recalled.
    pub tags: Vec<String>,
    pub reason: String,
}

/// What a [`BatonIntent`] holds.
#[verifier::ext_equal]
pub struct BatonIntentV {
    pub to_prompt: Seq<char>,
    pub gist: Seq<char>,
    pub priority: Option<Priority>,
    pub reply_to: Option<Seq<char>>,
    pub tags: Seq<Seq<char>>,
    pub reason: Seq<char>,
}

impl View for BatonIntent {
    type V = BatonIntentV;

    open spec fn view(&self) -> BatonIntentV {
        BatonIntentV {
            to_prompt: self.to_prompt@,
            gist: self.gist@,
            priority: self.priority,
            reply_to: self.reply_to.deep_view(),
            tags: self.tags.deep_view(),
            reason: self.reason@,
        }
    }
}

impl DeepView for BatonIntent {
    type V = BatonIntentV;

    open spec fn deep_view(&self) -> BatonIntentV {
        self@
    }
}

impl Clone for BatonIntent {
    fn clone(&self) -> (r: BatonIntent)
        ensures
            r@ == self@,
    {
        BatonIntent {
            to_prompt: self.to_prompt.clone(),
            gist: self.gist.clone(),
            priority: self.priority,
            reply_to: owned_opt(&self.reply_to),
            tags: owned_all(&self.tags),
            reason: self.reason.clone(),
        }
    }
}

/// A job for a worker.
#[derive(Debug)]
pub struct SpawnRequest {
    /// The worker definition to run.
    pub agent: String,
    pub brief: String,
}

/// Everything the agent returns.
#[derive(Debug)]
pub struct AgentOutput {
    /// The agent's reasoning. Recorded, never published.
    pub thought: String,
    /// A line for the memory. Honored only in states that may write it.
    pub memory_append: Option<String>,
    pub proposal: Option<Proposal>,
    /// A job for a worker. Honored only in an acting state.
    pub spawn: Option<SpawnRequest>,
    /// The older form of a single next step.
    pub transition: Transition,
    /// The branches to take; none of them ends the cycle.
    pub batons: Vec<BatonIntent>,
}

/// What an [`AgentOutput`] holds.
#[verifier::ext_equal]
pub struct AgentOutputV {
    pub thought: Seq<char>,
    pub memory_append: Option<Seq<char>>,
    pub proposal: Option<ProposalV>,
    pub spawn: Option<(Seq<char>, Seq<char>)>,
    pub to_prompt: Option<Seq<char>>,
    pub reason: Seq<char>,
    pub batons: Seq<BatonIntentV>,
}

impl View for AgentOutput {
    type V = AgentOutputV;

    open spec fn view(&self) -> AgentOutputV {
        AgentOutputV {
            thought: self.thought@,
            memory_append: self.memory_append.deep_view(),
            proposal: match self.proposal {
                Some(p) => Some(p@),
                None => None,
            },
            spawn: match self.spawn {
                Some(s) => Some((s.agent@, s.brief@)),
                None => None,
            },
            to_prompt: self.transition.to_prompt.deep_view(),
            reason: self.transition.reason@,
            batons: self.batons.deep_view(),
        }
    }
}

/// The branches of an output: its batons where it has any, else the one step that the older
/// form names, with a gist that is left to the harness.
pub open spec fn branches(out: AgentOutputV) -> Seq<BatonIntentV> {
    if out.batons.len() > 0 {
        out.batons
    } else {
        match out.to_prompt {
            Some(id) => seq![
                BatonIntentV {
                    to_prompt: id,
                    gist: Seq::empty(),
                    priority: None,
                    reply_to: None,
                    tags: Seq::empty(),
                    reason: out.reason,
                },
            ],
            None => Seq::empty(),
        }
    }
}

impl Default for AgentOutput {
    /// An output that says nothing and ends the cycle.
    fn default() -> (r: AgentOutput)
        ensures
            r@ == (AgentOutputV {
                thought: Seq::empty(),
                memory_append: None,
                proposal: None,
                spawn: None,
                to_prompt: None,
                reason: Seq::empty(),
                batons: Seq::empty(),
            }),
    {
        let r = AgentOutput {
            thought: String::new(),
            memory_append: None,
            proposal: None,
            spawn: None,
            transition: Transition { to_prompt: None, reason: String::new() },
            batons: Vec::new(),
        };
        assert(r@.batons =~= Seq::empty());
        r
    }
}

impl AgentOutput {
    /// The branches to take.
    pub fn fan_out(&self) -> (r: Vec<BatonIntent>)
        ensures
            r.deep_view() == branches(self@),
    {
        if self.batons.len() > 0 {
            let mut out: Vec<BatonIntent> = Vec::new();
            let mut i: usize = 0;
            while i < self.batons.len()
                invariant
                    i <= self.batons@.len(),
                    out@.len() == i,
                    forall|j: int| 0 <= j < i ==> (#[trigger] out@[j])@ == self.batons@[j]@,
                decreases self.batons@.len() - i,
            {
                out.push(self.batons[i].clone());
                i += 1;
            }
            assert(out.deep_view() =~= self.batons.deep_view());
            return out;
        }
        let mut out: Vec<BatonIntent> = Vec::new();
        match &self.transition.to_prompt {
            Some(id) => {
                let tags: Vec<String> = Vec::new();
                assert(tags.deep_view() =~= Seq::empty());
                let b = BatonIntent {
                    to_prompt: id.clone(),
                    gist: String::new(),
                    priority: None,
                    reply_to: None,
                    tags,
                    reason: self.transition.reason.clone(),
                };
                out.push(b);
                assert(out.deep_view() =~= branches(self@));
            },
            None => {
                assert(out.deep_view() =~= branches(self@));
            },
        }
        out
    }
}

// ── Reading an output from a document ───────────────────────────────────────────────────

/// A value as a text: a text is itself, anything else is its JSON.
pub open spec fn plain(t: JsonV) -> Seq<char> {
    match t {
        JsonV::Str(s) => s,
        _ => json_text(t),
    }
}

/// The texts of an object's fields; where a name occurs twice, its last value.
pub open spec fn field_texts(f: Seq<(Seq<char>, JsonV)>) -> Map<Seq<char>, Seq<char>>
    decreases f.len(),
{
    if f.len() == 0 {
        Map::empty()
    } else {
        field_texts(f.drop_last()).insert(f.last().0, plain(f.last().1))
    }
}

/// The texts of a list's items, each under its position.
pub open spec fn item_texts(items: Seq<JsonV>) -> Map<Seq<char>, Seq<char>>
    decreases items.len(),
{
    if items.len() == 0 {
        Map::empty()
    } else {
        item_texts(items.drop_last()).insert(int_text(items.len() - 1), plain(items.last()))
    }
}

/// References in whatever shape they come: an object by its fields, a list by its
/// positions, nothing as none, and a single value under position 0.
pub open spec fn refs_of(t: Option<JsonV>) -> Map<Seq<char>, Seq<char>> {
    match t {
        None => Map::empty(),
        Some(JsonV::Null) => Map::empty(),
        Some(JsonV::Object(f)) => field_texts(f),
        Some(JsonV::Array(items)) => item_texts(items),
        Some(x) => Map::empty().insert(int_text(0), plain(x)),
    }
}

/// The priority that a label names.
pub open spec fn priority_of(s: Seq<char>) -> Option<Priority> {
    if s == "low"@ {
        Some(Priority::Low)
    } else if s == "normal"@ {
        Some(Priority::Normal)
    } else if s == "high"@ {
        Some(Priority::High)
    } else if s == "urgent"@ {
        Some(Priority::Urgent)
    } else {
        None
    }
}

/// The priority of an optional field.
pub open spec fn opt_priority_at(t: JsonV, key: Seq<char>, loose: bool) -> Option<Option<Priority>> {
    match opt_text_at(t, key, loose) {
        None => None,
        Some(None) => Some(None),
        Some(Some(s)) => match priority_of(s) {
            Some(p) => Some(Some(p)),
            None => None,
        },
    }
}

/// One branch in a document.
pub open spec fn intent_in(t: JsonV) -> Option<BatonIntentV> {
    match (
        text_at(t, "to_prompt"@, false),
        text_or_at(t, "gist"@, Seq::empty(), false),
        opt_priority_at(t, "priority"@, false),
        opt_text_at(t, "reply_to"@, false),
        texts_or_at(t, "tags"@, Seq::empty(), false),
        text_or_at(t, "reason"@, Seq::empty(), false),
    ) {
        (Some(to_prompt), Some(gist), Some(priority), Some(reply_to), Some(tags), Some(reason)) => {
            Some(BatonIntentV { to_prompt, gist, priority, reply_to, tags, reason })
        },
        _ => None,
    }
}

/// The branches in a list.
pub open spec fn intents_in(items: Seq<JsonV>) -> Option<Seq<BatonIntentV>>
    decreases items.len(),
{
    if items.len() == 0 {
        Some(Seq::empty())
    } else {
        match (intents_in(items.drop_last()), intent_in(items.last())) {
            (Some(rest), Some(b)) => Some(rest.push(b)),
            _ => None,
        }
    }
}

/// The branches of a document; none where it has no such field.
pub open spec fn batons_at(t: JsonV) -> Option<Seq<BatonIntentV>> {
    match field(t, "batons"@) {
        None => Some(Seq::empty()),
        Some(JsonV::Array(items)) => intents_in(items),
        _ => None,
    }
}

/// The proposal in a document.
pub open spec fn proposal_in(t: JsonV) -> Option<ProposalV> {
    match (text_at(t, "intent"@, false), text_at(t, "gist"@, false)) {
        (Some(intent), Some(gist)) => Some(
            ProposalV { intent: intent_of(intent), gist, refs: refs_of(field(t, "refs"@)) },
        ),
        _ => None,
    }
}

/// The optional proposal of a document.
pub open spec fn proposal_at(t: JsonV) -> Option<Option<ProposalV>> {
    match field(t, "proposal"@) {
        None => Some(None),
        Some(JsonV::Null) => Some(None),
        Some(x) => match proposal_in(x) {
            Some(p) => Some(Some(p)),
            None => None,
        },
    }
}

/// The optional worker job of a document.
pub open spec fn spawn_at(t: JsonV) -> Option<Option<(Seq<char>, Seq<char>)>> {
    match field(t, "spawn"@) {
        None => Some(None),
        Some(JsonV::Null) => Some(None),
        Some(x) => match (text_at(x, "agent"@, false), text_at(x, "brief"@, false)) {
            (Some(agent), Some(brief)) => Some(Some((agent, brief))),
            _ => None,
        },
    }
}

/// The single next step of a document, and its reason.
pub open spec fn transition_at(t: JsonV) -> Option<(Option<Seq<char>>, Seq<char>)> {
    match field(t, "transition"@) {
        None => Some((None, Seq::empty())),
        Some(JsonV::Object(f)) => match (
            opt_text_at(JsonV::Object(f), "to_prompt"@, false),
            text_or_at(JsonV::Object(f), "reason"@, Seq::empty(), false),
        ) {
            (Some(to_prompt), Some(reason)) => Some((to_prompt, reason)),
            _ => None,
        },
        _ => None,
    }
}

/// The agent output in a document.
pub open spec fn output_in(t: JsonV) -> Option<AgentOutputV> {
    match (
        text_at(t, "thought"@, false),
        opt_text_at(t, "memory_append"@, false),
        proposal_at(t),
        spawn_at(t),
        transition_at(t),
        batons_at(t),
    ) {
        (
            Some(thought),
            Some(memory_append),
            Some(proposal),
            Some(spawn),
            Some((to_prompt, reason)),
            Some(batons),
        ) => Some(
            AgentOutputV { thought, memory_append, proposal, spawn, to_prompt, reason, batons },
        ),
        _ => None,
    }
}

/// A value as a text.
pub fn plain_text(j: &Json) -> (r: String)
    ensures
        r@ == plain(j@),
{
    match j {
        Json::Str(s) => s.clone(),
        _ => j.to_text(),
    }
}

/// References in whatever shape they come.
pub fn read_refs(j: Option<&Json>) -> (r: StrMap<String>)
    ensures
        texts(r) == refs_of(
            match j {
                Some(x) => Some(x@),
                None => None,
            },
        ),
{
    let mut out: StrMap<String> = StrMap::new();
    assert(texts(out) =~= Map::empty());
    match j {
        None => out,
        Some(x) => match x {
            Json::Null => out,
            Json::Object(v) => {
                let ghost f = x@->Object_0;
                let mut i: usize = 0;
                assert(f.take(0) =~= Seq::empty());
                while i < v.len()
                    invariant
                        i <= v@.len(),
                        f.len() == v@.len(),
                        forall|k: int| 0 <= k < v@.len() ==> #[trigger] f[k] == (v@[k].0@, v@[k].1@),
                        texts(out) == field_texts(f.take(i as int)),
                    decreases v@.len() - i,
                {
                    let ghost before = texts(out);
                    let k = v[i].0.clone();
                    let s = plain_text(&v[i].1);
                    proof {
                        assert(f.take(i + 1).drop_last() =~= f.take(i as int));
                        assert(f.take(i + 1).last() == f[i as int]);
                    }
                    let ghost (kv, sv) = (k@, s@);
                    out.insert(k, s);
                    assert(texts(out) =~= before.insert(kv, sv));
                    i += 1;
                }
                assert(f.take(i as int) =~= f);
                out
            },
            Json::Array(v) => {
                let ghost f = x@->Array_0;
                let mut i: usize = 0;
                assert(f.take(0) =~= Seq::empty());
                while i < v.len()
                    invariant
                        i <= v@.len(),
                        f.len() == v@.len(),
                        forall|k: int| 0 <= k < v@.len() ==> #[trigger] f[k] == v@[k]@,
                        texts(out) == item_texts(f.take(i as int)),
                    decreases v@.len() - i,
                {
                    let ghost before = texts(out);
                    let k = u64_text(i as u64);
                    let s = plain_text(&v[i]);
                    proof {
                        assert(f.take(i + 1).drop_last() =~= f.take(i as int));
                        assert(f.take(i + 1).last() == f[i as int]);
                    }
                    let ghost (kv, sv) = (k@, s@);
                    out.insert(k, s);
                    assert(texts(out) =~= before.insert(kv, sv));
                    i += 1;
                }
                assert(f.take(i as int) =~= f);
                out
            },
            _ => {
                let k = u64_text(0);
                let s = plain_text(x);
                let ghost (kv, sv) = (k@, s@);
                let ghost before = texts(out);
                out.insert(k, s);
                assert(texts(out) =~= before.insert(kv, sv));
                out
            },
        },
    }
}

/// The priority that a label names.
pub fn priority_from_label(s: &str) -> (r: Option<Priority>)
    ensures
        r == priority_of(s@),
{
    if same_text(s, "low") {
        Some(Priority::Low)
    } else if same_text(s, "normal") {
        Some(Priority::Normal)
    } else if same_text(s, "high") {
        Some(Priority::High)
    } else if same_text(s, "urgent") {
        Some(Priority::Urgent)
    } else {
        None
    }
}

/// What is wrong with an optional priority.
pub open spec fn opt_priority_fault(t: JsonV, key: Seq<char>, loose: bool) -> Option<Seq<char>> {
    or_fault(
        opt_text_fault(t, key, loose),
        fault_unless(
            opt_priority_at(t, key, loose) is Some,
            misfit(key, "low, normal, high or urgent"@),
        ),
    )
}

/// The priority of an optional field.
pub fn get_opt_priority(j: &Json, key: &str, loose: bool) -> (r: Result<Option<Priority>, String>)
    ensures
        match opt_priority_at(j@, key@, loose) {
            Some(p) => r is Ok && r->Ok_0 == p,
            None => r is Err,
        },
        match r {
            Ok(_) => opt_priority_fault(j@, key@, loose) is None,
            Err(e) => opt_priority_fault(j@, key@, loose) == Some(e@),
        },
{
    match get_opt_text(j, key, loose) {
        Ok(Some(s)) => match priority_from_label(s.as_str()) {
            Some(p) => Ok(Some(p)),
            None => Err(crate::decode::field_error(key, "low, normal, high or urgent")),
        },
        Ok(None) => Ok(None),
        Err(e) => Err(e),
    }
}

/// What is wrong with a branch.
pub open spec fn intent_fault(t: JsonV) -> Option<Seq<char>> {
    let f = text_fault(t, "to_prompt"@, false);
    let f = or_fault(f, text_or_fault(t, "gist"@, false));
    let f = or_fault(f, opt_priority_fault(t, "priority"@, false));
    let f = or_fault(f, opt_text_fault(t, "reply_to"@, false));
    let f = or_fault(f, texts_fault(t, "tags"@, false));
    or_fault(f, text_or_fault(t, "reason"@, false))
}

/// What is wrong with the first branch of a list that does not fit.
pub open spec fn intents_fault(items: Seq<JsonV>) -> Option<Seq<char>>
    decreases items.len(),
{
    if items.len() == 0 {
        None
    } else {
        or_fault(intents_fault(items.drop_last()), intent_fault(items.last()))
    }
}

/// What is wrong with the branches of a document.
pub open spec fn batons_fault(t: JsonV) -> Option<Seq<char>> {
    match field(t, "batons"@) {
        None => None,
        Some(JsonV::Array(items)) => intents_fault(items),
        _ => Some(misfit("batons"@, "a list"@)),
    }
}

/// What is wrong with a proposal.
pub open spec fn proposal_fault(t: JsonV) -> Option<Seq<char>> {
    or_fault(text_fault(t, "intent"@, false), text_fault(t, "gist"@, false))
}

/// What is wrong with the single next step of a document.
pub open spec fn transition_fault(t: JsonV) -> Option<Seq<char>> {
    match field(t, "transition"@) {
        None => None,
        Some(JsonV::Object(f)) => or_fault(
            opt_text_fault(JsonV::Object(f), "to_prompt"@, false),
            text_or_fault(JsonV::Object(f), "reason"@, false),
        ),
        _ => Some(misfit("transition"@, "an object"@)),
    }
}

/// What is wrong with an agent output: of the parts that do not fit, the first one read.
pub open spec fn output_fault(t: JsonV) -> Option<Seq<char>> {
    let f = text_fault(t, "thought"@, false);
    let f = or_fault(f, opt_text_fault(t, "memory_append"@, false));
    let f = or_fault(
        f,
        match field(t, "proposal"@) {
            None => None,
            Some(JsonV::Null) => None,
            Some(x) => proposal_fault(x),
        },
    );
    let f = or_fault(
        f,
        match field(t, "spawn"@) {
            None => None,
            Some(JsonV::Null) => None,
            Some(x) => or_fault(text_fault(x, "agent"@, false), text_fault(x, "brief"@, false)),
        },
    );
    let f = or_fault(f, transition_fault(t));
    or_fault(f, batons_fault(t))
}

impl BatonIntent {
    /// The branch in a document.
    pub fn from_json(j: &Json) -> (r: Result<BatonIntent, String>)
        ensures
            match intent_in(j@) {
                Some(b) => r is Ok && r->Ok_0@ == b,
                None => r is Err,
            },
            match r {
                Ok(_) => intent_fault(j@) is None,
                Err(e) => intent_fault(j@) == Some(e@),
            },
    {
        proof {
            reveal_strlit("");
            assert(""@ =~= Seq::<char>::empty());
        }
        let to_prompt = match get_text(j, "to_prompt", false) {
            Ok(x) => x,
            Err(e) => return Err(e),
        };
        let gist = match get_text_or(j, "gist", "", false) {
            Ok(x) => x,
            Err(e) => return Err(e),
        };
        let priority = match get_opt_priority(j, "priority", false) {
            Ok(x) => x,
            Err(e) => return Err(e),
        };
        let reply_to = match get_opt_text(j, "reply_to", false) {
            Ok(x) => x,
            Err(e) => return Err(e),
        };
        let tags = match get_texts(j, "tags", false) {
            Ok(x) => x,
            Err(e) => return Err(e),
        };
        let reason = match get_text_or(j, "reason", "", false) {
            Ok(x) => x,
            Err(e) => return Err(e),
        };
        Ok(BatonIntent { to_prompt, gist, priority, reply_to, tags, reason })
    }
}

proof fn intents_prefix(items: Seq<JsonV>, n: int)
    requires
        0 <= n <= items.len(),
        intents_in(items.take(n)) is None,
        intents_fault(items.take(n)) is Some,
    ensures
        intents_in(items) is None,
        intents_fault(items) == intents_fault(items.take(n)),
    decreases items.len() - n,
{
    if n < items.len() {
        assert(items.take(n + 1).drop_last() =~= items.take(n));
        intents_prefix(items, n + 1);
    } else {
        assert(items.take(n) =~= items);
    }
}

fn read_batons(j: &Json) -> (r: Result<Vec<BatonIntent>, String>)
    ensures
        match batons_at(j@) {
            Some(b) => r is Ok && r->Ok_0.deep_view() == b,
            None => r is Err,
        },
        match r {
            Ok(_) => batons_fault(j@) is None,
            Err(e) => batons_fault(j@) == Some(e@),
        },
{
    let mut out: Vec<BatonIntent> = Vec::new();
    assert(out.deep_view() =~= Seq::empty());
    let x = match j.get("batons") {
        Some(x) => x,
        None => return Ok(out),
    };
    match x.as_array() {
        None => Err(crate::decode::field_error("batons", "a list")),
        Some(v) => {
            let ghost items = x@->Array_0;
            let mut i: usize = 0;
            assert(items.take(0) =~= Seq::empty());
            while i < v.len()
                invariant
                    i <= v@.len(),
                    items.len() == v@.len(),
                    forall|k: int| 0 <= k < v@.len() ==> #[trigger] items[k] == v@[k]@,
                    batons_at(j@) == intents_in(items),
                    batons_fault(j@) == intents_fault(items),
                    intents_fault(items.take(i as int)) is None,
                    intents_in(items.take(i as int)) == Some(out.deep_view()),
                decreases v@.len() - i,
            {
                proof {
                    assert(items.take(i + 1).drop_last() =~= items.take(i as int));
                    assert(items.take(i + 1).last() == items[i as int]);
                }
                let ghost o = out.deep_view();
                match BatonIntent::from_json(&v[i]) {
                    Ok(b) => {
                        let ghost w = b@;
                        out.push(b);
                        assert(out.deep_view() =~= o.push(w));
                    },
                    Err(e) => {
                        proof {
                            intents_prefix(items, i + 1);
                        }
                        return Err(e);
                    },
                }
                i += 1;
            }
            assert(items.take(i as int) =~= items);
            Ok(out)
        },
    }
}

impl Proposal {
    /// The proposal in a document.
    pub fn from_json(j: &Json) -> (r: Result<Proposal, String>)
        ensures
            match proposal_in(j@) {
                Some(p) => r is Ok && r->Ok_0@ == p,
                None => r is Err,
            },
            match r {
                Ok(_) => proposal_fault(j@) is None,
                Err(e) => proposal_fault(j@) == Some(e@),
            },
    {
        let intent = match get_text(j, "intent", false) {
            Ok(x) => x,
            Err(e) => return Err(e),
        };
        let gist = match get_text(j, "gist", false) {
            Ok(x) => x,
            Err(e) => return Err(e),
        };
        let refs = read_refs(j.get("refs"));
        Ok(Proposal { intent: Intent::from_label(intent.as_str()), gist, refs })
    }
}

impl AgentOutput {
    /// The agent output in a document.
    pub fn from_json(j: &Json) -> (r: Result<AgentOutput, String>)
        ensures
            match output_in(j@) {
                Some(o) => r is Ok && r->Ok_0@ == o,
                None => r is Err,
            },
            match r {
                Ok(_) => output_fault(j@) is None,
                Err(e) => output_fault(j@) == Some(e@),
            },
    {
        proof {
            reveal_strlit("");
            assert(""@ =~= Seq::<char>::empty());
        }
        let thought = match get_text(j, "thought", false) {
            Ok(x) => x,
            Err(e) => return Err(e),
        };
        let memory_append = match get_opt_text(j, "memory_append", false) {
            Ok(x) => x,
            Err(e) => return Err(e),
        };
        let proposal = match j.get("proposal") {
            None => None,
            Some(x) => match x {
                Json::Null => None,
                _ => match Proposal::from_json(x) {
                    Ok(p) => Some(p),
                    Err(e) => return Err(e),
                },
            },
        };
        let spawn = match j.get("spawn") {
            None => None,
            Some(x) => match x {
                Json::Null => None,
                _ => {
                    let agent = match get_text(x, "agent", false) {
                        Ok(s) => s,
                        Err(e) => return Err(e),
                    };
                    let brief = match get_text(x, "brief", false) {
                        Ok(s) => s,
                        Err(e) => return Err(e),
                    };
                    Some(SpawnRequest { agent, brief })
                },
            },
        };
        let transition = match j.get("transition") {
            None => Transition { to_prompt: None, reason: String::new() },
            Some(x) => match x {
                Json::Object(_) => {
                    let to_prompt = match get_opt_text(x, "to_prompt", false) {
                        Ok(s) => s,
                        Err(e) => return Err(e),
                    };
                    let reason = match get_text_or(x, "reason", "", false) {
                        Ok(s) => s,
                        Err(e) => return Err(e),
                    };
                    Transition { to_prompt, reason }
                },
                _ => return Err(crate::decode::field_error("transition", "an object")),
            },
        };
        let batons = match read_batons(j) {
            Ok(x) => x,
            Err(e) => return Err(e),
        };
        Ok(AgentOutput { thought, memory_append, proposal, spawn, transition, batons })
    }
}

// ── Laws ────────────────────────────────────────────────────────────────────────────────

/// The batons win over the older form: with any baton, the single step is not taken.
pub proof fn batons_win(out: AgentOutputV)
    requires
        out.batons.len() > 0,
    ensures
        branches(out) == out.batons,
{
}

/// The older form folds to exactly one branch, whose gist is left to the harness and which
/// names no reply target.
pub proof fn single_step_folds_to_one_branch(out: AgentOutputV, id: Seq<char>)
    requires
        out.batons.len() == 0,
        out.to_prompt == Some(id),
    ensures
        branches(out).len() == 1,
        branches(out)[0].to_prompt == id,
        branches(out)[0].gist.len() == 0,
        branches(out)[0].reply_to is None,
{
}

/// With neither a baton nor a step the cycle ends.
pub proof fn no_branch_ends_the_cycle(out: AgentOutputV)
    ensures
        branches(out).len() == 0 <==> out.batons.len() == 0 && out.to_prompt is None,
{
}

/// An intent is read by its name; every other name is an intent of another kind.
pub proof fn an_intent_is_read_by_its_name(s: Seq<char>)
    ensures
        intent_of(s) == Intent::Reply <==> s == "reply"@,
        intent_of(s) == Intent::Post <==> s == "post"@,
        intent_of(s) == Intent::Research <==> s == "research"@,
        intent_of(s) == Intent::Delegate <==> s == "delegate"@,
        intent_of(s) == Intent::Ignore <==> s == "ignore"@,
        intent_of(s) == Intent::Noop <==> s == "noop"@,
{
    reveal_strlit("reply");
    reveal_strlit("post");
    reveal_strlit("research");
    reveal_strlit("delegate");
    reveal_strlit("ignore");
    reveal_strlit("noop");
    assert("reply"@.len() == 5 && "post"@.len() == 4 && "research"@.len() == 8);
    assert("delegate"@.len() == 8 && "ignore"@.len() == 6 && "noop"@.len() == 4);
    assert("research"@[0] == 'r' && "delegate"@[0] == 'd');
    assert("post"@[0] == 'p' && "noop"@[0] == 'n');
}

/// A priority is read by its name, and no other name is one.
pub proof fn a_priority_is_read_by_its_name(s: Seq<char>)
    ensures
        priority_of(s) == Some(Priority::Low) <==> s == "low"@,
        priority_of(s) == Some(Priority::Normal) <==> s == "normal"@,
        priority_of(s) == Some(Priority::High) <==> s == "high"@,
        priority_of(s) == Some(Priority::Urgent) <==> s == "urgent"@,
{
    reveal_strlit("low");
    reveal_strlit("normal");
    reveal_strlit("high");
    reveal_strlit("urgent");
    assert("low"@.len() == 3 && "normal"@.len() == 6 && "high"@.len() == 4);
    assert("urgent"@.len() == 6 && "urgent"@[0] == 'u' && "normal"@[0] == 'n');
}

/// What a proposal refers to is read whatever its shape: an object by its names, a list by its
/// places, and anything else as the one thing that it is.
pub proof fn references_are_read_in_every_shape(
    f: Seq<(Seq<char>, JsonV)>,
    k: Seq<char>,
    items: Seq<JsonV>,
    i: int,
    x: JsonV,
)
    ensures
        refs_of(None).dom().is_empty(),
        refs_of(Some(JsonV::Null)).dom().is_empty(),
        refs_of(Some(JsonV::Object(f))).contains_key(k) <==> exists|j: int|
            0 <= j < f.len() && (#[trigger] f[j]).0 == k,
        0 <= i < f.len() && (forall|j: int| i < j < f.len() ==> (#[trigger] f[j]).0 != f[i].0)
            ==> refs_of(Some(JsonV::Object(f)))[f[i].0] == plain(f[i].1),
        0 <= i < items.len() ==> refs_of(Some(JsonV::Array(items))).contains_key(int_text(i))
            && refs_of(Some(JsonV::Array(items)))[int_text(i)] == plain(items[i]),
        refs_of(Some(JsonV::Array(items))).contains_key(k) ==> exists|j: int|
            0 <= j < items.len() && k == #[trigger] int_text(j),
        x matches JsonV::Str(s) ==> plain(x) == s && refs_of(Some(x)) == Map::<
            Seq<char>,
            Seq<char>,
        >::empty().insert("0"@, s),
{
    assert(refs_of(None).dom() =~= Set::empty());
    assert(refs_of(Some(JsonV::Null)).dom() =~= Set::empty());
    a_field_is_referred_to_by_its_name(f, k, i);
    an_item_is_referred_to_by_its_place(items, k, i);
    reveal_strlit("0");
    assert(crate::text::nat_text(0) =~= "0"@);
    assert(int_text(0) =~= "0"@);
}

proof fn a_field_is_referred_to_by_its_name(f: Seq<(Seq<char>, JsonV)>, k: Seq<char>, i: int)
    ensures
        field_texts(f).contains_key(k) <==> exists|j: int|
            0 <= j < f.len() && (#[trigger] f[j]).0 == k,
        0 <= i < f.len() && (forall|j: int| i < j < f.len() ==> (#[trigger] f[j]).0 != f[i].0)
            ==> field_texts(f)[f[i].0] == plain(f[i].1),
    decreases f.len(),
{
    if f.len() > 0 {
        let rest = f.drop_last();
        let n = f.len() - 1;
        a_field_is_referred_to_by_its_name(rest, k, i);
        assert(f.last() == f[n]);
        if exists|j: int| 0 <= j < f.len() && (#[trigger] f[j]).0 == k {
            let j = choose|j: int| 0 <= j < f.len() && (#[trigger] f[j]).0 == k;
            if j < n {
                assert(rest[j].0 == k);
            }
        }
        if field_texts(rest).contains_key(k) {
            let j = choose|j: int| 0 <= j < rest.len() && (#[trigger] rest[j]).0 == k;
            assert(f[j].0 == k);
        }
        if 0 <= i < n && (forall|j: int| i < j < f.len() ==> (#[trigger] f[j]).0 != f[i].0) {
            assert(f[n].0 != f[i].0);
            assert(rest[i] == f[i]);
            assert forall|j: int| i < j < rest.len() implies (#[trigger] rest[j]).0 != rest[i].0 by {
                assert(f[j].0 != f[i].0);
            }
        }
    }
}

/// What an agent says is read field by field: the thought must be there, the rest may be missing,
/// and a field of the wrong shape spoils the whole.
pub proof fn an_output_is_read_from_its_fields(t: JsonV)
    ensures
        output_in(t) matches Some(o) ==> {
            &&& field(t, "thought"@) == Some(JsonV::Str(o.thought))
            &&& match field(t, "memory_append"@) {
                None | Some(JsonV::Null) => o.memory_append is None,
                x => o.memory_append is Some && x == Some(JsonV::Str(o.memory_append->0)),
            }
            &&& match field(t, "proposal"@) {
                None | Some(JsonV::Null) => o.proposal is None,
                Some(x) => o.proposal matches Some(p) && field(x, "gist"@) == Some(
                    JsonV::Str(p.gist),
                ) && p.refs == refs_of(field(x, "refs"@)) && (field(x, "intent"@) matches Some(
                    JsonV::Str(s),
                ) && p.intent == intent_of(s)),
            }
            &&& match field(t, "spawn"@) {
                None | Some(JsonV::Null) => o.spawn is None,
                Some(x) => o.spawn matches Some((agent, brief)) && field(x, "agent"@) == Some(
                    JsonV::Str(agent),
                ) && field(x, "brief"@) == Some(JsonV::Str(brief)),
            }
            &&& match field(t, "transition"@) {
                None => o.to_prompt is None && o.reason.len() == 0,
                Some(x) => {
                    &&& o.to_prompt matches Some(p) ==> field(x, "to_prompt"@) == Some(JsonV::Str(p))
                    &&& o.to_prompt is None ==> field(x, "to_prompt"@) is None || field(
                        x,
                        "to_prompt"@,
                    ) == Some(JsonV::Null)
                    &&& o.reason.len() == 0 && field(x, "reason"@) is None || field(x, "reason"@)
                        == Some(JsonV::Str(o.reason))
                },
            }
            &&& match field(t, "batons"@) {
                None => o.batons.len() == 0,
                Some(x) => x matches JsonV::Array(items) && items.len() == o.batons.len(),
            }
        },
        output_in(t) is Some <==> {
            &&& text_at(t, "thought"@, false) is Some
            &&& opt_text_at(t, "memory_append"@, false) is Some
            &&& proposal_at(t) is Some
            &&& spawn_at(t) is Some
            &&& transition_at(t) is Some
            &&& batons_at(t) is Some
        },
{
    match field(t, "batons"@) {
        Some(JsonV::Array(items)) => {
            branches_are_read_one_by_one(items);
        },
        _ => {},
    }
}

/// The branches of an output are read one by one, in their order.
pub proof fn branches_are_read_one_by_one(items: Seq<JsonV>)
    ensures
        intents_in(items) is Some <==> forall|i: int|
            0 <= i < items.len() ==> intent_in(#[trigger] items[i]) is Some,
        intents_in(items) matches Some(v) ==> {
            &&& v.len() == items.len()
            &&& forall|i: int| 0 <= i < v.len() ==> intent_in(items[i]) == Some(#[trigger] v[i])
        },
    decreases items.len(),
{
    if items.len() > 0 {
        let rest = items.drop_last();
        branches_are_read_one_by_one(rest);
        assert(forall|i: int|
            #![trigger rest[i]]
            #![trigger items[i]]
            0 <= i < rest.len() ==> rest[i] == items[i]);
        assert(items.last() == items[items.len() - 1]);
    }
}

/// A branch names the prompt that it leads to. Everything else of it may be missing: there is then
/// no gist, no tag and no reason, and it neither answers anything nor asks for a priority.
pub proof fn a_branch_is_read_from_its_fields(t: JsonV)
    ensures
        intent_in(t) matches Some(b) ==> {
            &&& field(t, "to_prompt"@) == Some(JsonV::Str(b.to_prompt))
            &&& b.gist.len() == 0 && field(t, "gist"@) is None || field(t, "gist"@) == Some(
                JsonV::Str(b.gist),
            )
            &&& b.reason.len() == 0 && field(t, "reason"@) is None || field(t, "reason"@) == Some(
                JsonV::Str(b.reason),
            )
            &&& b.reply_to matches Some(r) ==> field(t, "reply_to"@) == Some(JsonV::Str(r))
            &&& b.reply_to is None ==> field(t, "reply_to"@) is None || field(t, "reply_to"@)
                == Some(JsonV::Null)
            &&& b.priority matches Some(p) ==> (field(t, "priority"@) matches Some(JsonV::Str(s))
                && priority_of(s) == Some(p))
            &&& b.priority is None ==> field(t, "priority"@) is None || field(t, "priority"@)
                == Some(JsonV::Null)
            &&& b.tags.len() == 0 && field(t, "tags"@) is None || (field(t, "tags"@) is Some
                && crate::decode::texts_of(field(t, "tags"@)->0, false) == Some(b.tags))
        },
        intent_in(t) is Some <==> {
            &&& text_at(t, "to_prompt"@, false) is Some
            &&& text_or_at(t, "gist"@, Seq::empty(), false) is Some
            &&& opt_priority_at(t, "priority"@, false) is Some
            &&& opt_text_at(t, "reply_to"@, false) is Some
            &&& texts_or_at(t, "tags"@, Seq::empty(), false) is Some
            &&& text_or_at(t, "reason"@, Seq::empty(), false) is Some
        },
{
}

/// A single step is a branch to its prompt with its reason, and asks for nothing else.
pub proof fn a_single_step_asks_for_nothing_else(out: AgentOutputV, id: Seq<char>)
    requires
        out.batons.len() == 0,
        out.to_prompt == Some(id),
    ensures
        branches(out)[0].reason == out.reason,
        branches(out)[0].priority is None,
        branches(out)[0].tags.len() == 0,
{
}

proof fn an_item_is_referred_to_by_its_place(items: Seq<JsonV>, k: Seq<char>, i: int)
    ensures
        0 <= i < items.len() ==> item_texts(items).contains_key(int_text(i)) && item_texts(
            items,
        )[int_text(i)] == plain(items[i]),
        item_texts(items).contains_key(k) ==> exists|j: int|
            0 <= j < items.len() && k == #[trigger] int_text(j),
    decreases items.len(),
{
    if items.len() > 0 {
        let rest = items.drop_last();
        let n = items.len() - 1;
        an_item_is_referred_to_by_its_place(rest, k, i);
        a_number_reads_back(n);
        a_number_reads_back(i);
        if item_texts(rest).contains_key(k) {
            let j = choose|j: int| 0 <= j < rest.len() && k == #[trigger] int_text(j);
            assert(0 <= j < items.len() && k == int_text(j));
        }
        if item_texts(items).contains_key(k) && !item_texts(rest).contains_key(k) {
            assert(k == int_text(n));
        }
        if 0 <= i < n {
            assert(rest[i] == items[i]);
        }
    }
}

} // verus!
