//! A gate on irreversible actions that does not judge: a contract on the list, and a trigger
//! whose two tiers are the operator's. An adviser can make it stricter and never looser.

use vstd::prelude::*;

use crate::json::{field, text_in, Json, JsonV};
use crate::model::stimulus::{Stimulus, StimulusV, TrustTier};
use crate::text::{any_same, owned};

verus! {

/// What the operator allows to be settled.
#[derive(Debug)]
pub struct ControlPlane {
    /// What is left to spend. The treasury holds to it; nothing is decided by it here.
    pub cap_remaining: u64,
    pub whitelist: Vec<String>,
    pub allowed_action_types: Vec<String>,
}

/// An irreversible action.
#[derive(Debug)]
pub struct SettleAction {
    /// What the action targets.
    pub contract: String,
    /// What kind of action it is.
    pub action_type: String,
}

/// The field that names what an action targets: the first of these that is there.
pub open spec fn target_field(input: JsonV) -> Option<JsonV> {
    match field(input, "contract"@) {
        Some(x) => Some(x),
        None => match field(input, "to"@) {
            Some(x) => Some(x),
            None => field(input, "destination"@),
        },
    }
}

/// What an action targets; empty where nothing is named by a text.
pub open spec fn contract_of(input: JsonV) -> Seq<char> {
    match text_in(target_field(input)) {
        Some(s) => s,
        None => Seq::empty(),
    }
}

impl SettleAction {
    /// The action of a tool call.
    pub fn from_tool_input(tool: &str, input: &Json) -> (r: SettleAction)
        ensures
            r.contract@ == contract_of(input@),
            r.action_type@ == tool@,
    {
        let target = match input.get("contract") {
            Some(x) => Some(x),
            None => match input.get("to") {
                Some(x) => Some(x),
                None => input.get("destination"),
            },
        };
        let contract = match target {
            Some(x) => match x.as_str() {
                Some(s) => s.clone(),
                None => String::new(),
            },
            None => String::new(),
        };
        SettleAction { contract, action_type: owned(tool) }
    }
}

/// What is decided of an action.
#[derive(Debug)]
pub enum SettleDecision {
    Allow,
    Deny(String),
}

/// Someone who is asked before an irreversible action. What is said can veto and never permit.
pub trait Advisory {
    fn approves(&self, action: &SettleAction) -> bool;
}

/// Both tests pass.
pub open spec fn may_settle(contract: Seq<char>, s: StimulusV, whitelist: Seq<Seq<char>>) -> bool {
    &&& whitelist.contains(contract)
    &&& s.directive_tier == "operator_signed"@
    &&& s.payload_tier == "operator_signed"@
}

/// Decides on an irreversible action. The adviser, where there is one, is consulted by the
/// caller and takes no part here.
pub fn allow_settle(
    action: &SettleAction,
    triggering_stimulus: &Stimulus,
    control_plane: &ControlPlane,
    _advisory: Option<&dyn Advisory>,
) -> (r: SettleDecision)
    ensures
        r is Allow <==> may_settle(
            action.contract@,
            triggering_stimulus@,
            control_plane.whitelist.deep_view(),
        ),
        r is Deny && !control_plane.whitelist.deep_view().contains(action.contract@)
            ==> (r->Deny_0)@ == "contract `"@ + action.contract@ + "` not in whitelist"@,
        r is Deny && control_plane.whitelist.deep_view().contains(action.contract@)
            ==> (r->Deny_0)@ == "triggering stimulus is not operator_signed"@,
{
    if !any_same(&control_plane.whitelist, action.contract.as_str()) {
        let mut m = owned("contract `");
        m.append(action.contract.as_str());
        m.append("` not in whitelist");
        return SettleDecision::Deny(m);
    }
    let operator = TrustTier::operator();
    if !triggering_stimulus.directive_tier.same(&operator)
        || !triggering_stimulus.payload_tier.same(&operator) {
        return SettleDecision::Deny(owned("triggering stimulus is not operator_signed"));
    }
    SettleDecision::Allow
}

/// Decides on an irreversible action with what an adviser said: a veto denies, and an approval
/// changes nothing.
pub fn allow_settle_advised(
    action: &SettleAction,
    triggering_stimulus: &Stimulus,
    control_plane: &ControlPlane,
    approved: bool,
) -> (r: SettleDecision)
    ensures
        r is Allow <==> approved && may_settle(
            action.contract@,
            triggering_stimulus@,
            control_plane.whitelist.deep_view(),
        ),
{
    match allow_settle(action, triggering_stimulus, control_plane, None) {
        SettleDecision::Allow => if approved {
            SettleDecision::Allow
        } else {
            SettleDecision::Deny(owned("vetoed"))
        },
        d => d,
    }
}

/// Something settles exactly where the operator signed both what is asked and what is answered to,
/// and listed the contract.
pub proof fn settling_takes_the_operators_word(
    contract: Seq<char>,
    s: StimulusV,
    whitelist: Seq<Seq<char>>,
    i: int,
)
    ensures
        0 <= i < whitelist.len() && whitelist[i] == contract && s.directive_tier
            == "operator_signed"@ && s.payload_tier == "operator_signed"@ ==> may_settle(
            contract,
            s,
            whitelist,
        ),
        may_settle(contract, s, whitelist) ==> {
            &&& exists|k: int| 0 <= k < whitelist.len() && #[trigger] whitelist[k] == contract
            &&& s.directive_tier == "operator_signed"@
            &&& s.payload_tier == "operator_signed"@
        },
{
    if may_settle(contract, s, whitelist) {
        let k = choose|k: int| 0 <= k < whitelist.len() && whitelist[k] == contract;
        assert(whitelist[k] == contract);
    }
}

/// The contract is what the call names as one, else whom it pays to, else its destination; a call
/// that names none has the empty one.
pub proof fn a_call_names_its_contract(input: JsonV, c: Seq<char>)
    ensures
        field(input, "contract"@) == Some(JsonV::Str(c)) ==> contract_of(input) == c,
        field(input, "contract"@) is None && field(input, "to"@) == Some(JsonV::Str(c))
            ==> contract_of(input) == c,
        field(input, "contract"@) is None && field(input, "to"@) is None && field(
            input,
            "destination"@,
        ) == Some(JsonV::Str(c)) ==> contract_of(input) == c,
        field(input, "contract"@) is None && field(input, "to"@) is None && field(
            input,
            "destination"@,
        ) is None ==> contract_of(input).len() == 0,
{
}

} // verus!
