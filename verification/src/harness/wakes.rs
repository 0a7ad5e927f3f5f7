//! The wakes that the harness gives the agent itself, and what the loop does at each turn.

use vstd::prelude::*;

use crate::config::DackConfig;
use crate::error::DackError;
use crate::harness::trust::{is_paused, may_reflect, paused, reflect_rate_limit_ok};
use crate::json::{number_i64, plain, Json, JsonV, MAX_NESTING};
use crate::model::stimulus::{
    Priority, Stimulus, StimulusId, StimulusStatus, StimulusType, StimulusV, TrustTier,
};
use crate::text::{i64_text, int_text, owned, text_lt};

verus! {

/// The prompt at which a scheduled reflection opens.
pub const REFLECT_ENTRY: &'static str = "reflect";

/// The cursor under which the time of the last reflection is kept.
pub const REFLECT_CURSOR: &'static str = "reflect:last";

/// The cursor under which the pause is kept.
pub const PAUSE_CURSOR: &'static str = "paused";

/// A payload that says what happened and when.
pub open spec fn says(payload: JsonV, event: Seq<char>, at: i64) -> bool {
    exists|n: serde_json::Number|
        #[trigger] number_i64(n) == Some(at) && payload == JsonV::Object(
            seq![("at"@, JsonV::Number(n)), ("event"@, JsonV::Str(event))],
        )
}

/// What the agent is told when it reflects.
pub open spec fn reflect_directive() -> Seq<char> {
    "It's time to reflect. Review your recent runlogs and memory, and consider whether to adjust your soul — your prompts, stimuli, or notes. Change only what you can justify, small and deliberate; changing nothing is a fine outcome."@
}

/// What the agent is told after a restart.
pub open spec fn back_online_directive() -> Seq<char> {
    "You just came back online after being down. Take stock; if it suits your character, you may note it. No obligation to post."@
}

/// A wake of the harness's own.
pub open spec fn own_wake(
    id: Seq<char>,
    source: Seq<char>,
    type_: Seq<char>,
    payload: JsonV,
    provenance: Seq<char>,
    at: i64,
    key: Option<Seq<char>>,
    directive: Seq<char>,
    entry: Seq<char>,
) -> StimulusV {
    StimulusV {
        id,
        source,
        type_,
        directive_tier: "self"@,
        payload_tier: "self"@,
        payload,
        provenance: Some(provenance),
        received_at: at,
        dedup_key: key,
        pop_after: None,
        priority: Priority::Low,
        status: StimulusStatus::Pending,
        directive_body: directive,
        entry,
        baton: None,
    }
}

/// The payload of a wake of the harness's own survives being stored.
pub proof fn an_own_payload_is_plain(payload: JsonV, event: Seq<char>, at: i64)
    requires
        says(payload, event, at),
    ensures
        plain(payload, MAX_NESTING as nat),
{
    reveal_strlit("at");
    reveal_strlit("event");
    let f = payload->Object_0;
    assert("at"@[0] == 'a' && "event"@[0] == 'e');
    assert(text_lt("at"@, "event"@));
    assert forall|i: int| 0 <= i < f.len() implies plain((#[trigger] f[i]).1, 99) by {}
}

/// The payload of the operator's word survives being stored.
pub proof fn an_instruction_is_plain(instruction: Seq<char>)
    ensures
        plain(
            JsonV::Object(seq![("instruction"@, JsonV::Str(instruction))]),
            MAX_NESTING as nat,
        ),
{
    let f = seq![("instruction"@, JsonV::Str(instruction))];
    assert forall|i: int| 0 <= i < f.len() implies plain((#[trigger] f[i]).1, 99) by {}
}

fn event_payload(event: &str, at: i64) -> (r: Json)
    ensures
        says(r@, event@, at),
{
    let mut fields: Vec<(String, Json)> = Vec::new();
    let number = Json::integer(at);
    fields.push((owned("at"), number));
    fields.push((owned("event"), Json::text(owned(event))));
    let r = Json::object(fields);
    proof {
        let n = number@->Number_0;
        assert(number_i64(n) == Some(at));
        assert(r@ == JsonV::Object(crate::json::fields_view(fields@)));
        assert(crate::json::fields_view(fields@) =~= seq![
            ("at"@, JsonV::Number(n)),
            ("event"@, JsonV::Str(event@)),
        ]);
    }
    r
}

fn stamped(prefix: &str, now: i64) -> (r: String)
    ensures
        r@ == prefix@ + int_text(now as int),
{
    let mut out = owned(prefix);
    out.append(i64_text(now).as_str());
    out
}

/// The wake to reflect: the agent's own, so that the ceiling lets it through, and of one kind,
/// so that two that come close together fold into one.
pub fn reflect_stimulus(now: i64) -> (r: Stimulus)
    ensures
        says(r@.payload, "scheduled reflect"@, now),
        r@ == own_wake(
            "reflect-"@ + int_text(now as int),
            "harness-reflect"@,
            "reflect"@,
            r@.payload,
            "harness reflect schedule"@,
            now,
            Some("reflect"@),
            reflect_directive(),
            "reflect"@,
        ),
{
    Stimulus {
        id: StimulusId(stamped("reflect-", now)),
        source: owned("harness-reflect"),
        type_: StimulusType::named("reflect"),
        directive_tier: TrustTier::self_(),
        payload_tier: TrustTier::self_(),
        payload: event_payload("scheduled reflect", now),
        provenance: Some(owned("harness reflect schedule")),
        received_at: now,
        dedup_key: Some(owned("reflect")),
        pop_after: None,
        priority: Priority::Low,
        status: StimulusStatus::Pending,
        directive_body: owned(
            "It's time to reflect. Review your recent runlogs and memory, and consider whether to adjust your soul — your prompts, stimuli, or notes. Change only what you can justify, small and deliberate; changing nothing is a fine outcome.",
        ),
        entry: owned(REFLECT_ENTRY),
        baton: None,
    }
}

/// The wake after a restart.
pub fn back_online_stimulus(config: &DackConfig, now: i64) -> (r: Stimulus)
    ensures
        says(r@.payload, "harness back online"@, now),
        r@ == own_wake(
            "back-online-"@ + int_text(now as int),
            "harness"@,
            "back_online"@,
            r@.payload,
            "harness restart"@,
            now,
            None,
            back_online_directive(),
            config.default_entry@,
        ),
{
    Stimulus {
        id: StimulusId(stamped("back-online-", now)),
        source: owned("harness"),
        type_: StimulusType::named("back_online"),
        directive_tier: TrustTier::self_(),
        payload_tier: TrustTier::self_(),
        payload: event_payload("harness back online", now),
        provenance: Some(owned("harness restart")),
        received_at: now,
        dedup_key: None,
        pop_after: None,
        priority: Priority::Low,
        status: StimulusStatus::Pending,
        directive_body: owned(
            "You just came back online after being down. Take stock; if it suits your character, you may note it. No obligation to post.",
        ),
        entry: config.default_entry.clone(),
        baton: None,
    }
}

/// The operator's word. Its tier is only claimed here: the signature is checked when the row is
/// dispatched.
pub fn say_stimulus(config: &DackConfig, instruction: &str, signature: &str, now: i64) -> (r: Stimulus)
    ensures
        r@ == (StimulusV {
            id: "say-"@ + int_text(now as int),
            source: "operator-say"@,
            type_: "operator_instruction"@,
            directive_tier: "operator_signed"@,
            payload_tier: "self"@,
            payload: JsonV::Object(seq![("instruction"@, JsonV::Str(instruction@))]),
            provenance: Some("operator_sig:"@ + crate::text::trimmed(signature@)),
            received_at: now,
            dedup_key: None,
            pop_after: None,
            priority: Priority::Urgent,
            status: StimulusStatus::Pending,
            directive_body: instruction@,
            entry: config.default_entry@,
            baton: None,
        }),
{
    let mut fields: Vec<(String, Json)> = Vec::new();
    fields.push((owned("instruction"), Json::text(owned(instruction))));
    let payload = Json::object(fields);
    assert(crate::json::fields_view(fields@) =~= seq![
        ("instruction"@, JsonV::Str(instruction@)),
    ]);
    let mut provenance = owned("operator_sig:");
    provenance.append(crate::text::trim(signature).as_str());
    Stimulus {
        id: StimulusId(stamped("say-", now)),
        source: owned("operator-say"),
        type_: StimulusType::named("operator_instruction"),
        directive_tier: TrustTier::operator(),
        payload_tier: TrustTier::self_(),
        payload,
        provenance: Some(provenance),
        received_at: now,
        dedup_key: None,
        pop_after: None,
        priority: Priority::Urgent,
        status: StimulusStatus::Pending,
        directive_body: owned(instruction),
        entry: config.default_entry.clone(),
        baton: None,
    }
}

// ── The loop ────────────────────────────────────────────────────────────────────────────

/// What the loop does at the boundary of a cycle.
#[derive(Debug, Clone, Copy, PartialEq, Eq, Structural)]
pub enum Turn {
    /// The process ends. What was in flight is done.
    Stop,
    /// Nothing is popped: the agent is paused.
    Idle,
    /// The next row is popped.
    Pop,
}

/// How long the loop sleeps where there is nothing to do, in milliseconds.
pub const IDLE_MS: u64 = 500;

/// What the loop does at the boundary of a cycle: a shutdown goes before a pause, and a pause
/// before work.
pub open spec fn turn_of(shutdown: bool, pause: Option<Seq<char>>) -> Turn {
    if shutdown {
        Turn::Stop
    } else if paused(pause) {
        Turn::Idle
    } else {
        Turn::Pop
    }
}

/// What the loop does at the boundary of a cycle. `pause` is what the pause cursor holds.
pub fn next_turn(shutdown: bool, pause: &Option<String>) -> (r: Turn)
    ensures
        r == turn_of(shutdown, pause.deep_view()),
{
    if shutdown {
        Turn::Stop
    } else if is_paused(pause) {
        Turn::Idle
    } else {
        Turn::Pop
    }
}

/// The state in which a row is left: no row that was popped stays dispatched.
pub fn terminal_status(outcome: &Result<(), DackError>) -> (r: StimulusStatus)
    ensures
        r == (if outcome is Ok {
            StimulusStatus::Done
        } else {
            StimulusStatus::Failed
        }),
{
    match outcome {
        Ok(()) => StimulusStatus::Done,
        Err(_) => StimulusStatus::Failed,
    }
}

/// What the pause cursor is set to.
pub fn pause_value(pause: bool) -> (r: &'static str)
    ensures
        paused(Some(r@)) == pause,
        r@ == (if pause {
            "1"@
        } else {
            ""@
        }),
{
    proof {
        reveal_strlit("1");
        reveal_strlit("");
    }
    if pause {
        "1"
    } else {
        let r = "";
        assert(r@.len() == 0);
        r
    }
}

/// The reflection that is due when the schedule fires; none within the interval of the last.
pub fn scheduled_reflect(config: &DackConfig, last: &Option<String>, now: i64) -> (r: Option<Stimulus>)
    ensures
        r is Some <==> may_reflect(config.reflect_min_interval_secs, last.deep_view(), now),
        r is Some ==> says(r->0@.payload, "scheduled reflect"@, now),
        r is Some ==> r->0@ == own_wake(
            "reflect-"@ + int_text(now as int),
            "harness-reflect"@,
            "reflect"@,
            r->0@.payload,
            "harness reflect schedule"@,
            now,
            Some("reflect"@),
            reflect_directive(),
            "reflect"@,
        ),
{
    if reflect_rate_limit_ok(config.reflect_min_interval_secs, last, now) {
        Some(reflect_stimulus(now))
    } else {
        None
    }
}

/// The harness stops when it is told to, idles while it is paused, and otherwise takes the next
/// row.
pub proof fn a_turn_is_taken_unless_stopped_or_paused(shutdown: bool, pause: Option<Seq<char>>)
    ensures
        turn_of(shutdown, pause) == Turn::Stop <==> shutdown,
        turn_of(shutdown, pause) == Turn::Idle <==> !shutdown && pause == Some("1"@),
        turn_of(shutdown, pause) == Turn::Pop <==> !shutdown && pause != Some("1"@),
{
}

/// A wake of the harness's own is the agent's own on both sides, waits as a low one from the
/// second that it was made in, and says what it is about.
pub proof fn an_own_wake_is_the_agents(
    id: Seq<char>,
    source: Seq<char>,
    type_: Seq<char>,
    payload: JsonV,
    provenance: Seq<char>,
    at: i64,
    key: Option<Seq<char>>,
    directive: Seq<char>,
    entry: Seq<char>,
)
    ensures
        ({
            let s = own_wake(id, source, type_, payload, provenance, at, key, directive, entry);
            &&& s.directive_tier == "self"@ && s.payload_tier == "self"@
            &&& s.priority == Priority::Low && s.status == StimulusStatus::Pending
            &&& s.pop_after is None && s.baton is None
            &&& s.received_at == at
            &&& s.id == id && s.source == source && s.type_ == type_
            &&& s.payload == payload && s.provenance == Some(provenance)
            &&& s.dedup_key == key && s.directive_body == directive && s.entry == entry
        }),
{
}

} // verus!
