//! The registry of duties.
//!
//! Each document under `stimuli/` is a standing duty: its front matter is configuration and
//! its body is the trusted briefing that is handed to the agent when the duty fires.

use vstd::prelude::*;

use crate::config::{CoalesceMode, CoalescePolicy};
use crate::decode::{
    fault_unless, field_error, get_list, get_opt_text, get_opt_u64, get_opt_value, get_text,
    get_text_or, get_value, list_at, list_fault, misfit, models, opt_model, opt_text_at,
    opt_text_fault, opt_u64_at, opt_u64_fault, opt_value_at, opt_value_fault, or_fault, text_at,
    text_fault, text_or_at, text_or_fault, value_at, value_fault, yaml_fault, FromTree,
};
use crate::error::DackError;
use crate::json::{field, value_tree, yaml_read, Json, JsonV};
use crate::model::proposal::{get_opt_priority, opt_priority_at, opt_priority_fault};
use crate::model::stimulus::{Priority, StimulusType, TrustTier};
use crate::paths::{join_path, joined_path, parent, parent_path};
use crate::sensor::{honors_scripts, scripts_honored};
use crate::text::{
    after_prefix, chars_of, first_at, has_part, has_prefix, joined, joined_parts_are_its_pieces,
    occurs_at, owned, parse_nat, parts_around, parts_around_give_back_the_text, pieces, read_nat,
    same_text, split, split_once, strip_prefix, trim, trim_start, trimmed, trimmed_start,
};

verus! {

// ── Front matter ────────────────────────────────────────────────────────────────────────

/// What follows the opening fence.
pub open spec fn after_fence(text: Seq<char>) -> Option<Seq<char>> {
    match after_prefix(text, "---\n"@) {
        Some(r) => Some(r),
        None => after_prefix(text, "---\r\n"@),
    }
}

/// What stands before and after the closing fence.
pub open spec fn around_fence(rest: Seq<char>) -> Option<(Seq<char>, Seq<char>)> {
    match parts_around(rest, "\n---\n"@) {
        Some(r) => Some(r),
        None => parts_around(rest, "\n---\r\n"@),
    }
}

/// The front matter and the body of a document; nothing where a fence is missing.
pub open spec fn front_and_body(text: Seq<char>) -> Option<(Seq<char>, Seq<char>)> {
    match after_fence(text) {
        None => None,
        Some(rest) => match around_fence(rest) {
            None => None,
            Some((yaml, body)) => Some((yaml, trimmed_start(body))),
        },
    }
}

/// What is wrong with a document that has no front matter.
pub open spec fn fence_fault(text: Seq<char>) -> Seq<char> {
    if after_fence(text) is None {
        "missing leading `---` frontmatter fence"@
    } else {
        "unterminated frontmatter fence"@
    }
}

/// A message with what it is about in front.
pub open spec fn labelled(label: Seq<char>, why: Seq<char>) -> Seq<char> {
    label + why
}

/// The error of a document whose front matter holds no `T`: the missing fence, or what is wrong
/// with the front matter.
pub open spec fn front_fault<T: FromTree>(e: DackError, label: Seq<char>, text: Seq<char>) -> bool {
    &&& e is Stimulus
    &&& match front_and_body(text) {
        None => (e->Stimulus_0)@ == fence_fault(text),
        Some((yaml, _)) => match yaml_fault::<T>(yaml) {
            Some(why) => (e->Stimulus_0)@ == labelled(label, why),
            None => false,
        },
    }
}

/// Splits a document into its front matter and its body.
pub fn split_frontmatter(text: &str) -> (r: Result<(String, String), DackError>)
    ensures
        match front_and_body(text@) {
            Some((yaml, body)) => r is Ok && r->Ok_0.0@ == yaml && r->Ok_0.1@ == body,
            None => r is Err && r->Err_0 is Stimulus && (r->Err_0->Stimulus_0)@ == fence_fault(text@),
        },
{
    let opened = match strip_prefix(text, "---\n") {
        Some(x) => Some(x),
        None => strip_prefix(text, "---\r\n"),
    };
    let rest = match opened {
        Some(x) => x,
        None => return Err(
            DackError::Stimulus(owned("missing leading `---` frontmatter fence")),
        ),
    };
    let closed = match split_once(rest.as_str(), "\n---\n") {
        Some(x) => Some(x),
        None => split_once(rest.as_str(), "\n---\r\n"),
    };
    match closed {
        Some((yaml, body)) => Ok((yaml, trim_start(body.as_str()))),
        None => Err(DackError::Stimulus(owned("unterminated frontmatter fence"))),
    }
}

// ── Triggers and the rest of the front matter ───────────────────────────────────────────

/// What fires a duty.
#[derive(Debug)]
pub enum Trigger {
    Cron { schedule: String },
    Webhook { path: String },
}

/// What a [`Trigger`] holds.
pub enum TriggerV {
    Cron(Seq<char>),
    Webhook(Seq<char>),
}

impl FromTree for Trigger {
    type Model = TriggerV;

    open spec fn model(&self) -> TriggerV {
        match self {
            Trigger::Cron { schedule } => TriggerV::Cron(schedule@),
            Trigger::Webhook { path } => TriggerV::Webhook(path@),
        }
    }

    open spec fn read(t: JsonV) -> Option<TriggerV> {
        match text_at(t, "type"@, false) {
            Some(k) => if k == "cron"@ {
                match text_at(t, "schedule"@, false) {
                    Some(s) => Some(TriggerV::Cron(s)),
                    None => None,
                }
            } else if k == "webhook"@ {
                match text_at(t, "path"@, false) {
                    Some(s) => Some(TriggerV::Webhook(s)),
                    None => None,
                }
            } else {
                None
            },
            None => None,
        }
    }

    open spec fn fault(t: JsonV) -> Option<Seq<char>> {
        or_fault(
            text_fault(t, "type"@, false),
            match text_at(t, "type"@, false) {
                Some(k) => if k == "cron"@ {
                    text_fault(t, "schedule"@, false)
                } else if k == "webhook"@ {
                    text_fault(t, "path"@, false)
                } else {
                    Some(misfit("type"@, "cron or webhook"@))
                },
                None => None,
            },
        )
    }

    fn from_tree(j: &Json) -> (r: Result<Trigger, String>) {
        let kind = match get_text(j, "type", false) {
            Ok(k) => k,
            Err(e) => return Err(e),
        };
        if same_text(kind.as_str(), "cron") {
            match get_text(j, "schedule", false) {
                Ok(schedule) => Ok(Trigger::Cron { schedule }),
                Err(e) => Err(e),
            }
        } else if same_text(kind.as_str(), "webhook") {
            match get_text(j, "path", false) {
                Ok(path) => Ok(Trigger::Webhook { path }),
                Err(e) => Err(e),
            }
        } else {
            Err(field_error("type", "cron or webhook"))
        }
    }
}

/// What a duty emits.
#[derive(Debug)]
pub struct Emits {
    pub type_: StimulusType,
}

impl FromTree for Emits {
    type Model = Seq<char>;

    open spec fn model(&self) -> Seq<char> {
        self.type_@
    }

    open spec fn read(t: JsonV) -> Option<Seq<char>> {
        text_at(t, "type"@, true)
    }

    open spec fn fault(t: JsonV) -> Option<Seq<char>> {
        text_fault(t, "type"@, true)
    }

    fn from_tree(j: &Json) -> (r: Result<Emits, String>) {
        match get_text(j, "type", true) {
            Ok(s) => Ok(Emits { type_: StimulusType(s) }),
            Err(e) => Err(e),
        }
    }
}

/// The watermark by which a poller never sees an item twice.
#[derive(Debug)]
pub struct CursorSpec {
    /// The field of a candidate whose greatest value is the next watermark.
    pub field: String,
    /// The variable through which the sensor gets the watermark.
    pub env: String,
    /// The key under which it is stored; the duty's id where there is none.
    pub key: Option<String>,
}

/// What a [`CursorSpec`] holds.
#[verifier::ext_equal]
pub struct CursorV {
    pub field: Seq<char>,
    pub env: Seq<char>,
    pub key: Option<Seq<char>>,
}

impl FromTree for CursorSpec {
    type Model = CursorV;

    open spec fn model(&self) -> CursorV {
        CursorV { field: self.field@, env: self.env@, key: self.key.deep_view() }
    }

    open spec fn read(t: JsonV) -> Option<CursorV> {
        match (text_at(t, "field"@, true), text_at(t, "env"@, true), opt_text_at(t, "key"@, true)) {
            (Some(field), Some(env), Some(key)) => Some(CursorV { field, env, key }),
            _ => None,
        }
    }

    open spec fn fault(t: JsonV) -> Option<Seq<char>> {
        let f = text_fault(t, "field"@, true);
        let f = or_fault(f, text_fault(t, "env"@, true));
        or_fault(f, opt_text_fault(t, "key"@, true))
    }

    fn from_tree(j: &Json) -> (r: Result<CursorSpec, String>) {
        let field = match get_text(j, "field", true) {
            Ok(x) => x,
            Err(e) => return Err(e),
        };
        let env = match get_text(j, "env", true) {
            Ok(x) => x,
            Err(e) => return Err(e),
        };
        match get_opt_text(j, "key", true) {
            Ok(key) => Ok(CursorSpec { field, env, key }),
            Err(e) => Err(e),
        }
    }
}

impl CursorSpec {
    /// The key under which this duty's watermark is stored.
    pub fn key_for(&self, duty_id: &str) -> (r: String)
        ensures
            r@ == (match self.key {
                Some(k) => k@,
                None => duty_id@,
            }),
    {
        match &self.key {
            Some(k) => k.clone(),
            None => owned(duty_id),
        }
    }
}

/// The mode that a label names.
pub open spec fn mode_of(s: Seq<char>) -> Option<CoalesceMode> {
    if s == "batch"@ {
        Some(CoalesceMode::Batch)
    } else if s == "latest"@ {
        Some(CoalesceMode::Latest)
    } else if s == "none"@ {
        Some(CoalesceMode::Never)
    } else {
        None
    }
}

/// What a [`CoalescePolicy`] holds.
#[verifier::ext_equal]
pub struct CoalesceV {
    pub mode: CoalesceMode,
    pub window_sec: Option<u64>,
    pub dedup_key: Option<Seq<char>>,
}

impl FromTree for CoalescePolicy {
    type Model = CoalesceV;

    open spec fn model(&self) -> CoalesceV {
        CoalesceV {
            mode: self.mode,
            window_sec: self.window_sec,
            dedup_key: self.dedup_key.deep_view(),
        }
    }

    open spec fn read(t: JsonV) -> Option<CoalesceV> {
        match (
            text_at(t, "mode"@, false),
            opt_u64_at(t, "window_sec"@),
            opt_text_at(t, "dedup_key"@, true),
        ) {
            (Some(m), Some(window_sec), Some(dedup_key)) => match mode_of(m) {
                Some(mode) => Some(CoalesceV { mode, window_sec, dedup_key }),
                None => None,
            },
            _ => None,
        }
    }

    open spec fn fault(t: JsonV) -> Option<Seq<char>> {
        or_fault(
            text_fault(t, "mode"@, false),
            or_fault(
                match text_at(t, "mode"@, false) {
                    Some(m) => fault_unless(
                        mode_of(m) is Some,
                        misfit("mode"@, "batch, latest or none"@),
                    ),
                    None => None,
                },
                or_fault(
                    opt_u64_fault(t, "window_sec"@),
                    opt_text_fault(t, "dedup_key"@, true),
                ),
            ),
        )
    }

    fn from_tree(j: &Json) -> (r: Result<CoalescePolicy, String>) {
        let m = match get_text(j, "mode", false) {
            Ok(x) => x,
            Err(e) => return Err(e),
        };
        let mode = if same_text(m.as_str(), "batch") {
            CoalesceMode::Batch
        } else if same_text(m.as_str(), "latest") {
            CoalesceMode::Latest
        } else if same_text(m.as_str(), "none") {
            CoalesceMode::Never
        } else {
            return Err(field_error("mode", "batch, latest or none"));
        };
        let window_sec = match get_opt_u64(j, "window_sec") {
            Ok(x) => x,
            Err(e) => return Err(e),
        };
        match get_opt_text(j, "dedup_key", true) {
            Ok(dedup_key) => Ok(CoalescePolicy { mode, window_sec, dedup_key }),
            Err(e) => Err(e),
        }
    }
}

/// The front matter of a duty.
#[derive(Debug)]
pub struct StimulusFrontmatter {
    pub id: String,
    pub trigger: Trigger,
    /// The sensor, relative to the duty's own directory.
    pub sensor: Option<String>,
    /// Trust of the duty's own body.
    pub directive_tier: TrustTier,
    pub emits: Emits,
    pub coalesce: Option<CoalescePolicy>,
    /// The state-prompt at which a cycle opens.
    pub entry: String,
    pub priority: Option<Priority>,
    /// A daily range `HH:MM-HH:MM` in UTC outside which the duty's wakes wait.
    pub dispatch_window: Option<String>,
    /// The providers whose tokens the sensor is given.
    pub secrets: Vec<String>,
    pub cursor: Option<CursorSpec>,
}

/// What a [`StimulusFrontmatter`] holds.
#[verifier::ext_equal]
pub struct FrontV {
    pub id: Seq<char>,
    pub trigger: TriggerV,
    pub sensor: Option<Seq<char>>,
    pub directive_tier: Seq<char>,
    pub emits: Seq<char>,
    pub coalesce: Option<CoalesceV>,
    pub entry: Seq<char>,
    pub priority: Option<Priority>,
    pub dispatch_window: Option<Seq<char>>,
    pub secrets: Seq<Seq<char>>,
    pub cursor: Option<CursorV>,
}

impl FromTree for StimulusFrontmatter {
    type Model = FrontV;

    open spec fn model(&self) -> FrontV {
        FrontV {
            id: self.id@,
            trigger: self.trigger.model(),
            sensor: self.sensor.deep_view(),
            directive_tier: self.directive_tier@,
            emits: self.emits.model(),
            coalesce: opt_model(self.coalesce),
            entry: self.entry@,
            priority: self.priority,
            dispatch_window: self.dispatch_window.deep_view(),
            secrets: models(self.secrets@),
            cursor: opt_model(self.cursor),
        }
    }

    open spec fn read(t: JsonV) -> Option<FrontV> {
        match (
            text_at(t, "id"@, true),
            value_at::<Trigger>(t, "trigger"@),
            opt_text_at(t, "sensor"@, true),
            value_at::<TrustTier>(t, "directive_tier"@),
            value_at::<Emits>(t, "emits"@),
            opt_value_at::<CoalescePolicy>(t, "coalesce"@),
        ) {
            (
                Some(id),
                Some(trigger),
                Some(sensor),
                Some(directive_tier),
                Some(emits),
                Some(coalesce),
            ) => match (
                text_or_at(t, "entry"@, "perceive"@, true),
                opt_priority_at(t, "priority"@, true),
                opt_text_at(t, "dispatch_window"@, true),
                list_at::<String>(t, "secrets"@),
                opt_value_at::<CursorSpec>(t, "cursor"@),
            ) {
                (
                    Some(entry),
                    Some(priority),
                    Some(dispatch_window),
                    Some(secrets),
                    Some(cursor),
                ) => Some(
                    FrontV {
                        id,
                        trigger,
                        sensor,
                        directive_tier,
                        emits,
                        coalesce,
                        entry,
                        priority,
                        dispatch_window,
                        secrets,
                        cursor,
                    },
                ),
                _ => None,
            },
            _ => None,
        }
    }

    open spec fn fault(t: JsonV) -> Option<Seq<char>> {
        let f = text_fault(t, "id"@, true);
        let f = or_fault(f, value_fault::<Trigger>(t, "trigger"@));
        let f = or_fault(f, opt_text_fault(t, "sensor"@, true));
        let f = or_fault(f, value_fault::<TrustTier>(t, "directive_tier"@));
        let f = or_fault(f, value_fault::<Emits>(t, "emits"@));
        let f = or_fault(f, opt_value_fault::<CoalescePolicy>(t, "coalesce"@));
        let f = or_fault(f, text_or_fault(t, "entry"@, true));
        let f = or_fault(f, opt_priority_fault(t, "priority"@, true));
        let f = or_fault(f, opt_text_fault(t, "dispatch_window"@, true));
        let f = or_fault(f, list_fault::<String>(t, "secrets"@));
        or_fault(f, opt_value_fault::<CursorSpec>(t, "cursor"@))
    }

    fn from_tree(j: &Json) -> (r: Result<StimulusFrontmatter, String>) {
        let id = match get_text(j, "id", true) {
            Ok(x) => x,
            Err(e) => return Err(e),
        };
        let trigger = match get_value::<Trigger>(j, "trigger") {
            Ok(x) => x,
            Err(e) => return Err(e),
        };
        let sensor = match get_opt_text(j, "sensor", true) {
            Ok(x) => x,
            Err(e) => return Err(e),
        };
        let directive_tier = match get_value::<TrustTier>(j, "directive_tier") {
            Ok(x) => x,
            Err(e) => return Err(e),
        };
        let emits = match get_value::<Emits>(j, "emits") {
            Ok(x) => x,
            Err(e) => return Err(e),
        };
        let coalesce = match get_opt_value::<CoalescePolicy>(j, "coalesce") {
            Ok(x) => x,
            Err(e) => return Err(e),
        };
        let entry = match get_text_or(j, "entry", "perceive", true) {
            Ok(x) => x,
            Err(e) => return Err(e),
        };
        let priority = match get_opt_priority(j, "priority", true) {
            Ok(x) => x,
            Err(e) => return Err(e),
        };
        let dispatch_window = match get_opt_text(j, "dispatch_window", true) {
            Ok(x) => x,
            Err(e) => return Err(e),
        };
        let secrets = match get_list::<String>(j, "secrets") {
            Ok(x) => x,
            Err(e) => return Err(e),
        };
        let cursor = match get_opt_value::<CursorSpec>(j, "cursor") {
            Ok(x) => x,
            Err(e) => return Err(e),
        };
        Ok(
            StimulusFrontmatter {
                id,
                trigger,
                sensor,
                directive_tier,
                emits,
                coalesce,
                entry,
                priority,
                dispatch_window,
                secrets,
                cursor,
            },
        )
    }
}

// ── Dispatch windows ────────────────────────────────────────────────────────────────────

/// A daily window in UTC, in minutes from midnight. It crosses midnight where it ends
/// before it starts.
#[derive(Debug, Clone, Copy, PartialEq, Eq, Structural)]
pub struct DispatchWindow {
    start_min: u32,
    end_min: u32,
}

/// The minutes from midnight that `HH:MM` names.
pub open spec fn clock_minutes(s: Seq<char>) -> Option<int> {
    match parts_around(trimmed(s), ":"@) {
        Some((h, m)) => match (read_nat(trimmed(h)), read_nat(trimmed(m))) {
            (Some(h), Some(m)) => if h < 24 && m < 60 {
                Some(h * 60 + m as int)
            } else {
                None
            },
            _ => None,
        },
        None => None,
    }
}

/// The start and the end that `HH:MM-HH:MM` names.
pub open spec fn window_minutes(s: Seq<char>) -> Option<(int, int)> {
    match parts_around(s, "-"@) {
        Some((a, b)) => match (clock_minutes(a), clock_minutes(b)) {
            (Some(x), Some(y)) => if x != y {
                Some((x, y))
            } else {
                None
            },
            _ => None,
        },
        None => None,
    }
}

/// A minute of the day lies in the window.
pub open spec fn in_window(start: int, end: int, m: int) -> bool {
    if start <= end {
        start <= m < end
    } else {
        m >= start || m < end
    }
}

/// The minute of its day that a second lies in.
pub open spec fn day_minute(at: int) -> int {
    (at % 86400) / 60
}

/// The first second, from `at` on, at which the window stands open.
pub open spec fn opens_at(start: int, end: int, at: int) -> int {
    if in_window(start, end, day_minute(at)) {
        at
    } else {
        let start_today = at - at % 86400 + start * 60;
        if start_today > at {
            start_today
        } else {
            start_today + 86400
        }
    }
}

fn read_clock(s: &str) -> (r: Option<u32>)
    ensures
        match r {
            Some(m) => clock_minutes(s@) == Some(m as int) && m < 1440,
            None => clock_minutes(s@) is None,
        },
{
    let t = trim(s);
    proof {
        reveal_strlit(":");
    }
    match split_once(t.as_str(), ":") {
        Some((h, m)) => match (
            parse_nat(trim(h.as_str()).as_str(), 23),
            parse_nat(trim(m.as_str()).as_str(), 59),
        ) {
            (Some(a), Some(b)) => Some(a as u32 * 60 + b as u32),
            _ => None,
        },
        None => None,
    }
}

impl DispatchWindow {
    pub closed spec fn start(self) -> int {
        self.start_min as int
    }

    pub closed spec fn end(self) -> int {
        self.end_min as int
    }

    #[verifier::type_invariant]
    spec fn within_a_day(self) -> bool {
        self.start_min < 1440 && self.end_min < 1440 && self.start_min != self.end_min
    }

    /// Reads `HH:MM-HH:MM`. Nothing where it is malformed, or starts when it ends.
    pub fn parse(s: &str) -> (r: Option<DispatchWindow>)
        ensures
            match r {
                Some(w) => window_minutes(s@) == Some((w.start(), w.end())),
                None => window_minutes(s@) is None,
            },
    {
        proof {
            reveal_strlit("-");
        }
        match split_once(s, "-") {
            Some((a, b)) => match (read_clock(a.as_str()), read_clock(b.as_str())) {
                (Some(start_min), Some(end_min)) => if start_min != end_min {
                    Some(DispatchWindow { start_min, end_min })
                } else {
                    None
                },
                _ => None,
            },
            None => None,
        }
    }

    /// Whether a minute of the day lies in the window.
    pub fn contains(&self, minute_of_day: u32) -> (r: bool)
        ensures
            r == in_window(self.start(), self.end(), minute_of_day as int),
    {
        if self.start_min <= self.end_min {
            minute_of_day >= self.start_min && minute_of_day < self.end_min
        } else {
            minute_of_day >= self.start_min || minute_of_day < self.end_min
        }
    }

    /// The first second, from `at` on, at which the window stands open.
    pub fn next_open(&self, at: i64) -> (r: i64)
        requires
            i64::MIN + 86400 <= at <= i64::MAX - 86400,
        ensures
            r == opens_at(self.start(), self.end(), at as int),
    {
        proof {
            use_type_invariant(self);
        }
        let since_midnight: i64 = match at.checked_rem_euclid(86400) {
            Some(x) => x,
            None => 0,
        };
        assert(since_midnight == at as int % 86400);
        if self.contains((since_midnight / 60) as u32) {
            return at;
        }
        let start_today: i64 = (at - since_midnight) + self.start_min as i64 * 60;
        if start_today > at {
            start_today
        } else {
            start_today + 86400
        }
    }
}

/// A wake that waits, waits for an open window, and for no longer than a day: the second at
/// which it may go lies in the window, is not before its arrival, and nothing opens earlier.
pub proof fn a_window_opens_within_a_day(start: int, end: int, at: int, t: int)
    requires
        0 <= start < 1440,
        0 <= end < 1440,
        start != end,
    ensures
        at <= opens_at(start, end, at) < at + 86400,
        in_window(start, end, day_minute(opens_at(start, end, at))),
        at <= t < opens_at(start, end, at) ==> !in_window(start, end, day_minute(t)),
{
    let r = opens_at(start, end, at);
    let d = at - at % 86400;
    assert(d % 86400 == 0) by (nonlinear_arith)
        requires
            d == at - at % 86400,
    ;
    if !in_window(start, end, day_minute(at)) {
        assert((d + start * 60) % 86400 == start * 60) by (nonlinear_arith)
            requires
                d % 86400 == 0,
                0 <= start < 1440,
        ;
        assert((d + start * 60 + 86400) % 86400 == start * 60) by (nonlinear_arith)
            requires
                (d + start * 60) % 86400 == start * 60,
        ;
        assert((start * 60) / 60 == start);
        if at <= t < r {
            if t < d + 86400 {
                assert(t % 86400 == t - d) by (nonlinear_arith)
                    requires
                        d % 86400 == 0,
                        d <= t < d + 86400,
                ;
            } else {
                assert(t % 86400 == t - d - 86400) by (nonlinear_arith)
                    requires
                        d % 86400 == 0,
                        d + 86400 <= t < d + 172800,
                ;
            }
            assert(at % 86400 == at - d);
        }
    }
}

/// A window that can be read starts and ends at two different minutes of the day.
pub proof fn window_lies_in_a_day(s: Seq<char>)
    ensures
        window_minutes(s) matches Some((a, b)) ==> 0 <= a < 1440 && 0 <= b < 1440 && a != b,
{
}

/// A window `HH:MM-HH:MM` runs from the one minute of the day to the other; over midnight where
/// it ends before it starts. Outside it the window is shut.
pub proof fn a_window_runs_from_its_start_to_its_end(start: int, end: int, m: int)
    requires
        0 <= start < 1440,
        0 <= end < 1440,
        start != end,
        0 <= m < 1440,
    ensures
        in_window(start, end, start),
        !in_window(start, end, end),
        in_window(start, end, m) <==> (m - start) % 1440 < (end - start) % 1440,
{
    assert((m - start) % 1440 == if m >= start {
        m - start
    } else {
        m - start + 1440
    });
    assert((end - start) % 1440 == if end >= start {
        end - start
    } else {
        end - start + 1440
    });
}

/// The clock of a window is read as hours and minutes of a day, with a colon between them.
pub proof fn a_clock_is_read_as_hours_and_minutes(h: Seq<char>, m: Seq<char>, hours: nat, minutes: nat)
    requires
        read_nat(h) == Some(hours),
        read_nat(m) == Some(minutes),
        trimmed(h) == h,
        trimmed(m) == m,
        trimmed(h + ":"@ + m) == h + ":"@ + m,
        forall|i: int| 0 <= i < h.len() ==> #[trigger] h[i] != ':',
    ensures
        hours < 24 && minutes < 60 ==> clock_minutes(h + ":"@ + m) == Some(
            hours * 60 + minutes as int,
        ),
        hours >= 24 || minutes >= 60 ==> clock_minutes(h + ":"@ + m) is None,
{
    reveal_strlit(":");
    let t = h + ":"@ + m;
    let n = h.len() as int;
    assert(t.subrange(n, n + 1) =~= ":"@);
    assert(occurs_at(t, ":"@, n));
    assert forall|j: int| 0 <= j < n implies !occurs_at(t, ":"@, j) by {
        if occurs_at(t, ":"@, j) {
            assert(t.subrange(j, j + 1)[0] == t[j]);
            assert(h[j] != ':');
        }
    }
    parts_around_give_back_the_text(t, ":"@, n);
    assert(t.take(n) =~= h);
    assert(t.skip(n + 1) =~= m);
}

// ── Duties ──────────────────────────────────────────────────────────────────────────────

/// A registered duty.
#[derive(Debug)]
pub struct StimulusDef {
    pub frontmatter: StimulusFrontmatter,
    /// The trusted briefing.
    pub directive_body: String,
    /// Where the duty stands, relative to the repository.
    pub source_path: String,
}

/// What a [`StimulusDef`] holds.
#[verifier::ext_equal]
pub struct DefV {
    pub front: FrontV,
    pub body: Seq<char>,
    pub path: Seq<char>,
}

impl View for StimulusDef {
    type V = DefV;

    open spec fn view(&self) -> DefV {
        DefV {
            front: self.frontmatter.model(),
            body: self.directive_body@,
            path: self.source_path@,
        }
    }
}

/// The front matter that a YAML text holds.
pub open spec fn front_in(yaml: Seq<char>) -> Option<FrontV> {
    match yaml_read(yaml) {
        Ok(v) => StimulusFrontmatter::read(value_tree(v)),
        Err(_) => None,
    }
}

/// The duty in a document.
pub open spec fn duty_in(text: Seq<char>, path: Seq<char>) -> Option<DefV> {
    match front_and_body(text) {
        Some((yaml, body)) => match front_in(yaml) {
            Some(front) => Some(DefV { front, body, path }),
            None => None,
        },
        None => None,
    }
}

impl StimulusDef {
    /// Reads a duty. A missing fence is a `Stimulus` error, bad front matter a `Yaml` error.
    pub fn parse(text: &str, source_path: &str) -> (r: Result<StimulusDef, DackError>)
        ensures
            match duty_in(text@, source_path@) {
                Some(d) => r is Ok && r->Ok_0@ == d,
                None => r is Err && match front_and_body(text@) {
                    None => r->Err_0 is Stimulus && (r->Err_0->Stimulus_0)@ == fence_fault(text@),
                    Some((yaml, _)) => r->Err_0 is Yaml && yaml_fault::<StimulusFrontmatter>(yaml)
                        == Some((r->Err_0->Yaml_0)@),
                },
            },
    {
        let (yaml, body) = match split_frontmatter(text) {
            Ok(x) => x,
            Err(e) => return Err(e),
        };
        let tree = match Json::parse_yaml(yaml.as_str()) {
            Ok(x) => x,
            Err(e) => return Err(DackError::Yaml(e)),
        };
        match StimulusFrontmatter::from_tree(&tree) {
            Ok(frontmatter) => Ok(
                StimulusDef { frontmatter, directive_body: body, source_path: owned(source_path) },
            ),
            Err(e) => Err(DackError::Yaml(e)),
        }
    }

    /// Whether the duty's sensor may run: only where its directive is trusted.
    pub fn sensor_honored(&self) -> (r: bool)
        ensures
            r == honors_scripts(self.frontmatter.directive_tier@),
    {
        scripts_honored(&self.frontmatter.directive_tier)
    }

    /// The path of the duty's sensor, where it has one and the tier honors it.
    pub fn resolved_sensor(&self, repo_root: &str) -> (r: Option<String>)
        ensures
            r.deep_view() == sensor_path(self@, repo_root@),
    {
        if !self.sensor_honored() {
            return None;
        }
        match &self.frontmatter.sensor {
            Some(rel) => {
                let md = join_path(repo_root, self.source_path.as_str());
                let dir = parent(md.as_str());
                Some(join_path(dir.as_str(), rel.as_str()))
            },
            None => None,
        }
    }
}

/// The path of a duty's sensor: it stands beside the duty's own document.
pub open spec fn sensor_path(d: DefV, root: Seq<char>) -> Option<Seq<char>> {
    match d.front.sensor {
        Some(rel) => if honors_scripts(d.front.directive_tier) {
            Some(joined_path(parent_path(joined_path(root, d.path)), rel))
        } else {
            None
        },
        None => None,
    }
}

/// A duty of the outside world ships no script.
pub proof fn public_duties_run_no_script(d: DefV, root: Seq<char>)
    requires
        d.front.directive_tier == "public"@,
    ensures
        sensor_path(d, root) is None,
{
    crate::model::stimulus::tier_names_differ();
}

// ── The registry ────────────────────────────────────────────────────────────────────────

/// How deep below the repository's `stimuli` a document may stand.
pub const MAX_DEPTH: usize = 2;

/// Something that a walk of `stimuli/` met.
#[derive(Debug)]
pub enum Found {
    /// A file, by its path relative to the repository, with its text or why it has none.
    File { path: String, text: Result<String, String> },
    /// A directory that could not be listed.
    Unlisted { path: String, error: String },
}

/// The duties of an agent, and what could not be read.
#[derive(Debug)]
pub struct Registry {
    pub defs: Vec<StimulusDef>,
    /// The path and the fault of each document that was skipped.
    pub errors: Vec<(String, String)>,
}

/// A path registers a duty: a document under `stimuli/`, at most two parts below it.
pub open spec fn registers(path: Seq<char>) -> bool {
    let parts = pieces(path, '/');
    let name = parts.last();
    &&& 2 <= parts.len() <= MAX_DEPTH + 1
    &&& parts[0] == "stimuli"@
    &&& name.len() > 3
    &&& name.skip(name.len() - 3) == ".md"@
}

/// What a registry holds: its duties, and the paths of what was skipped.
pub type RegistryV = (Seq<DefV>, Seq<Seq<char>>);

/// What one thing that was met does to a registry.
pub open spec fn register(r: RegistryV, f: Found) -> RegistryV {
    match f {
        Found::Unlisted { path, .. } => (r.0, r.1.push(path@)),
        Found::File { path, text } => if !registers(path@) {
            r
        } else {
            match text {
                Err(_) => (r.0, r.1.push(path@)),
                Ok(t) => match duty_in(t@, path@) {
                    Some(d) => (r.0.push(d), r.1),
                    None => (r.0, r.1.push(path@)),
                },
            }
        },
    }
}

/// What was met is passed over with a note.
pub open spec fn skipped(f: Found) -> bool {
    match f {
        Found::Unlisted { .. } => true,
        Found::File { path, text } => registers(path@) && (match text {
            Err(_) => true,
            Ok(t) => duty_in(t@, path@) is None,
        }),
    }
}

/// The path of what was met.
pub open spec fn found_path(f: Found) -> Seq<char> {
    match f {
        Found::Unlisted { path, .. } => path@,
        Found::File { path, .. } => path@,
    }
}

/// A note tells why something was passed over: what kept it from being read, or the error of
/// the document that it holds.
pub open spec fn tells(note: Seq<char>, f: Found) -> bool {
    match f {
        Found::Unlisted { error, .. } => note == error@,
        Found::File { text: Err(e), .. } => note == e@,
        Found::File { text: Ok(t), .. } => match front_and_body(t@) {
            None => note == "stimulus: "@ + fence_fault(t@),
            Some((yaml, _)) => match yaml_fault::<StimulusFrontmatter>(yaml) {
                Some(why) => note == "yaml: "@ + why,
                None => false,
            },
        },
    }
}

/// The notes tell of what was passed over, in order.
pub open spec fn noted(found: Seq<Found>, errors: Seq<(String, String)>) -> bool
    decreases found.len(),
{
    if found.len() == 0 {
        errors.len() == 0
    } else if skipped(found.last()) {
        errors.len() > 0 && errors.last().0@ == found_path(found.last()) && tells(
            errors.last().1@,
            found.last(),
        ) && noted(found.drop_last(), errors.drop_last())
    } else {
        noted(found.drop_last(), errors)
    }
}

/// The registry of everything that was met, in order.
pub open spec fn registry_of(found: Seq<Found>) -> RegistryV
    decreases found.len(),
{
    if found.len() == 0 {
        (Seq::empty(), Seq::empty())
    } else {
        register(registry_of(found.drop_last()), found.last())
    }
}

/// What duties hold.
pub open spec fn defs_view(v: Seq<StimulusDef>) -> Seq<DefV> {
    v.map_values(|d: StimulusDef| d@)
}

/// The paths of what was skipped.
pub open spec fn paths_view(v: Seq<(String, String)>) -> Seq<Seq<char>> {
    v.map_values(|e: (String, String)| e.0@)
}

/// The first duty with this id.
pub open spec fn duty_index(v: Seq<DefV>, id: Seq<char>) -> Option<int>
    decreases v.len(),
{
    if v.len() == 0 {
        None
    } else if v[0].front.id == id {
        Some(0)
    } else {
        match duty_index(v.skip(1), id) {
            Some(i) => Some(i + 1),
            None => None,
        }
    }
}

/// The duty that is found under an id has that id.
pub proof fn duty_index_names_a_duty(v: Seq<DefV>, id: Seq<char>)
    ensures
        duty_index(v, id) is Some ==> 0 <= duty_index(v, id)->0 < v.len() && v[duty_index(
            v,
            id,
        )->0].front.id == id,
    decreases v.len(),
{
    if v.len() > 0 && v[0].front.id != id {
        duty_index_names_a_duty(v.skip(1), id);
    }
}

/// The ids and schedules of the duties that a clock fires.
pub open spec fn cron_pairs(v: Seq<DefV>) -> Seq<(Seq<char>, Seq<char>)>
    decreases v.len(),
{
    if v.len() == 0 {
        Seq::empty()
    } else {
        let rest = cron_pairs(v.drop_last());
        match v.last().front.trigger {
            TriggerV::Cron(s) => rest.push((v.last().front.id, s)),
            TriggerV::Webhook(_) => rest,
        }
    }
}

/// The paths and ids of the duties that a request fires.
pub open spec fn webhook_pairs(v: Seq<DefV>) -> Seq<(Seq<char>, Seq<char>)>
    decreases v.len(),
{
    if v.len() == 0 {
        Seq::empty()
    } else {
        let rest = webhook_pairs(v.drop_last());
        match v.last().front.trigger {
            TriggerV::Cron(_) => rest,
            TriggerV::Webhook(p) => rest.push((p, v.last().front.id)),
        }
    }
}

/// What pairs of texts hold.
pub open spec fn pairs_view(v: Seq<(String, String)>) -> Seq<(Seq<char>, Seq<char>)> {
    v.map_values(|e: (String, String)| (e.0@, e.1@))
}

/// Whether a path registers a duty.
pub fn is_duty_path(path: &str) -> (r: bool)
    ensures
        r == registers(path@),
{
    let parts = split(path, '/');
    let n: usize = parts.len();
    proof {
        reveal_strlit(".md");
        assert(parts.deep_view().len() == parts@.len());
    }
    if n < 2 || n > MAX_DEPTH + 1 {
        return false;
    }
    assert(parts.deep_view()[0] == parts@[0]@);
    assert(parts.deep_view().last() == parts@[n - 1]@);
    let name = chars_of(parts[n - 1].as_str());
    let m: usize = name.len();
    if m <= 3 {
        return false;
    }
    let ghost tail = name@.skip(m - 3);
    let ends = name[m - 3] == '.' && name[m - 2] == 'm' && name[m - 1] == 'd';
    proof {
        if ends {
            assert(tail =~= ".md"@);
        } else {
            assert(tail[0] == name@[m - 3] && tail[1] == name@[m - 2] && tail[2] == name@[m - 1]);
        }
    }
    same_text(parts[0].as_str(), "stimuli") && ends
}

impl Registry {
    pub open spec fn view(&self) -> RegistryV {
        (defs_view(self.defs@), paths_view(self.errors@))
    }

    /// Reads every duty that a walk met. A malformed one is skipped and noted.
    pub fn load(found: &Vec<Found>) -> (r: Registry)
        ensures
            r@ == registry_of(found@),
            noted(found@, r.errors@),
    {
        let mut r = Registry { defs: Vec::new(), errors: Vec::new() };
        let mut i: usize = 0;
        assert(found@.take(0) =~= Seq::empty());
        assert(r@.0 =~= Seq::empty() && r@.1 =~= Seq::empty());
        while i < found.len()
            invariant
                i <= found@.len(),
                r@ == registry_of(found@.take(i as int)),
                noted(found@.take(i as int), r.errors@),
            decreases found@.len() - i,
        {
            proof {
                assert(found@.take(i + 1).drop_last() =~= found@.take(i as int));
                assert(found@.take(i + 1).last() == found@[i as int]);
            }
            let ghost before = r.errors@;
            r.add(&found[i]);
            assert(skipped(found@[i as int]) ==> r.errors@.drop_last() =~= before);
            i += 1;
        }
        assert(found@.take(i as int) =~= found@);
        r
    }

    fn add(&mut self, f: &Found)
        ensures
            final(self)@ == register(old(self)@, *f),
            if skipped(*f) {
                &&& final(self).errors@.len() == old(self).errors@.len() + 1
                &&& final(self).errors@.drop_last() == old(self).errors@
                &&& final(self).errors@.last().0@ == found_path(*f)
                &&& tells(final(self).errors@.last().1@, *f)
            } else {
                final(self).errors@ == old(self).errors@
            },
    {
        let ghost d0 = self.defs@;
        let ghost e0 = self.errors@;
        match f {
            Found::Unlisted { path, error } => {
                self.errors.push((path.clone(), error.clone()));
                assert(paths_view(self.errors@) =~= paths_view(e0).push(path@));
            },
            Found::File { path, text } => if is_duty_path(path.as_str()) {
                match text {
                    Err(e) => {
                        self.errors.push((path.clone(), e.clone()));
                        assert(paths_view(self.errors@) =~= paths_view(e0).push(path@));
                    },
                    Ok(t) => match StimulusDef::parse(t.as_str(), path.as_str()) {
                        Ok(d) => {
                            let ghost v = d@;
                            self.defs.push(d);
                            assert(defs_view(self.defs@) =~= defs_view(d0).push(v));
                        },
                        Err(e) => {
                            self.errors.push((path.clone(), e.text()));
                            assert(paths_view(self.errors@) =~= paths_view(e0).push(path@));
                        },
                    },
                }
            },
        }
    }

    /// The first duty with this id.
    pub fn get(&self, def_id: &str) -> (r: Option<&StimulusDef>)
        ensures
            match r {
                Some(d) => duty_index(self@.0, def_id@) is Some && *d == self.defs@[duty_index(
                    self@.0,
                    def_id@,
                )->0],
                None => duty_index(self@.0, def_id@) is None,
            },
    {
        let ghost all = self@.0;
        let mut i: usize = 0;
        assert(all.skip(0) =~= all);
        while i < self.defs.len()
            invariant
                i <= self.defs@.len(),
                all == self@.0,
                duty_index(all, def_id@) == (match duty_index(all.skip(i as int), def_id@) {
                    Some(k) => Some(k + i),
                    None => None,
                }),
            decreases self.defs@.len() - i,
        {
            assert(all.skip(i as int)[0] == self.defs@[i as int]@);
            assert(all.skip(i as int).skip(1) =~= all.skip(i + 1));
            if same_text(self.defs[i].frontmatter.id.as_str(), def_id) {
                return Some(&self.defs[i]);
            }
            i += 1;
        }
        None
    }

    /// The id and the schedule of every duty that a clock fires.
    pub fn cron_routes(&self) -> (r: Vec<(String, String)>)
        ensures
            pairs_view(r@) == cron_pairs(self@.0),
    {
        let ghost all = self@.0;
        let mut out: Vec<(String, String)> = Vec::new();
        let mut i: usize = 0;
        assert(all.take(0) =~= Seq::empty());
        assert(pairs_view(out@) =~= Seq::empty());
        while i < self.defs.len()
            invariant
                i <= self.defs@.len(),
                all == self@.0,
                pairs_view(out@) == cron_pairs(all.take(i as int)),
            decreases self.defs@.len() - i,
        {
            proof {
                assert(all.take(i + 1).drop_last() =~= all.take(i as int));
                assert(all.take(i + 1).last() == self.defs@[i as int]@);
            }
            let ghost o = out@;
            let f = &self.defs[i].frontmatter;
            match &f.trigger {
                Trigger::Cron { schedule } => {
                    out.push((f.id.clone(), schedule.clone()));
                    assert(pairs_view(out@) =~= pairs_view(o).push((f.id@, schedule@)));
                },
                Trigger::Webhook { .. } => {},
            }
            i += 1;
        }
        assert(all.take(i as int) =~= all);
        out
    }

    /// The path and the id of every duty that a request fires.
    pub fn webhook_routes(&self) -> (r: Vec<(String, String)>)
        ensures
            pairs_view(r@) == webhook_pairs(self@.0),
    {
        let ghost all = self@.0;
        let mut out: Vec<(String, String)> = Vec::new();
        let mut i: usize = 0;
        assert(all.take(0) =~= Seq::empty());
        assert(pairs_view(out@) =~= Seq::empty());
        while i < self.defs.len()
            invariant
                i <= self.defs@.len(),
                all == self@.0,
                pairs_view(out@) == webhook_pairs(all.take(i as int)),
            decreases self.defs@.len() - i,
        {
            proof {
                assert(all.take(i + 1).drop_last() =~= all.take(i as int));
                assert(all.take(i + 1).last() == self.defs@[i as int]@);
            }
            let ghost o = out@;
            let f = &self.defs[i].frontmatter;
            match &f.trigger {
                Trigger::Webhook { path } => {
                    out.push((path.clone(), f.id.clone()));
                    assert(pairs_view(out@) =~= pairs_view(o).push((path@, f.id@)));
                },
                Trigger::Cron { .. } => {},
            }
            i += 1;
        }
        assert(all.take(i as int) =~= all);
        out
    }
}

/// One bad document does not blind the agent to its other duties: what was registered
/// before stays registered, and the bad document is noted.
pub proof fn a_malformed_duty_is_skipped(found: Seq<Found>, f: Found)
    ensures
        registry_of(found).0.is_prefix_of(registry_of(found.push(f)).0),
        registry_of(found).1.is_prefix_of(registry_of(found.push(f)).1),
        f matches Found::File { path, text: Ok(t) } && registers(path@) && duty_in(t@, path@)
            is None ==> registry_of(found.push(f)).1 == registry_of(found).1.push(
            (f->File_path)@,
        ),
{
    assert(found.push(f).drop_last() =~= found);
}

/// A front stands between two fences at the beginning of its text, and the body is what follows
/// without the white space before it. A text with no such fences has neither.
pub proof fn a_front_stands_between_its_fences(text: Seq<char>, i: int)
    ensures
        !has_prefix(text, "---\n"@) && !has_prefix(text, "---\r\n"@) ==> front_and_body(text) is None,
        has_prefix(text, "---\n"@) && first_at(text.skip(4), "\n---\n"@, i) ==> front_and_body(text)
            == Some((text.skip(4).take(i), trimmed_start(text.skip(4).skip(i + 5)))),
        !has_prefix(text, "---\n"@) && has_prefix(text, "---\r\n"@) && first_at(
            text.skip(5),
            "\n---\n"@,
            i,
        ) ==> front_and_body(text) == Some(
            (text.skip(5).take(i), trimmed_start(text.skip(5).skip(i + 5))),
        ),
        has_prefix(text, "---\n"@) && !has_part(text.skip(4), "\n---\n"@) && !has_part(
            text.skip(4),
            "\n---\r\n"@,
        ) ==> front_and_body(text) is None,
{
    reveal_strlit("---\n");
    reveal_strlit("---\r\n");
    reveal_strlit("\n---\n");
    assert("---\n"@.len() == 4 && "---\r\n"@.len() == 5 && "\n---\n"@.len() == 5);
    if first_at(text.skip(4), "\n---\n"@, i) {
        parts_around_give_back_the_text(text.skip(4), "\n---\n"@, i);
    }
    if first_at(text.skip(5), "\n---\n"@, i) {
        parts_around_give_back_the_text(text.skip(5), "\n---\n"@, i);
    }
}

/// A trigger is a clock with its schedule or a web hook with its path, and nothing else is one.
pub proof fn a_trigger_is_a_clock_or_a_hook(t: JsonV, s: Seq<char>)
    ensures
        Trigger::read(t) == Some(TriggerV::Cron(s)) <==> field(t, "type"@) == Some(
            JsonV::Str("cron"@),
        ) && field(t, "schedule"@) == Some(JsonV::Str(s)),
        Trigger::read(t) == Some(TriggerV::Webhook(s)) <==> field(t, "type"@) == Some(
            JsonV::Str("webhook"@),
        ) && field(t, "path"@) == Some(JsonV::Str(s)),
{
    reveal_strlit("cron");
    reveal_strlit("webhook");
    assert("cron"@.len() == 4 && "webhook"@.len() == 7);
}

/// How a duty gathers is read by its name: what came last may stand for all, all may be gathered,
/// or each may stand alone.
pub proof fn a_gathering_is_read_by_its_name(s: Seq<char>, t: JsonV)
    ensures
        mode_of(s) == Some(CoalesceMode::Batch) <==> s == "batch"@,
        mode_of(s) == Some(CoalesceMode::Latest) <==> s == "latest"@,
        mode_of(s) == Some(CoalesceMode::Never) <==> s == "none"@,
        CoalescePolicy::read(t) matches Some(c) ==> {
            &&& field(t, "mode"@) matches Some(JsonV::Str(m)) && mode_of(m) == Some(c.mode)
            &&& opt_u64_at(t, "window_sec"@) == Some(c.window_sec)
            &&& opt_text_at(t, "dedup_key"@, true) == Some(c.dedup_key)
        },
        CursorSpec::read(t) matches Some(c) ==> {
            &&& text_at(t, "field"@, true) == Some(c.field)
            &&& text_at(t, "env"@, true) == Some(c.env)
            &&& opt_text_at(t, "key"@, true) == Some(c.key)
        },
        Emits::read(t) == text_at(t, "type"@, true),
{
    reveal_strlit("batch");
    reveal_strlit("latest");
    reveal_strlit("none");
    assert("batch"@.len() == 5 && "latest"@.len() == 6 && "none"@.len() == 4);
}

/// A duty is read from its front. It begins by perceiving unless it says otherwise, asks for no
/// secret unless it names it, and has a sensor, a cursor, a window and a priority only where it
/// says so.
pub proof fn a_duty_is_read_from_its_front(t: JsonV)
    ensures
        StimulusFrontmatter::read(t) matches Some(f) ==> {
            &&& text_at(t, "id"@, true) == Some(f.id)
            &&& field(t, "trigger"@) is Some && Trigger::read(field(t, "trigger"@)->0) == Some(
                f.trigger,
            )
            &&& opt_text_at(t, "sensor"@, true) == Some(f.sensor)
            &&& text_at(t, "directive_tier"@, true) == Some(f.directive_tier)
            &&& field(t, "emits"@) is Some && text_at(field(t, "emits"@)->0, "type"@, true) == Some(
                f.emits,
            )
            &&& opt_value_at::<CoalescePolicy>(t, "coalesce"@) == Some(f.coalesce)
            &&& field(t, "entry"@) is None ==> f.entry == "perceive"@
            &&& field(t, "entry"@) is Some ==> text_at(t, "entry"@, true) == Some(f.entry)
            &&& f.priority is None <==> opt_text_at(t, "priority"@, true) == Some(None::<Seq<char>>)
            &&& f.priority is Some ==> text_at(t, "priority"@, true) is Some
                && crate::model::proposal::priority_of(text_at(t, "priority"@, true)->0)
                == f.priority
            &&& opt_text_at(t, "dispatch_window"@, true) == Some(f.dispatch_window)
            &&& list_at::<String>(t, "secrets"@) == Some(f.secrets)
            &&& opt_value_at::<CursorSpec>(t, "cursor"@) == Some(f.cursor)
        },
        StimulusFrontmatter::read(t) is Some <==> {
            &&& text_at(t, "id"@, true) is Some
            &&& value_at::<Trigger>(t, "trigger"@) is Some
            &&& opt_text_at(t, "sensor"@, true) is Some
            &&& text_at(t, "directive_tier"@, true) is Some
            &&& value_at::<Emits>(t, "emits"@) is Some
            &&& opt_value_at::<CoalescePolicy>(t, "coalesce"@) is Some
            &&& text_or_at(t, "entry"@, "perceive"@, true) is Some
            &&& opt_priority_at(t, "priority"@, true) is Some
            &&& opt_text_at(t, "dispatch_window"@, true) is Some
            &&& list_at::<String>(t, "secrets"@) is Some
            &&& opt_value_at::<CursorSpec>(t, "cursor"@) is Some
        },
{
}

/// The sensor of a duty lies beside it, and runs only where its tier may run scripts.
pub proof fn a_sensor_lies_beside_its_duty(d: DefV, root: Seq<char>, rel: Seq<char>)
    ensures
        d.front.sensor is None ==> sensor_path(d, root) is None,
        d.front.sensor == Some(rel) && honors_scripts(d.front.directive_tier) ==> sensor_path(d, root)
            == Some(joined_path(parent_path(joined_path(root, d.path)), rel)),
        !honors_scripts(d.front.directive_tier) ==> sensor_path(d, root) is None,
{
}

/// What is found is registered piece by piece: a duty that can be read, the path of one that
/// cannot, and nothing of what is no duty.
pub proof fn what_is_found_is_registered(a: Seq<Found>, b: Seq<Found>, f: Found)
    ensures
        registry_of(a + b).0 == registry_of(a).0 + registry_of(b).0,
        registry_of(a + b).1 == registry_of(a).1 + registry_of(b).1,
        ({
            let r = registry_of(seq![f]);
            match f {
                Found::Unlisted { path, .. } => r.0.len() == 0 && r.1 == seq![path@],
                Found::File { path, text } => if !registers(path@) {
                    r.0.len() == 0 && r.1.len() == 0
                } else {
                    match text {
                        Err(_) => r.0.len() == 0 && r.1 == seq![path@],
                        Ok(t) => match duty_in(t@, path@) {
                            Some(d) => r.0 == seq![d] && r.1.len() == 0,
                            None => r.0.len() == 0 && r.1 == seq![path@],
                        },
                    }
                },
            }
        }),
    decreases b.len(),
{
    assert(seq![f].drop_last() =~= Seq::<Found>::empty());
    assert(registry_of(seq![f].drop_last()).0 =~= Seq::<DefV>::empty());
    assert(registry_of(seq![f].drop_last()).1 =~= Seq::<Seq<char>>::empty());
    if b.len() == 0 {
        assert(a + b =~= a);
        assert(registry_of(b).0 =~= Seq::<DefV>::empty());
        assert(registry_of(b).1 =~= Seq::<Seq<char>>::empty());
        assert(registry_of(a).0 + registry_of(b).0 =~= registry_of(a).0);
        assert(registry_of(a).1 + registry_of(b).1 =~= registry_of(a).1);
    } else {
        what_is_found_is_registered(a, b.drop_last(), f);
        assert((a + b).drop_last() =~= a + b.drop_last());
        assert((a + b).last() == b.last());
        assert(registry_of(a + b).0 =~= registry_of(a).0 + registry_of(b).0);
        assert(registry_of(a + b).1 =~= registry_of(a).1 + registry_of(b).1);
    }
}

/// A duty is a note in the directory of duties or in one directly below it.
pub proof fn a_duty_is_a_note_near_the_top(dir: Seq<char>, name: Seq<char>)
    requires
        forall|i: int| 0 <= i < name.len() ==> #[trigger] name[i] != '/',
        forall|i: int| 0 <= i < dir.len() ==> #[trigger] dir[i] != '/',
    ensures
        ({
            let file = name + ".md"@;
            &&& registers("stimuli/"@ + file) <==> name.len() > 0
            &&& registers("stimuli/"@ + dir + "/"@ + file) <==> name.len() > 0
            &&& !registers(file)
        }),
{
    let file = name + ".md"@;
    reveal_strlit(".md");
    reveal_strlit("stimuli");
    reveal_strlit("stimuli/");
    reveal_strlit("/");
    assert(file.skip(file.len() - 3) =~= ".md"@);
    let one = seq![file];
    let two = seq!["stimuli"@, file];
    let three = seq!["stimuli"@, dir, file];
    let sep = seq!['/'];
    joined_parts_are_its_pieces(one, '/');
    joined_parts_are_its_pieces(two, '/');
    joined_parts_are_its_pieces(three, '/');
    assert(two.drop_last() =~= seq!["stimuli"@]);
    assert(joined(seq!["stimuli"@], sep) == "stimuli"@);
    assert(joined(two, sep) =~= "stimuli/"@ + file);
    assert(three.drop_last() =~= seq!["stimuli"@, dir]);
    assert(three.drop_last().drop_last() =~= seq!["stimuli"@]);
    assert(joined(three.drop_last(), sep) =~= "stimuli/"@ + dir);
    assert(joined(three, sep) =~= "stimuli/"@ + dir + "/"@ + file);
    assert(joined(one, sep) =~= file);
}

/// A duty is found by its id, the first where two have it, and not where none has it.
pub proof fn a_duty_is_found_by_its_id(v: Seq<DefV>, id: Seq<char>, i: int)
    ensures
        0 <= i < v.len() && v[i].front.id == id && (forall|j: int|
            0 <= j < i ==> (#[trigger] v[j]).front.id != id) ==> duty_index(v, id) == Some(i),
        (forall|j: int| 0 <= j < v.len() ==> (#[trigger] v[j]).front.id != id) ==> duty_index(v, id)
            is None,
    decreases v.len(),
{
    if v.len() > 0 {
        let rest = v.skip(1);
        a_duty_is_found_by_its_id(rest, id, i - 1);
        assert(forall|j: int| #![trigger rest[j]] 0 <= j < rest.len() ==> rest[j] == v[j + 1]);
        if i > 0 {
            assert(i < v.len() ==> rest[i - 1] == v[i]);
        }
    }
}

/// Every duty of the clock has its schedule and every duty of a hook has its path, in their order.
pub proof fn every_duty_has_its_trigger(a: Seq<DefV>, b: Seq<DefV>, d: DefV)
    ensures
        cron_pairs(a + b) == cron_pairs(a) + cron_pairs(b),
        webhook_pairs(a + b) == webhook_pairs(a) + webhook_pairs(b),
        match d.front.trigger {
            TriggerV::Cron(s) => cron_pairs(seq![d]) == seq![(d.front.id, s)] && webhook_pairs(
                seq![d],
            ).len() == 0,
            TriggerV::Webhook(p) => webhook_pairs(seq![d]) == seq![(p, d.front.id)] && cron_pairs(
                seq![d],
            ).len() == 0,
        },
    decreases b.len(),
{
    let none = Seq::<(Seq<char>, Seq<char>)>::empty();
    assert(seq![d].drop_last() =~= Seq::<DefV>::empty());
    assert(cron_pairs(seq![d].drop_last()) =~= none);
    assert(webhook_pairs(seq![d].drop_last()) =~= none);
    if b.len() == 0 {
        assert(a + b =~= a);
        assert(cron_pairs(b) =~= none && webhook_pairs(b) =~= none);
        assert(cron_pairs(a) + cron_pairs(b) =~= cron_pairs(a));
        assert(webhook_pairs(a) + webhook_pairs(b) =~= webhook_pairs(a));
    } else {
        every_duty_has_its_trigger(a, b.drop_last(), d);
        assert((a + b).drop_last() =~= a + b.drop_last());
        assert((a + b).last() == b.last());
        assert(cron_pairs(a + b) =~= cron_pairs(a) + cron_pairs(b));
        assert(webhook_pairs(a + b) =~= webhook_pairs(a) + webhook_pairs(b));
    }
}

/// Every duty that cannot be read is noted under its path, in the order in which they were found,
/// and nothing else is.
pub proof fn every_malformed_duty_is_noted(found: Seq<Found>, errors: Seq<(String, String)>)
    requires
        noted(found, errors),
    ensures
        paths_view(errors) == registry_of(found).1,
    decreases found.len(),
{
    if found.len() == 0 {
        assert(paths_view(errors) =~= registry_of(found).1);
    } else if skipped(found.last()) {
        every_malformed_duty_is_noted(found.drop_last(), errors.drop_last());
        assert(paths_view(errors) =~= paths_view(errors.drop_last()).push(errors.last().0@));
    } else {
        every_malformed_duty_is_noted(found.drop_last(), errors);
    }
}

/// A note further down is no duty.
pub proof fn a_note_further_down_is_no_duty(dir: Seq<char>, sub: Seq<char>, file: Seq<char>)
    requires
        forall|i: int| 0 <= i < file.len() ==> #[trigger] file[i] != '/',
        forall|i: int| 0 <= i < dir.len() ==> #[trigger] dir[i] != '/',
        forall|i: int| 0 <= i < sub.len() ==> #[trigger] sub[i] != '/',
    ensures
        !registers("stimuli/"@ + dir + "/"@ + sub + "/"@ + file),
{
    reveal_strlit("stimuli");
    reveal_strlit("stimuli/");
    reveal_strlit("/");
    let sep = seq!['/'];
    let four = seq!["stimuli"@, dir, sub, file];
    joined_parts_are_its_pieces(four, '/');
    assert(four.drop_last() =~= seq!["stimuli"@, dir, sub]);
    assert(four.drop_last().drop_last() =~= seq!["stimuli"@, dir]);
    assert(four.drop_last().drop_last().drop_last() =~= seq!["stimuli"@]);
    assert(joined(seq!["stimuli"@], sep) == "stimuli"@);
    assert(joined(seq!["stimuli"@, dir], sep) =~= "stimuli/"@ + dir);
    assert(joined(four.drop_last(), sep) =~= "stimuli/"@ + dir + "/"@ + sub);
    assert(joined(four, sep) =~= "stimuli/"@ + dir + "/"@ + sub + "/"@ + file);
}

/// A file in another directory is no duty, nor is one that is no note.
pub proof fn a_file_elsewhere_is_no_duty(dir: Seq<char>, file: Seq<char>)
    requires
        forall|i: int| 0 <= i < file.len() ==> #[trigger] file[i] != '/',
        forall|i: int| 0 <= i < dir.len() ==> #[trigger] dir[i] != '/',
    ensures
        dir != "stimuli"@ ==> !registers(dir + "/"@ + file),
        registers(dir + "/"@ + file) ==> file.len() > 3 && file.skip(file.len() - 3) == ".md"@,
{
    reveal_strlit("/");
    let two = seq![dir, file];
    joined_parts_are_its_pieces(two, '/');
    assert(two.drop_last() =~= seq![dir]);
    assert(joined(seq![dir], seq!['/']) == dir);
    assert(joined(two, seq!['/']) =~= dir + "/"@ + file);
}

} // verus!
