//! The walk of one cycle.
//!
//! A stimulus opens a cycle at its entry prompt. Each step's output names the branches to
//! take next; a branch is taken where its prompt lists it, its state lies within the ceiling
//! of the trust that the branch carries, the structure of the states allows it and, for a
//! change of the soul, the cadence does. A branch of low priority is put off to the queue.
//!
//! The walk itself does nothing: it says what is to be done next, and is told what came of
//! it.

use vstd::prelude::*;

use crate::config::{
    tier_meet, tier_rank, tier_reaches, DackConfig, TierV, TrustLattice,
};
use crate::harness::firebreak::{baton_of, branch_baton, find_reply_source, reply_source};
use crate::harness::trust::{may_reflect, reflect_rate_limit_ok, tainted, tainted_trust};
use crate::json::{Json, JsonV};
use crate::model::baton::{Baton, BatonV};
use crate::model::proposal::{branches, AgentOutput, AgentOutputV, BatonIntent, BatonIntentV};
use crate::model::stimulus::{
    Priority, Stimulus, StimulusId, StimulusStatus, StimulusV, TrustTier,
};
use crate::state::{allowed_transition, rank_of, within_ceiling, ConsciousnessState};
use crate::state_prompt::{reply_fields, PromptV, StatePrompt};
use crate::text::{any_same, nat_text, owned, owned_all, owned_opt, read_int, u64_text};

verus! {

/// How many steps one stimulus may be walked through.
pub const MAX_CHAIN_HOPS: usize = 6;

// ── States, events and replies ──────────────────────────────────────────────────────────

/// What a step opens on.
#[derive(Debug)]
pub enum StepInput {
    /// The directive and the untrusted payload.
    Entry,
    /// A digested baton.
    Act(Baton),
}

/// One step: a prompt, what it opens on, the trust it carries and what it replies to.
#[derive(Debug)]
pub struct Step {
    pub prompt: StatePrompt,
    pub input: StepInput,
    pub trust: TrustTier,
    /// What the destination of an outward effect is taken from.
    pub scope: Json,
}

/// What a [`Step`] holds.
#[verifier::ext_equal]
pub struct StepV {
    pub prompt: PromptV,
    pub baton: Option<BatonV>,
    pub trust: Seq<char>,
    pub scope: JsonV,
}

impl View for Step {
    type V = StepV;

    open spec fn view(&self) -> StepV {
        StepV {
            prompt: self.prompt@,
            baton: match self.input {
                StepInput::Entry => None,
                StepInput::Act(b) => Some(b@),
            },
            trust: self.trust@,
            scope: self.scope@,
        }
    }
}

/// The branches of a step that are still to be judged.
#[derive(Debug)]
pub struct Fan {
    pub from: ConsciousnessState,
    pub transitions: Vec<String>,
    pub reply_fields: Vec<String>,
    pub out: AgentOutput,
    pub runlog_ref: String,
    pub trust: TrustTier,
    pub todo: Vec<BatonIntent>,
}

/// What a [`Fan`] holds.
#[verifier::ext_equal]
pub struct FanV {
    pub from: ConsciousnessState,
    pub transitions: Seq<Seq<char>>,
    pub reply_fields: Seq<Seq<char>>,
    pub out: AgentOutputV,
    pub runlog_ref: Seq<char>,
    pub trust: Seq<char>,
    pub todo: Seq<BatonIntentV>,
}

impl View for Fan {
    type V = FanV;

    open spec fn view(&self) -> FanV {
        FanV {
            from: self.from,
            transitions: self.transitions.deep_view(),
            reply_fields: self.reply_fields.deep_view(),
            out: self.out@,
            runlog_ref: self.runlog_ref@,
            trust: self.trust@,
            todo: self.todo.deep_view(),
        }
    }
}

/// Where a cycle stands.
#[derive(Debug)]
pub enum Phase {
    /// The entry prompt is being looked up.
    Opening,
    /// A step is running.
    Running(Step),
    /// The first branch that is left is being looked up.
    Branching(Fan),
    Over,
}

/// What a [`Phase`] holds.
pub enum PhaseV {
    Opening,
    Running(StepV),
    Branching(FanV),
    Over,
}

/// A cycle.
#[derive(Debug)]
pub struct Cycle {
    pub stimulus: Stimulus,
    pub lattice: TrustLattice,
    pub now: i64,
    /// The least number of seconds between two changes of the soul.
    pub interval: i64,
    /// The trust that the cycle started with.
    pub seed: TrustTier,
    /// How many steps have run.
    pub steps: usize,
    /// How many branches have been put off.
    pub deferred: usize,
    /// The steps that wait, first come first.
    pub work: Vec<Step>,
    pub phase: Phase,
}

/// What a [`Cycle`] holds.
#[verifier::ext_equal]
pub struct CycleV {
    pub stim: StimulusV,
    pub lattice: Seq<TierV>,
    pub now: i64,
    pub interval: i64,
    pub seed: Seq<char>,
    pub steps: nat,
    pub deferred: nat,
    pub work: Seq<StepV>,
    pub phase: PhaseV,
}

/// What steps hold.
pub open spec fn steps_view(v: Seq<Step>) -> Seq<StepV> {
    v.map_values(|s: Step| s@)
}

/// What a phase holds.
pub open spec fn phase_view(p: Phase) -> PhaseV {
    match p {
        Phase::Opening => PhaseV::Opening,
        Phase::Running(s) => PhaseV::Running(s@),
        Phase::Branching(f) => PhaseV::Branching(f@),
        Phase::Over => PhaseV::Over,
    }
}

impl View for Cycle {
    type V = CycleV;

    open spec fn view(&self) -> CycleV {
        CycleV {
            stim: self.stimulus@,
            lattice: self.lattice@,
            now: self.now,
            interval: self.interval,
            seed: self.seed@,
            steps: self.steps as nat,
            deferred: self.deferred as nat,
            work: steps_view(self.work@),
            phase: phase_view(self.phase),
        }
    }
}

/// What came of what was asked for.
#[derive(Debug)]
pub enum Event {
    /// The prompt was found. With it comes the record of the last change of the soul.
    Resolved { prompt: StatePrompt, last_reflect: Option<String> },
    /// The prompt was not found, or cannot be read.
    Unresolved,
    /// The step ran.
    Ran { out: AgentOutput, runlog_ref: String, accessed: Option<TrustTier> },
    /// The step failed.
    Broke,
}

/// What an [`Event`] holds.
pub enum EventV {
    Resolved(PromptV, Option<Seq<char>>),
    Unresolved,
    Ran(AgentOutputV, Seq<char>, Option<Seq<char>>),
    Broke,
}

impl View for Event {
    type V = EventV;

    open spec fn view(&self) -> EventV {
        match self {
            Event::Resolved { prompt, last_reflect } => EventV::Resolved(
                prompt@,
                last_reflect.deep_view(),
            ),
            Event::Unresolved => EventV::Unresolved,
            Event::Ran { out, runlog_ref, accessed } => EventV::Ran(
                out@,
                runlog_ref@,
                accessed.deep_view(),
            ),
            Event::Broke => EventV::Broke,
        }
    }
}

/// How a cycle ends.
#[derive(Debug, Clone, Copy, PartialEq, Eq, Structural)]
pub enum End {
    /// It was walked to its end: what it committed is to be pushed.
    Complete,
    /// The entry lies above the ceiling of the seed. Nothing ran.
    AboveCeiling,
    /// It resumes a branch that was put off too long ago. Nothing ran.
    Expired,
    /// The entry could not be read: that is to be recorded. Nothing ran.
    Unresolved,
    /// A step failed: the row fails.
    Failed,
}

/// What is to be done next.
#[derive(Debug)]
pub enum Next {
    /// Look up a prompt.
    Resolve(String),
    /// Run the step that the cycle stands at.
    Run,
    Finish(End),
}

/// What a [`Next`] holds.
pub enum NextV {
    Resolve(Seq<char>),
    Run,
    Finish(End),
}

impl View for Next {
    type V = NextV;

    open spec fn view(&self) -> NextV {
        match self {
            Next::Resolve(id) => NextV::Resolve(id@),
            Next::Run => NextV::Run,
            Next::Finish(e) => NextV::Finish(*e),
        }
    }
}

/// What a cycle answers to an event.
#[derive(Debug)]
pub struct Reply {
    /// Whether a change of the soul is to be recorded as of now.
    pub reflected: bool,
    /// A branch that is to be put off to the queue.
    pub deferred: Option<Stimulus>,
    pub next: Next,
}

/// What a [`Reply`] holds.
#[verifier::ext_equal]
pub struct ReplyV {
    pub reflected: bool,
    pub deferred: Option<StimulusV>,
    pub next: NextV,
}

impl View for Reply {
    type V = ReplyV;

    open spec fn view(&self) -> ReplyV {
        ReplyV {
            reflected: self.reflected,
            deferred: match self.deferred {
                Some(s) => Some(s@),
                None => None,
            },
            next: self.next@,
        }
    }
}

// ── The rules ───────────────────────────────────────────────────────────────────────────

/// A state lies within what a tier reaches.
pub open spec fn within(l: Seq<TierV>, trust: Seq<char>, s: ConsciousnessState) -> bool {
    rank_of(s) <= rank_of(tier_reaches(l, trust))
}

/// A resumed branch is older than it may be.
pub open spec fn is_stale(s: StimulusV, ttl: Option<u64>, now: i64) -> bool {
    s.baton is Some && ttl is Some && now - s.received_at > ttl->0
}

/// A cycle that was just opened.
pub open spec fn opened(
    l: Seq<TierV>,
    interval: i64,
    ttl: Option<u64>,
    s: StimulusV,
    directive_tier: Seq<char>,
    now: i64,
) -> (CycleV, NextV) {
    let stale = is_stale(s, ttl, now);
    (
        CycleV {
            stim: s,
            lattice: l,
            now,
            interval,
            seed: tier_meet(l, directive_tier, s.payload_tier),
            steps: 0,
            deferred: 0,
            work: Seq::empty(),
            phase: if stale {
                PhaseV::Over
            } else {
                PhaseV::Opening
            },
        },
        if stale {
            NextV::Finish(End::Expired)
        } else {
            NextV::Resolve(s.entry)
        },
    )
}

/// A branch to this prompt is taken.
pub open spec fn admits(s: CycleV, f: FanV, p: PromptV, last: Option<Seq<char>>) -> bool {
    &&& within(s.lattice, f.trust, p.front.state)
    &&& f.from != ConsciousnessState::Reflect
    &&& p.front.state == ConsciousnessState::Reflect ==> may_reflect(s.interval, last, s.now)
}

/// The id of a branch that was put off.
pub open spec fn deferred_id(id: Seq<char>, n: nat) -> Seq<char> {
    id + "-deferred-"@ + nat_text(n)
}

/// The row of a branch that was put off. It resumes from the baton, with the trust that the
/// branch carried.
pub open spec fn deferred_row(
    s: CycleV,
    to_prompt: Seq<char>,
    baton: BatonV,
    trust: Seq<char>,
    source: JsonV,
) -> StimulusV {
    StimulusV {
        id: deferred_id(s.stim.id, s.deferred),
        source: s.stim.source,
        type_: s.stim.type_,
        directive_tier: s.stim.directive_tier,
        payload_tier: trust,
        payload: source,
        provenance: s.stim.provenance,
        received_at: s.now,
        dedup_key: None,
        pop_after: None,
        priority: Priority::Low,
        status: StimulusStatus::Pending,
        directive_body: s.stim.directive_body,
        entry: to_prompt,
        baton: Some(baton),
    }
}

/// The branches from the first one on that its prompt lists.
pub open spec fn from_listed(todo: Seq<BatonIntentV>, transitions: Seq<Seq<char>>) -> Seq<
    BatonIntentV,
>
    decreases todo.len(),
{
    if todo.len() == 0 || transitions.contains(todo[0].to_prompt) {
        todo
    } else {
        from_listed(todo.skip(1), transitions)
    }
}

/// How a cycle goes on with the branches that are left: the next listed one is looked up,
/// else the first waiting step runs, else the cycle is complete.
pub open spec fn gone_on(s: CycleV, f: FanV) -> (CycleV, NextV) {
    let todo = from_listed(f.todo, f.transitions);
    if todo.len() > 0 {
        (
            CycleV { phase: PhaseV::Branching(FanV { todo, ..f }), ..s },
            NextV::Resolve(todo[0].to_prompt),
        )
    } else if s.work.len() > 0 {
        (CycleV { phase: PhaseV::Running(s.work[0]), work: s.work.skip(1), ..s }, NextV::Run)
    } else {
        (CycleV { phase: PhaseV::Over, ..s }, NextV::Finish(End::Complete))
    }
}

/// A cycle that ends here.
pub open spec fn ended(s: CycleV, e: End) -> (CycleV, ReplyV) {
    (
        CycleV { phase: PhaseV::Over, ..s },
        ReplyV { reflected: false, deferred: None, next: NextV::Finish(e) },
    )
}

/// The fan of a step that ran.
pub open spec fn fan_of(
    s: CycleV,
    step: StepV,
    out: AgentOutputV,
    runlog_ref: Seq<char>,
    accessed: Option<Seq<char>>,
) -> FanV {
    FanV {
        from: step.prompt.front.state,
        transitions: step.prompt.front.transitions,
        reply_fields: reply_fields(step.prompt.front.reply_key),
        out,
        runlog_ref,
        trust: tainted(s.lattice, step.trust, accessed),
        todo: branches(out),
    }
}

/// What becomes of the first branch that is left, now that its prompt is known.
pub open spec fn branched(s: CycleV, f: FanV, p: PromptV, last: Option<Seq<char>>) -> (
    CycleV,
    ReplyV,
) {
    let b = f.todo[0];
    let rest = FanV { todo: f.todo.skip(1), ..f };
    if !admits(s, f, p, last) {
        let g = gone_on(s, rest);
        (g.0, ReplyV { reflected: false, deferred: None, next: g.1 })
    } else {
        let reflected = p.front.state == ConsciousnessState::Reflect;
        let source = reply_source(s.stim.payload, b.reply_to, f.reply_fields);
        let baton = baton_of(
            f.out,
            b.gist,
            source,
            s.stim.directive_tier,
            f.runlog_ref,
            f.trust,
        );
        if b.priority == Some(Priority::Low) {
            let g = gone_on(CycleV { deferred: s.deferred + 1, ..s }, rest);
            (
                g.0,
                ReplyV {
                    reflected,
                    deferred: Some(deferred_row(s, b.to_prompt, baton, f.trust, source)),
                    next: g.1,
                },
            )
        } else {
            let step = StepV { prompt: p, baton: Some(baton), trust: f.trust, scope: source };
            let g = gone_on(CycleV { work: s.work.push(step), ..s }, rest);
            (g.0, ReplyV { reflected, deferred: None, next: g.1 })
        }
    }
}

/// What an event makes of a cycle. An event that nobody asked for ends it as failed.
pub open spec fn after(s: CycleV, e: EventV) -> (CycleV, ReplyV) {
    match (s.phase, e) {
        (PhaseV::Opening, EventV::Resolved(p, _)) => if within(
            s.lattice,
            s.seed,
            p.front.state,
        ) {
            let step = StepV {
                prompt: p,
                baton: s.stim.baton,
                trust: s.seed,
                scope: s.stim.payload,
            };
            (
                CycleV { phase: PhaseV::Running(step), ..s },
                ReplyV {
                    reflected: p.front.state == ConsciousnessState::Reflect,
                    deferred: None,
                    next: NextV::Run,
                },
            )
        } else {
            ended(s, End::AboveCeiling)
        },
        (PhaseV::Opening, EventV::Unresolved) => ended(s, End::Unresolved),
        (PhaseV::Running(step), EventV::Ran(out, runlog_ref, accessed)) => {
            let t = CycleV { steps: s.steps + 1, ..s };
            if t.steps >= MAX_CHAIN_HOPS {
                ended(t, End::Complete)
            } else {
                let g = gone_on(t, fan_of(s, step, out, runlog_ref, accessed));
                (g.0, ReplyV { reflected: false, deferred: None, next: g.1 })
            }
        },
        (PhaseV::Branching(f), EventV::Resolved(p, last)) => if f.todo.len() > 0 {
            branched(s, f, p, last)
        } else {
            ended(s, End::Failed)
        },
        (PhaseV::Branching(f), EventV::Unresolved) => if f.todo.len() > 0 {
            let g = gone_on(s, FanV { todo: f.todo.skip(1), ..f });
            (g.0, ReplyV { reflected: false, deferred: None, next: g.1 })
        } else {
            ended(s, End::Failed)
        },
        _ => ended(s, End::Failed),
    }
}

// ── The walk ────────────────────────────────────────────────────────────────────────────

fn make_deferred_id(id: &str, n: usize) -> (r: String)
    ensures
        r@ == deferred_id(id@, n as nat),
{
    let mut out = owned(id);
    out.append("-deferred-");
    out.append(u64_text(n as u64).as_str());
    out
}

impl Cycle {
    /// Opens a cycle on a stimulus whose directive has the given, proven tier.
    pub fn open(config: &DackConfig, stimulus: Stimulus, directive_tier: &TrustTier, now: i64) -> (r: (
        Cycle,
        Next,
    ))
        ensures
            (r.0@, r.1@) == opened(
                config.trust_tiers.deep_view(),
                config.reflect_min_interval_secs,
                config.baton_ttl_secs,
                stimulus@,
                directive_tier@,
                now,
            ),
    {
        let lattice = config.lattice();
        let seed = lattice.meet(directive_tier, &stimulus.payload_tier);
        let stale = match (&stimulus.baton, config.baton_ttl_secs) {
            (Some(_), Some(ttl)) => now as i128 - stimulus.received_at as i128 > ttl as i128,
            _ => false,
        };
        let entry = stimulus.entry.clone();
        let work: Vec<Step> = Vec::new();
        assert(steps_view(work@) =~= Seq::empty());
        let (phase, next) = if stale {
            (Phase::Over, Next::Finish(End::Expired))
        } else {
            (Phase::Opening, Next::Resolve(entry))
        };
        (
            Cycle {
                stimulus,
                lattice,
                now,
                interval: config.reflect_min_interval_secs,
                seed,
                steps: 0,
                deferred: 0,
                work,
                phase,
            },
            next,
        )
    }

    fn end(self, e: End) -> (r: (Cycle, Reply))
        ensures
            (r.0@, r.1@) == ended(self@, e),
    {
        let c = Cycle { phase: Phase::Over, ..self };
        (c, Reply { reflected: false, deferred: None, next: Next::Finish(e) })
    }

    fn go_on(self, fan: Fan) -> (r: (Cycle, Next))
        ensures
            (r.0@, r.1@) == gone_on(self@, fan@),
    {
        let mut fan = fan;
        let ghost f0 = fan@;
        while fan.todo.len() > 0 && !any_same(&fan.transitions, fan.todo[0].to_prompt.as_str())
            invariant
                fan@ == (FanV { todo: fan@.todo, ..f0 }),
                from_listed(f0.todo, f0.transitions) == from_listed(fan@.todo, f0.transitions),
            ensures
                fan@ == (FanV { todo: from_listed(f0.todo, f0.transitions), ..f0 }),
            decreases fan.todo@.len(),
        {
            let ghost t = fan.todo.deep_view();
            assert(t[0] == fan.todo@[0]@);
            let _gone = fan.todo.remove(0);
            assert(fan.todo.deep_view() =~= t.skip(1));
        }
        let ghost todo = fan.todo.deep_view();
        assert(todo.len() == fan.todo@.len());
        if fan.todo.len() > 0 {
            assert(todo[0] == fan.todo@[0]@);
            let id = fan.todo[0].to_prompt.clone();
            let c = Cycle { phase: Phase::Branching(fan), ..self };
            return (c, Next::Resolve(id));
        }
        let mut work = self.work;
        let ghost w0 = steps_view(work@);
        if work.len() > 0 {
            assert(w0[0] == work@[0]@);
            let step = work.remove(0);
            assert(steps_view(work@) =~= w0.skip(1));
            let c = Cycle { phase: Phase::Running(step), work, ..self };
            (c, Next::Run)
        } else {
            let c = Cycle { phase: Phase::Over, work, ..self };
            (c, Next::Finish(End::Complete))
        }
    }

    fn put_off(&self, to_prompt: &str, baton: Baton, trust: &TrustTier, source: &Json) -> (r: Stimulus)
        ensures
            r@ == deferred_row(self@, to_prompt@, baton@, trust@, source@),
    {
        Stimulus {
            id: StimulusId(make_deferred_id(self.stimulus.id.0.as_str(), self.deferred)),
            source: self.stimulus.source.clone(),
            type_: self.stimulus.type_.clone(),
            directive_tier: self.stimulus.directive_tier.clone(),
            payload_tier: trust.clone(),
            payload: source.clone(),
            provenance: owned_opt(&self.stimulus.provenance),
            received_at: self.now,
            dedup_key: None,
            pop_after: None,
            priority: Priority::Low,
            status: StimulusStatus::Pending,
            directive_body: self.stimulus.directive_body.clone(),
            entry: owned(to_prompt),
            baton: Some(baton),
        }
    }

    fn branch(self, fan: Fan, prompt: StatePrompt, last_reflect: Option<String>) -> (r: (
        Cycle,
        Reply,
    ))
        requires
            fan@.todo.len() > 0,
            self.deferred < usize::MAX,
        ensures
            (r.0@, r.1@) == branched(self@, fan@, prompt@, last_reflect.deep_view()),
    {
        let mut fan = fan;
        let ghost f0 = fan@;
        let ghost p = prompt@;
        assert(fan.todo@.len() == f0.todo.len());
        assert(f0.todo[0] == fan.todo@[0]@);
        let b = fan.todo.remove(0);
        assert(fan.todo.deep_view() =~= f0.todo.skip(1));
        let ceiling = self.lattice.reaches(&fan.trust);
        let reflected = prompt.state == ConsciousnessState::Reflect;
        let admitted = within_ceiling(prompt.state, ceiling) && allowed_transition(
            fan.from,
            prompt.state,
        ) && (!reflected || reflect_rate_limit_ok(self.interval, &last_reflect, self.now));
        if !admitted {
            let (c, next) = self.go_on(fan);
            return (c, Reply { reflected: false, deferred: None, next });
        }
        let baton = {
            let source = find_reply_source(
                &self.stimulus.payload,
                &b.reply_to,
                &fan.reply_fields,
            );
            branch_baton(
                &fan.out,
                b.gist.as_str(),
                source,
                &self.stimulus.directive_tier,
                fan.runlog_ref.as_str(),
                &fan.trust,
            )
        };
        let scope = find_reply_source(
            &self.stimulus.payload,
            &b.reply_to,
            &fan.reply_fields,
        ).clone();
        let low = match b.priority {
            Some(Priority::Low) => true,
            _ => false,
        };
        if low {
            let row = self.put_off(b.to_prompt.as_str(), baton, &fan.trust, &scope);
            let n: usize = self.deferred + 1;
            let c = Cycle { deferred: n, ..self };
            let (c, next) = c.go_on(fan);
            (c, Reply { reflected, deferred: Some(row), next })
        } else {
            let step = Step {
                prompt,
                input: StepInput::Act(baton),
                trust: fan.trust.clone(),
                scope,
            };
            let ghost sv = step@;
            let mut work = self.work;
            let ghost w0 = steps_view(work@);
            work.push(step);
            assert(steps_view(work@) =~= w0.push(sv));
            let c = Cycle { work, ..self };
            let (c, next) = c.go_on(fan);
            (c, Reply { reflected, deferred: None, next })
        }
    }

    /// Tells the cycle what came of what it asked for, and learns what is to be done next.
    pub fn advance(self, event: Event) -> (r: (Cycle, Reply))
        requires
            self.deferred < usize::MAX,
            self.steps < usize::MAX,
        ensures
            (r.0@, r.1@) == after(self@, event@),
    {
        let ghost s = self@;
        match self.phase {
            Phase::Opening => match event {
                Event::Resolved { prompt, last_reflect } => {
                    let ceiling = self.lattice.reaches(&self.seed);
                    if !within_ceiling(prompt.state, ceiling) {
                        let c = Cycle { phase: Phase::Opening, ..self };
                        return c.end(End::AboveCeiling);
                    }
                    let reflected = prompt.state == ConsciousnessState::Reflect;
                    let input = match &self.stimulus.baton {
                        Some(b) => StepInput::Act(b.clone()),
                        None => StepInput::Entry,
                    };
                    let step = Step {
                        prompt,
                        input,
                        trust: self.seed.clone(),
                        scope: self.stimulus.payload.clone(),
                    };
                    let c = Cycle { phase: Phase::Running(step), ..self };
                    (c, Reply { reflected, deferred: None, next: Next::Run })
                },
                Event::Unresolved => {
                    let c = Cycle { phase: Phase::Opening, ..self };
                    c.end(End::Unresolved)
                },
                _ => {
                    let c = Cycle { phase: Phase::Opening, ..self };
                    c.end(End::Failed)
                },
            },
            Phase::Running(step) => match event {
                Event::Ran { out, runlog_ref, accessed } => {
                    let steps: usize = self.steps + 1;
                    if steps >= MAX_CHAIN_HOPS {
                        let c = Cycle { steps, phase: Phase::Over, ..self };
                        return c.end(End::Complete);
                    }
                    let trust = tainted_trust(&self.lattice, &step.trust, &accessed);
                    let todo = out.fan_out();
                    let reply_fields = step.prompt.reply_key_fields();
                    assert(crate::decode::models(step.prompt.transitions@)
                        =~= step.prompt.transitions.deep_view());
                    let fan = Fan {
                        from: step.prompt.state,
                        transitions: owned_all(&step.prompt.transitions),
                        reply_fields,
                        out,
                        runlog_ref,
                        trust,
                        todo,
                    };
                    let c = Cycle { steps, phase: Phase::Over, ..self };
                    let (c, next) = c.go_on(fan);
                    (c, Reply { reflected: false, deferred: None, next })
                },
                _ => {
                    let c = Cycle { phase: Phase::Over, ..self };
                    c.end(End::Failed)
                },
            },
            Phase::Branching(fan) => {
                assert(fan@.todo.len() == fan.todo@.len());
                if fan.todo.len() == 0 {
                    let c = Cycle { phase: Phase::Over, ..self };
                    return c.end(End::Failed);
                }
                match event {
                    Event::Resolved { prompt, last_reflect } => {
                        let c = Cycle { phase: Phase::Over, ..self };
                        c.branch(fan, prompt, last_reflect)
                    },
                    Event::Unresolved => {
                        let mut fan = fan;
                        let ghost t = fan.todo.deep_view();
                        let _gone = fan.todo.remove(0);
                        assert(fan.todo.deep_view() =~= t.skip(1));
                        let c = Cycle { phase: Phase::Over, ..self };
                        let (c, next) = c.go_on(fan);
                        (c, Reply { reflected: false, deferred: None, next })
                    },
                    _ => {
                        let c = Cycle { phase: Phase::Over, ..self };
                        c.end(End::Failed)
                    },
                }
            },
            Phase::Over => {
                let c = Cycle { phase: Phase::Over, ..self };
                c.end(End::Failed)
            },
        }
    }
}

// ── Laws ────────────────────────────────────────────────────────────────────────────────

/// A step that a cycle may run: its state lies within what its trust reaches, and it carries
/// no more trust than the cycle started with.
pub open spec fn may_run(s: CycleV, step: StepV) -> bool {
    &&& within(s.lattice, step.trust, step.prompt.front.state)
    &&& tier_rank(s.lattice, step.trust) <= tier_rank(s.lattice, s.seed)
}

/// What holds of a cycle at every point of its walk.
pub open spec fn sound(s: CycleV) -> bool {
    &&& s.steps <= MAX_CHAIN_HOPS
    &&& s.phase is Over || s.steps < MAX_CHAIN_HOPS
    &&& s.phase is Opening ==> s.steps == 0 && s.work.len() == 0
    &&& s.phase is Branching ==> s.steps > 0
    &&& forall|i: int|
        0 <= i < s.work.len() ==> may_run(s, #[trigger] s.work[i]) && s.work[i].baton is Some
    &&& s.phase matches PhaseV::Running(step) ==> may_run(s, step) && (s.steps > 0
        ==> step.baton is Some)
    &&& s.phase matches PhaseV::Branching(f) ==> tier_rank(s.lattice, f.trust) <= tier_rank(
        s.lattice,
        s.seed,
    )
}

/// A cycle opens sound.
pub proof fn a_cycle_opens_sound(
    l: Seq<TierV>,
    interval: i64,
    ttl: Option<u64>,
    s: StimulusV,
    directive_tier: Seq<char>,
    now: i64,
)
    ensures
        sound(opened(l, interval, ttl, s, directive_tier, now).0),
{
}

proof fn going_on_stays_sound(s: CycleV, f: FanV)
    requires
        s.steps > 0,
        s.steps < MAX_CHAIN_HOPS,
        forall|i: int|
            0 <= i < s.work.len() ==> may_run(s, #[trigger] s.work[i]) && s.work[i].baton is Some,
        tier_rank(s.lattice, f.trust) <= tier_rank(s.lattice, s.seed),
    ensures
        sound(gone_on(s, f).0),
{
    let g = gone_on(s, f).0;
    assert forall|i: int| 0 <= i < g.work.len() implies may_run(g, #[trigger] g.work[i])
        && g.work[i].baton is Some by {
        if g.phase is Running {
            assert(g.work[i] == s.work[i + 1]);
            assert(may_run(s, s.work[i + 1]));
        } else {
            assert(may_run(s, s.work[i]));
        }
    }
    if g.phase is Running {
        assert(may_run(s, s.work[0]));
    }
}

/// Every event keeps a cycle sound. So at every point of every walk: no step runs above the
/// ceiling of the trust that it carries; trust only falls; only the entry step sees the raw
/// payload, and every later step opens on a baton; and no stimulus is walked through more
/// steps than the cap.
pub proof fn a_cycle_stays_sound(s: CycleV, e: EventV)
    requires
        sound(s),
    ensures
        sound(after(s, e).0),
        after(s, e).1.next is Run ==> after(s, e).0.phase is Running,
        after(s, e).1.next is Finish <==> after(s, e).0.phase is Over,
{
    match (s.phase, e) {
        (PhaseV::Running(step), EventV::Ran(out, runlog_ref, accessed)) => {
            let t = CycleV { steps: s.steps + 1, ..s };
            assert forall|i: int| 0 <= i < t.work.len() implies may_run(t, #[trigger] t.work[i])
                && t.work[i].baton is Some by {
                assert(may_run(s, s.work[i]));
            }
            let f = fan_of(s, step, out, runlog_ref, accessed);
            if t.steps < MAX_CHAIN_HOPS {
                going_on_stays_sound(t, f);
            } else {
                assert forall|i: int|
                    0 <= i < after(s, e).0.work.len() implies may_run(
                    after(s, e).0,
                    #[trigger] after(s, e).0.work[i],
                ) && after(s, e).0.work[i].baton is Some by {
                    assert(may_run(s, s.work[i]));
                }
            }
        },
        (PhaseV::Branching(f), EventV::Resolved(p, last)) => if f.todo.len() > 0 {
            let rest = FanV { todo: f.todo.skip(1), ..f };
            let b = f.todo[0];
            if !admits(s, f, p, last) {
                going_on_stays_sound(s, rest);
            } else {
                let source = reply_source(s.stim.payload, b.reply_to, f.reply_fields);
                let baton = baton_of(
                    f.out,
                    b.gist,
                    source,
                    s.stim.directive_tier,
                    f.runlog_ref,
                    f.trust,
                );
                if b.priority == Some(Priority::Low) {
                    let t = CycleV { deferred: s.deferred + 1, ..s };
                    assert forall|i: int|
                        0 <= i < t.work.len() implies may_run(t, #[trigger] t.work[i])
                        && t.work[i].baton is Some by {
                        assert(may_run(s, s.work[i]));
                    }
                    going_on_stays_sound(t, rest);
                } else {
                    let step = StepV {
                        prompt: p,
                        baton: Some(baton),
                        trust: f.trust,
                        scope: source,
                    };
                    let t = CycleV { work: s.work.push(step), ..s };
                    assert forall|i: int|
                        0 <= i < t.work.len() implies may_run(t, #[trigger] t.work[i])
                        && t.work[i].baton is Some by {
                        if i < s.work.len() {
                            assert(may_run(s, s.work[i]));
                        }
                    }
                    going_on_stays_sound(t, rest);
                }
            }
        },
        (PhaseV::Branching(f), EventV::Unresolved) => if f.todo.len() > 0 {
            going_on_stays_sound(s, FanV { todo: f.todo.skip(1), ..f });
        },
        _ => {},
    }
    if after(s, e).0.phase is Over {
        let g = after(s, e).0;
        assert forall|i: int| 0 <= i < g.work.len() implies may_run(g, #[trigger] g.work[i])
            && g.work[i].baton is Some by {
            assert(i < s.work.len() ==> may_run(s, s.work[i]));
        }
    }
}

/// A cycle after some events.
pub open spec fn walked(s: CycleV, events: Seq<EventV>) -> CycleV
    decreases events.len(),
{
    if events.len() == 0 {
        s
    } else {
        after(walked(s, events.drop_last()), events.last()).0
    }
}

/// Whatever happens on the way, a cycle that was opened stays sound, and neither what it
/// started with nor what it started on is changed.
pub proof fn every_walk_is_sound(
    l: Seq<TierV>,
    interval: i64,
    ttl: Option<u64>,
    s: StimulusV,
    directive_tier: Seq<char>,
    now: i64,
    events: Seq<EventV>,
)
    ensures
        ({
            let c = walked(opened(l, interval, ttl, s, directive_tier, now).0, events);
            &&& sound(c)
            &&& c.seed == tier_meet(l, directive_tier, s.payload_tier)
            &&& c.lattice == l
            &&& c.stim == s
        }),
    decreases events.len(),
{
    if events.len() == 0 {
        a_cycle_opens_sound(l, interval, ttl, s, directive_tier, now);
    } else {
        every_walk_is_sound(l, interval, ttl, s, directive_tier, now, events.drop_last());
        a_cycle_stays_sound(
            walked(opened(l, interval, ttl, s, directive_tier, now).0, events.drop_last()),
            events.last(),
        );
    }
}

/// A step's trust falls by what it touched, and its branches start with what is left.
pub proof fn a_branch_inherits_the_taint(
    s: CycleV,
    step: StepV,
    out: AgentOutputV,
    runlog_ref: Seq<char>,
    touched: Seq<char>,
)
    ensures
        tier_rank(s.lattice, fan_of(s, step, out, runlog_ref, Some(touched)).trust) <= tier_rank(
            s.lattice,
            step.trust,
        ),
        tier_rank(s.lattice, fan_of(s, step, out, runlog_ref, Some(touched)).trust) <= tier_rank(
            s.lattice,
            touched,
        ),
        fan_of(s, step, out, runlog_ref, None).trust == step.trust,
{
}

/// Nothing follows a change of the soul: no branch out of Reflect is taken.
pub proof fn reflect_is_terminal(s: CycleV, f: FanV, p: PromptV, last: Option<Seq<char>>)
    requires
        f.from == ConsciousnessState::Reflect,
        f.todo.len() > 0,
    ensures
        branched(s, f, p, last).1.deferred is None,
        !branched(s, f, p, last).1.reflected,
        branched(s, f, p, last) == ({
            let g = gone_on(s, FanV { todo: f.todo.skip(1), ..f });
            (g.0, ReplyV { reflected: false, deferred: None, next: g.1 })
        }),
{
}

/// A branch that its prompt does not list is never looked up: what a cycle asks for is
/// always one of the places that the running prompt names.
pub proof fn only_listed_prompts_are_opened(s: CycleV, f: FanV)
    ensures
        gone_on(s, f).1 matches NextV::Resolve(id) ==> f.transitions.contains(id),
{
    from_listed_starts_listed(f.todo, f.transitions);
}

proof fn from_listed_starts_listed(todo: Seq<BatonIntentV>, transitions: Seq<Seq<char>>)
    ensures
        from_listed(todo, transitions).len() > 0 ==> transitions.contains(
            from_listed(todo, transitions)[0].to_prompt,
        ),
    decreases todo.len(),
{
    if todo.len() > 0 && !transitions.contains(todo[0].to_prompt) {
        from_listed_starts_listed(todo.skip(1), transitions);
    }
}

/// A branch that was put off regains no trust: the cycle that resumes it starts with no more
/// than the branch carried, and it opens on the baton.
pub proof fn a_deferred_branch_regains_no_trust(
    s: CycleV,
    to_prompt: Seq<char>,
    baton: BatonV,
    trust: Seq<char>,
    source: JsonV,
    directive_tier: Seq<char>,
    now: i64,
)
    ensures
        ({
            let row = deferred_row(s, to_prompt, baton, trust, source);
            let c = opened(s.lattice, s.interval, None, row, directive_tier, now).0;
            &&& tier_rank(s.lattice, c.seed) <= tier_rank(s.lattice, trust)
            &&& c.stim.baton == Some(baton)
            &&& row.priority == Priority::Low
        }),
{
}

/// A change of the soul that a branch leads to keeps its distance to the last one.
pub proof fn a_branch_to_reflect_keeps_the_cadence(
    s: CycleV,
    f: FanV,
    p: PromptV,
    last: Option<Seq<char>>,
)
    requires
        f.todo.len() > 0,
        branched(s, f, p, last).1.reflected,
    ensures
        may_reflect(s.interval, last, s.now),
        within(s.lattice, f.trust, ConsciousnessState::Reflect),
{
}

/// The steps that a cycle has still to walk: the one that runs, and those that wait.
pub open spec fn ahead(s: CycleV) -> Seq<StepV> {
    match s.phase {
        PhaseV::Running(step) => seq![step] + s.work,
        _ => s.work,
    }
}

/// Two points of one cycle, with nothing changed but where it stands and what it has ahead.
pub open spec fn same_cycle(a: CycleV, b: CycleV) -> bool {
    a.stim == b.stim && a.lattice == b.lattice && a.now == b.now && a.interval == b.interval
        && a.seed == b.seed
}

/// The `i`-th branch is the first of these that is listed.
pub open spec fn leads(todo: Seq<BatonIntentV>, listed: Seq<Seq<char>>, i: int) -> bool {
    &&& 0 <= i < todo.len()
    &&& listed.contains(todo[i].to_prompt)
    &&& forall|j: int| 0 <= j < i ==> !listed.contains((#[trigger] todo[j]).to_prompt)
}

/// None of these branches is listed.
pub open spec fn none_leads(todo: Seq<BatonIntentV>, listed: Seq<Seq<char>>) -> bool {
    forall|j: int| 0 <= j < todo.len() ==> !listed.contains((#[trigger] todo[j]).to_prompt)
}

/// How a cycle that had `work` ahead goes on with some branches. The first listed one is asked
/// for, with those behind it kept; where none is listed, the first step ahead runs; and where
/// there is neither, the cycle is complete.
pub open spec fn goes_on(
    c: CycleV,
    next: NextV,
    work: Seq<StepV>,
    todo: Seq<BatonIntentV>,
    listed: Seq<Seq<char>>,
) -> bool {
    &&& ahead(c) == work
    &&& forall|i: int| #[trigger]
        leads(todo, listed, i) ==> {
            &&& next == NextV::Resolve(todo[i].to_prompt)
            &&& c.phase is Branching
            &&& c.phase->Branching_0.todo == todo.skip(i)
            &&& c.phase->Branching_0.transitions == listed
        }
    &&& none_leads(todo, listed) && work.len() > 0 ==> {
        &&& next == NextV::Run
        &&& c.phase == PhaseV::Running(work[0])
    }
    &&& none_leads(todo, listed) && work.len() == 0 ==> {
        &&& next == NextV::Finish(End::Complete)
        &&& c.phase is Over
    }
}

proof fn the_first_listed_leads(todo: Seq<BatonIntentV>, listed: Seq<Seq<char>>, i: int)
    ensures
        leads(todo, listed, i) ==> from_listed(todo, listed) == todo.skip(i),
        none_leads(todo, listed) ==> from_listed(todo, listed).len() == 0,
    decreases todo.len(),
{
    if todo.len() > 0 {
        let rest = todo.skip(1);
        if !listed.contains(todo[0].to_prompt) {
            the_first_listed_leads(rest, listed, i - 1);
            if leads(todo, listed, i) {
                assert(rest[i - 1] == todo[i]);
                assert forall|j: int| 0 <= j < i - 1 implies !listed.contains(
                    (#[trigger] rest[j]).to_prompt,
                ) by {
                    assert(rest[j] == todo[j + 1]);
                }
                assert(rest.skip(i - 1) =~= todo.skip(i));
            }
            if none_leads(todo, listed) {
                assert forall|j: int| 0 <= j < rest.len() implies !listed.contains(
                    (#[trigger] rest[j]).to_prompt,
                ) by {
                    assert(rest[j] == todo[j + 1]);
                }
            }
        } else {
            if leads(todo, listed, i) {
                assert(i == 0) by {
                    if i > 0 {
                        assert(!listed.contains(todo[0].to_prompt));
                    }
                }
                assert(todo.skip(0) =~= todo);
            }
        }
    }
}

proof fn going_on_goes_on(s: CycleV, f: FanV)
    requires
        !(s.phase is Running),
    ensures
        goes_on(gone_on(s, f).0, gone_on(s, f).1, s.work, f.todo, f.transitions),
        gone_on(s, f).0.phase is Branching ==> gone_on(s, f).0.phase->Branching_0 == (FanV {
            todo: gone_on(s, f).0.phase->Branching_0.todo,
            ..f
        }),
        same_cycle(gone_on(s, f).0, s),
        gone_on(s, f).0.steps == s.steps,
        gone_on(s, f).0.deferred == s.deferred,
{
    let g = gone_on(s, f);
    assert forall|i: int| #[trigger] leads(f.todo, f.transitions, i) implies {
        &&& g.1 == NextV::Resolve(f.todo[i].to_prompt)
        &&& g.0.phase is Branching
        &&& g.0.phase->Branching_0.todo == f.todo.skip(i)
        &&& g.0.phase->Branching_0.transitions == f.transitions
    } by {
        the_first_listed_leads(f.todo, f.transitions, i);
        assert(f.todo.skip(i)[0] == f.todo[i]);
    }
    the_first_listed_leads(f.todo, f.transitions, 0);
    if g.0.phase is Running {
        assert(ahead(g.0) =~= s.work);
    }
}

/// A branch of a run in Perceive, Express or Settle, whose prompt was found and lies within what
/// the branch's trust reaches, is taken, unless it leads to Reflect too soon after the last
/// change of the soul. It becomes a step at the end of what is ahead, which opens on a baton at
/// the branch's trust; one of low priority is handed back to be put off instead. Then the next
/// listed branch is looked at.
pub proof fn a_branch_in_reach_is_taken(
    s: CycleV,
    f: FanV,
    p: PromptV,
    last: Option<Seq<char>>,
    at: int,
)
    requires
        s.phase == PhaseV::Branching(f),
        f.todo.len() > 0,
        f.from == ConsciousnessState::Perceive || f.from == ConsciousnessState::Express || f.from
            == ConsciousnessState::Settle,
        rank_of(p.front.state) <= rank_of(tier_reaches(s.lattice, f.trust)),
        p.front.state == ConsciousnessState::Reflect ==> {
            ||| s.interval <= 0
            ||| last is None
            ||| read_int(last->0) is None
            ||| read_int(last->0) == Some(at) && s.now - at >= s.interval
        },
    ensures
        ({
            let b = f.todo[0];
            let (c, r) = after(s, EventV::Resolved(p, last));
            let low = b.priority == Some(Priority::Low);
            &&& same_cycle(c, s)
            &&& c.steps == s.steps
            &&& r.reflected == (p.front.state == ConsciousnessState::Reflect)
            &&& !low ==> {
                &&& r.deferred is None
                &&& c.deferred == s.deferred
                &&& ahead(c).len() == s.work.len() + 1
                &&& ahead(c).drop_last() == s.work
                &&& ahead(c).last().prompt == p
                &&& ahead(c).last().trust == f.trust
                &&& ahead(c).last().baton is Some
                &&& goes_on(c, r.next, ahead(c), f.todo.skip(1), f.transitions)
            }
            &&& low ==> {
                &&& r.deferred is Some
                &&& r.deferred->0.entry == b.to_prompt
                &&& r.deferred->0.baton is Some
                &&& c.deferred == s.deferred + 1
                &&& ahead(c) == s.work
                &&& goes_on(c, r.next, s.work, f.todo.skip(1), f.transitions)
            }
            &&& c.phase is Branching ==> c.phase->Branching_0 == (FanV {
                todo: c.phase->Branching_0.todo,
                ..f
            })
        }),
{
    let b = f.todo[0];
    let rest = FanV { todo: f.todo.skip(1), ..f };
    let source = reply_source(s.stim.payload, b.reply_to, f.reply_fields);
    let baton = baton_of(f.out, b.gist, source, s.stim.directive_tier, f.runlog_ref, f.trust);
    if b.priority == Some(Priority::Low) {
        going_on_goes_on(CycleV { deferred: s.deferred + 1, ..s }, rest);
    } else {
        let step = StepV { prompt: p, baton: Some(baton), trust: f.trust, scope: source };
        going_on_goes_on(CycleV { work: s.work.push(step), ..s }, rest);
        assert(s.work.push(step).drop_last() =~= s.work);
    }
}

/// A branch out of Reflect, one above what its trust reaches, one that leads to Reflect too soon
/// after the last change of the soul, and one whose prompt was not found are dropped: nothing is
/// added to what is ahead, nothing is put off, and the next listed branch is looked at.
pub proof fn a_branch_out_of_reach_is_dropped(s: CycleV, f: FanV, e: EventV, at: i64)
    requires
        s.phase == PhaseV::Branching(f),
        f.todo.len() > 0,
        e is Unresolved || e is Resolved,
        e matches EventV::Resolved(p, last) ==> {
            ||| f.from == ConsciousnessState::Reflect
            ||| rank_of(p.front.state) > rank_of(tier_reaches(s.lattice, f.trust))
            ||| p.front.state == ConsciousnessState::Reflect && s.interval > 0 && last is Some
                && read_int(last->0) == Some(at as int) && s.now - at < s.interval
        },
    ensures
        ({
            let (c, r) = after(s, e);
            &&& same_cycle(c, s)
            &&& c.steps == s.steps
            &&& c.deferred == s.deferred
            &&& !r.reflected
            &&& r.deferred is None
            &&& goes_on(c, r.next, s.work, f.todo.skip(1), f.transitions)
        }),
{
    going_on_goes_on(s, FanV { todo: f.todo.skip(1), ..f });
}

/// A step that ran counts as one; its branches come from its own state, are the ones that it
/// answered with, and carry its trust, or the lower one of what it touched. Up to the sixth step
/// the first listed branch is looked up; after the sixth the cycle is complete.
pub proof fn a_run_is_followed_by_its_branches(
    s: CycleV,
    step: StepV,
    out: AgentOutputV,
    runlog_ref: Seq<char>,
    accessed: Option<Seq<char>>,
)
    requires
        s.phase == PhaseV::Running(step),
    ensures
        ({
            let (c, r) = after(s, EventV::Ran(out, runlog_ref, accessed));
            let kept = step.prompt.front.transitions;
            &&& same_cycle(c, s)
            &&& c.steps == s.steps + 1
            &&& c.deferred == s.deferred
            &&& !r.reflected
            &&& r.deferred is None
            &&& s.steps < 5 ==> goes_on(c, r.next, s.work, branches(out), kept)
            &&& s.steps >= 5 ==> r.next == NextV::Finish(End::Complete)
            &&& c.phase matches PhaseV::Branching(f) ==> {
                &&& f.from == step.prompt.front.state
                &&& f.out == out
                &&& f.runlog_ref == runlog_ref
                &&& accessed is None ==> f.trust == step.trust
                &&& accessed is Some && tier_rank(s.lattice, accessed->0) < tier_rank(
                    s.lattice,
                    step.trust,
                ) ==> f.trust == accessed->0
                &&& accessed is Some && tier_rank(s.lattice, accessed->0) >= tier_rank(
                    s.lattice,
                    step.trust,
                ) ==> f.trust == step.trust
                &&& step.prompt.front.reply_key is Some ==> f.reply_fields == seq![
                    step.prompt.front.reply_key->0,
                ]
                &&& step.prompt.front.reply_key is None ==> f.reply_fields == seq![
                    "message_id"@,
                    "id"@,
                ]
            }
        }),
{
    if s.steps < 5 {
        let t = CycleV { steps: s.steps + 1, phase: PhaseV::Over, ..s };
        let f = fan_of(s, step, out, runlog_ref, accessed);
        going_on_goes_on(t, f);
        let u = CycleV { steps: s.steps + 1, ..s };
        assert(gone_on(u, f) == gone_on(t, f));
    }
}

/// A cycle opens on the entry of its stimulus, at the lower trust of the directive and the
/// payload, unless it resumes a branch that has waited for longer than the operator lets it.
pub proof fn a_cycle_opens_at_its_entry(
    l: Seq<TierV>,
    interval: i64,
    ttl: Option<u64>,
    s: StimulusV,
    directive_tier: Seq<char>,
    now: i64,
)
    ensures
        ({
            let (c, next) = opened(l, interval, ttl, s, directive_tier, now);
            let expired = s.baton is Some && ttl is Some && now - s.received_at > ttl->0;
            &&& c.stim == s && c.lattice == l && c.now == now && c.interval == interval
            &&& c.steps == 0 && c.deferred == 0 && ahead(c).len() == 0
            &&& expired ==> next == NextV::Finish(End::Expired) && c.phase is Over
            &&& !expired ==> next == NextV::Resolve(s.entry) && c.phase is Opening
            &&& c.seed == directive_tier || c.seed == s.payload_tier
            &&& tier_rank(l, c.seed) <= tier_rank(l, directive_tier)
            &&& tier_rank(l, c.seed) <= tier_rank(l, s.payload_tier)
        }),
{
}

/// The entry prompt runs, at the trust that the cycle started with, wherever that trust reaches
/// its state; it opens on the payload, or on the baton of a branch that was put off. Above that
/// nothing runs, and an entry that was not found ends the cycle as unresolved.
pub proof fn an_entry_in_reach_runs(s: CycleV, p: PromptV, last: Option<Seq<char>>)
    requires
        s.phase is Opening,
    ensures
        ({
            let (c, r) = after(s, EventV::Resolved(p, last));
            let reached = rank_of(p.front.state) <= rank_of(tier_reaches(s.lattice, s.seed));
            &&& same_cycle(c, s)
            &&& r.deferred is None
            &&& c.work == s.work && c.steps == s.steps && c.deferred == s.deferred
            &&& reached ==> {
                &&& r.next == NextV::Run
                &&& c.phase matches PhaseV::Running(step) && step.prompt == p && step.baton
                    == s.stim.baton && step.trust == s.seed && step.scope == s.stim.payload
                &&& r.reflected == (p.front.state == ConsciousnessState::Reflect)
            }
            &&& !reached ==> r.next == NextV::Finish(End::AboveCeiling) && !r.reflected
        }),
        after(s, EventV::Unresolved).1.next == NextV::Finish(End::Unresolved),
{
}

/// A step that failed fails the cycle, and so does every event that was not asked for.
pub proof fn what_was_not_asked_for_fails_the_cycle(s: CycleV, e: EventV)
    requires
        match s.phase {
            PhaseV::Opening => e is Ran || e is Broke,
            PhaseV::Running(_) => !(e is Ran),
            PhaseV::Branching(_) => e is Ran || e is Broke,
            PhaseV::Over => true,
        },
    ensures
        after(s, e).1.next == NextV::Finish(End::Failed),
        after(s, e).0.phase is Over,
        after(s, e).1.deferred is None,
        !after(s, e).1.reflected,
{
}

/// What a step or a row of a branch carries: the baton of what the branch itself answers to, with
/// the run that it came from; and a row that was put off keeps the stimulus's own standing, has a
/// name of its own and waits as a low one.
pub proof fn a_branch_carries_what_it_answers_to(
    s: CycleV,
    f: FanV,
    p: PromptV,
    last: Option<Seq<char>>,
)
    requires
        s.phase == PhaseV::Branching(f),
        f.todo.len() > 0,
    ensures
        ({
            let b = f.todo[0];
            let (c, r) = after(s, EventV::Resolved(p, last));
            let source = reply_source(s.stim.payload, b.reply_to, f.reply_fields);
            let baton = baton_of(
                f.out,
                b.gist,
                source,
                s.stim.directive_tier,
                f.runlog_ref,
                f.trust,
            );
            &&& ahead(c).len() > s.work.len() ==> ahead(c).last().baton == Some(baton)
                && ahead(c).last().scope == source
            &&& r.deferred matches Some(row) ==> {
                &&& row.baton == Some(baton)
                &&& row.payload == source
                &&& row.payload_tier == f.trust
                &&& row.priority == Priority::Low
                &&& row.status == StimulusStatus::Pending
                &&& row.received_at == s.now
                &&& row.dedup_key is None && row.pop_after is None
                &&& row.id == s.stim.id + "-deferred-"@ + nat_text(s.deferred)
                &&& row.source == s.stim.source && row.type_ == s.stim.type_
                &&& row.directive_tier == s.stim.directive_tier
                &&& row.directive_body == s.stim.directive_body
                &&& row.provenance == s.stim.provenance
            }
        }),
{
    let b = f.todo[0];
    let rest = FanV { todo: f.todo.skip(1), ..f };
    if !admits(s, f, p, last) {
        going_on_goes_on(s, rest);
    } else {
        let source = reply_source(s.stim.payload, b.reply_to, f.reply_fields);
        let baton = baton_of(f.out, b.gist, source, s.stim.directive_tier, f.runlog_ref, f.trust);
        let step = StepV { prompt: p, baton: Some(baton), trust: f.trust, scope: source };
        going_on_goes_on(CycleV { deferred: s.deferred + 1, ..s }, rest);
        going_on_goes_on(CycleV { work: s.work.push(step), ..s }, rest);
    }
}

} // verus!
