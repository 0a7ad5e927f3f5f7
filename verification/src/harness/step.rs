//! What one step is invoked with.

use vstd::prelude::*;

use crate::config::{
    policy_of, post_prefixes, read_prefixes, settle_prefixes, CapabilityPrefix, DackConfig,
    TierPolicy, TierPolicyV,
};
use crate::harness::chain::{Step, StepInput};
use crate::json::{json_text, Json, JsonV};
use crate::model::baton::{Baton, BatonV};
use crate::model::stimulus::{tier_label, Stimulus, StimulusV, TrustTier};
use crate::runlog::{filter_headings, headings_view, last_of};
use crate::runtime::action_required::{RecordingResponder, StatePolicyResponder, WallV};
use crate::runtime::{BlockV, ContextBlock, InvocationRequest, SessionId};
use crate::state::{
    default_spec, dirs_view, rank_of, scope_of, state_label, state_name, within_ceiling,
    writable_of, ConsciousnessState,
};
use crate::state_prompt::{default_context, ContextConfig, PromptV, StatePrompt};
use crate::strmap::{in_order, pairs_of, texts, StrMap};
use crate::text::{
    every_part_is_in_the_joined_text, has_part, has_prefix, join, join_from, joined, line_seq,
    lines, occurs_at, owned, owned_opt, parts_nest, trim, trim_end, trimmed, trimmed_end,
    what_stands_between_is_a_part,
};

verus! {

fn block(label: &str, body: String, trusted: bool) -> (r: ContextBlock)
    ensures
        r.deep_view() == (BlockV { label: label@, body: body@, trusted }),
{
    ContextBlock { label: owned(label), body, trusted }
}

// ── Orientation ─────────────────────────────────────────────────────────────────────────

/// The capabilities of a step, as they are shown.
pub open spec fn capabilities_text(names: Seq<Seq<char>>) -> Seq<char> {
    if names.len() == 0 {
        "none this step (built-in file tools only)"@
    } else {
        joined(names.map_values(|n: Seq<char>| "mcp__"@ + n + "__*"@), ", "@)
    }
}

/// Where the agent is, what it has here and how far this cycle walks.
pub open spec fn orientation(
    state: ConsciousnessState,
    id: Seq<char>,
    root: Seq<char>,
    names: Seq<Seq<char>>,
    trust: Seq<char>,
    ceiling: ConsciousnessState,
) -> BlockV {
    BlockV {
        label: "orientation"@,
        body: "state: "@ + state_name(state) + " (prompt `"@ + id + "`)\nworking_dir: "@ + root
            + "\ncapabilities_this_step: "@ + capabilities_text(names) + "\ncycle_trust: "@ + trust
            + " -> may reach up to: "@ + state_name(ceiling)
            + "\nnext_steps: see the allowed-transitions block."@,
        trusted: true,
    }
}

fn list_capabilities(servers: &StrMap<Json>) -> (r: String)
    ensures
        r@ == capabilities_text(in_order(servers@.dom())),
{
    let n: usize = servers.len();
    if n == 0 {
        return owned("none this step (built-in file tools only)");
    }
    let ghost names = servers.keys();
    let mut parts: Vec<String> = Vec::new();
    let mut i: usize = 0;
    while i < n
        invariant
            i <= n,
            n == servers.keys().len(),
            names == servers.keys(),
            parts@.len() == i,
            forall|k: int| 0 <= k < i ==> (#[trigger] parts@[k])@ == "mcp__"@ + names[k] + "__*"@,
        decreases n - i,
    {
        let (k, _v) = servers.at(i);
        let mut s = owned("mcp__");
        s.append(k.as_str());
        s.append("__*");
        parts.push(s);
        i += 1;
    }
    assert(parts.deep_view() =~= names.map_values(|n: Seq<char>| "mcp__"@ + n + "__*"@));
    join(&parts, ", ")
}

/// The block that orients the agent.
pub fn orientation_block(
    prompt: &StatePrompt,
    soul_root: &str,
    mcp_servers: &StrMap<Json>,
    cycle_trust: &TrustTier,
    ceiling: ConsciousnessState,
) -> (r: ContextBlock)
    ensures
        r.deep_view() == orientation(
            prompt.state,
            prompt.id@,
            soul_root@,
            in_order(mcp_servers@.dom()),
            cycle_trust@,
            ceiling,
        ),
{
    let caps = list_capabilities(mcp_servers);
    let mut body = owned("state: ");
    body.append(state_label(prompt.state));
    body.append(" (prompt `");
    body.append(prompt.id.as_str());
    body.append("`)\nworking_dir: ");
    body.append(soul_root);
    body.append("\ncapabilities_this_step: ");
    body.append(caps.as_str());
    body.append("\ncycle_trust: ");
    body.append(cycle_trust.name());
    body.append(" -> may reach up to: ");
    body.append(state_label(ceiling));
    body.append("\nnext_steps: see the allowed-transitions block.");
    block("orientation", body, true)
}

// ── The baton ───────────────────────────────────────────────────────────────────────────

/// References, as they are shown.
pub open spec fn refs_text(pairs: Seq<(Seq<char>, Seq<char>)>) -> Seq<char> {
    if pairs.len() == 0 {
        Seq::empty()
    } else {
        "\nrefs (harness-provided):\n"@ + joined(
            pairs.map_values(|p: (Seq<char>, Seq<char>)| "  "@ + p.0 + ": "@ + p.1),
            "\n"@,
        )
    }
}

/// A baton, as an acting step sees it.
pub open spec fn baton_shown(b: BatonV) -> BlockV {
    BlockV {
        label: "baton"@,
        body: "gist: "@ + b.gist + refs_text(pairs_of(b.refs)) + "\n(directive_tier="@
            + tier_label(b.directive_tier) + " payload_tier="@ + tier_label(b.payload_tier)
            + " runlog_ref="@ + b.runlog_ref + ")"@,
        trusted: true,
    }
}

fn list_refs(refs: &StrMap<String>) -> (r: String)
    ensures
        r@ == refs_text(pairs_of(texts(*refs))),
{
    let n: usize = refs.len();
    let ghost pairs = pairs_of(texts(*refs));
    assert(texts(*refs).dom() =~= refs@.dom());
    assert(pairs.len() == n);
    if n == 0 {
        return String::new();
    }
    let mut parts: Vec<String> = Vec::new();
    let mut i: usize = 0;
    while i < n
        invariant
            i <= n,
            n == refs.keys().len(),
            refs.keys() == in_order(refs@.dom()),
            texts(*refs).dom() == refs@.dom(),
            pairs == pairs_of(texts(*refs)),
            pairs.len() == n,
            parts@.len() == i,
            forall|k: int|
                0 <= k < i ==> (#[trigger] parts@[k])@ == "  "@ + pairs[k].0 + ": "@ + pairs[k].1,
        decreases n - i,
    {
        let (k, v) = refs.at(i);
        assert(pairs[i as int] == (k@, v@));
        let mut s = owned("  ");
        s.append(k.as_str());
        s.append(": ");
        s.append(v.as_str());
        parts.push(s);
        i += 1;
    }
    assert(parts.deep_view() =~= pairs.map_values(
        |p: (Seq<char>, Seq<char>)| "  "@ + p.0 + ": "@ + p.1,
    ));
    let mut out = owned("\nrefs (harness-provided):\n");
    out.append(join(&parts, "\n").as_str());
    out
}

/// The block of a baton.
pub fn baton_block(baton: &Baton) -> (r: ContextBlock)
    ensures
        r.deep_view() == baton_shown(baton@),
{
    let mut body = owned("gist: ");
    body.append(baton.gist.as_str());
    body.append(list_refs(&baton.refs).as_str());
    body.append("\n(directive_tier=");
    body.append(baton.directive_tier.label());
    body.append(" payload_tier=");
    body.append(baton.payload_tier.label());
    body.append(" runlog_ref=");
    body.append(baton.runlog_ref.as_str());
    body.append(")");
    block("baton", body, true)
}

// ── Transitions ─────────────────────────────────────────────────────────────────────────

/// The places that are within the ceiling, of those that could be looked up.
pub open spec fn in_reach(
    places: Seq<(Seq<char>, Option<ConsciousnessState>)>,
    ceiling: ConsciousnessState,
) -> Seq<Seq<char>>
    decreases places.len(),
{
    if places.len() == 0 {
        Seq::empty()
    } else {
        let rest = in_reach(places.drop_last(), ceiling);
        match places.last().1 {
            Some(s) => if rank_of(s) <= rank_of(ceiling) {
                rest.push(places.last().0)
            } else {
                rest
            },
            None => rest,
        }
    }
}

/// What places hold.
pub open spec fn places_view(v: Seq<(String, Option<ConsciousnessState>)>) -> Seq<
    (Seq<char>, Option<ConsciousnessState>),
> {
    v.map_values(|p: (String, Option<ConsciousnessState>)| (p.0@, p.1))
}

/// The places that the agent is offered: those that it could be let through to.
pub fn reachable_transitions(
    places: &Vec<(String, Option<ConsciousnessState>)>,
    ceiling: ConsciousnessState,
) -> (r: Vec<String>)
    ensures
        r.deep_view() == in_reach(places_view(places@), ceiling),
{
    let ghost all = places_view(places@);
    let mut out: Vec<String> = Vec::new();
    let mut i: usize = 0;
    assert(all.take(0) =~= Seq::empty());
    assert(out.deep_view() =~= Seq::empty());
    while i < places.len()
        invariant
            i <= places@.len(),
            all == places_view(places@),
            out.deep_view() == in_reach(all.take(i as int), ceiling),
        decreases places@.len() - i,
    {
        proof {
            assert(all.take(i + 1).drop_last() =~= all.take(i as int));
            assert(all.take(i + 1).last() == all[i as int]);
        }
        let ghost o = out.deep_view();
        match places[i].1 {
            Some(s) => if within_ceiling(s, ceiling) {
                out.push(places[i].0.clone());
                assert(out.deep_view() =~= o.push(places@[i as int].0@));
            },
            None => {},
        }
        i += 1;
    }
    assert(all.take(i as int) =~= all);
    out
}

/// The places that the agent may go to, as they are shown.
pub open spec fn transitions_shown(reachable: Seq<Seq<char>>) -> BlockV {
    BlockV {
        label: "allowed-transitions"@,
        body: if reachable.len() == 0 {
            "This is a terminal step (or every onward step is above your current trust ceiling): set transition.to_prompt = null (do not transition)."@
        } else {
            "You may transition to EXACTLY ONE of these next state-prompts by setting transition.to_prompt to its id, or null to stop here:\n"@
                + joined(reachable.map_values(|t: Seq<char>| "  - "@ + t), "\n"@)
        },
        trusted: true,
    }
}

/// The block of the places that the agent may go to.
pub fn transitions_block(reachable: &Vec<String>) -> (r: ContextBlock)
    ensures
        r.deep_view() == transitions_shown(reachable.deep_view()),
{
    let ghost rv = reachable.deep_view();
    assert(rv.len() == reachable@.len());
    if reachable.len() == 0 {
        return block(
            "allowed-transitions",
            owned(
                "This is a terminal step (or every onward step is above your current trust ceiling): set transition.to_prompt = null (do not transition).",
            ),
            true,
        );
    }
    let mut parts: Vec<String> = Vec::new();
    let mut i: usize = 0;
    while i < reachable.len()
        invariant
            i <= reachable@.len(),
            rv == reachable.deep_view(),
            parts@.len() == i,
            forall|k: int| 0 <= k < i ==> (#[trigger] parts@[k])@ == "  - "@ + rv[k],
        decreases reachable@.len() - i,
    {
        assert(rv[i as int] == reachable@[i as int]@);
        let mut s = owned("  - ");
        s.append(reachable[i].as_str());
        parts.push(s);
        i += 1;
    }
    assert(parts.deep_view() =~= rv.map_values(|t: Seq<char>| "  - "@ + t));
    let mut body = owned(
        "You may transition to EXACTLY ONE of these next state-prompts by setting transition.to_prompt to its id, or null to stop here:\n",
    );
    body.append(join(&parts, "\n").as_str());
    block("allowed-transitions", body, true)
}

// ── The entry ───────────────────────────────────────────────────────────────────────────

/// The last lines of a text.
pub open spec fn tail_of(text: Seq<char>, max: int) -> Seq<char> {
    joined(last_of(line_seq(text), max), "\n"@)
}

/// The last lines of the memory.
pub fn memory_tail(text: &str, max_lines: usize) -> (r: String)
    ensures
        r@ == tail_of(text@, max_lines as int),
{
    let l = lines(text);
    assert(l.deep_view().len() == l@.len());
    let n: usize = l.len();
    let start: usize = if n <= max_lines {
        0
    } else {
        n - max_lines
    };
    assert(l.deep_view().skip(0) =~= l.deep_view());
    join_from(&l, start, "\n")
}

/// How many lines of the memory an entry step is shown.
pub const MEMORY_LINES: usize = 40;

/// The memory, as a fresh entry step sees it.
pub open spec fn memory_shown(c: ContextConfig, memory: Seq<char>, since: Option<i64>) -> Seq<
    BlockV,
> {
    if c.memory && since is None {
        seq![
            BlockV {
                label: "memory-recent"@,
                body: tail_of(memory, MEMORY_LINES as int),
                trusted: true,
            },
        ]
    } else {
        Seq::empty()
    }
}

/// All recent activity, as a fresh entry step sees it.
pub open spec fn activity_shown(c: ContextConfig, log: Seq<char>, since: Option<i64>) -> Seq<
    BlockV,
> {
    if c.runlog.environment > 0 && since is None {
        seq![
            BlockV {
                label: "runlog-recent"@,
                body: headings_view(log, None, c.runlog.environment as int, None),
                trusted: true,
            },
        ]
    } else {
        Seq::empty()
    }
}

/// What happened in this conversation: its recent entries, and on a resumed session only what
/// is new.
pub open spec fn conversation_shown(
    c: ContextConfig,
    log: Seq<char>,
    key: Option<Seq<char>>,
    since: Option<i64>,
) -> Seq<BlockV> {
    if c.runlog.conversation > 0 && key is Some {
        seq![
            BlockV {
                label: "runlog-conversation"@,
                body: headings_view(log, since, c.runlog.conversation as int, key),
                trusted: true,
            },
        ]
    } else {
        Seq::empty()
    }
}

/// What an entry step opens on: the directive and the payload, each in a block of its own, the
/// payload always as untrusted; and what the prompt wants of memory and record.
pub open spec fn entry_shown(
    directive: Seq<char>,
    payload: JsonV,
    key: Option<Seq<char>>,
    c: ContextConfig,
    memory: Seq<char>,
    log: Seq<char>,
    since: Option<i64>,
) -> Seq<BlockV> {
    seq![
        BlockV { label: "standing-directive"@, body: directive, trusted: true },
        BlockV { label: "world-payload"@, body: json_text(payload), trusted: false },
    ] + memory_shown(c, memory, since) + activity_shown(c, log, since) + conversation_shown(
        c,
        log,
        key,
        since,
    )
}

/// The blocks of an entry step. `since` is when the resumed session was last used.
pub fn entry_blocks(
    stimulus: &Stimulus,
    context: ContextConfig,
    memory: &str,
    log: &str,
    since: Option<i64>,
) -> (r: Vec<ContextBlock>)
    ensures
        r.deep_view() == entry_shown(
            stimulus@.directive_body,
            stimulus@.payload,
            stimulus@.dedup_key,
            context,
            memory@,
            log@,
            since,
        ),
{
    let mut out: Vec<ContextBlock> = Vec::new();
    out.push(block("standing-directive", stimulus.directive_body.clone(), true));
    out.push(block("world-payload", stimulus.payload.to_text(), false));
    let ghost b0 = out.deep_view();
    if context.memory && since.is_none() {
        out.push(block("memory-recent", memory_tail(memory, MEMORY_LINES), true));
    }
    assert(out.deep_view() =~= b0 + memory_shown(context, memory@, since));
    let ghost b1 = out.deep_view();
    if context.runlog.environment > 0 && since.is_none() {
        out.push(
            block(
                "runlog-recent",
                filter_headings(log, None, context.runlog.environment, None),
                true,
            ),
        );
    }
    assert(out.deep_view() =~= b1 + activity_shown(context, log@, since));
    let ghost b2 = out.deep_view();
    if context.runlog.conversation > 0 {
        match &stimulus.dedup_key {
            Some(key) => {
                out.push(
                    block(
                        "runlog-conversation",
                        filter_headings(
                            log,
                            since,
                            context.runlog.conversation,
                            Some(key.as_str()),
                        ),
                        true,
                    ),
                );
            },
            None => {},
        }
    }
    assert(out.deep_view() =~= b2 + conversation_shown(
        context,
        log@,
        stimulus@.dedup_key,
        since,
    ));
    out
}

// ── The system prompt and the model ─────────────────────────────────────────────────────

/// The body of a prompt: on a resumed session the lean one, where there is one.
pub open spec fn body_for(p: PromptV, resumed: bool) -> Seq<char> {
    match p.resume_body {
        Some(b) => if resumed {
            b
        } else {
            p.body
        },
        None => p.body,
    }
}

/// The soul and the prompt's body; a plain line where both are empty.
pub open spec fn system_text(soul: Seq<char>, p: PromptV, resumed: bool) -> Seq<char> {
    let body = body_for(p, resumed);
    if trimmed(soul).len() == 0 && trimmed(body).len() == 0 {
        "You are a DACK actor in the "@ + state_name(p.front.state) + " state ("@ + p.id + ")."@
    } else {
        trimmed_end(soul) + "\n\n---\n\n"@ + trimmed_end(body)
    }
}

/// The system prompt of a step.
pub fn system_prompt_for_prompt(soul: &str, prompt: &StatePrompt, resumed: bool) -> (r: String)
    ensures
        r@ == system_text(soul@, prompt@, resumed),
{
    let body = match &prompt.resume_body {
        Some(b) => if resumed {
            b.as_str()
        } else {
            prompt.body.as_str()
        },
        None => prompt.body.as_str(),
    };
    if trim(soul).as_str().is_empty() && trim(body).as_str().is_empty() {
        let mut out = owned("You are a DACK actor in the ");
        out.append(state_label(prompt.state));
        out.append(" state (");
        out.append(prompt.id.as_str());
        out.append(").");
        return out;
    }
    let mut out = trim_end(soul);
    out.append("\n\n---\n\n");
    out.append(trim_end(body).as_str());
    out
}

/// The model of a step: the prompt's own where the operator lets it choose, else the
/// operator's for the state, else the client's.
pub open spec fn chosen_model(p: TierPolicyV, asked: Option<Seq<char>>) -> Option<Seq<char>> {
    if p.allow_model_override && asked is Some {
        asked
    } else {
        p.model
    }
}

/// The model of a step.
pub fn choose_model(policy: &TierPolicy, asked: &Option<String>) -> (r: Option<String>)
    ensures
        r.deep_view() == chosen_model(policy@, asked.deep_view()),
{
    if policy.allow_model_override {
        match asked {
            Some(m) => return Some(m.clone()),
            None => {},
        }
    }
    owned_opt(&policy.model)
}

// ── The request ─────────────────────────────────────────────────────────────────────────

/// What was read for a step.
#[derive(Debug)]
pub struct StepMaterial {
    /// The text of the soul.
    pub soul: String,
    /// Where the soul stands.
    pub soul_root: String,
    /// The text of the memory.
    pub memory: String,
    /// The text of the record.
    pub log: String,
    /// The states of the prompts that the step's prompt names.
    pub places: Vec<(String, Option<ConsciousnessState>)>,
    /// The session that is resumed, and when it was last used.
    pub resume: Option<(SessionId, i64)>,
}

/// When the session that is resumed was last used.
pub open spec fn resumed_at(m: StepMaterial) -> Option<i64> {
    match m.resume {
        Some((_, t)) => Some(t),
        None => None,
    }
}

/// What the middle of a step's context is: the stimulus for the entry, the baton for a step
/// that acts.
pub open spec fn seeded(baton: Option<BatonV>, s: StimulusV, c: ContextConfig, m: StepMaterial) -> Seq<
    BlockV,
> {
    match baton {
        Some(b) => seq![baton_shown(b)],
        None => entry_shown(
            s.directive_body,
            s.payload,
            s.dedup_key,
            c,
            m.memory@,
            m.log@,
            resumed_at(m),
        ),
    }
}

/// The context of a step.
pub open spec fn step_blocks(
    p: PromptV,
    c: ContextConfig,
    baton: Option<BatonV>,
    trust: Seq<char>,
    ceiling: ConsciousnessState,
    s: StimulusV,
    m: StepMaterial,
    names: Seq<Seq<char>>,
) -> Seq<BlockV> {
    seq![orientation(p.front.state, p.id, m.soul_root@, names, trust, ceiling)] + seeded(
        baton,
        s,
        c,
        m,
    ) + seq![transitions_shown(in_reach(places_view(m.places@), ceiling))]
}

/// Assembles the invocation of a step. No secret is put where the agent can see it.
pub fn build_request(
    config: &DackConfig,
    step: &Step,
    ceiling: ConsciousnessState,
    stimulus: &Stimulus,
    material: &StepMaterial,
    mcp_servers: StrMap<Json>,
) -> (r: InvocationRequest)
    ensures
        r.blocks.deep_view() == step_blocks(
            step@.prompt,
            match step.prompt.context {
                Some(c) => c,
                None => default_context(),
            },
            step@.baton,
            step@.trust,
            ceiling,
            stimulus@,
            *material,
            in_order(mcp_servers@.dom()),
        ),
        r.system_prompt@ == system_text(
            material.soul@,
            step@.prompt,
            material.resume is Some,
        ),
        r.spec.state == step.prompt.state,
        r.spec.tool_scope.allowed@ == scope_of(step.prompt.state),
        dirs_view(r.spec.writable_dirs@) == writable_of(
            step.prompt.state,
        ),
        r.session.deep_view() == (match material.resume {
            Some((id, _)) => Some(id@),
            None => None,
        }),
        r.workdir.deep_view() == Some(material.soul_root@),
        texts(r.secret_env) == Map::<Seq<char>, Seq<char>>::empty(),
        r.mcp_servers == mcp_servers,
        r.model.deep_view() == chosen_model(
            policy_of(config.tier_policy@, step.prompt.state),
            step@.prompt.front.model,
        ),
{
    let mut blocks: Vec<ContextBlock> = Vec::new();
    blocks.push(
        orientation_block(
            &step.prompt,
            material.soul_root.as_str(),
            &mcp_servers,
            &step.trust,
            ceiling,
        ),
    );
    let ghost head = blocks.deep_view();
    let ghost names = in_order(mcp_servers@.dom());
    let since: Option<i64> = match &material.resume {
        Some(r) => Some(r.1),
        None => None,
    };
    let context = step.prompt.context();
    match &step.input {
        StepInput::Entry => {
            let mut more = entry_blocks(
                stimulus,
                context,
                material.memory.as_str(),
                material.log.as_str(),
                since,
            );
            let ghost mv = more.deep_view();
            let ghost ms = more@;
            let ghost bs = blocks@;
            blocks.append(&mut more);
            assert(blocks@ =~= bs + ms);
            assert(blocks.deep_view() =~= head + mv);
        },
        StepInput::Act(baton) => {
            blocks.push(baton_block(baton));
            assert(blocks.deep_view() =~= head + seq![baton_shown(baton@)]);
        },
    }
    let reachable = reachable_transitions(&material.places, ceiling);
    let ghost before = blocks.deep_view();
    blocks.push(transitions_block(&reachable));
    assert(blocks.deep_view() =~= before + seq![
        transitions_shown(in_reach(places_view(material.places@), ceiling)),
    ]);
    assert(head =~= seq![
        orientation(
            step.prompt.state,
            step.prompt.id@,
            material.soul_root@,
            names,
            step@.trust,
            ceiling,
        ),
    ]);
    let policy = config.tier_policy_for(step.prompt.state);
    let secret_env: StrMap<String> = StrMap::new();
    assert(texts(secret_env) =~= Map::empty());
    InvocationRequest {
        spec: default_spec(step.prompt.state),
        system_prompt: system_prompt_for_prompt(
            material.soul.as_str(),
            &step.prompt,
            material.resume.is_some(),
        ),
        blocks,
        session: match &material.resume {
            Some(r) => Some(r.0.clone()),
            None => None,
        },
        workdir: Some(material.soul_root.clone()),
        secret_env,
        mcp_servers,
        model: choose_model(&policy, &step.prompt.model),
    }
}

// ── The wall ────────────────────────────────────────────────────────────────────────────

/// The wall of a step: what the state may do, the deployment's capability tools, and the tools
/// of the servers that the prompt brought along, which only read.
pub fn wall_for(
    config: &DackConfig,
    state: ConsciousnessState,
    extra_read: Vec<CapabilityPrefix>,
    soul_root: &str,
) -> (r: RecordingResponder)
    ensures
        r.calls@.len() == 0,
        r.inner@ == (WallV {
            state,
            scope: scope_of(state),
            dirs: writable_of(state),
            post: post_prefixes(*config),
            settle: settle_prefixes(*config),
            read: read_prefixes(*config) + extra_read.deep_view(),
            root: Some(soul_root@),
            held: if config.dry_run.enabled {
                config.dry_run.block.deep_view()
            } else {
                Seq::empty()
            },
            seen: Seq::empty(),
        }),
{
    let p = config.capability_prefixes();
    let mut read = p.read;
    let mut more = extra_read;
    let ghost r0 = read@;
    let ghost m0 = more@;
    read.append(&mut more);
    assert(read@ =~= r0 + m0);
    assert(read.deep_view() =~= read_prefixes(*config) + extra_read.deep_view());
    let mut wall = StatePolicyResponder::with_capabilities(
        default_spec(state),
        p.post,
        p.settle,
    ).with_repo_root(soul_root);
    wall.read_tools = read;
    wall.dry_run_block = config.dry_run.active_block();
    let r = RecordingResponder::wrap(wall);
    assert(r.calls.deep_view().len() == r.calls@.len());
    r
}

// ── Laws ────────────────────────────────────────────────────────────────────────────────

/// The raw payload never reaches a step that acts: the context of a step that opens on a baton
/// is the same whatever the stimulus says.
pub proof fn an_acting_step_never_sees_the_payload(
    p: PromptV,
    c: ContextConfig,
    b: BatonV,
    trust: Seq<char>,
    ceiling: ConsciousnessState,
    s: StimulusV,
    other: StimulusV,
    m: StepMaterial,
    names: Seq<Seq<char>>,
)
    ensures
        step_blocks(p, c, Some(b), trust, ceiling, s, m, names) == step_blocks(
            p,
            c,
            Some(b),
            trust,
            ceiling,
            other,
            m,
            names,
        ),
{
}

/// The payload is shown as untrusted whatever it holds, and the directive never shares a block
/// with it.
pub proof fn the_payload_is_framed_untrusted(
    directive: Seq<char>,
    payload: JsonV,
    key: Option<Seq<char>>,
    c: ContextConfig,
    memory: Seq<char>,
    log: Seq<char>,
    since: Option<i64>,
)
    ensures
        ({
            let b = entry_shown(directive, payload, key, c, memory, log, since);
            &&& b[0] == (BlockV { label: "standing-directive"@, body: directive, trusted: true })
            &&& b[1].body == json_text(payload)
            &&& !b[1].trusted
        }),
{
}

/// The agent is offered no place above its ceiling.
pub proof fn nothing_above_the_ceiling_is_offered(
    places: Seq<(Seq<char>, Option<ConsciousnessState>)>,
    ceiling: ConsciousnessState,
    id: Seq<char>,
)
    requires
        in_reach(places, ceiling).contains(id),
    ensures
        exists|i: int|
            0 <= i < places.len() && (#[trigger] places[i]).0 == id && places[i].1 is Some
                && rank_of(places[i].1->0) <= rank_of(ceiling),
    decreases places.len(),
{
    if places.len() > 0 {
        let rest = in_reach(places.drop_last(), ceiling);
        let all = in_reach(places, ceiling);
        let k = choose|k: int| 0 <= k < all.len() && all[k] == id;
        if k < rest.len() {
            assert(rest[k] == id);
            nothing_above_the_ceiling_is_offered(places.drop_last(), ceiling, id);
            let i = choose|i: int|
                0 <= i < places.drop_last().len() && (#[trigger] places.drop_last()[i]).0 == id
                    && places.drop_last()[i].1 is Some && rank_of(places.drop_last()[i].1->0)
                    <= rank_of(ceiling);
            assert(places[i] == places.drop_last()[i]);
        } else {
            assert(places[places.len() - 1].0 == id);
        }
    }
}

/// A prompt chooses its own model only where the operator lets it.
pub proof fn a_locked_state_keeps_the_operators_model(p: TierPolicyV, asked: Option<Seq<char>>)
    requires
        !p.allow_model_override,
    ensures
        chosen_model(p, asked) == p.model,
{
}

/// Everything in reach is offered: each place that could be looked up, and whose state lies at or
/// below the ceiling, is one of those that the agent is told of.
pub proof fn everything_in_reach_is_offered(
    places: Seq<(Seq<char>, Option<ConsciousnessState>)>,
    ceiling: ConsciousnessState,
    i: int,
)
    requires
        0 <= i < places.len(),
        places[i].1 is Some,
        rank_of(places[i].1->0) <= rank_of(ceiling),
    ensures
        in_reach(places, ceiling).contains(places[i].0),
    decreases places.len(),
{
    let all = in_reach(places, ceiling);
    let rest = in_reach(places.drop_last(), ceiling);
    if i == places.len() - 1 {
        assert(all.last() == places[i].0);
    } else {
        assert(places.drop_last()[i] == places[i]);
        everything_in_reach_is_offered(places.drop_last(), ceiling, i);
        let k = choose|k: int| 0 <= k < rest.len() && rest[k] == places[i].0;
        assert(all[k] == rest[k]);
    }
}

/// The places are offered in the order in which the prompt names them, each as often as it is
/// named: what comes first is offered first, a place in reach once, another not at all.
pub proof fn places_are_offered_in_their_order(
    a: Seq<(Seq<char>, Option<ConsciousnessState>)>,
    b: Seq<(Seq<char>, Option<ConsciousnessState>)>,
    place: (Seq<char>, Option<ConsciousnessState>),
    ceiling: ConsciousnessState,
)
    ensures
        in_reach(a + b, ceiling) == in_reach(a, ceiling) + in_reach(b, ceiling),
        place.1 is Some && rank_of(place.1->0) <= rank_of(ceiling) ==> in_reach(
            seq![place],
            ceiling,
        ) == seq![place.0],
        place.1 is None || rank_of(place.1->0) > rank_of(ceiling) ==> in_reach(
            seq![place],
            ceiling,
        ).len() == 0,
    decreases b.len(),
{
    let one = seq![place];
    assert(one.drop_last() =~= Seq::empty());
    assert(in_reach(one.drop_last(), ceiling) =~= Seq::empty());
    assert(one.last() == place);
    if place.1 is Some && rank_of(place.1->0) <= rank_of(ceiling) {
        assert(in_reach(one, ceiling) =~= seq![place.0]);
    }
    if b.len() == 0 {
        assert(a + b =~= a);
        assert(in_reach(a, ceiling) + in_reach(b, ceiling) =~= in_reach(a, ceiling));
    } else {
        places_are_offered_in_their_order(a, b.drop_last(), place, ceiling);
        assert((a + b).drop_last() =~= a + b.drop_last());
        assert((a + b).last() == b.last());
        assert(in_reach(a + b, ceiling) =~= in_reach(a, ceiling) + in_reach(b, ceiling));
    }
}

/// A place that is offered is shown to the agent on a line of its own, as one that it may set; and
/// only where there is none is the agent told to stop here.
pub proof fn what_is_offered_is_shown(reachable: Seq<Seq<char>>, i: int)
    requires
        0 <= i < reachable.len(),
    ensures
        has_part(transitions_shown(reachable).body, "  - "@ + reachable[i]),
        has_prefix(transitions_shown(reachable).body, "You may transition to EXACTLY ONE"@),
        has_prefix(transitions_shown(Seq::empty()).body, "This is a terminal step"@),
        transitions_shown(reachable).label == "allowed-transitions"@,
        transitions_shown(reachable).trusted,
{
    let lines = reachable.map_values(|t: Seq<char>| "  - "@ + t);
    every_part_is_in_the_joined_text(lines, "\n"@, i);
    assert(lines[i] == "  - "@ + reachable[i]);
    let body = transitions_shown(reachable).body;
    let head =
        "You may transition to EXACTLY ONE of these next state-prompts by setting transition.to_prompt to its id, or null to stop here:\n"@;
    assert(body =~= head + joined(lines, "\n"@) + Seq::<char>::empty());
    what_stands_between_is_a_part(head, joined(lines, "\n"@), Seq::empty());
    parts_nest(body, joined(lines, "\n"@), lines[i]);
    reveal_strlit(
        "You may transition to EXACTLY ONE of these next state-prompts by setting transition.to_prompt to its id, or null to stop here:\n",
    );
    reveal_strlit("You may transition to EXACTLY ONE");
    reveal_strlit("This is a terminal step");
    reveal_strlit(
        "This is a terminal step (or every onward step is above your current trust ceiling): set transition.to_prompt = null (do not transition).",
    );
    assert(body.subrange(0, 33) =~= "You may transition to EXACTLY ONE"@);
    assert(transitions_shown(Seq::empty()).body.subrange(0, 23) =~= "This is a terminal step"@);
}

/// The agent is told where it is, from which prompt, in which directory, what it has here, and how
/// far its trust carries.
pub proof fn the_agent_is_told_where_it_is(
    state: ConsciousnessState,
    id: Seq<char>,
    root: Seq<char>,
    names: Seq<Seq<char>>,
    trust: Seq<char>,
    ceiling: ConsciousnessState,
)
    ensures
        ({
            let b = orientation(state, id, root, names, trust, ceiling);
            &&& b.trusted
            &&& b.label == "orientation"@
            &&& has_part(b.body, "state: "@ + state_name(state))
            &&& has_part(b.body, "(prompt `"@ + id + "`)"@)
            &&& has_part(b.body, "working_dir: "@ + root)
            &&& has_part(b.body, "cycle_trust: "@ + trust)
            &&& has_part(b.body, "may reach up to: "@ + state_name(ceiling))
            &&& forall|i: int|
                0 <= i < names.len() ==> has_part(b.body, "mcp__"@ + (#[trigger] names[i]) + "__*"@)
            &&& names.len() == 0 ==> has_part(b.body, "capabilities_this_step: none this step"@)
        }),
{
    let body = orientation(state, id, root, names, trust, ceiling).body;
    reveal_strlit("state: ");
    reveal_strlit(" (prompt `");
    reveal_strlit("(prompt `");
    reveal_strlit("`)");
    reveal_strlit("`)\nworking_dir: ");
    reveal_strlit("working_dir: ");
    reveal_strlit("\ncapabilities_this_step: ");
    reveal_strlit("\ncycle_trust: ");
    reveal_strlit("cycle_trust: ");
    reveal_strlit(" -> may reach up to: ");
    reveal_strlit("may reach up to: ");
    reveal_strlit("\nnext_steps: see the allowed-transitions block.");
    reveal_strlit("capabilities_this_step: none this step");
    reveal_strlit("none this step (built-in file tools only)");
    let caps = capabilities_text(names);
    let a1 = "state: "@ + state_name(state);
    let a2 = a1 + " (prompt `"@ + id;
    let a3 = a2 + "`)\nworking_dir: "@ + root;
    let a4 = a3 + "\ncapabilities_this_step: "@ + caps;
    let a5 = a4 + "\ncycle_trust: "@ + trust;
    let a6 = a5 + " -> may reach up to: "@ + state_name(ceiling);
    assert(body == a6 + "\nnext_steps: see the allowed-transitions block."@);
    let n1 = a1.len() as int;
    let p1 = "(prompt `"@ + id + "`)"@;
    let p2 = "working_dir: "@ + root;
    let p3 = "cycle_trust: "@ + trust;
    let p4 = "may reach up to: "@ + state_name(ceiling);
    assert(body.subrange(0, n1) =~= a1);
    assert(occurs_at(body, a1, 0));
    assert(body.subrange(n1 + 1, n1 + 1 + p1.len()) =~= p1);
    assert(occurs_at(body, p1, n1 + 1));
    let n2 = a2.len() as int;
    assert(body.subrange(n2 + 3, n2 + 3 + p2.len()) =~= p2);
    assert(occurs_at(body, p2, n2 + 3));
    let n4 = a4.len() as int;
    assert(body.subrange(n4 + 1, n4 + 1 + p3.len()) =~= p3);
    assert(occurs_at(body, p3, n4 + 1));
    let n5 = a5.len() as int;
    assert(body.subrange(n5 + 4, n5 + 4 + p4.len()) =~= p4);
    assert(occurs_at(body, p4, n5 + 4));
    let n3 = a3.len() as int;
    assert(body.subrange(n3 + 25, n3 + 25 + caps.len()) =~= caps);
    assert(occurs_at(body, caps, n3 + 25));
    let shown = names.map_values(|n: Seq<char>| "mcp__"@ + n + "__*"@);
    assert forall|i: int| 0 <= i < names.len() implies has_part(
        body,
        "mcp__"@ + (#[trigger] names[i]) + "__*"@,
    ) by {
        every_part_is_in_the_joined_text(shown, ", "@, i);
        assert(shown[i] == "mcp__"@ + names[i] + "__*"@);
        parts_nest(body, caps, shown[i]);
    }
    if names.len() == 0 {
        let p5 = "capabilities_this_step: none this step"@;
        assert(body.subrange(n3 + 1, n3 + 1 + p5.len()) =~= p5);
        assert(occurs_at(body, p5, n3 + 1));
    }
}

/// A step that acts is shown the whole baton: its gist, each of its references by name, how far
/// the directive and the payload are trusted, and where the run is recorded.
pub proof fn an_acting_step_sees_its_baton(b: BatonV, i: int)
    ensures
        ({
            let s = baton_shown(b);
            &&& s.trusted
            &&& s.label == "baton"@
            &&& has_prefix(s.body, "gist: "@ + b.gist)
            &&& has_part(s.body, "directive_tier="@ + tier_label(b.directive_tier))
            &&& has_part(s.body, "payload_tier="@ + tier_label(b.payload_tier))
            &&& has_part(s.body, "runlog_ref="@ + b.runlog_ref)
            &&& 0 <= i < pairs_of(b.refs).len() ==> has_part(
                s.body,
                pairs_of(b.refs)[i].0 + ": "@ + pairs_of(b.refs)[i].1,
            )
        }),
{
    reveal_strlit("gist: ");
    reveal_strlit("\n(directive_tier=");
    reveal_strlit("directive_tier=");
    reveal_strlit(" payload_tier=");
    reveal_strlit("payload_tier=");
    reveal_strlit(" runlog_ref=");
    reveal_strlit("runlog_ref=");
    reveal_strlit(")");
    reveal_strlit("  ");
    let body = baton_shown(b).body;
    let pairs = pairs_of(b.refs);
    let refs = refs_text(pairs);
    let a0 = "gist: "@ + b.gist;
    let a1 = a0 + refs;
    let p1 = "directive_tier="@ + tier_label(b.directive_tier);
    let p2 = "payload_tier="@ + tier_label(b.payload_tier);
    let p3 = "runlog_ref="@ + b.runlog_ref;
    assert(body.subrange(0, a0.len() as int) =~= a0);
    let n1 = a1.len() as int;
    assert(body.subrange(n1 + 2, n1 + 2 + p1.len()) =~= p1);
    assert(occurs_at(body, p1, n1 + 2));
    let n2 = n1 + 2 + p1.len() + 1;
    assert(body.subrange(n2, n2 + p2.len()) =~= p2);
    assert(occurs_at(body, p2, n2));
    let n3 = n2 + p2.len() + 1;
    assert(body.subrange(n3, n3 + p3.len()) =~= p3);
    assert(occurs_at(body, p3, n3));
    if 0 <= i < pairs.len() {
        let lines = pairs.map_values(|p: (Seq<char>, Seq<char>)| "  "@ + p.0 + ": "@ + p.1);
        every_part_is_in_the_joined_text(lines, "\n"@, i);
        let all = joined(lines, "\n"@);
        let head = "\nrefs (harness-provided):\n"@;
        assert(body.subrange(
            (a0.len() + head.len()) as int,
            (a0.len() + head.len() + all.len()) as int,
        ) =~= all);
        assert(occurs_at(body, all, (a0.len() + head.len()) as int));
        parts_nest(body, all, lines[i]);
        let want = pairs[i].0 + ": "@ + pairs[i].1;
        assert(lines[i].subrange(2, (2 + want.len()) as int) =~= want);
        assert(occurs_at(lines[i], want, 2));
        parts_nest(body, lines[i], want);
    }
}

/// What an entry step is shown beside the directive and the payload. A fresh one sees the memory
/// and the recent runs where its prompt wants them; one that resumes a session sees neither, for
/// the session has them. Both see the recent runs of their own conversation, where the prompt
/// wants them and the stimulus belongs to one: the resumed one those that are new to it.
pub proof fn an_entry_step_sees_what_its_prompt_wants(
    directive: Seq<char>,
    payload: JsonV,
    key: Option<Seq<char>>,
    c: ContextConfig,
    memory: Seq<char>,
    log: Seq<char>,
    since: Option<i64>,
)
    ensures
        ({
            let b = entry_shown(directive, payload, key, c, memory, log, since);
            let fresh = since is None;
            let remembers = c.memory && fresh;
            let recent = c.runlog.environment > 0 && fresh;
            let talks = c.runlog.conversation > 0 && key is Some;
            let mem = BlockV {
                label: "memory-recent"@,
                body: joined(last_of(line_seq(memory), 40), "\n"@),
                trusted: true,
            };
            let runs = BlockV {
                label: "runlog-recent"@,
                body: headings_view(log, None, c.runlog.environment as int, None),
                trusted: true,
            };
            let talk = BlockV {
                label: "runlog-conversation"@,
                body: headings_view(log, since, c.runlog.conversation as int, key),
                trusted: true,
            };
            let n = 2 + if remembers { 1int } else { 0 };
            let m = n + if recent { 1int } else { 0 };
            &&& b.len() == m + if talks { 1int } else { 0 }
            &&& remembers ==> b[2] == mem
            &&& recent ==> b[n] == runs
            &&& talks ==> b[m] == talk
        }),
{
}

/// A step opens with where the agent is and closes with where it may go. Between them an acting
/// step has its baton and nothing else, and an entry step the stimulus.
pub proof fn a_step_is_shown_its_whole_context(
    p: PromptV,
    c: ContextConfig,
    baton: Option<BatonV>,
    trust: Seq<char>,
    ceiling: ConsciousnessState,
    s: StimulusV,
    m: StepMaterial,
    names: Seq<Seq<char>>,
)
    ensures
        ({
            let b = step_blocks(p, c, baton, trust, ceiling, s, m, names);
            let since = match m.resume {
                Some((_, t)) => Some(t),
                None => None,
            };
            &&& b.len() >= 3
            &&& b[0] == orientation(p.front.state, p.id, m.soul_root@, names, trust, ceiling)
            &&& b.last() == transitions_shown(in_reach(places_view(m.places@), ceiling))
            &&& baton matches Some(x) ==> b.len() == 3 && b[1] == baton_shown(x)
            &&& baton is None ==> b.subrange(1, b.len() - 1) == entry_shown(
                s.directive_body,
                s.payload,
                s.dedup_key,
                c,
                m.memory@,
                m.log@,
                since,
            )
        }),
{
    let b = step_blocks(p, c, baton, trust, ceiling, s, m, names);
    if baton is None {
        assert(b.subrange(1, b.len() - 1) =~= seeded(baton, s, c, m));
    }
}

/// The system prompt holds the soul and the prompt's own words: the lean ones on a resumed session
/// that has any. Where both are blank it says at least which state and which prompt this is.
pub proof fn the_system_prompt_holds_soul_and_prompt(soul: Seq<char>, p: PromptV, resumed: bool)
    ensures
        ({
            let body = if resumed && p.resume_body is Some {
                p.resume_body->0
            } else {
                p.body
            };
            let t = system_text(soul, p, resumed);
            let blank = trimmed(soul).len() == 0 && trimmed(body).len() == 0;
            &&& !blank ==> has_prefix(t, trimmed_end(soul)) && has_part(t, trimmed_end(body))
                && t.len() >= trimmed_end(soul).len() + trimmed_end(body).len()
            &&& blank ==> has_part(t, state_name(p.front.state)) && has_part(t, p.id)
        }),
{
    let body = if resumed && p.resume_body is Some {
        p.resume_body->0
    } else {
        p.body
    };
    let t = system_text(soul, p, resumed);
    if trimmed(soul).len() == 0 && trimmed(body).len() == 0 {
        let a = "You are a DACK actor in the "@;
        let s = state_name(p.front.state);
        assert(t =~= a + s + (" state ("@ + p.id + ")."@));
        what_stands_between_is_a_part(a, s, " state ("@ + p.id + ")."@);
        assert(t =~= (a + s + " state ("@) + p.id + ")."@);
        what_stands_between_is_a_part(a + s + " state ("@, p.id, ")."@);
    } else {
        let (x, y) = (trimmed_end(soul), trimmed_end(body));
        assert(t.subrange(0, x.len() as int) =~= x);
        assert(t =~= (x + "\n\n---\n\n"@) + y + Seq::<char>::empty());
        what_stands_between_is_a_part(x + "\n\n---\n\n"@, y, Seq::empty());
    }
}

/// A prompt's own model is taken where the operator lets it choose and it names one; otherwise the
/// operator's for the state is.
pub proof fn an_open_state_takes_the_prompts_model(p: TierPolicyV, asked: Seq<char>)
    ensures
        p.allow_model_override ==> chosen_model(p, Some(asked)) == Some(asked),
        !p.allow_model_override ==> chosen_model(p, Some(asked)) == p.model,
        chosen_model(p, None) == p.model,
{
}

/// The tail of a text is its last lines: all of them where there are no more than asked for.
pub proof fn a_tail_is_the_last_lines(v: Seq<Seq<char>>, max: int, i: int)
    requires
        0 <= max,
    ensures
        v.len() <= max ==> last_of(v, max) == v,
        v.len() > max ==> last_of(v, max).len() == max,
        v.len() > max && 0 <= i < max ==> last_of(v, max)[i] == v[v.len() - max + i],
{
}

} // verus!
