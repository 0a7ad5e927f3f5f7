//! Delegated work. A worker is compute that the agent wields: it has no identity, no keys and
//! no way into the soul, and what it brings back is taken as anything from outside is.

use vstd::prelude::*;

use crate::agent_def::{AgentDef, Volume, VolumeV};
use crate::config::{DackConfig, WorkerSandboxConfig};
use crate::decode::{models, FromTree};
use crate::json::{a_field_is_found_by_its_name, field, plain, Json, JsonV, MAX_NESTING};
use crate::model::proposal::{AgentOutput, AgentOutputV, SpawnRequest};
use crate::model::stimulus::{
    Priority, Stimulus, StimulusId, StimulusStatus, StimulusType, StimulusV, TrustTier,
};
use crate::paths::{file_name, join_path, joined_path, last_part};
use crate::sandbox::{locked, IsolationPolicy, Mount, MountV, NetworkPolicy, NetworkV, PolicyV};
use crate::state::ConsciousnessState;
use crate::text::{i64_text, int_text, owned, same_text, text_lt};

verus! {

/// The job that a step hands out: only a step that acts hands out any.
pub open spec fn honored_job(state: ConsciousnessState, out: AgentOutputV) -> Option<
    (Seq<char>, Seq<char>),
> {
    if state == ConsciousnessState::Express {
        out.spawn
    } else {
        None
    }
}

/// The job that a step hands out.
pub fn honored_spawn(state: ConsciousnessState, out: &AgentOutput) -> (r: Option<&SpawnRequest>)
    ensures
        match r {
            Some(s) => honored_job(state, out@) == Some((s.agent@, s.brief@)),
            None => honored_job(state, out@) is None,
        },
{
    match state {
        ConsciousnessState::Express => match &out.spawn {
            Some(s) => Some(s),
            None => None,
        },
        _ => None,
    }
}

/// What a worker brought back, as a wake of its own.
pub open spec fn completion(
    agent: Seq<char>,
    summary: Seq<char>,
    entry: Seq<char>,
    at: i64,
) -> StimulusV {
    StimulusV {
        id: "worker-"@ + agent + "-"@ + int_text(at as int),
        source: "worker"@,
        type_: "worker_completion"@,
        directive_tier: "self"@,
        payload_tier: "public"@,
        payload: JsonV::Object(
            seq![("agent"@, JsonV::Str(agent)), ("summary"@, JsonV::Str(summary))],
        ),
        provenance: Some("worker "@ + agent),
        received_at: at,
        dedup_key: None,
        pop_after: None,
        priority: Priority::Normal,
        status: StimulusStatus::Pending,
        directive_body: "A worker that you delegated to has finished. Judge what it brought back."@,
        entry,
        baton: None,
    }
}

/// What a worker brought back survives being stored.
pub proof fn a_completion_is_plain(
    agent: Seq<char>,
    summary: Seq<char>,
    entry: Seq<char>,
    at: i64,
)
    ensures
        plain(completion(agent, summary, entry, at).payload, MAX_NESTING as nat),
{
    reveal_strlit("agent");
    reveal_strlit("summary");
    let f = completion(agent, summary, entry, at).payload->Object_0;
    assert("agent"@[0] == 'a' && "summary"@[0] == 's');
    assert(text_lt("agent"@, "summary"@));
    assert forall|i: int| 0 <= i < f.len() implies plain((#[trigger] f[i]).1, 99) by {}
}

/// The wake that a worker's summary comes back in. It is data from outside, never the
/// continuation of the cycle that delegated.
pub fn worker_completion(config: &DackConfig, agent: &str, summary: &str, now: i64) -> (r: Stimulus)
    ensures
        r@ == completion(agent@, summary@, config.default_entry@, now),
{
    let mut id = owned("worker-");
    id.append(agent);
    id.append("-");
    id.append(i64_text(now).as_str());
    let mut provenance = owned("worker ");
    provenance.append(agent);
    let mut fields: Vec<(String, Json)> = Vec::new();
    fields.push((owned("agent"), Json::text(owned(agent))));
    fields.push((owned("summary"), Json::text(owned(summary))));
    let payload = Json::object(fields);
    assert(crate::json::fields_view(fields@) =~= seq![
        ("agent"@, JsonV::Str(agent@)),
        ("summary"@, JsonV::Str(summary@)),
    ]);
    Stimulus {
        id: StimulusId(id),
        source: owned("worker"),
        type_: StimulusType::named("worker_completion"),
        directive_tier: TrustTier::self_(),
        payload_tier: TrustTier::public(),
        payload,
        provenance: Some(provenance),
        received_at: now,
        dedup_key: None,
        pop_after: None,
        priority: Priority::Normal,
        status: StimulusStatus::Pending,
        directive_body: owned(
            "A worker that you delegated to has finished. Judge what it brought back.",
        ),
        entry: config.default_entry.clone(),
        baton: None,
    }
}

// ── Isolation ───────────────────────────────────────────────────────────────────────────

/// Whether a worker runs in a container: its definition asks for one, and the deployment has
/// them.
pub fn runs_in_container(def: &AgentDef, config: &WorkerSandboxConfig) -> (r: bool)
    ensures
        r == (config.enabled && def.fm.isolation.deep_view() == Some("docker"@)),
{
    match &def.fm.isolation {
        Some(i) => config.enabled && same_text(i.as_str(), "docker"),
        None => false,
    }
}

/// The container of a worker: shut in as far as its work allows. It reaches its gateway, and
/// runs as the image's own user.
pub fn worker_policy(config: &WorkerSandboxConfig) -> (r: IsolationPolicy)
    ensures
        r@ == (PolicyV {
            network: NetworkV::Full,
            pids_limit: Some(config.pids_limit),
            memory: Some(config.memory@),
            user: None,
            ..locked(config.image@)
        }),
{
    let base = IsolationPolicy::locked_down(config.image.as_str());
    IsolationPolicy {
        network: NetworkPolicy::Full,
        pids_limit: Some(config.pids_limit),
        memory: Some(config.memory.clone()),
        user: None,
        ..base
    }
}

/// Where a volume is found in the container.
pub open spec fn guest_path(v: VolumeV) -> Seq<char> {
    match v.1 {
        Some(t) => t,
        None => "/mnt/"@ + last_part(v.0),
    }
}

/// The mounts of a worker: its workspace, which it may write, and the volumes that its
/// definition names, which it may only read.
pub open spec fn mounts_of(soul: Seq<char>, workspace: Seq<char>, v: Seq<VolumeV>) -> Seq<MountV> {
    seq![MountV { host: workspace, guest: workspace, writable: true }] + v.map_values(
        |x: VolumeV|
            MountV {
                host: joined_path(soul, x.0),
                guest: guest_path(x),
                writable: false,
            },
    )
}

fn mount_volume(soul: &str, v: &Volume) -> (r: Mount)
    ensures
        r.deep_view() == (MountV {
            host: joined_path(soul@, v.model().0),
            guest: guest_path(v.model()),
            writable: false,
        }),
{
    let guest = match &v.target {
        Some(t) => t.clone(),
        None => {
            let mut out = owned("/mnt/");
            out.append(file_name(v.source.as_str()).as_str());
            out
        },
    };
    Mount { host: join_path(soul, v.source.as_str()), guest, writable: false }
}

/// The mounts of a worker.
pub fn worker_mounts(soul_root: &str, workspace: &str, volumes: &Vec<Volume>) -> (r: Vec<Mount>)
    ensures
        r.deep_view() == mounts_of(soul_root@, workspace@, models(volumes@)),
{
    let mut out: Vec<Mount> = Vec::new();
    out.push(Mount { host: owned(workspace), guest: owned(workspace), writable: true });
    let ghost all = mounts_of(soul_root@, workspace@, models(volumes@));
    let mut i: usize = 0;
    assert(out.deep_view() =~= all.take(1));
    while i < volumes.len()
        invariant
            i <= volumes@.len(),
            all == mounts_of(soul_root@, workspace@, models(volumes@)),
            out.deep_view() == all.take(i + 1),
        decreases volumes@.len() - i,
    {
        let ghost o = out.deep_view();
        let m = mount_volume(soul_root, &volumes[i]);
        let ghost mv = m.deep_view();
        out.push(m);
        assert(mv == all[i + 1]);
        assert(out.deep_view() =~= o.push(mv));
        assert(out.deep_view() =~= all.take(i + 2));
        i += 1;
    }
    assert(all.take(i + 1) =~= all);
    out
}

// ── Laws ────────────────────────────────────────────────────────────────────────────────

/// A step that does not act delegates nothing, whatever it says.
pub proof fn only_an_acting_step_delegates(state: ConsciousnessState, out: AgentOutputV)
    requires
        state != ConsciousnessState::Express,
    ensures
        honored_job(state, out) is None,
{
}

/// A worker's only writable place is its workspace.
pub proof fn a_worker_writes_only_its_workspace(
    soul: Seq<char>,
    workspace: Seq<char>,
    v: Seq<VolumeV>,
    i: int,
)
    requires
        0 <= i < mounts_of(soul, workspace, v).len(),
        mounts_of(soul, workspace, v)[i].writable,
    ensures
        mounts_of(soul, workspace, v)[i].host == workspace,
{
}

/// What a worker brings back never has more trust than the outside world.
pub proof fn a_worker_earns_no_trust(
    agent: Seq<char>,
    summary: Seq<char>,
    entry: Seq<char>,
    at: i64,
)
    ensures
        completion(agent, summary, entry, at).payload_tier == "public"@,
        completion(agent, summary, entry, at).baton is None,
{
}

/// What a step in Express delegates is handed out as it asked.
pub proof fn an_expressing_step_delegates(out: AgentOutputV)
    ensures
        honored_job(ConsciousnessState::Express, out) == out.spawn,
{
}

/// A worker that is done wakes the agent: with who it was and what it brought, at the second that
/// it ended, at the prompt that its agent names.
pub proof fn a_completion_tells_what_came_back(
    agent: Seq<char>,
    summary: Seq<char>,
    entry: Seq<char>,
    at: i64,
)
    ensures
        ({
            let s = completion(agent, summary, entry, at);
            &&& field(s.payload, "agent"@) == Some(JsonV::Str(agent))
            &&& field(s.payload, "summary"@) == Some(JsonV::Str(summary))
            &&& s.id == "worker-"@ + agent + "-"@ + int_text(at as int)
            &&& s.received_at == at
            &&& s.entry == entry
            &&& s.type_ == "worker_completion"@
            &&& s.source == "worker"@
            &&& s.directive_tier == "self"@
            &&& s.priority == Priority::Normal
            &&& s.status == StimulusStatus::Pending
            &&& s.pop_after is None
        }),
{
    reveal_strlit("agent");
    reveal_strlit("summary");
    assert("agent"@.len() == 5 && "summary"@.len() == 7);
    let f = completion(agent, summary, entry, at).payload->Object_0;
    a_field_is_found_by_its_name(f, 0, "agent"@);
    a_field_is_found_by_its_name(f, 1, "summary"@);
}

/// A worker has its workspace, to write, where it stands; and each volume of its agent, to read,
/// where the agent puts it, or else under `/mnt/`.
pub proof fn a_worker_has_its_workspace_and_volumes(
    soul: Seq<char>,
    workspace: Seq<char>,
    v: Seq<VolumeV>,
    i: int,
)
    requires
        0 <= i < v.len(),
    ensures
        ({
            let m = mounts_of(soul, workspace, v);
            &&& m.len() == v.len() + 1
            &&& m[0] == (MountV { host: workspace, guest: workspace, writable: true })
            &&& m[i + 1].host == joined_path(soul, v[i].0)
            &&& !m[i + 1].writable
            &&& v[i].1 matches Some(t) ==> m[i + 1].guest == t
            &&& v[i].1 is None ==> m[i + 1].guest == "/mnt/"@ + last_part(v[i].0)
        }),
{
}

} // verus!
