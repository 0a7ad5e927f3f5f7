//! Sensors perceive and never act.
//!
//! A sensor is an executable that reads the outside world and prints one candidate per
//! line. It is run before the agent wakes, so what admits it is the trust of the directive
//! that names it.

use vstd::prelude::*;

use crate::decode::{
    get_opt_text, get_text, json_fault, missing, opt_text_at, opt_text_fault, or_fault,
    presence_fault, text_at, text_fault, FromTree,
};
use crate::error::{error_detail, DackError};
use crate::json::{field, json_read, value_tree, Json, JsonV};
use crate::model::stimulus::{StimulusType, TrustTier};
use crate::paths::{parent, parent_path};
use crate::sandbox::{passthrough, ExecKind, IsolationPolicy, Mount, ProcessSpec, ProcessV};
use crate::secrets::providers::{code_text, show_code};
use crate::strmap::{texts, StrMap};
use crate::text::{
    line_seq, lines, nat_text, owned, push_one, same_text, show_span, span_text, trim, trimmed,
    u64_text,
};

verus! {

/// A directive of this tier may name a script.
pub open spec fn honors_scripts(tier: Seq<char>) -> bool {
    tier == "operator_signed"@ || tier == "self"@
}

/// Whether a directive of this tier may name a script.
pub fn scripts_honored(directive_tier: &TrustTier) -> (r: bool)
    ensures
        r == honors_scripts(directive_tier@),
{
    directive_tier.same(&TrustTier::operator()) || directive_tier.same(&TrustTier::self_())
}

/// One candidate row. The tier that a sensor claims can only lower trust.
#[derive(Debug)]
pub struct SensorCandidate {
    pub type_: StimulusType,
    pub payload: Json,
    pub dedup_key: Option<String>,
    pub payload_tier: Option<TrustTier>,
}

/// What a [`SensorCandidate`] holds.
#[verifier::ext_equal]
pub struct CandidateV {
    pub type_: Seq<char>,
    pub payload: JsonV,
    pub dedup_key: Option<Seq<char>>,
    pub payload_tier: Option<Seq<char>>,
}

impl FromTree for SensorCandidate {
    type Model = CandidateV;

    open spec fn model(&self) -> CandidateV {
        CandidateV {
            type_: self.type_@,
            payload: self.payload@,
            dedup_key: self.dedup_key.deep_view(),
            payload_tier: self.payload_tier.deep_view(),
        }
    }

    open spec fn read(t: JsonV) -> Option<CandidateV> {
        match (
            text_at(t, "type"@, false),
            field(t, "payload"@),
            opt_text_at(t, "dedup_key"@, false),
            opt_text_at(t, "payload_tier"@, false),
        ) {
            (Some(type_), Some(payload), Some(dedup_key), Some(payload_tier)) => Some(
                CandidateV { type_, payload, dedup_key, payload_tier },
            ),
            _ => None,
        }
    }

    open spec fn fault(t: JsonV) -> Option<Seq<char>> {
        let f = text_fault(t, "type"@, false);
        let f = or_fault(f, presence_fault(t, "payload"@));
        let f = or_fault(f, opt_text_fault(t, "dedup_key"@, false));
        or_fault(f, opt_text_fault(t, "payload_tier"@, false))
    }

    fn from_tree(j: &Json) -> (r: Result<SensorCandidate, String>) {
        let type_ = match get_text(j, "type", false) {
            Ok(x) => x,
            Err(e) => return Err(e),
        };
        let payload = match j.get("payload") {
            Some(x) => x.clone(),
            None => return Err(missing("payload")),
        };
        let dedup_key = match get_opt_text(j, "dedup_key", false) {
            Ok(x) => x,
            Err(e) => return Err(e),
        };
        let payload_tier = match get_opt_text(j, "payload_tier", false) {
            Ok(Some(t)) => Some(TrustTier::named(t.as_str())),
            Ok(None) => None,
            Err(e) => return Err(e),
        };
        Ok(SensorCandidate { type_: StimulusType(type_), payload, dedup_key, payload_tier })
    }
}

/// What candidates hold.
pub open spec fn candidates_view(v: Seq<SensorCandidate>) -> Seq<CandidateV> {
    v.map_values(|c: SensorCandidate| c.model())
}

/// The candidate on a line.
pub open spec fn candidate_in(line: Seq<char>) -> Option<CandidateV> {
    match json_read(line) {
        Ok(v) => SensorCandidate::read(value_tree(v)),
        Err(_) => None,
    }
}

/// The candidates on some lines. Blank lines are passed over; one bad line spoils all.
pub open spec fn candidates_in(l: Seq<Seq<char>>) -> Option<Seq<CandidateV>>
    decreases l.len(),
{
    if l.len() == 0 {
        Some(Seq::empty())
    } else {
        let line = trimmed(l.last());
        match candidates_in(l.drop_last()) {
            None => None,
            Some(v) => if line.len() == 0 {
                Some(v)
            } else {
                match candidate_in(line) {
                    Some(c) => Some(v.push(c)),
                    None => None,
                }
            },
        }
    }
}

proof fn candidates_prefix(l: Seq<Seq<char>>, n: int)
    requires
        0 <= n <= l.len(),
        candidates_in(l.take(n)) is None,
    ensures
        candidates_in(l) is None,
    decreases l.len() - n,
{
    if n < l.len() {
        assert(l.take(n + 1).drop_last() =~= l.take(n));
        candidates_prefix(l, n + 1);
    } else {
        assert(l.take(n) =~= l);
    }
}

/// The message about a line.
pub open spec fn line_fault(number: int, why: Seq<char>) -> Seq<char> {
    "line "@ + nat_text(number as nat) + ": "@ + why
}

/// The lines up to `k` hold candidates, and the next one holds none.
pub open spec fn first_bad(l: Seq<Seq<char>>, k: int) -> bool {
    0 <= k < l.len() && candidates_in(l.take(k)) is Some && candidates_in(l.take(k + 1)) is None
}

/// The error of what a sensor printed: it names the first bad line, and what is wrong with it.
pub open spec fn spoiled(e: DackError, l: Seq<Seq<char>>) -> bool {
    &&& e is Sensor
    &&& exists|k: int| #[trigger]
        first_bad(l, k) && match json_fault::<SensorCandidate>(trimmed(l[k])) {
            Some(why) => error_detail(e) == line_fault(k + 1, why),
            None => false,
        }
}

fn line_error(number: usize, e: String) -> (r: DackError)
    ensures
        r is Sensor,
        error_detail(r) == line_fault(number as int, e@),
{
    let mut m = owned("line ");
    m.append(u64_text(number as u64).as_str());
    m.append(": ");
    m.append(e.as_str());
    DackError::Sensor(m)
}

/// The candidates that a sensor printed: newline-delimited JSON.
pub fn parse_candidates(stdout: &str) -> (r: Result<Vec<SensorCandidate>, DackError>)
    ensures
        match candidates_in(line_seq(stdout@)) {
            Some(v) => r is Ok && candidates_view(r->Ok_0@) == v,
            None => r is Err && spoiled(r->Err_0, line_seq(stdout@)),
        },
{
    let all = lines(stdout);
    let ghost l = line_seq(stdout@);
    let mut out: Vec<SensorCandidate> = Vec::new();
    let mut i: usize = 0;
    assert(l.take(0) =~= Seq::empty());
    assert(candidates_view(out@) =~= Seq::empty());
    while i < all.len()
        invariant
            i <= all@.len(),
            all.deep_view() == l,
            l == line_seq(stdout@),
            candidates_in(l.take(i as int)) == Some(candidates_view(out@)),
        decreases all@.len() - i,
    {
        proof {
            assert(l.take(i + 1).drop_last() =~= l.take(i as int));
            assert(l.take(i + 1).last() == all@[i as int]@);
        }
        let ghost o = out@;
        let line = trim(all[i].as_str());
        if !line.as_str().is_empty() {
            let read = match Json::parse(line.as_str()) {
                Ok(tree) => SensorCandidate::from_tree(&tree),
                Err(e) => Err(e),
            };
            match read {
                Ok(c) => {
                    let ghost v = c.model();
                    out.push(c);
                    assert(candidates_view(out@) =~= candidates_view(o).push(v));
                },
                Err(e) => {
                    proof {
                        candidates_prefix(l, i + 1);
                        assert(first_bad(l, i as int));
                        assert(json_fault::<SensorCandidate>(trimmed(l[i as int])) == Some(e@));
                    }
                    return Err(line_error(i + 1, e));
                },
            }
        }
        i += 1;
    }
    assert(l.take(i as int) =~= l);
    Ok(out)
}

// ── Running a sensor ────────────────────────────────────────────────────────────────────

/// Runs sensors as processes of their own.
#[derive(Debug)]
pub struct SubprocessSensor {
    /// How far a sensor is shut in.
    pub policy: IsolationPolicy,
}

/// Where a sensor runs: beside its own file.
pub open spec fn sensor_cwd(exe: Seq<char>) -> Seq<char> {
    if exe.len() == 0 || exe == "/"@ {
        "."@
    } else {
        parent_path(exe)
    }
}

/// How a run of a sensor ended.
#[derive(Debug)]
pub struct SensorRun {
    /// The exit code; none where a signal ended it.
    pub code: Option<i32>,
    pub success: bool,
    pub stdout: String,
    pub stderr: String,
}

impl SubprocessSensor {
    /// Sensors that run on the host.
    pub fn new() -> (r: SubprocessSensor)
        ensures
            r.policy@ == passthrough(),
    {
        SubprocessSensor { policy: IsolationPolicy::host_passthrough() }
    }

    /// Sensors that are shut in.
    pub fn with_policy(policy: IsolationPolicy) -> (r: SubprocessSensor)
        ensures
            r.policy == policy,
    {
        SubprocessSensor { policy }
    }

    /// The process of a run. It sees the environment that it is given and nothing else.
    pub fn process(&self, exe: &str, env: StrMap<String>) -> (r: ProcessSpec)
        ensures
            r@ == (ProcessV {
                command: seq![exe@],
                cwd: sensor_cwd(exe@),
                env: texts(env),
                clear_env: true,
                kind: ExecKind::Sensor,
                mounts: Seq::empty(),
                policy: self.policy@,
                name: None,
            }),
    {
        let mut command: Vec<String> = Vec::new();
        assert(command.deep_view() =~= Seq::empty());
        push_one(&mut command, exe);
        assert(command.deep_view() =~= seq![exe@]);
        let mounts: Vec<Mount> = Vec::new();
        assert(mounts.deep_view() =~= Seq::empty());
        proof {
            reveal_strlit("");
            assert(exe@.len() == 0 ==> exe@ =~= ""@);
        }
        let cwd = if same_text(exe, "") || same_text(exe, "/") {
            owned(".")
        } else {
            parent(exe)
        };
        ProcessSpec {
            command,
            cwd,
            env,
            clear_env: true,
            kind: ExecKind::Sensor,
            mounts,
            policy: self.policy.copy(),
            name: None,
        }
    }

    /// What a run found. A failure finds nothing.
    pub fn outcome(&self, run: &SensorRun) -> (r: Result<Vec<SensorCandidate>, DackError>)
        ensures
            if run.success {
                match candidates_in(line_seq(run.stdout@)) {
                    Some(v) => r is Ok && candidates_view(r->Ok_0@) == v,
                    None => r is Err && spoiled(r->Err_0, line_seq(run.stdout@)),
                }
            } else {
                r is Err && r->Err_0 is Sensor && error_detail(r->Err_0) == "exit "@ + code_text(
                    run.code,
                ) + ": "@ + trimmed(run.stderr@)
            },
    {
        if !run.success {
            let mut m = owned("exit ");
            m.append(show_code(run.code).as_str());
            m.append(": ");
            m.append(trim(run.stderr.as_str()).as_str());
            return Err(DackError::Sensor(m));
        }
        parse_candidates(run.stdout.as_str())
    }

    /// The error of a run that took too long.
    pub fn timeout_error(timeout_ms: u64) -> (r: DackError)
        ensures
            r is Sensor,
            error_detail(r) == "timeout after "@ + span_text(timeout_ms as nat),
    {
        let mut m = owned("timeout after ");
        m.append(show_span(timeout_ms).as_str());
        DackError::Sensor(m)
    }
}

impl Default for SubprocessSensor {
    fn default() -> (r: SubprocessSensor)
        ensures
            r.policy@ == passthrough(),
    {
        SubprocessSensor::new()
    }
}

/// A script is honored where its duty is the agent's own or the operator's.
pub proof fn own_and_signed_scripts_are_honored(tier: Seq<char>)
    ensures
        honors_scripts("self"@),
        honors_scripts("operator_signed"@),
        tier != "self"@ && tier != "operator_signed"@ ==> !honors_scripts(tier),
{
}

/// A line tells what was found: its type and its payload, and, where it has them as texts, the key
/// by which it folds and what its sensor claims for it.
pub proof fn a_candidate_is_read_from_its_fields(
    t: JsonV,
    kind: Seq<char>,
    payload: JsonV,
    key: Seq<char>,
    tier: Seq<char>,
)
    requires
        field(t, "type"@) == Some(JsonV::Str(kind)),
        field(t, "payload"@) == Some(payload),
    ensures
        ({
            let c = SensorCandidate::read(t);
            let no_key = field(t, "dedup_key"@) is None || field(t, "dedup_key"@) == Some(
                JsonV::Null,
            );
            let no_claim = field(t, "payload_tier"@) is None || field(t, "payload_tier"@) == Some(
                JsonV::Null,
            );
            let a_key = field(t, "dedup_key"@) == Some(JsonV::Str(key));
            let a_claim = field(t, "payload_tier"@) == Some(JsonV::Str(tier));
            &&& (no_key || a_key) && (no_claim || a_claim) ==> c == Some(
                CandidateV {
                    type_: kind,
                    payload,
                    dedup_key: if no_key {
                        None
                    } else {
                        Some(key)
                    },
                    payload_tier: if no_claim {
                        None
                    } else {
                        Some(tier)
                    },
                },
            )
        }),
{
}

/// A line without a type or without a payload tells nothing.
pub proof fn a_candidate_has_a_type_and_a_payload(t: JsonV)
    ensures
        field(t, "type"@) is None || !(field(t, "type"@)->0 is Str) || field(t, "payload"@) is None
            ==> SensorCandidate::read(t) is None,
{
}

/// What a sensor printed is read line by line, in its order: a blank line says nothing, a good one
/// is one candidate, and a bad one spoils them all.
pub proof fn a_sensor_is_read_line_by_line(a: Seq<Seq<char>>, b: Seq<Seq<char>>, line: Seq<char>)
    ensures
        candidates_in(a) is Some && candidates_in(b) is Some ==> candidates_in(a + b) == Some(
            candidates_in(a)->0 + candidates_in(b)->0,
        ),
        candidates_in(a) is None || candidates_in(b) is None ==> candidates_in(a + b) is None,
        trimmed(line).len() == 0 ==> candidates_in(seq![line]) == Some(Seq::<CandidateV>::empty()),
        trimmed(line).len() > 0 && candidate_in(trimmed(line)) is Some ==> candidates_in(seq![line])
            == Some(seq![candidate_in(trimmed(line))->0]),
        trimmed(line).len() > 0 && candidate_in(trimmed(line)) is None ==> candidates_in(
            seq![line],
        ) is None,
    decreases b.len(),
{
    let one = seq![line];
    assert(one.drop_last() =~= Seq::empty());
    assert(candidates_in(one.drop_last()) == Some(Seq::<CandidateV>::empty()));
    assert(one.last() == line);
    if candidate_in(trimmed(line)) is Some {
        let c = candidate_in(trimmed(line))->0;
        assert(Seq::<CandidateV>::empty().push(c) =~= seq![c]);
    }
    if b.len() == 0 {
        assert(a + b =~= a);
        if candidates_in(a) is Some {
            assert(candidates_in(a)->0 + Seq::<CandidateV>::empty() =~= candidates_in(a)->0);
        }
    } else {
        a_sensor_is_read_line_by_line(a, b.drop_last(), line);
        assert((a + b).drop_last() =~= a + b.drop_last());
        assert((a + b).last() == b.last());
        if candidates_in(a) is Some && candidates_in(b) is Some {
            let x = candidates_in(a)->0;
            let y = candidates_in(b.drop_last())->0;
            let l = trimmed(b.last());
            if l.len() > 0 && candidate_in(l) is Some {
                let c = candidate_in(l)->0;
                assert((x + y).push(c) =~= x + y.push(c));
            }
        }
    }
}

/// A sensor runs where it lies, and where there is no such place, here.
pub proof fn a_sensor_runs_where_it_lies(exe: Seq<char>)
    ensures
        exe.len() > 0 && exe != "/"@ ==> sensor_cwd(exe) == parent_path(exe),
        sensor_cwd(Seq::empty()) == "."@,
        sensor_cwd("/"@) == "."@,
{
}

} // verus!
