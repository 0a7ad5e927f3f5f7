//! From a fired trigger to rows in the queue.

use vstd::prelude::*;

use crate::decode::FromTree;
use crate::bus::{ingested, reckonable, Bus};
use crate::config::{
    hex, provider_trust, sha256, tier_meet, tier_rank, trust_or_public, DackConfig, TierV,
};
use crate::json::{
    field, fields_view, json_read, number_text, value_tree, write_number, Json, JsonV,
};
use crate::model::stimulus::{StimulusId, TrustTier};
use crate::sensor::{candidates_view, CandidateV, SensorCandidate};
use crate::stimuli::{
    duty_index, duty_index_names_a_duty, sensor_path, FrontV, Registry, StimulusDef, Trigger,
    TriggerV,
};
use crate::strmap::{overlaid, texts, StrMap};
use crate::text::{
    owned, owned_all, parse_nat, read_nat, text_before, text_lt, text_lt_irreflexive,
    text_lt_transitive, trim, trimmed,
};

verus! {

/// The wall-clock budget of a sensor, in seconds.
pub const SENSOR_TIMEOUT_SECS: u64 = 30;

// ── What is done with a trigger ─────────────────────────────────────────────────────────

/// What is done with a trigger that fired.
#[derive(Debug)]
pub enum IngestPlan {
    /// The duty is gone since the trigger fired.
    Drop,
    /// The duty's sensor is run.
    Sense {
        exe: String,
        /// The providers whose secrets it declares.
        scopes: Vec<String>,
        /// The cursor that its watermark is kept under, and the variable that it is told in.
        cursor: Option<(String, String)>,
    },
    /// What came with the trigger is the payload.
    Direct,
}

/// The cursor of a duty.
pub open spec fn cursor_of(f: FrontV) -> Option<(Seq<char>, Seq<char>)> {
    match f.cursor {
        Some(c) => Some(
            (
                match c.key {
                    Some(k) => k,
                    None => f.id,
                },
                c.env,
            ),
        ),
        None => None,
    }
}

/// What is done with a trigger that fired: a duty with a sensor that its tier honors is
/// sensed, every other duty takes the trigger itself.
pub fn plan(registry: &Registry, def_id: &str, repo_root: &str) -> (r: IngestPlan)
    ensures
        match duty_index(registry@.0, def_id@) {
            None => r is Drop,
            Some(i) => {
                let d = registry@.0[i];
                match sensor_path(d, repo_root@) {
                    Some(exe) => r is Sense && r->exe@ == exe && r->scopes.deep_view()
                        == d.front.secrets && (match r->cursor {
                        Some((key, env)) => cursor_of(d.front) == Some((key@, env@)),
                        None => cursor_of(d.front) is None,
                    }),
                    None => r is Direct,
                }
            },
        },
{
    let def = match registry.get(def_id) {
        Some(d) => d,
        None => return IngestPlan::Drop,
    };
    proof {
        let i = duty_index(registry@.0, def_id@)->0;
        duty_index_names_a_duty(registry@.0, def_id@);
        assert(registry@.0[i] == def@);
    }
    match def.resolved_sensor(repo_root) {
        Some(exe) => {
            let cursor = match &def.frontmatter.cursor {
                Some(c) => Some((c.key_for(def.frontmatter.id.as_str()), c.env.clone())),
                None => None,
            };
            let scopes = owned_all(&def.frontmatter.secrets);
            assert(scopes.deep_view() =~= def@.front.secrets);
            IngestPlan::Sense { exe, scopes, cursor }
        },
        None => IngestPlan::Direct,
    }
}

/// What a sensor sees: the read-scoped base, its declared secrets over it, and the watermark of
/// the last poll where there is one.
pub open spec fn sensor_sees(
    base: Map<Seq<char>, Seq<char>>,
    secrets: Map<Seq<char>, Seq<char>>,
    variable: Option<Seq<char>>,
    since: Option<Seq<char>>,
) -> Map<Seq<char>, Seq<char>> {
    match (variable, since) {
        (Some(v), Some(s)) => overlaid(base, secrets).insert(v, s),
        _ => overlaid(base, secrets),
    }
}

/// The environment of a sensor.
pub fn sense_env(
    base: StrMap<String>,
    secrets: &StrMap<String>,
    variable: &Option<String>,
    since: &Option<String>,
) -> (r: StrMap<String>)
    ensures
        texts(r) == sensor_sees(
            texts(base),
            texts(*secrets),
            variable.deep_view(),
            since.deep_view(),
        ),
{
    let mut env = base;
    env.overlay(secrets);
    match (variable, since) {
        (Some(v), Some(s)) => {
            let ghost before = texts(env);
            env.insert(v.clone(), s.clone());
            assert(texts(env) =~= before.insert(v@, s@));
        },
        _ => {},
    }
    env
}

// ── The payload without a sensor ────────────────────────────────────────────────────────

/// What a trigger carries: a timer nothing, a webhook what was posted, as a document where it
/// is one and as a text where it is not.
pub open spec fn carried(t: TriggerV, body: Seq<char>) -> JsonV {
    match t {
        TriggerV::Cron(_) => JsonV::Object(Seq::empty()),
        TriggerV::Webhook(_) => if trimmed(body).len() == 0 {
            JsonV::Object(Seq::empty())
        } else {
            match json_read(body) {
                Ok(v) => value_tree(v),
                Err(_) => JsonV::Str(body),
            }
        },
    }
}

/// What a field of a payload marks it with: its text, or its number as it is written.
pub open spec fn mark_in(payload: JsonV, key: Seq<char>) -> Option<Seq<char>> {
    match field(payload, key) {
        Some(JsonV::Str(s)) => Some(s),
        Some(JsonV::Number(n)) => Some(number_text(n)),
        _ => None,
    }
}

fn read_mark(payload: &Json, key: &str) -> (r: Option<String>)
    ensures
        r.deep_view() == mark_in(payload@, key@),
{
    match payload.get(key) {
        Some(Json::Str(s)) => Some(s.clone()),
        Some(Json::Number(n)) => Some(write_number(n)),
        _ => None,
    }
}

/// The candidate of a duty without a sensor. It folds with others that agree on the field that
/// the duty names.
pub open spec fn direct_candidate(f: FrontV, body: Seq<char>) -> CandidateV {
    let payload = carried(f.trigger, body);
    CandidateV {
        type_: f.emits,
        payload,
        dedup_key: match f.coalesce {
            Some(c) => match c.dedup_key {
                Some(k) => mark_in(payload, k),
                None => None,
            },
            None => None,
        },
        payload_tier: None,
    }
}

/// The candidates of a duty without a sensor.
pub fn direct_candidates(def: &StimulusDef, body: &str) -> (r: Vec<SensorCandidate>)
    ensures
        candidates_view(r@) == seq![direct_candidate(def@.front, body@)],
{
    let empty: Vec<(String, Json)> = Vec::new();
    assert(fields_view(empty@) =~= Seq::empty());
    let payload = match &def.frontmatter.trigger {
        Trigger::Cron { .. } => Json::object(empty),
        Trigger::Webhook { .. } => if trim(body).as_str().is_empty() {
            Json::object(empty)
        } else {
            match Json::parse(body) {
                Ok(j) => j,
                Err(_) => Json::text(owned(body)),
            }
        },
    };
    assert(payload@ == carried(def@.front.trigger, body@));
    let dedup_key = match &def.frontmatter.coalesce {
        Some(c) => match &c.dedup_key {
            Some(k) => read_mark(&payload, k.as_str()),
            None => None,
        },
        None => None,
    };
    let c = SensorCandidate {
        type_: def.frontmatter.emits.type_.clone(),
        payload,
        dedup_key,
        payload_tier: None,
    };
    let ghost cv = c.model();
    assert(cv =~= direct_candidate(def@.front, body@));
    let mut out: Vec<SensorCandidate> = Vec::new();
    out.push(c);
    assert(candidates_view(out@) =~= seq![cv]);
    out
}

// ── The seed ────────────────────────────────────────────────────────────────────────────

/// A tier lowered by what the declared secrets put in play.
pub open spec fn lowered_by(
    l: Seq<TierV>,
    c: DackConfig,
    start: Seq<char>,
    secrets: Seq<Seq<char>>,
) -> Seq<char>
    decreases secrets.len(),
{
    if secrets.len() == 0 {
        start
    } else {
        tier_meet(
            l,
            lowered_by(l, c, start, secrets.drop_last()),
            provider_trust(c.secrets_providers@, secrets.last())@,
        )
    }
}

/// The tier of where a trigger comes from.
pub open spec fn origin(c: DackConfig, t: TriggerV) -> Seq<char> {
    match t {
        TriggerV::Cron(_) => "self"@,
        TriggerV::Webhook(path) => trust_or_public(c.webhooks@, path)@,
    }
}

/// The trust that a payload starts with. It is the operator's word on where the payload comes
/// from: the script that found it, the secrets that the script used, the path that it was
/// posted on. No script has a say in it.
pub open spec fn seed_of(
    l: Seq<TierV>,
    c: DackConfig,
    f: FrontV,
    script: Option<Seq<u8>>,
) -> Seq<char> {
    match script {
        Some(source) => lowered_by(
            l,
            c,
            tier_meet(
                l,
                origin(c, f.trigger),
                trust_or_public(c.signed_scripts@, hex(sha256(source)))@,
            ),
            f.secrets,
        ),
        None => origin(c, f.trigger),
    }
}

/// The trust that a payload starts with. `script` is the source of the sensor that found it.
pub fn seed_trust(config: &DackConfig, def: &StimulusDef, script: Option<&[u8]>) -> (r: TrustTier)
    ensures
        r@ == seed_of(
            config.trust_tiers.deep_view(),
            *config,
            def@.front,
            match script {
                Some(s) => Some(s@),
                None => None,
            },
        ),
{
    let from = match &def.frontmatter.trigger {
        Trigger::Cron { .. } => TrustTier::self_(),
        Trigger::Webhook { path } => config.webhook_trust(path.as_str()),
    };
    let source = match script {
        Some(s) => s,
        None => return from,
    };
    let lattice = config.lattice();
    let ghost l = lattice@;
    let mut seed = lattice.meet(&from, &config.script_trust(source));
    let ghost start = seed@;
    let ghost all = def@.front.secrets;
    let mut i: usize = 0;
    assert(all.take(0) =~= Seq::empty());
    while i < def.frontmatter.secrets.len()
        invariant
            i <= def.frontmatter.secrets@.len(),
            all == def@.front.secrets,
            l == lattice@,
            seed@ == lowered_by(l, *config, start, all.take(i as int)),
        decreases def.frontmatter.secrets@.len() - i,
    {
        proof {
            assert(all.take(i + 1).drop_last() =~= all.take(i as int));
            assert(all.take(i + 1).last() == def.frontmatter.secrets@[i as int]@);
        }
        seed = lattice.meet(&seed, &config.secret_trust(def.frontmatter.secrets[i].as_str()));
        i += 1;
    }
    assert(all.take(i as int) =~= all);
    seed
}

// ── The watermark ───────────────────────────────────────────────────────────────────────

/// The number that a mark is.
pub open spec fn mark_number(s: Seq<char>) -> Option<nat> {
    match read_nat(s) {
        Some(n) => if n <= u128::MAX {
            Some(n)
        } else {
            None
        },
        None => None,
    }
}

/// One mark is newer than another: by number where both are numbers, else by text.
pub open spec fn newer(a: Seq<char>, b: Seq<char>) -> bool {
    match (mark_number(a), mark_number(b)) {
        (Some(x), Some(y)) => x > y,
        _ => text_lt(b, a),
    }
}

/// The newest mark of some candidates.
pub open spec fn newest(c: Seq<CandidateV>, key: Seq<char>) -> Option<Seq<char>>
    decreases c.len(),
{
    if c.len() == 0 {
        None
    } else {
        let best = newest(c.drop_last(), key);
        match (mark_in(c.last().payload, key), best) {
            (Some(v), Some(b)) => if newer(v, b) {
                Some(v)
            } else {
                best
            },
            (Some(v), None) => Some(v),
            (None, _) => best,
        }
    }
}

/// Whether a mark is newer than another.
pub fn cursor_gt(a: &str, b: &str) -> (r: bool)
    ensures
        r == newer(a@, b@),
{
    match (parse_nat(a, u128::MAX), parse_nat(b, u128::MAX)) {
        (Some(x), Some(y)) => x > y,
        _ => text_before(b, a),
    }
}

/// The newest value of a field, which the next poll starts behind.
pub fn watermark(candidates: &Vec<SensorCandidate>, field: &str) -> (r: Option<String>)
    ensures
        r.deep_view() == newest(candidates_view(candidates@), field@),
{
    let ghost c = candidates_view(candidates@);
    let mut best: Option<String> = None;
    let mut i: usize = 0;
    assert(c.take(0) =~= Seq::empty());
    while i < candidates.len()
        invariant
            i <= candidates@.len(),
            c == candidates_view(candidates@),
            best.deep_view() == newest(c.take(i as int), field@),
        decreases candidates@.len() - i,
    {
        proof {
            assert(c.take(i + 1).drop_last() =~= c.take(i as int));
            assert(c.take(i + 1).last() == candidates@[i as int].model());
        }
        match read_mark(&candidates[i].payload, field) {
            Some(v) => {
                let take = match &best {
                    Some(b) => cursor_gt(v.as_str(), b.as_str()),
                    None => true,
                };
                if take {
                    best = Some(v);
                }
            },
            None => {},
        }
        i += 1;
    }
    assert(c.take(i as int) =~= c);
    best
}

// ── Taking in ───────────────────────────────────────────────────────────────────────────

/// The cursors after a poll: the watermark moves to the newest item that was found, whatever
/// becomes of the item.
pub open spec fn cursors_after(
    cursors: Map<Seq<char>, Seq<char>>,
    f: FrontV,
    c: Seq<CandidateV>,
) -> Map<Seq<char>, Seq<char>> {
    match f.cursor {
        Some(spec) => match newest(c, spec.field) {
            Some(mark) => cursors.insert((cursor_of(f)->0).0, mark),
            None => cursors,
        },
        None => cursors,
    }
}

/// Takes in what a duty found: the watermark moves, and the bus turns the candidates into rows.
/// Returns the ids of the new rows.
pub fn take_in(
    bus: &mut Bus,
    def: &StimulusDef,
    candidates: &Vec<SensorCandidate>,
    now: i64,
    seed: &TrustTier,
) -> (r: Vec<StimulusId>)
    requires
        reckonable(def@.front, now),
    ensures
        (final(bus).queue@, r.deep_view()) == ingested(
            old(bus).queue@,
            old(bus).lattice@,
            def@,
            candidates_view(candidates@),
            now,
            seed@,
        ),
        final(bus).queue.marks() == cursors_after(
            old(bus).queue.marks(),
            def@.front,
            candidates_view(candidates@),
        ),
        final(bus).lattice == old(bus).lattice,
{
    match &def.frontmatter.cursor {
        Some(c) => match watermark(candidates, c.field.as_str()) {
            Some(mark) => {
                let key = c.key_for(def.frontmatter.id.as_str());
                bus.queue.set_cursor(key.as_str(), mark.as_str());
            },
            None => {},
        },
        None => {},
    }
    bus.ingest(def, candidates, now, seed)
}

// ── Laws ────────────────────────────────────────────────────────────────────────────────

/// Where every mark is a number, the watermark is the greatest of them: nothing that was found
/// is found again.
pub proof fn a_watermark_passes_everything_found(c: Seq<CandidateV>, key: Seq<char>, i: int)
    requires
        0 <= i < c.len(),
        forall|k: int|
            0 <= k < c.len() ==> (mark_in((#[trigger] c[k]).payload, key) is Some && mark_number(
                mark_in(c[k].payload, key)->0,
            ) is Some),
    ensures
        newest(c, key) is Some,
        mark_number(newest(c, key)->0) is Some,
        mark_number(mark_in(c[i].payload, key)->0)->0 <= mark_number(newest(c, key)->0)->0,
    decreases c.len(),
{
    let rest = c.drop_last();
    assert(c.last() == c[c.len() - 1]);
    if rest.len() > 0 {
        assert forall|k: int| 0 <= k < rest.len() implies (mark_in(
            (#[trigger] rest[k]).payload,
            key,
        ) is Some && mark_number(mark_in(rest[k].payload, key)->0) is Some) by {
            assert(rest[k] == c[k]);
        }
        if i < rest.len() {
            a_watermark_passes_everything_found(rest, key, i);
            assert(rest[i] == c[i]);
        } else {
            a_watermark_passes_everything_found(rest, key, 0);
        }
    }
}

/// A poll that finds nothing moves nothing.
pub proof fn an_empty_poll_moves_no_watermark(cursors: Map<Seq<char>, Seq<char>>, f: FrontV)
    ensures
        cursors_after(cursors, f, Seq::empty()) == cursors,
{
}

/// A duty remembers where it was under its own id, or under the key that it names, and tells its
/// sensor by the variable that it names.
pub proof fn a_duty_remembers_under_its_key(f: FrontV)
    ensures
        f.cursor is None ==> cursor_of(f) is None,
        f.cursor matches Some(c) ==> {
            &&& cursor_of(f) is Some
            &&& c.key is None ==> cursor_of(f) == Some((f.id, c.env))
            &&& c.key is Some ==> cursor_of(f) == Some((c.key->0, c.env))
        },
{
}

/// A sensor sees the forwarded variables and over them its secrets; and over both, in the variable
/// that its duty names, where it was the last time.
pub proof fn a_sensor_sees_its_secrets_and_its_mark(
    base: Map<Seq<char>, Seq<char>>,
    secrets: Map<Seq<char>, Seq<char>>,
    variable: Option<Seq<char>>,
    since: Option<Seq<char>>,
    v: Seq<char>,
)
    ensures
        ({
            let m = sensor_sees(base, secrets, variable, since);
            let marked = variable == Some(v) && since is Some;
            &&& marked ==> m.contains_key(v) && m[v] == since->0
            &&& !marked && secrets.contains_key(v) ==> m.contains_key(v) && m[v] == secrets[v]
            &&& !marked && !secrets.contains_key(v) ==> (m.contains_key(v) <==> base.contains_key(
                v,
            )) && (base.contains_key(v) ==> m[v] == base[v])
        }),
{
}

/// What fires by the clock carries nothing; what fires by a request carries the request's body: as
/// a document where it is one, as a text where it is none, and nothing where it is blank.
pub proof fn a_request_carries_its_body(
    path: Seq<char>,
    schedule: Seq<char>,
    body: Seq<char>,
    v: serde_json::Value,
)
    ensures
        carried(TriggerV::Cron(schedule), body) == JsonV::Object(Seq::empty()),
        trimmed(body).len() == 0 ==> carried(TriggerV::Webhook(path), body) == JsonV::Object(
            Seq::empty(),
        ),
        trimmed(body).len() > 0 && json_read(body) == Ok::<_, serde_json::Error>(v) ==> carried(
            TriggerV::Webhook(path),
            body,
        ) == value_tree(v),
        trimmed(body).len() > 0 && json_read(body) is Err ==> carried(
            TriggerV::Webhook(path),
            body,
        ) == JsonV::Str(body),
{
}

/// A duty without a sensor makes its stimulus of what fired it: of the type that it emits, with no
/// claim of trust, and folded by the field that it names where that holds a text or a number.
pub proof fn a_fire_is_its_own_candidate(f: FrontV, body: Seq<char>, s: Seq<char>)
    ensures
        ({
            let c = direct_candidate(f, body);
            let key = if f.coalesce is Some {
                f.coalesce->0.dedup_key
            } else {
                None
            };
            &&& c.type_ == f.emits
            &&& c.payload == carried(f.trigger, body)
            &&& c.payload_tier is None
            &&& key is None ==> c.dedup_key is None
            &&& key matches Some(k) ==> {
                &&& field(c.payload, k) == Some(JsonV::Str(s)) ==> c.dedup_key == Some(s)
                &&& field(c.payload, k) is None ==> c.dedup_key is None
                &&& field(c.payload, k) matches Some(JsonV::Number(n)) ==> c.dedup_key == Some(
                    number_text(n),
                )
            }
        }),
{
}

/// What the clock fires is the agent's own, and what a request fires is as trusted as the operator
/// says of its path, or of the outside world.
pub proof fn trust_starts_where_a_fire_comes_from(
    l: Seq<TierV>,
    c: DackConfig,
    f: FrontV,
    path: Seq<char>,
)
    ensures
        f.trigger is Cron ==> seed_of(l, c, f, None) == "self"@,
        f.trigger == TriggerV::Webhook(path) && c.webhooks@.contains_key(path) ==> seed_of(
            l,
            c,
            f,
            None,
        ) == c.webhooks@[path]@,
        f.trigger == TriggerV::Webhook(path) && !c.webhooks@.contains_key(path) ==> seed_of(
            l,
            c,
            f,
            None,
        ) == "public"@,
{
}

proof fn secrets_lower(
    l: Seq<TierV>,
    c: DackConfig,
    start: Seq<char>,
    secrets: Seq<Seq<char>>,
)
    ensures
        ({
            let t = lowered_by(l, c, start, secrets);
            &&& tier_rank(l, t) <= tier_rank(l, start)
            &&& forall|i: int|
                0 <= i < secrets.len() ==> tier_rank(l, t) <= tier_rank(
                    l,
                    provider_trust(c.secrets_providers@, #[trigger] secrets[i])@,
                )
            &&& t == start || exists|i: int|
                0 <= i < secrets.len() && t == provider_trust(
                    c.secrets_providers@,
                    #[trigger] secrets[i],
                )@
        }),
    decreases secrets.len(),
{
    if secrets.len() > 0 {
        let init = secrets.drop_last();
        secrets_lower(l, c, start, init);
        let t0 = lowered_by(l, c, start, init);
        let t = lowered_by(l, c, start, secrets);
        let n = secrets.len() - 1;
        assert(secrets[n] == secrets.last());
        assert forall|i: int| 0 <= i < secrets.len() implies tier_rank(l, t) <= tier_rank(
            l,
            provider_trust(c.secrets_providers@, #[trigger] secrets[i])@,
        ) by {
            if i < n {
                assert(init[i] == secrets[i]);
            }
        }
        if t == t0 && t0 != start {
            let i = choose|i: int|
                0 <= i < init.len() && t0 == provider_trust(
                    c.secrets_providers@,
                    #[trigger] init[i],
                )@;
            assert(secrets[i] == init[i]);
        }
        if t != t0 {
            assert(t == provider_trust(c.secrets_providers@, secrets[n])@);
        }
    }
}

/// A script and the secrets that it is given only lower the trust of what it finds: to that of the
/// place it fired from, of its own signature, and of every provider, whichever is lowest. A script
/// that nobody signed is of the outside world.
pub proof fn a_script_and_its_secrets_only_lower_trust(
    l: Seq<TierV>,
    c: DackConfig,
    f: FrontV,
    source: Seq<u8>,
    i: int,
)
    ensures
        ({
            let seed = seed_of(l, c, f, Some(source));
            let from = seed_of(l, c, f, None);
            let signed = if c.signed_scripts@.contains_key(hex(sha256(source))) {
                c.signed_scripts@[hex(sha256(source))]@
            } else {
                "public"@
            };
            &&& tier_rank(l, seed) <= tier_rank(l, from)
            &&& tier_rank(l, seed) <= tier_rank(l, signed)
            &&& 0 <= i < f.secrets.len() ==> tier_rank(l, seed) <= tier_rank(
                l,
                provider_trust(c.secrets_providers@, f.secrets[i])@,
            )
            &&& seed == from || seed == signed || exists|k: int|
                0 <= k < f.secrets.len() && seed == provider_trust(
                    c.secrets_providers@,
                    #[trigger] f.secrets[k],
                )@
        }),
{
    let signed = trust_or_public(c.signed_scripts@, hex(sha256(source)))@;
    secrets_lower(l, c, tier_meet(l, origin(c, f.trigger), signed), f.secrets);
}

/// Of two marks that are numbers the greater is the newer; of others the one that sorts behind.
pub proof fn marks_are_numbers_where_they_can_be(a: Seq<char>, b: Seq<char>, x: nat, y: nat)
    ensures
        read_nat(a) == Some(x) && read_nat(b) == Some(y) && x <= u128::MAX && y <= u128::MAX ==> (
        newer(a, b) <==> x > y),
        read_nat(a) is None ==> (newer(a, b) <==> text_lt(b, a)),
        read_nat(b) is None ==> (newer(a, b) <==> text_lt(b, a)),
        read_nat(a) == Some(x) && x > u128::MAX ==> (newer(a, b) <==> text_lt(b, a)),
        read_nat(b) == Some(y) && y > u128::MAX ==> (newer(a, b) <==> text_lt(b, a)),
{
}

/// A watermark is one of the marks that were found, and there is one wherever a mark was.
pub proof fn a_watermark_is_one_of_the_marks(c: Seq<CandidateV>, key: Seq<char>, i: int)
    ensures
        newest(c, key) is Some ==> exists|k: int|
            0 <= k < c.len() && mark_in((#[trigger] c[k]).payload, key) == newest(c, key),
        0 <= i < c.len() && mark_in(c[i].payload, key) is Some ==> newest(c, key) is Some,
    decreases c.len(),
{
    if c.len() > 0 {
        let init = c.drop_last();
        a_watermark_is_one_of_the_marks(init, key, i);
        assert(c[c.len() - 1] == c.last());
        if i < init.len() && 0 <= i {
            assert(init[i] == c[i]);
        }
        if newest(c, key) is Some && newest(c, key) == newest(init, key) {
            let k = choose|k: int|
                0 <= k < init.len() && mark_in((#[trigger] init[k]).payload, key) == newest(
                    init,
                    key,
                );
            assert(c[k] == init[k]);
        }
    }
}

/// No mark that was found, where none is a number, sorts behind the watermark.
pub proof fn a_watermark_of_words_passes_all(c: Seq<CandidateV>, key: Seq<char>, i: int)
    requires
        0 <= i < c.len(),
        forall|k: int|
            0 <= k < c.len() ==> mark_in((#[trigger] c[k]).payload, key) is Some && read_nat(
                mark_in(c[k].payload, key)->0,
            ) is None,
    ensures
        newest(c, key) is Some,
        read_nat(newest(c, key)->0) is None,
        !text_lt(newest(c, key)->0, mark_in(c[i].payload, key)->0),
    decreases c.len(),
{
    let init = c.drop_last();
    let n = c.len() - 1;
    assert(c[n] == c.last());
    let v = mark_in(c[n].payload, key)->0;
    text_lt_irreflexive(v);
    if init.len() > 0 {
        assert forall|k: int| 0 <= k < init.len() implies mark_in(
            (#[trigger] init[k]).payload,
            key,
        ) is Some && read_nat(mark_in(init[k].payload, key)->0) is None by {
            assert(init[k] == c[k]);
        }
        let j = if i < n {
            i
        } else {
            0
        };
        a_watermark_of_words_passes_all(init, key, j);
        assert(init[j] == c[j]);
        let b = newest(init, key)->0;
        let m = mark_in(c[i].payload, key)->0;
        if i < n && newer(v, b) && text_lt(v, m) {
            text_lt_transitive(b, v, m);
        }
    }
}

/// A poll that found a mark moves its own cursor there, and no other.
pub proof fn a_poll_moves_its_own_cursor(
    cursors: Map<Seq<char>, Seq<char>>,
    f: FrontV,
    c: Seq<CandidateV>,
    k: Seq<char>,
)
    ensures
        ({
            let after = cursors_after(cursors, f, c);
            let own = if f.cursor is Some && f.cursor->0.key is Some {
                f.cursor->0.key->0
            } else {
                f.id
            };
            &&& f.cursor is None ==> after == cursors
            &&& f.cursor is Some && newest(c, f.cursor->0.field) is Some ==> after.contains_key(own)
                && after[own] == newest(c, f.cursor->0.field)->0
            &&& k != own ==> (after.contains_key(k) <==> cursors.contains_key(k)) && (
            cursors.contains_key(k) ==> after[k] == cursors[k])
        }),
{
}

} // verus!
