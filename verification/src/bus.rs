//! From candidates to rows: normalize, clamp trust, coalesce, enqueue.
//!
//! The bus holds no intelligence. A sensor can lower the trust of what it found and never
//! raise it; the duty's own front matter decides priority, folding and the second before
//! which a row is not handed out.

use vstd::prelude::*;

use crate::config::{
    tier_meet, tier_rank, CoalesceMode, CoalescePolicy, DackConfig, TierV, TrustLattice,
};
use crate::decode::FromTree;
use crate::json::{
    field, fields_view, find_field, in_name_order, plain, plain_within_more, set_field, with_field,
    with_field_keeps_order, Json, JsonV,
};
use crate::model::stimulus::{
    Priority, Stimulus, StimulusId, StimulusStatus, StimulusV, TrustTier,
};
use crate::queue::{
    a_row_is_found_by_its_id, foldable, folded_in, ids_differ, row_index, row_index_names_a_row,
    rows_view, status_set, InMemoryQueue,
};
use crate::sensor::{candidates_view, CandidateV, SensorCandidate};
use crate::stimuli::{
    a_window_opens_within_a_day, opens_at, window_lies_in_a_day, window_minutes, CoalesceV, DefV,
    DispatchWindow, FrontV, StimulusDef,
};
use crate::text::{i64_text, int_text, nat_text, owned, u64_text};

verus! {

/// The bus: the lattice by which trust is clamped, and the queue.
#[derive(Debug)]
pub struct Bus {
    pub lattice: TrustLattice,
    pub queue: InMemoryQueue,
}

// ── Folding ─────────────────────────────────────────────────────────────────────────────

/// A payload that stands for several.
pub open spec fn is_folded(t: JsonV) -> bool {
    field(t, "_coalesced"@) == Some(JsonV::Bool(true))
}

/// Everything that an accumulator stands for, after one more payload.
pub open spec fn folded_items(existing: JsonV, new: JsonV) -> Seq<JsonV> {
    if is_folded(existing) {
        match field(existing, "items"@) {
            Some(JsonV::Array(items)) => items.push(new),
            _ => seq![new],
        }
    } else {
        seq![existing, new]
    }
}

/// The fields that a payload shows at the top.
pub open spec fn top_fields(t: JsonV) -> Seq<(Seq<char>, JsonV)> {
    match t {
        JsonV::Object(f) => f,
        _ => seq![("value"@, t)],
    }
}

/// An accumulator after one more payload: the fields of the newest on top, the whole batch
/// in `items`.
pub open spec fn merged(existing: JsonV, new: JsonV) -> JsonV {
    JsonV::Object(
        with_field(
            with_field(top_fields(new), "_coalesced"@, JsonV::Bool(true)),
            "items"@,
            JsonV::Array(folded_items(existing, new)),
        ),
    )
}

/// Folds a payload into an accumulator.
pub fn merge_batch(existing: &Json, new: &Json) -> (r: Json)
    ensures
        r@ == merged(existing@, new@),
{
    let mut out: Vec<(String, Json)> = Vec::new();
    match new {
        Json::Object(m) => {
            let mut i: usize = 0;
            while i < m.len()
                invariant
                    i <= m@.len(),
                    out@.len() == i,
                    forall|k: int|
                        0 <= k < i ==> (#[trigger] out@[k]).0@ == m@[k].0@ && out@[k].1@
                            == m@[k].1@,
                decreases m@.len() - i,
            {
                out.push((m[i].0.clone(), m[i].1.clone()));
                i += 1;
            }
        },
        other => {
            out.push((owned("value"), other.clone()));
        },
    }
    assert(fields_view(out@) =~= top_fields(new@));
    let folded = match existing.get("_coalesced") {
        Some(Json::Bool(b)) => *b,
        _ => false,
    };
    let mut items: Vec<Json> = Vec::new();
    if folded {
        match existing.get("items") {
            Some(x) => match x.as_array() {
                Some(v) => {
                    let mut i: usize = 0;
                    while i < v.len()
                        invariant
                            i <= v@.len(),
                            items@.len() == i,
                            forall|k: int| 0 <= k < i ==> (#[trigger] items@[k])@ == v@[k]@,
                        decreases v@.len() - i,
                    {
                        items.push(v[i].clone());
                        i += 1;
                    }
                },
                None => {},
            },
            None => {},
        }
        items.push(new.clone());
    } else {
        items.push(existing.clone());
        items.push(new.clone());
    }
    let list = Json::Array(items);
    assert(list@->Array_0 =~= folded_items(existing@, new@));
    set_field(&mut out, "_coalesced", Json::Bool(true));
    set_field(&mut out, "items", list);
    Json::object(out)
}

// ── One candidate ───────────────────────────────────────────────────────────────────────

/// The tier of a candidate: what the sensor claims, clamped down to where it came from.
pub open spec fn clamped(l: Seq<TierV>, claim: Option<Seq<char>>, seed: Seq<char>) -> Seq<char> {
    match claim {
        Some(c) => tier_meet(l, c, seed),
        None => seed,
    }
}

/// A row is recent enough to fold into.
pub open spec fn recent(s: StimulusV, at: i64, window_sec: Option<u64>) -> bool {
    window_sec is Some ==> at - s.received_at <= window_sec->0
}

/// The rows that a candidate can fold into.
pub open spec fn fold_targets(
    rows: Seq<StimulusV>,
    type_: Seq<char>,
    key: Seq<char>,
    at: i64,
    window_sec: Option<u64>,
) -> Seq<StimulusV> {
    rows.filter(|s: StimulusV| foldable(s, type_, key)).filter(
        |s: StimulusV| recent(s, at, window_sec),
    )
}

/// The oldest of some rows, and the first of those that are equally old.
pub open spec fn oldest(v: Seq<StimulusV>) -> StimulusV
    recommends
        v.len() > 0,
    decreases v.len(),
{
    if v.len() <= 1 {
        v[0]
    } else {
        let o = oldest(v.drop_last());
        if v.last().received_at < o.received_at {
            v.last()
        } else {
            o
        }
    }
}

/// The rows after each of `gone` was marked as folded away.
pub open spec fn superseded(rows: Seq<StimulusV>, gone: Seq<StimulusV>) -> Seq<StimulusV>
    decreases gone.len(),
{
    if gone.len() == 0 {
        rows
    } else {
        status_set(superseded(rows, gone.drop_last()), gone.last().id, StimulusStatus::Coalesced)
    }
}

/// The second until which a new accumulator gathers.
pub open spec fn debounce_until(p: Option<CoalesceV>, at: i64) -> Option<int> {
    match p {
        Some(p) => if p.mode == CoalesceMode::Batch && p.window_sec is Some && p.window_sec->0
            > 0 {
            Some(at + p.window_sec->0)
        } else {
            None
        },
        None => None,
    }
}

/// The second at which the duty's window opens, where it is closed now.
pub open spec fn window_until(w: Option<Seq<char>>, at: i64) -> Option<int> {
    match w {
        Some(s) => match window_minutes(s) {
            Some((a, b)) => if opens_at(a, b, at as int) > at {
                Some(opens_at(a, b, at as int))
            } else {
                None
            },
            None => None,
        },
        None => None,
    }
}

/// The later of two gates.
pub open spec fn later(a: Option<int>, b: Option<int>) -> Option<int> {
    match (a, b) {
        (Some(x), Some(y)) => Some(if x >= y {
            x
        } else {
            y
        }),
        (Some(x), None) => Some(x),
        (None, y) => y,
    }
}

/// The second before which a new row of this duty is not handed out.
pub open spec fn gate_of(f: FrontV, at: i64) -> Option<int> {
    later(debounce_until(f.coalesce, at), window_until(f.dispatch_window, at))
}

/// The id of the `i`-th candidate of a fire.
pub open spec fn row_id(duty: Seq<char>, at: i64, i: nat) -> Seq<char> {
    duty + "-"@ + int_text(at as int) + "-"@ + nat_text(i)
}

/// The row that a candidate becomes.
pub open spec fn minted(
    l: Seq<TierV>,
    d: DefV,
    c: CandidateV,
    i: nat,
    at: i64,
    seed: Seq<char>,
) -> StimulusV {
    StimulusV {
        id: row_id(d.front.id, at, i),
        source: d.front.id,
        type_: c.type_,
        directive_tier: d.front.directive_tier,
        payload_tier: clamped(l, c.payload_tier, seed),
        payload: c.payload,
        provenance: None,
        received_at: at,
        dedup_key: c.dedup_key,
        pop_after: match gate_of(d.front, at) {
            Some(t) => Some(t as i64),
            None => None,
        },
        priority: match d.front.priority {
            Some(p) => p,
            None => Priority::Low,
        },
        status: StimulusStatus::Pending,
        directive_body: d.body,
        entry: d.front.entry,
        baton: None,
    }
}

/// What becomes of one candidate.
pub enum Fate {
    /// It folds into the row with this id, whose payload becomes this one.
    Folded(Seq<char>, JsonV),
    /// It becomes a row; the given rows are superseded by it.
    Fresh(Seq<StimulusV>),
}

/// What the duty's policy makes of a candidate.
pub open spec fn fate_of(
    p: Option<CoalesceV>,
    c: CandidateV,
    at: i64,
    rows: Seq<StimulusV>,
) -> Fate {
    match (p, c.dedup_key) {
        (Some(p), Some(key)) => {
            let targets = fold_targets(rows, c.type_, key, at, p.window_sec);
            match p.mode {
                CoalesceMode::Never => Fate::Fresh(Seq::empty()),
                CoalesceMode::Latest => Fate::Fresh(targets),
                CoalesceMode::Batch => if targets.len() > 0 {
                    Fate::Folded(
                        oldest(targets).id,
                        merged(oldest(targets).payload, c.payload),
                    )
                } else {
                    Fate::Fresh(Seq::empty())
                },
            }
        },
        _ => Fate::Fresh(Seq::empty()),
    }
}

/// The queue, and the ids of new rows, after one more candidate.
pub open spec fn absorbed(
    q: (Seq<StimulusV>, Seq<Seq<char>>),
    l: Seq<TierV>,
    d: DefV,
    c: CandidateV,
    i: nat,
    at: i64,
    seed: Seq<char>,
) -> (Seq<StimulusV>, Seq<Seq<char>>) {
    match fate_of(d.front.coalesce, c, at, q.0) {
        Fate::Folded(id, payload) => (
            folded_in(q.0, l, id, payload, clamped(l, c.payload_tier, seed)),
            q.1,
        ),
        Fate::Fresh(gone) => (
            superseded(q.0, gone).push(minted(l, d, c, i, at, seed)),
            q.1.push(row_id(d.front.id, at, i)),
        ),
    }
}

/// The queue, and the ids of new rows, after all candidates of a fire.
pub open spec fn ingested(
    rows: Seq<StimulusV>,
    l: Seq<TierV>,
    d: DefV,
    c: Seq<CandidateV>,
    at: i64,
    seed: Seq<char>,
) -> (Seq<StimulusV>, Seq<Seq<char>>)
    decreases c.len(),
{
    if c.len() == 0 {
        (rows, Seq::empty())
    } else {
        absorbed(
            ingested(rows, l, d, c.drop_last(), at, seed),
            l,
            d,
            c.last(),
            (c.len() - 1) as nat,
            at,
            seed,
        )
    }
}

/// A second at which the gates of a duty can be reckoned in 64 bits.
pub open spec fn reckonable(f: FrontV, at: i64) -> bool {
    &&& i64::MIN + 86400 <= at <= i64::MAX - 86400
    &&& f.coalesce is Some && f.coalesce->0.window_sec is Some ==> at
        + f.coalesce->0.window_sec->0 <= i64::MAX
}

/// Whether the gates of a duty can be reckoned in 64 bits at this second.
pub fn can_reckon(def: &StimulusDef, at: i64) -> (r: bool)
    ensures
        r == reckonable(def@.front, at),
{
    if at < i64::MIN + 86400 || at > i64::MAX - 86400 {
        return false;
    }
    match &def.frontmatter.coalesce {
        Some(p) => match p.window_sec {
            Some(w) => at as i128 + w as i128 <= i64::MAX as i128,
            None => true,
        },
        None => true,
    }
}

fn debounce_gate(p: &Option<CoalescePolicy>, at: i64) -> (r: Option<i64>)
    requires
        p is Some && p->0.window_sec is Some ==> at + p->0.window_sec->0 <= i64::MAX,
    ensures
        match r {
            Some(t) => debounce_until(crate::decode::opt_model(*p), at) == Some(t as int),
            None => debounce_until(crate::decode::opt_model(*p), at) is None,
        },
{
    match p {
        Some(p) => match p.window_sec {
            Some(w) => if p.mode == CoalesceMode::Batch && w > 0 {
                Some((at as i128 + w as i128) as i64)
            } else {
                None
            },
            None => None,
        },
        None => None,
    }
}

fn window_gate(w: &Option<String>, at: i64) -> (r: Option<i64>)
    requires
        i64::MIN + 86400 <= at <= i64::MAX - 86400,
    ensures
        match r {
            Some(t) => window_until(w.deep_view(), at) == Some(t as int),
            None => window_until(w.deep_view(), at) is None,
        },
{
    match w {
        Some(s) => match DispatchWindow::parse(s.as_str()) {
            Some(win) => {
                let t: i64 = win.next_open(at);
                if t > at {
                    Some(t)
                } else {
                    None
                }
            },
            None => None,
        },
        None => None,
    }
}

fn gate(def: &StimulusDef, at: i64) -> (r: Option<i64>)
    requires
        reckonable(def@.front, at),
    ensures
        match r {
            Some(t) => gate_of(def@.front, at) == Some(t as int),
            None => gate_of(def@.front, at) is None,
        },
{
    let a: Option<i64> = debounce_gate(&def.frontmatter.coalesce, at);
    let b: Option<i64> = window_gate(&def.frontmatter.dispatch_window, at);
    match (a, b) {
        (Some(x), Some(y)) => if x >= y {
            Some(x)
        } else {
            Some(y)
        },
        (Some(x), None) => Some(x),
        (None, y) => y,
    }
}

fn make_row_id(duty: &str, at: i64, i: usize) -> (r: String)
    ensures
        r@ == row_id(duty@, at, i as nat),
{
    let mut out = owned(duty);
    out.append("-");
    out.append(i64_text(at).as_str());
    out.append("-");
    out.append(u64_text(i as u64).as_str());
    out
}

fn pick_oldest(v: &Vec<Stimulus>) -> (r: usize)
    requires
        v@.len() > 0,
    ensures
        r < v@.len(),
        v@[r as int]@ == oldest(rows_view(v@)),
{
    let ghost all = rows_view(v@);
    let mut best: usize = 0;
    let mut i: usize = 1;
    assert(all.take(1).len() == 1);
    while i < v.len()
        invariant
            1 <= i <= v@.len(),
            best < i,
            all == rows_view(v@),
            v@[best as int]@ == oldest(all.take(i as int)),
        decreases v@.len() - i,
    {
        proof {
            assert(all.take(i + 1).drop_last() =~= all.take(i as int));
            assert(all.take(i + 1).last() == v@[i as int]@);
        }
        if v[i].received_at < v[best].received_at {
            best = i;
        }
        i += 1;
    }
    assert(all.take(i as int) =~= all);
    best
}

impl Bus {
    /// A bus over a queue, with the lattice of a configuration.
    pub fn new(config: &DackConfig, queue: InMemoryQueue) -> (r: Bus)
        ensures
            r.lattice@ == config.trust_tiers.deep_view(),
            r.queue == queue,
    {
        Bus { lattice: config.lattice(), queue }
    }

    /// The rows that a candidate can fold into.
    fn within_window(&self, type_: &str, key: &str, at: i64, window_sec: Option<u64>) -> (r: Vec<
        Stimulus,
    >)
        ensures
            rows_view(r@) == fold_targets(self.queue@, type_@, key@, at, window_sec),
    {
        let rows = self.queue.find_coalescable(type_, key);
        let ghost all = rows_view(rows@);
        let ghost p = |s: StimulusV| recent(s, at, window_sec);
        let mut out: Vec<Stimulus> = Vec::new();
        let mut i: usize = 0;
        assert(all.take(0) =~= Seq::empty());
        assert(rows_view(out@) =~= all.take(0).filter(p)) by {
            reveal(Seq::filter);
        }
        while i < rows.len()
            invariant
                i <= rows@.len(),
                all == rows_view(rows@),
                p == (|s: StimulusV| recent(s, at, window_sec)),
                rows_view(out@) == all.take(i as int).filter(p),
            decreases rows@.len() - i,
        {
            proof {
                assert(all.take(i + 1).drop_last() =~= all.take(i as int));
                assert(all.take(i + 1).last() == rows@[i as int]@);
                reveal(Seq::filter);
            }
            let ghost o = out@;
            let fits = match window_sec {
                Some(w) => at as i128 - rows[i].received_at as i128 <= w as i128,
                None => true,
            };
            if fits {
                let c = rows[i].clone();
                let ghost v = c@;
                out.push(c);
                assert(rows_view(out@) =~= rows_view(o).push(v));
            }
            i += 1;
        }
        assert(all.take(i as int) =~= all);
        out
    }

    fn supersede(&mut self, gone: &Vec<Stimulus>)
        ensures
            final(self).queue@ == superseded(old(self).queue@, rows_view(gone@)),
            final(self).queue.cursors == old(self).queue.cursors,
            final(self).lattice == old(self).lattice,
    {
        let ghost all = rows_view(gone@);
        let ghost start = self.queue@;
        let mut i: usize = 0;
        assert(all.take(0) =~= Seq::empty());
        while i < gone.len()
            invariant
                i <= gone@.len(),
                all == rows_view(gone@),
                self.queue@ == superseded(start, all.take(i as int)),
                self.queue.cursors == old(self).queue.cursors,
                self.lattice == old(self).lattice,
            decreases gone@.len() - i,
        {
            proof {
                assert(all.take(i + 1).drop_last() =~= all.take(i as int));
                assert(all.take(i + 1).last() == gone@[i as int]@);
            }
            self.queue.update_status(&gone[i].id, StimulusStatus::Coalesced);
            i += 1;
        }
        assert(all.take(i as int) =~= all);
    }

    /// Applies the duty's policy to a candidate of this tier. Tells whether the candidate folded
    /// away; the row that it folded into is then trusted no more than the candidate.
    fn coalesce(&mut self, def: &StimulusDef, c: &SensorCandidate, tier: &TrustTier, at: i64) -> (r:
        bool)
        ensures
            match fate_of(def@.front.coalesce, c.model(), at, old(self).queue@) {
                Fate::Folded(id, payload) => r && final(self).queue@ == folded_in(
                    old(self).queue@,
                    old(self).lattice@,
                    id,
                    payload,
                    tier@,
                ),
                Fate::Fresh(gone) => !r && final(self).queue@ == superseded(
                    old(self).queue@,
                    gone,
                ),
            },
            final(self).queue.cursors == old(self).queue.cursors,
            final(self).lattice == old(self).lattice,
    {
        match (&def.frontmatter.coalesce, &c.dedup_key) {
            (Some(p), Some(key)) => match p.mode {
                CoalesceMode::Never => false,
                CoalesceMode::Latest => {
                    let gone = self.within_window(
                        c.type_.0.as_str(),
                        key.as_str(),
                        at,
                        p.window_sec,
                    );
                    self.supersede(&gone);
                    false
                },
                CoalesceMode::Batch => {
                    let targets = self.within_window(
                        c.type_.0.as_str(),
                        key.as_str(),
                        at,
                        p.window_sec,
                    );
                    assert(rows_view(targets@).len() == targets@.len());
                    if targets.len() == 0 {
                        return false;
                    }
                    let k: usize = pick_oldest(&targets);
                    let payload = merge_batch(&targets[k].payload, &c.payload);
                    self.queue.fold(&self.lattice, &targets[k].id, payload, tier);
                    true
                },
            },
            _ => false,
        }
    }

    /// Turns the candidates of one fire into rows. Returns the ids of the new rows: a
    /// candidate that folds into an accumulator wakes nobody.
    pub fn ingest(
        &mut self,
        def: &StimulusDef,
        candidates: &Vec<SensorCandidate>,
        received_at: i64,
        payload_seed: &TrustTier,
    ) -> (r: Vec<StimulusId>)
        requires
            reckonable(def@.front, received_at),
        ensures
            (final(self).queue@, r.deep_view()) == ingested(
                old(self).queue@,
                old(self).lattice@,
                def@,
                candidates_view(candidates@),
                received_at,
                payload_seed@,
            ),
            final(self).queue.cursors == old(self).queue.cursors,
            final(self).lattice == old(self).lattice,
    {
        let ghost c = candidates_view(candidates@);
        let ghost l = self.lattice@;
        let ghost start = self.queue@;
        let mut ids: Vec<StimulusId> = Vec::new();
        let mut i: usize = 0;
        assert(c.take(0) =~= Seq::empty());
        assert(ids.deep_view() =~= Seq::empty());
        while i < candidates.len()
            invariant
                i <= candidates@.len(),
                c == candidates_view(candidates@),
                l == self.lattice@,
                reckonable(def@.front, received_at),
                (self.queue@, ids.deep_view()) == ingested(
                    start,
                    l,
                    def@,
                    c.take(i as int),
                    received_at,
                    payload_seed@,
                ),
                self.queue.cursors == old(self).queue.cursors,
                self.lattice == old(self).lattice,
            decreases candidates@.len() - i,
        {
            proof {
                assert(c.take(i + 1).drop_last() =~= c.take(i as int));
                assert(c.take(i + 1).last() == candidates@[i as int].model());
            }
            let ghost before = ids.deep_view();
            let cand = &candidates[i];
            let payload_tier = match &cand.payload_tier {
                Some(t) => self.lattice.meet(t, payload_seed),
                None => payload_seed.clone(),
            };
            if !self.coalesce(def, cand, &payload_tier, received_at) {
                let f = &def.frontmatter;
                let id = make_row_id(f.id.as_str(), received_at, i);
                let ghost idv = id@;
                let row = Stimulus {
                    id: StimulusId(id.clone()),
                    source: f.id.clone(),
                    type_: cand.type_.clone(),
                    directive_tier: f.directive_tier.clone(),
                    payload_tier,
                    payload: cand.payload.clone(),
                    provenance: None,
                    received_at,
                    dedup_key: crate::text::owned_opt(&cand.dedup_key),
                    pop_after: gate(def, received_at),
                    priority: match f.priority {
                        Some(p) => p,
                        None => Priority::Low,
                    },
                    status: StimulusStatus::Pending,
                    directive_body: def.directive_body.clone(),
                    entry: f.entry.clone(),
                    baton: None,
                };
                assert(row@ == minted(
                    l,
                    def@,
                    cand.model(),
                    i as nat,
                    received_at,
                    payload_seed@,
                ));
                self.queue.enqueue(row);
                ids.push(StimulusId(id));
                assert(ids.deep_view() =~= before.push(idv));
            }
            i += 1;
        }
        assert(c.take(i as int) =~= c);
        ids
    }
}

// ── Laws ────────────────────────────────────────────────────────────────────────────────

/// A sensor only ever lowers trust: whatever it claims, the tier of its rows ranks no higher
/// than the tier of where it came from.
pub proof fn a_sensor_never_raises_trust(l: Seq<TierV>, claim: Option<Seq<char>>, seed: Seq<char>)
    ensures
        tier_rank(l, clamped(l, claim, seed)) <= tier_rank(l, seed),
{
}

/// A folded payload keeps every payload that went into it, in order, and shows the fields of
/// the newest.
pub proof fn a_fold_loses_nothing(existing: JsonV, new: JsonV, key: Seq<char>)
    requires
        key != "_coalesced"@,
        key != "items"@,
    ensures
        field(merged(existing, new), "items"@) == Some(
            JsonV::Array(folded_items(existing, new)),
        ),
        is_folded(merged(existing, new)),
        folded_items(existing, new).last() == new,
        new is Object ==> field(merged(existing, new), key) == field(new, key),
        is_folded(existing) && field(existing, "items"@) is Some && field(
            existing,
            "items"@,
        )->0 is Array ==> field(existing, "items"@)->0->Array_0.is_prefix_of(
            folded_items(existing, new),
        ),
        !is_folded(existing) ==> folded_items(existing, new)[0] == existing,
{
    reveal_strlit("_coalesced");
    reveal_strlit("items");
    let a = with_field(top_fields(new), "_coalesced"@, JsonV::Bool(true));
    crate::json::with_field_reads_back(top_fields(new), "_coalesced"@, JsonV::Bool(true), key);
    crate::json::with_field_reads_back(
        a,
        "items"@,
        JsonV::Array(folded_items(existing, new)),
        key,
    );
    crate::json::with_field_reads_back(
        a,
        "items"@,
        JsonV::Array(folded_items(existing, new)),
        "_coalesced"@,
    );
    assert("items"@.len() != "_coalesced"@.len());
}

/// A fold wakes nobody: the number of rows, and every row's priority, age and place, stay.
pub proof fn a_fold_keeps_the_queue(
    rows: Seq<StimulusV>,
    l: Seq<TierV>,
    id: Seq<char>,
    payload: JsonV,
    tier: Seq<char>,
    i: int,
)
    requires
        0 <= i < rows.len(),
    ensures
        folded_in(rows, l, id, payload, tier).len() == rows.len(),
        folded_in(rows, l, id, payload, tier)[i] == (StimulusV {
            payload: folded_in(rows, l, id, payload, tier)[i].payload,
            payload_tier: folded_in(rows, l, id, payload, tier)[i].payload_tier,
            ..rows[i]
        }),
{
    row_index_names_a_row(rows, id);
}

/// What folds in takes its trust with it: the row ranks no higher than it did, and no higher than
/// what was folded into it.
pub proof fn a_fold_never_raises_trust(
    rows: Seq<StimulusV>,
    l: Seq<TierV>,
    id: Seq<char>,
    payload: JsonV,
    tier: Seq<char>,
    i: int,
)
    requires
        row_index(rows, id) == Some(i),
    ensures
        folded_in(rows, l, id, payload, tier)[i].payload == payload,
        tier_rank(l, folded_in(rows, l, id, payload, tier)[i].payload_tier) <= tier_rank(l, tier),
        tier_rank(l, folded_in(rows, l, id, payload, tier)[i].payload_tier) <= tier_rank(
            l,
            rows[i].payload_tier,
        ),
{
    row_index_names_a_row(rows, id);
}

/// A fire only lowers the trust of the rows that it finds.
pub proof fn a_fire_never_raises_trust(
    rows: Seq<StimulusV>,
    l: Seq<TierV>,
    d: DefV,
    c: Seq<CandidateV>,
    at: i64,
    seed: Seq<char>,
    i: int,
)
    requires
        0 <= i < rows.len(),
    ensures
        i < ingested(rows, l, d, c, at, seed).0.len(),
        ingested(rows, l, d, c, at, seed).0[i].id == rows[i].id,
        tier_rank(l, ingested(rows, l, d, c, at, seed).0[i].payload_tier) <= tier_rank(
            l,
            rows[i].payload_tier,
        ),
    decreases c.len(),
{
    if c.len() > 0 {
        a_fire_never_raises_trust(rows, l, d, c.drop_last(), at, seed, i);
        one_row_per_candidate(rows, l, d, c.drop_last(), at, seed);
        let q = ingested(rows, l, d, c.drop_last(), at, seed).0;
        absorbing_never_raises_trust(q, l, d, c.last(), (c.len() - 1) as nat, at, seed, i);
    }
}

/// Public data never rides on the trust of what it folded into: when a fire is over, the row
/// that a candidate folded into ranks no higher than that candidate, whatever came after it.
pub proof fn a_row_ranks_no_higher_than_its_items(
    rows: Seq<StimulusV>,
    l: Seq<TierV>,
    d: DefV,
    c: Seq<CandidateV>,
    at: i64,
    seed: Seq<char>,
    k: int,
    i: int,
)
    requires
        0 <= k < c.len(),
        fate_of(
            d.front.coalesce,
            c[k],
            at,
            ingested(rows, l, d, c.take(k), at, seed).0,
        ) matches Fate::Folded(id, _) && row_index(
            ingested(rows, l, d, c.take(k), at, seed).0,
            id,
        ) == Some(i),
    ensures
        0 <= i < ingested(rows, l, d, c, at, seed).0.len(),
        tier_rank(l, ingested(rows, l, d, c, at, seed).0[i].payload_tier) <= tier_rank(
            l,
            clamped(l, c[k].payload_tier, seed),
        ),
    decreases c.len(),
{
    let before = ingested(rows, l, d, c.take(k), at, seed).0;
    let id = fate_of(d.front.coalesce, c[k], at, before)->Folded_0;
    row_index_names_a_row(before, id);
    if k == c.len() - 1 {
        assert(c.take(k) =~= c.drop_last());
        assert(c.last() == c[k]);
    } else {
        assert(c.drop_last().take(k) =~= c.take(k));
        assert(c.drop_last()[k] == c[k]);
        a_row_ranks_no_higher_than_its_items(rows, l, d, c.drop_last(), at, seed, k, i);
        let q = ingested(rows, l, d, c.drop_last(), at, seed).0;
        absorbing_never_raises_trust(q, l, d, c.last(), (c.len() - 1) as nat, at, seed, i);
    }
}

proof fn absorbing_never_raises_trust(
    q: Seq<StimulusV>,
    l: Seq<TierV>,
    d: DefV,
    c: CandidateV,
    n: nat,
    at: i64,
    seed: Seq<char>,
    i: int,
)
    requires
        0 <= i < q.len(),
    ensures
        ({
            let after = absorbed((q, Seq::empty()), l, d, c, n, at, seed).0;
            &&& forall|ids: Seq<Seq<char>>| (#[trigger] absorbed((q, ids), l, d, c, n, at, seed)).0
                == after
            &&& i < after.len()
            &&& after[i].id == q[i].id
            &&& tier_rank(l, after[i].payload_tier) <= tier_rank(l, q[i].payload_tier)
        }),
{
    match fate_of(d.front.coalesce, c, at, q) {
        Fate::Folded(id, _) => {
            row_index_names_a_row(q, id);
        },
        Fate::Fresh(gone) => {
            superseding_touches_no_trust(q, gone, i);
        },
    }
}

proof fn superseding_touches_no_trust(rows: Seq<StimulusV>, gone: Seq<StimulusV>, i: int)
    requires
        0 <= i < rows.len(),
    ensures
        superseded(rows, gone).len() == rows.len(),
        superseded(rows, gone)[i].id == rows[i].id,
        superseded(rows, gone)[i].payload_tier == rows[i].payload_tier,
    decreases gone.len(),
{
    if gone.len() > 0 {
        superseding_touches_no_trust(rows, gone.drop_last(), i);
        row_index_names_a_row(superseded(rows, gone.drop_last()), gone.last().id);
    }
}

proof fn an_item_is_plain(existing: JsonV, new: JsonV, depth: nat, i: int)
    requires
        2 <= depth,
        0 <= i < folded_items(existing, new).len(),
        if is_folded(existing) {
            plain(existing, depth)
        } else {
            plain(existing, (depth - 2) as nat)
        },
        plain(new, (depth - 2) as nat),
    ensures
        plain(folded_items(existing, new)[i], (depth - 2) as nat),
{
    if is_folded(existing) {
        match field(existing, "items"@) {
            Some(JsonV::Array(items)) => {
                if i < items.len() {
                    found_fields_are_plain(
                        crate::json::fields_of(existing),
                        "items"@,
                        (depth - 1) as nat,
                    );
                    assert(plain(items[i], (depth - 2) as nat));
                }
            },
            _ => {},
        }
    }
}

proof fn found_fields_are_plain(f: Seq<(Seq<char>, JsonV)>, key: Seq<char>, depth: nat)
    requires
        forall|i: int| 0 <= i < f.len() ==> plain((#[trigger] f[i]).1, depth),
    ensures
        find_field(f, key) is Some ==> plain(find_field(f, key)->0, depth),
    decreases f.len(),
{
    if f.len() > 0 && f[0].0 != key {
        assert forall|i: int| 0 <= i < f.skip(1).len() implies plain(
            (#[trigger] f.skip(1)[i]).1,
            depth,
        ) by {
            assert(f.skip(1)[i] == f[i + 1]);
        }
        found_fields_are_plain(f.skip(1), key, depth);
    }
}

/// What folds together out of plain payloads is plain, so that a row that gathers survives being
/// stored however much it gathers. An accumulator is nested by two levels more than its items.
pub proof fn a_fold_stays_plain(existing: JsonV, new: JsonV, depth: nat)
    requires
        2 <= depth,
        if is_folded(existing) {
            plain(existing, depth)
        } else {
            plain(existing, (depth - 2) as nat)
        },
        plain(new, (depth - 2) as nat),
    ensures
        plain(merged(existing, new), depth),
{
    let f = top_fields(new);
    let items = JsonV::Array(folded_items(existing, new));
    let a = with_field(f, "_coalesced"@, JsonV::Bool(true));
    let b = with_field(a, "items"@, items);
    assert(in_name_order(f));
    assert forall|i: int| 0 <= i < f.len() implies plain((#[trigger] f[i]).1, (depth - 1) as nat) by {
        if new is Object {
            plain_within_more(f[i].1, (depth - 3) as nat, (depth - 1) as nat);
        } else {
            plain_within_more(new, (depth - 2) as nat, (depth - 1) as nat);
        }
    }
    with_field_keeps_order(f, "_coalesced"@, JsonV::Bool(true));
    with_field_keeps_order(a, "items"@, items);
    assert(plain(items, (depth - 1) as nat)) by {
        assert forall|i: int| 0 <= i < folded_items(existing, new).len() implies plain(
            #[trigger] folded_items(existing, new)[i],
            (depth - 2) as nat,
        ) by {
            an_item_is_plain(existing, new, depth, i);
        }
    }
    assert forall|i: int| 0 <= i < b.len() implies plain((#[trigger] b[i]).1, (depth - 1) as nat) by {
        if b[i] != ("items"@, items) {
            assert(a.contains(b[i]));
            let k = choose|k: int| 0 <= k < a.len() && a[k] == b[i];
            if a[k] != ("_coalesced"@, JsonV::Bool(true)) {
                assert(f.contains(a[k]));
                let m = choose|m: int| 0 <= m < f.len() && f[m] == a[k];
                assert(plain(f[m].1, (depth - 1) as nat));
            }
        }
    }
}

/// A fire adds at most one row per candidate, and where folding is off exactly one.
pub proof fn one_row_per_candidate(
    rows: Seq<StimulusV>,
    l: Seq<TierV>,
    d: DefV,
    c: Seq<CandidateV>,
    at: i64,
    seed: Seq<char>,
)
    ensures
        ingested(rows, l, d, c, at, seed).1.len() <= c.len(),
        ingested(rows, l, d, c, at, seed).0.len() == rows.len() + ingested(
            rows,
            l,
            d,
            c,
            at,
            seed,
        ).1.len(),
        d.front.coalesce is None || d.front.coalesce->0.mode == CoalesceMode::Never ==> ingested(
            rows,
            l,
            d,
            c,
            at,
            seed,
        ).1.len() == c.len(),
    decreases c.len(),
{
    if c.len() > 0 {
        one_row_per_candidate(rows, l, d, c.drop_last(), at, seed);
        let q = ingested(rows, l, d, c.drop_last(), at, seed).0;
        match fate_of(d.front.coalesce, c.last(), at, q) {
            Fate::Fresh(gone) => {
                superseded_keeps_len(q, gone);
            },
            Fate::Folded(id, _) => {
                row_index_names_a_row(q, id);
            },
        }
    }
}

/// A row that a candidate of this type and key can fold into at `at`.
pub open spec fn gathers(
    s: StimulusV,
    type_: Seq<char>,
    key: Seq<char>,
    at: i64,
    window_sec: Option<u64>,
) -> bool {
    foldable(s, type_, key) && recent(s, at, window_sec)
}

proof fn some_row_gathers(
    rows: Seq<StimulusV>,
    type_: Seq<char>,
    key: Seq<char>,
    at: i64,
    w: Option<u64>,
)
    ensures
        fold_targets(rows, type_, key, at, w).len() > 0 <==> exists|i: int|
            0 <= i < rows.len() && gathers(#[trigger] rows[i], type_, key, at, w),
    decreases rows.len(),
{
    reveal(Seq::filter);
    let f = |s: StimulusV| foldable(s, type_, key);
    let g = |s: StimulusV| recent(s, at, w);
    if rows.len() > 0 {
        let init = rows.drop_last();
        some_row_gathers(init, type_, key, at, w);
        if f(rows.last()) {
            assert(rows.filter(f) == init.filter(f).push(rows.last()));
            assert(init.filter(f).push(rows.last()).drop_last() =~= init.filter(f));
        } else {
            assert(rows.filter(f) == init.filter(f));
        }
        if gathers(rows.last(), type_, key, at, w) {
            assert(gathers(rows[rows.len() - 1], type_, key, at, w));
        }
        assert forall|i: int| 0 <= i < init.len() implies #[trigger] init[i] == rows[i] by {}
        if exists|i: int| 0 <= i < init.len() && gathers(#[trigger] init[i], type_, key, at, w) {
            let k = choose|i: int|
                0 <= i < init.len() && gathers(#[trigger] init[i], type_, key, at, w);
            assert(gathers(rows[k], type_, key, at, w));
        }
        if exists|i: int| 0 <= i < rows.len() && gathers(#[trigger] rows[i], type_, key, at, w) {
            let k = choose|i: int|
                0 <= i < rows.len() && gathers(#[trigger] rows[i], type_, key, at, w);
            if k < rows.len() - 1 {
                assert(gathers(init[k], type_, key, at, w));
            }
        }
    }
}

/// A burst wakes once: however many candidates of one kind and key a fire brings to a duty
/// that gathers, they make one new row, and none where a row was gathering already. When the
/// fire is over, a row gathers.
pub proof fn a_burst_wakes_once(
    rows: Seq<StimulusV>,
    l: Seq<TierV>,
    d: DefV,
    c: Seq<CandidateV>,
    at: i64,
    seed: Seq<char>,
    type_: Seq<char>,
    key: Seq<char>,
)
    requires
        d.front.coalesce is Some,
        d.front.coalesce->0.mode == CoalesceMode::Batch,
        c.len() > 0,
        forall|i: int|
            0 <= i < c.len() ==> (#[trigger] c[i]).type_ == type_ && c[i].dedup_key == Some(key),
    ensures
        ({
            let w = d.front.coalesce->0.window_sec;
            let q = ingested(rows, l, d, c, at, seed);
            &&& q.1.len() == if fold_targets(rows, type_, key, at, w).len() > 0 {
                0nat
            } else {
                1
            }
            &&& fold_targets(q.0, type_, key, at, w).len() > 0
        }),
    decreases c.len(),
{
    let w = d.front.coalesce->0.window_sec;
    let init = c.drop_last();
    assert(c.last() == c[c.len() - 1]);
    if init.len() > 0 {
        assert forall|i: int| 0 <= i < init.len() implies (#[trigger] init[i]).type_ == type_
            && init[i].dedup_key == Some(key) by {
            assert(init[i] == c[i]);
        }
        a_burst_wakes_once(rows, l, d, init, at, seed, type_, key);
    }
    let q = ingested(rows, l, d, init, at, seed).0;
    let after = ingested(rows, l, d, c, at, seed).0;
    some_row_gathers(q, type_, key, at, w);
    some_row_gathers(after, type_, key, at, w);
    match fate_of(d.front.coalesce, c.last(), at, q) {
        Fate::Fresh(gone) => {
            assert(superseded(q, gone) == q);
            assert(gathers(after[after.len() - 1], type_, key, at, w));
        },
        Fate::Folded(id, _) => {
            row_index_names_a_row(q, id);
            let k = choose|i: int|
                0 <= i < q.len() && gathers(#[trigger] q[i], type_, key, at, w);
            assert(gathers(after[k], type_, key, at, w));
        },
    }
}

proof fn superseded_keeps_len(rows: Seq<StimulusV>, gone: Seq<StimulusV>)
    ensures
        superseded(rows, gone).len() == rows.len(),
    decreases gone.len(),
{
    if gone.len() > 0 {
        superseded_keeps_len(rows, gone.drop_last());
        row_index_names_a_row(superseded(rows, gone.drop_last()), gone.last().id);
    }
}

/// A candidate that claims nothing has the trust of where it came from; one that claims less has
/// what it claims, and one that claims more does not.
pub proof fn a_claim_only_lowers(l: Seq<TierV>, claim: Seq<char>, seed: Seq<char>)
    ensures
        clamped(l, None, seed) == seed,
        tier_rank(l, claim) < tier_rank(l, seed) ==> clamped(l, Some(claim), seed) == claim,
        tier_rank(l, claim) > tier_rank(l, seed) ==> clamped(l, Some(claim), seed) == seed,
        tier_rank(l, clamped(l, Some(claim), seed)) <= tier_rank(l, claim),
{
}

/// A row gathers what is of its type and key while it waits, and, where the duty has a window, as
/// long as that window has not passed since the row came in.
pub proof fn what_waits_gathers_its_own_kind(
    s: StimulusV,
    type_: Seq<char>,
    key: Seq<char>,
    at: i64,
    w: Option<u64>,
)
    ensures
        gathers(s, type_, key, at, w) <==> {
            &&& s.status == StimulusStatus::Pending
            &&& s.type_ == type_
            &&& s.dedup_key == Some(key)
            &&& w matches Some(n) ==> at - s.received_at <= n
        },
{
}

proof fn a_fire_keeps_what_rows_are(
    q: Seq<StimulusV>,
    l: Seq<TierV>,
    d: DefV,
    c: CandidateV,
    n: nat,
    at: i64,
    seed: Seq<char>,
    ids: Seq<Seq<char>>,
    i: int,
)
    requires
        0 <= i < q.len(),
    ensures
        ({
            let after = absorbed((q, ids), l, d, c, n, at, seed).0;
            &&& i < after.len()
            &&& after[i] == (StimulusV {
                status: after[i].status,
                payload: after[i].payload,
                payload_tier: after[i].payload_tier,
                ..q[i]
            })
        }),
{
    match fate_of(d.front.coalesce, c, at, q) {
        Fate::Folded(id, _) => {
            row_index_names_a_row(q, id);
        },
        Fate::Fresh(gone) => {
            superseding_sets_the_status_alone(q, gone, i);
        },
    }
}

proof fn superseding_sets_the_status_alone(rows: Seq<StimulusV>, gone: Seq<StimulusV>, i: int)
    requires
        0 <= i < rows.len(),
    ensures
        superseded(rows, gone).len() == rows.len(),
        superseded(rows, gone)[i] == (StimulusV {
            status: superseded(rows, gone)[i].status,
            ..rows[i]
        }),
    decreases gone.len(),
{
    if gone.len() > 0 {
        superseding_sets_the_status_alone(rows, gone.drop_last(), i);
        row_index_names_a_row(superseded(rows, gone.drop_last()), gone.last().id);
    }
}

/// A row carries its duty: it is of the duty, enters where the duty does, with the duty's briefing
/// at the duty's tier, and presses as the duty declares, or little where it declares nothing. It
/// came in when the duty fired, and waits as long as the duty's gates say.
pub open spec fn carries(r: StimulusV, d: DefV, at: i64) -> bool {
    &&& r.source == d.front.id
    &&& r.entry == d.front.entry
    &&& r.directive_body == d.body
    &&& r.directive_tier == d.front.directive_tier
    &&& d.front.priority is Some ==> Some(r.priority) == d.front.priority
    &&& d.front.priority is None ==> r.priority == Priority::Low
    &&& r.received_at == at
    &&& r.pop_after is Some <==> gate_of(d.front, at) is Some
    &&& r.pop_after is Some && reckonable(d.front, at) ==> r.pop_after->0 == gate_of(d.front, at)->0
    &&& r.provenance is None
    &&& r.baton is None
}

/// Every row that a fire adds carries its duty, is named after the duty, the second and one of the
/// candidates, and is of that candidate's type and key. The ids that come back are those of the
/// new rows, in their order.
pub proof fn every_new_row_carries_its_duty(
    rows: Seq<StimulusV>,
    l: Seq<TierV>,
    d: DefV,
    c: Seq<CandidateV>,
    at: i64,
    seed: Seq<char>,
    k: int,
)
    requires
        rows.len() <= k < ingested(rows, l, d, c, at, seed).0.len(),
    ensures
        ({
            let q = ingested(rows, l, d, c, at, seed);
            let r = q.0[k];
            &&& carries(r, d, at)
            &&& q.1[k - rows.len()] == r.id
            &&& q.0.len() == rows.len() + q.1.len()
            &&& exists|n: int|
                {
                    &&& 0 <= n < c.len()
                    &&& r.id == d.front.id + "-"@ + int_text(at as int) + "-"@ + nat_text(n as nat)
                    &&& r.type_ == (#[trigger] c[n]).type_
                    &&& r.dedup_key == c[n].dedup_key
                }
        }),
    decreases c.len(),
{
    if c.len() > 0 {
        let init = c.drop_last();
        one_row_per_candidate(rows, l, d, init, at, seed);
        one_row_per_candidate(rows, l, d, c, at, seed);
        let q0 = ingested(rows, l, d, init, at, seed);
        let q = ingested(rows, l, d, c, at, seed);
        let m = (c.len() - 1) as nat;
        if k < q0.0.len() {
            every_new_row_carries_its_duty(rows, l, d, init, at, seed, k);
            a_fire_keeps_what_rows_are(q0.0, l, d, c.last(), m, at, seed, q0.1, k);
            let n = choose|n: int|
                {
                    &&& 0 <= n < init.len()
                    &&& q0.0[k].id == d.front.id + "-"@ + int_text(at as int) + "-"@ + nat_text(
                        n as nat,
                    )
                    &&& q0.0[k].type_ == (#[trigger] init[n]).type_
                    &&& q0.0[k].dedup_key == init[n].dedup_key
                };
            assert(c[n] == init[n]);
        } else {
            match fate_of(d.front.coalesce, c.last(), at, q0.0) {
                Fate::Folded(id, _) => {
                    row_index_names_a_row(q0.0, id);
                },
                Fate::Fresh(gone) => {
                    superseded_keeps_len(q0.0, gone);
                    assert(c[m as int] == c.last());
                    if reckonable(d.front, at) {
                        the_gates_fit(d.front, at);
                    }
                },
            }
        }
    } else {
        assert(ingested(rows, l, d, c, at, seed).0 == rows);
    }
}

proof fn the_gates_fit(f: FrontV, at: i64)
    requires
        reckonable(f, at),
    ensures
        gate_of(f, at) is Some ==> i64::MIN <= gate_of(f, at)->0 <= i64::MAX,
{
    match f.dispatch_window {
        Some(w) => match window_minutes(w) {
            Some((a, b)) => {
                window_lies_in_a_day(w);
                a_window_opens_within_a_day(a, b, at as int, at as int);
            },
            None => {},
        },
        None => {},
    }
}

/// A row waits for both gates of its duty: for the end of the window in which a duty that gathers
/// does so, and for the daily window to open. It waits for no longer than the later of them, and
/// without either not at all.
pub proof fn a_row_waits_for_both_gates(f: FrontV, at: i64)
    ensures
        ({
            let g = gate_of(f, at);
            let gathering = f.coalesce is Some && f.coalesce->0.mode == CoalesceMode::Batch
                && f.coalesce->0.window_sec is Some && f.coalesce->0.window_sec->0 > 0;
            let daily = match f.dispatch_window {
                Some(w) => window_minutes(w),
                None => None,
            };
            let until = at + f.coalesce->0.window_sec->0;
            let (start, end) = daily->0;
            let opens = opens_at(start, end, at as int);
            let closed = daily is Some && opens > at;
            &&& g is Some <==> gathering || closed
            &&& gathering ==> g->0 >= until
            &&& closed ==> g->0 >= opens
            &&& gathering && !closed ==> g == Some(until)
            &&& closed && !gathering ==> g == Some(opens)
            &&& gathering && closed ==> g == Some(until) || g == Some(opens)
        }),
{
}

/// Where nothing gathers it, a candidate becomes a row of its own at the end of the queue: with
/// its payload and its clamped trust, waiting; and no other row changes.
pub proof fn a_lone_candidate_becomes_a_row(
    rows: Seq<StimulusV>,
    l: Seq<TierV>,
    d: DefV,
    c: Seq<CandidateV>,
    at: i64,
    seed: Seq<char>,
)
    requires
        c.len() > 0,
        ({
            let q = ingested(rows, l, d, c.drop_last(), at, seed).0;
            ||| c.last().dedup_key is None
            ||| d.front.coalesce is None
            ||| d.front.coalesce->0.mode == CoalesceMode::Never
            ||| forall|i: int|
                0 <= i < q.len() ==> !gathers(
                    #[trigger] q[i],
                    c.last().type_,
                    c.last().dedup_key->0,
                    at,
                    d.front.coalesce->0.window_sec,
                )
        }),
    ensures
        ({
            let before = ingested(rows, l, d, c.drop_last(), at, seed);
            let q = ingested(rows, l, d, c, at, seed);
            let r = q.0.last();
            &&& q.0.len() == before.0.len() + 1
            &&& q.0.drop_last() == before.0
            &&& q.1 == before.1.push(r.id)
            &&& carries(r, d, at)
            &&& r.payload == c.last().payload
            &&& r.type_ == c.last().type_
            &&& r.dedup_key == c.last().dedup_key
            &&& r.payload_tier == clamped(l, c.last().payload_tier, seed)
            &&& r.status == StimulusStatus::Pending
        }),
{
    let before = ingested(rows, l, d, c.drop_last(), at, seed);
    let x = c.last();
    if x.dedup_key is Some && d.front.coalesce is Some {
        some_row_gathers(
            before.0,
            x.type_,
            x.dedup_key->0,
            at,
            d.front.coalesce->0.window_sec,
        );
    }
    if reckonable(d.front, at) {
        the_gates_fit(d.front, at);
    }
    let q = ingested(rows, l, d, c, at, seed);
    match fate_of(d.front.coalesce, x, at, before.0) {
        Fate::Fresh(gone) => {
            assert(gone.len() == 0);
            assert(superseded(before.0, gone) == before.0);
            assert(q.0.drop_last() =~= before.0);
        },
        Fate::Folded(_, _) => {},
    }
}

/// A duty that gathers folds a candidate into the row that has been gathering for longest: that
/// row gets the folded payload and the lower trust, every other row stays as it was, and nobody
/// is woken.
pub proof fn a_gathering_row_takes_the_candidate(
    rows: Seq<StimulusV>,
    l: Seq<TierV>,
    d: DefV,
    c: Seq<CandidateV>,
    at: i64,
    seed: Seq<char>,
    i: int,
)
    requires
        c.len() > 0,
        d.front.coalesce is Some,
        d.front.coalesce->0.mode == CoalesceMode::Batch,
        c.last().dedup_key is Some,
        ({
            let q = ingested(rows, l, d, c.drop_last(), at, seed).0;
            let (t, key) = (c.last().type_, c.last().dedup_key->0);
            let w = d.front.coalesce->0.window_sec;
            &&& ids_differ(q)
            &&& 0 <= i < q.len()
            &&& gathers(q[i], t, key, at, w)
            &&& forall|j: int|
                0 <= j < q.len() && gathers(#[trigger] q[j], t, key, at, w) ==> q[i].received_at
                    <= q[j].received_at && (j < i ==> q[i].received_at < q[j].received_at)
        }),
    ensures
        ({
            let before = ingested(rows, l, d, c.drop_last(), at, seed);
            let q = ingested(rows, l, d, c, at, seed);
            let r = q.0[i];
            let claim = clamped(l, c.last().payload_tier, seed);
            &&& q.1 == before.1
            &&& q.0 == before.0.update(i, r)
            &&& r == (StimulusV {
                payload: r.payload,
                payload_tier: r.payload_tier,
                ..before.0[i]
            })
            &&& r.payload == merged(before.0[i].payload, c.last().payload)
            &&& r.payload_tier == claim || r.payload_tier == before.0[i].payload_tier
            &&& tier_rank(l, r.payload_tier) <= tier_rank(l, claim)
            &&& tier_rank(l, r.payload_tier) <= tier_rank(l, before.0[i].payload_tier)
        }),
{
    let q = ingested(rows, l, d, c.drop_last(), at, seed).0;
    let (t, key) = (c.last().type_, c.last().dedup_key->0);
    let w = d.front.coalesce->0.window_sec;
    some_row_gathers(q, t, key, at, w);
    assert(gathers(q[i], t, key, at, w));
    let targets = fold_targets(q, t, key, at, w);
    the_oldest_row_is_picked(q, t, key, at, w, i);
    assert(oldest(targets) == q[i]);
    a_row_is_found_by_its_id(q, i, q[i].id);
}

proof fn the_oldest_row_is_picked(
    rows: Seq<StimulusV>,
    type_: Seq<char>,
    key: Seq<char>,
    at: i64,
    w: Option<u64>,
    i: int,
)
    requires
        0 <= i < rows.len(),
        gathers(rows[i], type_, key, at, w),
        forall|j: int|
            0 <= j < rows.len() && gathers(#[trigger] rows[j], type_, key, at, w)
                ==> rows[i].received_at <= rows[j].received_at && (j < i ==> rows[i].received_at
                < rows[j].received_at),
    ensures
        oldest(fold_targets(rows, type_, key, at, w)) == rows[i],
    decreases rows.len(),
{
    reveal(Seq::filter);
    let f = |s: StimulusV| foldable(s, type_, key);
    let g = |s: StimulusV| recent(s, at, w);
    let init = rows.drop_last();
    let last = rows.last();
    let t0 = fold_targets(init, type_, key, at, w);
    let t = fold_targets(rows, type_, key, at, w);
    if f(last) {
        assert(rows.filter(f) == init.filter(f).push(last));
        assert(init.filter(f).push(last).drop_last() =~= init.filter(f));
        if g(last) {
            assert(t == t0.push(last));
        } else {
            assert(t == t0);
        }
    } else {
        assert(rows.filter(f) == init.filter(f));
        assert(t == t0);
    }
    some_row_gathers(init, type_, key, at, w);
    assert forall|j: int| 0 <= j < init.len() implies #[trigger] init[j] == rows[j] by {}
    if i < rows.len() - 1 {
        assert(gathers(init[i], type_, key, at, w));
        the_oldest_row_is_picked(init, type_, key, at, w, i);
        if gathers(last, type_, key, at, w) {
            assert(gathers(rows[rows.len() - 1], type_, key, at, w));
            assert(t.drop_last() =~= t0);
            assert(t.last() == last);
        }
    } else {
        assert(t == t0.push(last));
        if t0.len() > 0 {
            assert(t.drop_last() =~= t0);
            an_oldest_row_gathers(init, type_, key, at, w);
            let o = oldest(t0);
            let j = choose|j: int|
                0 <= j < init.len() && init[j] == o && gathers(#[trigger] init[j], type_, key, at, w);
            assert(rows[j] == o);
            assert(gathers(rows[j], type_, key, at, w));
        } else {
            assert(t =~= seq![last]);
        }
    }
}

proof fn an_oldest_row_gathers(
    rows: Seq<StimulusV>,
    type_: Seq<char>,
    key: Seq<char>,
    at: i64,
    w: Option<u64>,
)
    requires
        fold_targets(rows, type_, key, at, w).len() > 0,
    ensures
        exists|j: int|
            0 <= j < rows.len() && rows[j] == oldest(fold_targets(rows, type_, key, at, w))
                && gathers(#[trigger] rows[j], type_, key, at, w),
    decreases rows.len(),
{
    reveal(Seq::filter);
    let f = |s: StimulusV| foldable(s, type_, key);
    let g = |s: StimulusV| recent(s, at, w);
    let init = rows.drop_last();
    let last = rows.last();
    let t0 = fold_targets(init, type_, key, at, w);
    let t = fold_targets(rows, type_, key, at, w);
    if f(last) {
        assert(rows.filter(f) == init.filter(f).push(last));
        assert(init.filter(f).push(last).drop_last() =~= init.filter(f));
        if g(last) {
            assert(t == t0.push(last));
            assert(t.drop_last() =~= t0);
        } else {
            assert(t == t0);
        }
    } else {
        assert(rows.filter(f) == init.filter(f));
        assert(t == t0);
    }
    if t0.len() > 0 {
        an_oldest_row_gathers(init, type_, key, at, w);
        let j = choose|j: int|
            0 <= j < init.len() && init[j] == oldest(t0) && gathers(
                #[trigger] init[j],
                type_,
                key,
                at,
                w,
            );
        assert(rows[j] == init[j]);
        assert(gathers(rows[j], type_, key, at, w));
        if oldest(t) != oldest(t0) {
            assert(oldest(t) == last);
            assert(gathers(rows[rows.len() - 1], type_, key, at, w));
        }
    } else {
        assert(t.len() == 1);
        assert(gathers(rows[rows.len() - 1], type_, key, at, w));
    }
}

/// A duty that keeps the newest alone marks every row that gathers the candidate's kind as folded
/// away, leaves every other row as it was, and puts the candidate at the end as a row of its own.
pub proof fn the_newest_stands_for_the_others(
    rows: Seq<StimulusV>,
    l: Seq<TierV>,
    d: DefV,
    c: Seq<CandidateV>,
    at: i64,
    seed: Seq<char>,
    i: int,
)
    requires
        c.len() > 0,
        d.front.coalesce is Some,
        d.front.coalesce->0.mode == CoalesceMode::Latest,
        c.last().dedup_key is Some,
        ids_differ(ingested(rows, l, d, c.drop_last(), at, seed).0),
        0 <= i < ingested(rows, l, d, c.drop_last(), at, seed).0.len(),
    ensures
        ({
            let before = ingested(rows, l, d, c.drop_last(), at, seed);
            let q = ingested(rows, l, d, c, at, seed);
            let r = q.0.last();
            &&& q.0.len() == before.0.len() + 1
            &&& q.1 == before.1.push(r.id)
            &&& carries(r, d, at)
            &&& r.payload == c.last().payload
            &&& r.payload_tier == clamped(l, c.last().payload_tier, seed)
            &&& r.status == StimulusStatus::Pending
            &&& gathers(
                before.0[i],
                c.last().type_,
                c.last().dedup_key->0,
                at,
                d.front.coalesce->0.window_sec,
            ) ==> q.0[i] == (StimulusV { status: StimulusStatus::Coalesced, ..before.0[i] })
            &&& !gathers(
                before.0[i],
                c.last().type_,
                c.last().dedup_key->0,
                at,
                d.front.coalesce->0.window_sec,
            ) ==> q.0[i] == before.0[i]
        }),
{
    let q = ingested(rows, l, d, c.drop_last(), at, seed).0;
    let (t, key) = (c.last().type_, c.last().dedup_key->0);
    let w = d.front.coalesce->0.window_sec;
    let targets = fold_targets(q, t, key, at, w);
    superseded_keeps_len(q, targets);
    if reckonable(d.front, at) {
        the_gates_fit(d.front, at);
    }
    targets_are_what_gathers(q, t, key, at, w);
    superseding_marks_the_gone(q, targets, i);
    if targets.contains(q[i]) {
        let k = choose|k: int| 0 <= k < targets.len() && targets[k] == q[i];
        assert(targets[k].id == q[i].id);
    } else {
        assert forall|k: int| 0 <= k < targets.len() implies (#[trigger] targets[k]).id != q[i].id by {
            assert(targets.contains(targets[k]));
            assert(q.contains(targets[k]));
            let m = choose|m: int| 0 <= m < q.len() && q[m] == targets[k];
            if q[m].id == q[i].id {
                assert(m == i);
            }
        }
    }
    assert(q.contains(q[i]));
}

proof fn targets_are_what_gathers(
    rows: Seq<StimulusV>,
    type_: Seq<char>,
    key: Seq<char>,
    at: i64,
    w: Option<u64>,
)
    ensures
        forall|s: StimulusV| #[trigger]
            fold_targets(rows, type_, key, at, w).contains(s) <==> rows.contains(s) && gathers(
                s,
                type_,
                key,
                at,
                w,
            ),
    decreases rows.len(),
{
    reveal(Seq::filter);
    let f = |s: StimulusV| foldable(s, type_, key);
    let g = |s: StimulusV| recent(s, at, w);
    let t = fold_targets(rows, type_, key, at, w);
    if rows.len() > 0 {
        let init = rows.drop_last();
        let last = rows.last();
        let t0 = fold_targets(init, type_, key, at, w);
        targets_are_what_gathers(init, type_, key, at, w);
        if f(last) {
            assert(rows.filter(f) == init.filter(f).push(last));
            assert(init.filter(f).push(last).drop_last() =~= init.filter(f));
        } else {
            assert(rows.filter(f) == init.filter(f));
        }
        assert(t == if gathers(last, type_, key, at, w) {
            t0.push(last)
        } else {
            t0
        });
        assert forall|s: StimulusV| #[trigger] t.contains(s) <==> rows.contains(s) && gathers(
            s,
            type_,
            key,
            at,
            w,
        ) by {
            assert(rows =~= init.push(last));
            if t.contains(s) {
                let k = choose|k: int| 0 <= k < t.len() && t[k] == s;
                if k < t0.len() {
                    assert(t0[k] == s);
                    assert(t0.contains(s));
                    let m = choose|m: int| 0 <= m < init.len() && init[m] == s;
                    assert(rows[m] == s);
                } else {
                    assert(rows[rows.len() - 1] == s);
                }
            }
            if rows.contains(s) && gathers(s, type_, key, at, w) {
                let m = choose|m: int| 0 <= m < rows.len() && rows[m] == s;
                if m < init.len() {
                    assert(init[m] == s);
                    assert(t0.contains(s));
                    let k = choose|k: int| 0 <= k < t0.len() && t0[k] == s;
                    assert(t[k] == s);
                } else {
                    assert(t[t.len() - 1] == s);
                }
            }
        }
    }
}

proof fn superseding_marks_the_gone(rows: Seq<StimulusV>, gone: Seq<StimulusV>, i: int)
    requires
        ids_differ(rows),
        0 <= i < rows.len(),
    ensures
        ({
            let hit = exists|k: int| 0 <= k < gone.len() && (#[trigger] gone[k]).id == rows[i].id;
            &&& hit ==> superseded(rows, gone)[i] == (StimulusV {
                status: StimulusStatus::Coalesced,
                ..rows[i]
            })
            &&& !hit ==> superseded(rows, gone)[i] == rows[i]
        }),
    decreases gone.len(),
{
    if gone.len() > 0 {
        let init = gone.drop_last();
        let s = superseded(rows, init);
        superseded_keeps_len(rows, init);
        superseding_marks_the_gone(rows, init, i);
        superseding_sets_the_status_alone(rows, init, i);
        assert forall|j: int| 0 <= j < rows.len() implies (#[trigger] s[j]).id == rows[j].id by {
            superseding_sets_the_status_alone(rows, init, j);
        }
        row_index_names_a_row(s, gone.last().id);
        assert(gone[gone.len() - 1] == gone.last());
        if exists|k: int| 0 <= k < gone.len() && (#[trigger] gone[k]).id == rows[i].id {
            let k = choose|k: int| 0 <= k < gone.len() && (#[trigger] gone[k]).id == rows[i].id;
            if k < init.len() {
                assert(init[k].id == rows[i].id);
            }
        }
        if exists|k: int| 0 <= k < init.len() && (#[trigger] init[k]).id == rows[i].id {
            let k = choose|k: int| 0 <= k < init.len() && (#[trigger] init[k]).id == rows[i].id;
            assert(gone[k].id == rows[i].id);
        }
        if gone.last().id == rows[i].id {
            assert forall|j: int| 0 <= j < i implies (#[trigger] s[j]).id != gone.last().id by {
                assert(s[j].id == rows[j].id);
                if rows[j].id == rows[i].id {
                    assert(j == i);
                }
            }
            assert(s[i].id == gone.last().id);
            a_row_is_found_by_its_id(s, i, gone.last().id);
        } else {
            if row_index(s, gone.last().id) is Some {
                let m = row_index(s, gone.last().id)->0;
                assert(s[m].id == gone.last().id);
                assert(s[i].id == rows[i].id);
                assert(m != i);
            }
        }
    }
}

/// An accumulator stands for the payloads that went into it and no others, each in its place; a
/// payload that is no object is shown as a value.
pub proof fn a_fold_adds_one_payload(existing: JsonV, new: JsonV, items: Seq<JsonV>)
    ensures
        field(existing, "_coalesced"@) == Some(JsonV::Bool(true)) && field(existing, "items"@)
            == Some(JsonV::Array(items)) ==> field(merged(existing, new), "items"@) == Some(
            JsonV::Array(items.push(new)),
        ),
        field(existing, "_coalesced"@) != Some(JsonV::Bool(true)) ==> field(
            merged(existing, new),
            "items"@,
        ) == Some(JsonV::Array(seq![existing, new])),
        field(merged(existing, new), "_coalesced"@) == Some(JsonV::Bool(true)),
        !(new is Object) ==> field(merged(existing, new), "value"@) == Some(new),
{
    reveal_strlit("value");
    reveal_strlit("_coalesced");
    reveal_strlit("items");
    assert("value"@[0] == 'v' && "items"@[0] == 'i' && "_coalesced"@[0] == '_');
    a_fold_loses_nothing(existing, new, "value"@);
    let a = with_field(top_fields(new), "_coalesced"@, JsonV::Bool(true));
    let items_now = JsonV::Array(folded_items(existing, new));
    crate::json::with_field_reads_back(top_fields(new), "_coalesced"@, JsonV::Bool(true), "value"@);
    crate::json::with_field_reads_back(a, "items"@, items_now, "value"@);
    if !(new is Object) {
        assert(find_field(top_fields(new), "value"@) == Some(new));
    }
}

} // verus!
