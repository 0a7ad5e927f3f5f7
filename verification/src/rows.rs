//! Rows as a table keeps them: texts and numbers.

use vstd::prelude::*;

use crate::decode::{
    fault_unless, field_error, get_text, misfit, missing, or_fault, presence_fault, text_at,
    text_fault,
};
use crate::error::DackError;
use crate::json::{
    field, find_field, json_error_text, json_read, json_text, plain, value_tree, Json, JsonV,
    MAX_NESTING,
};
use crate::model::baton::{Baton, BatonV};
use crate::model::proposal::{priority_from_label, priority_of};
use crate::model::stimulus::{
    a_status_reads_back, priority_name, status_name, status_of, Priority, Stimulus, StimulusId,
    StimulusStatus, StimulusType, StimulusV, TrustTier,
};
use crate::secrets::providers::{read_env, text_fields};
use crate::strmap::{a_finite_set_has_an_order, in_order, orders, pairs_of, texts, StrMap};
use crate::text::{owned, owned_opt, text_lt, text_lt_transitive};

verus! {

// ── Batons ──────────────────────────────────────────────────────────────────────────────

/// Texts by name, as a document.
pub open spec fn texts_object(m: Map<Seq<char>, Seq<char>>) -> JsonV {
    JsonV::Object(pairs_of(m).map_values(|p: (Seq<char>, Seq<char>)| (p.0, JsonV::Str(p.1))))
}

/// A baton as a document.
pub open spec fn baton_tree(b: BatonV) -> JsonV {
    JsonV::Object(
        seq![
            ("directive_tier"@, JsonV::Str(b.directive_tier)),
            ("gist"@, JsonV::Str(b.gist)),
            ("payload_tier"@, JsonV::Str(b.payload_tier)),
            ("refs"@, texts_object(b.refs)),
            ("runlog_ref"@, JsonV::Str(b.runlog_ref)),
            ("thoughts"@, JsonV::Str(b.thoughts)),
        ],
    )
}

/// The references of a document.
pub open spec fn refs_in(t: Option<JsonV>) -> Option<Map<Seq<char>, Seq<char>>> {
    match t {
        Some(JsonV::Object(f)) => text_fields(f),
        _ => None,
    }
}

/// The baton in a document.
pub open spec fn baton_in(t: JsonV) -> Option<BatonV> {
    match (
        text_at(t, "gist"@, false),
        refs_in(field(t, "refs"@)),
        text_at(t, "directive_tier"@, false),
        text_at(t, "payload_tier"@, false),
        text_at(t, "runlog_ref"@, false),
        text_at(t, "thoughts"@, false),
    ) {
        (
            Some(gist),
            Some(refs),
            Some(directive_tier),
            Some(payload_tier),
            Some(runlog_ref),
            Some(thoughts),
        ) => Some(BatonV { gist, refs, directive_tier, payload_tier, runlog_ref, thoughts }),
        _ => None,
    }
}

/// What is wrong with a document that holds no baton: of the parts that do not fit, the first
/// one read.
pub open spec fn baton_fault(t: JsonV) -> Option<Seq<char>> {
    let f = text_fault(t, "gist"@, false);
    let f = or_fault(f, text_fault(t, "directive_tier"@, false));
    let f = or_fault(f, text_fault(t, "payload_tier"@, false));
    let f = or_fault(f, text_fault(t, "runlog_ref"@, false));
    let f = or_fault(f, text_fault(t, "thoughts"@, false));
    let f = or_fault(f, presence_fault(t, "refs"@));
    or_fault(f, fault_unless(refs_in(field(t, "refs"@)) is Some, misfit("refs"@, "texts"@)))
}

fn texts_json(m: &StrMap<String>) -> (r: Json)
    ensures
        r@ == texts_object(texts(*m)),
{
    let n: usize = m.len();
    let ghost pairs = pairs_of(texts(*m));
    assert(texts(*m).dom() =~= m@.dom());
    let mut f: Vec<(String, Json)> = Vec::new();
    let mut i: usize = 0;
    while i < n
        invariant
            i <= n,
            n == m.keys().len(),
            m.keys() == in_order(m@.dom()),
            texts(*m).dom() == m@.dom(),
            pairs == pairs_of(texts(*m)),
            f@.len() == i,
            forall|k: int|
                0 <= k < i ==> (#[trigger] f@[k]).0@ == pairs[k].0 && f@[k].1@ == JsonV::Str(
                    pairs[k].1,
                ),
        decreases n - i,
    {
        let (k, v) = m.at(i);
        assert(pairs[i as int] == (k@, v@));
        f.push((k.clone(), Json::text(v.clone())));
        i += 1;
    }
    let r = Json::object(f);
    assert(r@->Object_0 =~= texts_object(texts(*m))->Object_0);
    r
}

impl Baton {
    /// The baton as a document.
    pub fn to_json(&self) -> (r: Json)
        ensures
            r@ == baton_tree(self@),
    {
        let f = vec![
            (owned("directive_tier"), Json::text(owned(self.directive_tier.name()))),
            (owned("gist"), Json::text(self.gist.clone())),
            (owned("payload_tier"), Json::text(owned(self.payload_tier.name()))),
            (owned("refs"), texts_json(&self.refs)),
            (owned("runlog_ref"), Json::text(self.runlog_ref.clone())),
            (owned("thoughts"), Json::text(self.thoughts.clone())),
        ];
        let r = Json::object(f);
        assert(r@->Object_0 =~= baton_tree(self@)->Object_0);
        r
    }

    /// The baton in a document.
    pub fn from_json(j: &Json) -> (r: Result<Baton, String>)
        ensures
            match baton_in(j@) {
                Some(b) => r is Ok && r->Ok_0@ == b,
                None => r is Err,
            },
            match r {
                Ok(_) => baton_fault(j@) is None,
                Err(e) => baton_fault(j@) == Some(e@),
            },
    {
        let gist = match get_text(j, "gist", false) {
            Ok(x) => x,
            Err(e) => return Err(e),
        };
        let directive_tier = match get_text(j, "directive_tier", false) {
            Ok(x) => x,
            Err(e) => return Err(e),
        };
        let payload_tier = match get_text(j, "payload_tier", false) {
            Ok(x) => x,
            Err(e) => return Err(e),
        };
        let runlog_ref = match get_text(j, "runlog_ref", false) {
            Ok(x) => x,
            Err(e) => return Err(e),
        };
        let thoughts = match get_text(j, "thoughts", false) {
            Ok(x) => x,
            Err(e) => return Err(e),
        };
        let refs = match j.get("refs") {
            Some(x) => match read_env(x) {
                Some(m) => m,
                None => return Err(field_error("refs", "texts")),
            },
            None => return Err(missing("refs")),
        };
        Ok(
            Baton {
                gist,
                refs,
                directive_tier: TrustTier::named(directive_tier.as_str()),
                payload_tier: TrustTier::named(payload_tier.as_str()),
                runlog_ref,
                thoughts,
            },
        )
    }
}

proof fn text_fields_of_pairs(m: Map<Seq<char>, Seq<char>>, keys: Seq<Seq<char>>, n: int)
    requires
        0 <= n <= keys.len(),
        orders(keys, m.dom()),
    ensures
        text_fields(
            keys.map_values(|k: Seq<char>| (k, JsonV::Str(m[k]))).take(n),
        ) == Some(m.restrict(keys.take(n).to_set())),
    decreases n,
{
    let f = keys.map_values(|k: Seq<char>| (k, JsonV::Str(m[k])));
    if n == 0 {
        assert(f.take(0) =~= Seq::empty());
        assert(keys.take(0).to_set() =~= Set::empty());
        assert(m.restrict(keys.take(0).to_set()) =~= Map::empty());
    } else {
        text_fields_of_pairs(m, keys, n - 1);
        let k = keys[n - 1];
        assert(f.take(n).drop_last() =~= f.take(n - 1));
        assert(f.take(n).last() == (k, JsonV::Str(m[k])));
        assert(keys.contains(k));
        assert(m.contains_key(k));
        assert forall|x: Seq<char>| #[trigger]
            keys.take(n).to_set().contains(x) == (keys.take(n - 1).to_set().contains(x) || x
                == k) by {
            let a = keys.take(n - 1);
            let b = keys.take(n);
            if b.contains(x) && x != k {
                let j = choose|j: int| 0 <= j < b.len() && b[j] == x;
                assert(a[j] == x);
            }
            if a.contains(x) {
                let j = choose|j: int| 0 <= j < a.len() && a[j] == x;
                assert(b[j] == x);
            }
            assert(b[n - 1] == k);
        }
        let a = m.restrict(keys.take(n - 1).to_set()).insert(k, m[k]);
        let b = m.restrict(keys.take(n).to_set());
        assert forall|x: Seq<char>| #[trigger] a.contains_key(x) == b.contains_key(x) by {
            assert(keys.take(n).to_set().contains(x) == (keys.take(n - 1).to_set().contains(x) || x
                == k));
        }
        assert(a =~= b);
    }
}

/// A baton can be read back from the document that it is written as, and the document is
/// plain.
pub proof fn a_baton_reads_back(b: BatonV)
    requires
        b.refs.dom().finite(),
    ensures
        baton_in(baton_tree(b)) == Some(b),
        plain(baton_tree(b), MAX_NESTING as nat),
{
    let t = baton_tree(b);
    let f = t->Object_0;
    baton_fields(b);
    let keys = in_order(b.refs.dom());
    a_finite_set_has_an_order(b.refs.dom());
    let g = texts_object(b.refs)->Object_0;
    let h = keys.map_values(|k: Seq<char>| (k, JsonV::Str(b.refs[k])));
    assert(g =~= h);
    text_fields_of_pairs(b.refs, keys, keys.len() as int);
    assert(h.take(keys.len() as int) =~= h);
    assert(keys.take(keys.len() as int) =~= keys);
    assert forall|k: Seq<char>| #[trigger] b.refs.contains_key(k) implies keys.to_set().contains(
        k,
    ) by {
        assert(keys.contains(k));
    }
    assert(b.refs.restrict(keys.to_set()) =~= b.refs);
    assert(baton_in(t) =~= Some(b));
    assert(plain(texts_object(b.refs), 99)) by {
        assert forall|i: int| 0 <= i < g.len() implies plain((#[trigger] g[i]).1, 98) by {}
        assert forall|i: int, j: int| 0 <= i < j < g.len() implies text_lt(
            (#[trigger] g[i]).0,
            (#[trigger] g[j]).0,
        ) by {
            assert(g[i].0 == keys[i] && g[j].0 == keys[j]);
        }
    }
    assert forall|i: int| 0 <= i < f.len() implies plain((#[trigger] f[i]).1, 99) by {}
}

proof fn baton_fields(b: BatonV)
    ensures
        ({
            let t = baton_tree(b);
            let f = t->Object_0;
            &&& field(t, "directive_tier"@) == Some(JsonV::Str(b.directive_tier))
            &&& field(t, "gist"@) == Some(JsonV::Str(b.gist))
            &&& field(t, "payload_tier"@) == Some(JsonV::Str(b.payload_tier))
            &&& field(t, "refs"@) == Some(texts_object(b.refs))
            &&& field(t, "runlog_ref"@) == Some(JsonV::Str(b.runlog_ref))
            &&& field(t, "thoughts"@) == Some(JsonV::Str(b.thoughts))
            &&& forall|i: int, j: int|
                0 <= i < j < f.len() ==> text_lt((#[trigger] f[i]).0, (#[trigger] f[j]).0)
        }),
{
    let t = baton_tree(b);
    let f = t->Object_0;
    reveal_strlit("directive_tier");
    reveal_strlit("gist");
    reveal_strlit("payload_tier");
    reveal_strlit("refs");
    reveal_strlit("runlog_ref");
    reveal_strlit("thoughts");
    reveal_with_fuel(text_lt, 3);
    assert("directive_tier"@[0] == 'd' && "gist"@[0] == 'g' && "payload_tier"@[0] == 'p');
    assert("refs"@[0] == 'r' && "refs"@[1] == 'e');
    assert("runlog_ref"@[0] == 'r' && "runlog_ref"@[1] == 'u');
    assert("thoughts"@[0] == 't');
    assert("refs"@.skip(1)[0] == 'e' && "runlog_ref"@.skip(1)[0] == 'u');
    reveal_with_fuel(find_field, 7);
    assert(f.skip(1)[0] == f[1]);
    assert(f.skip(1).skip(1)[0] == f[2]);
    assert(f.skip(1).skip(1).skip(1)[0] == f[3]);
    assert(f.skip(1).skip(1).skip(1).skip(1)[0] == f[4]);
    assert(f.skip(1).skip(1).skip(1).skip(1).skip(1)[0] == f[5]);
    assert(text_lt("directive_tier"@, "gist"@));
    assert(text_lt("gist"@, "payload_tier"@));
    assert(text_lt("payload_tier"@, "refs"@));
    assert(text_lt("refs"@, "runlog_ref"@));
    assert(text_lt("runlog_ref"@, "thoughts"@));
    let k = seq![
        "directive_tier"@,
        "gist"@,
        "payload_tier"@,
        "refs"@,
        "runlog_ref"@,
        "thoughts"@,
    ];
    assert forall|i: int, j: int| 0 <= i < j < f.len() implies text_lt(
        (#[trigger] f[i]).0,
        (#[trigger] f[j]).0,
    ) by {
        steps_ascend(k, i, j);
        assert(f[i].0 == k[i] && f[j].0 == k[j]);
    }
}

proof fn steps_ascend(k: Seq<Seq<char>>, i: int, j: int)
    requires
        0 <= i < j < k.len(),
        forall|x: int| 0 <= x < k.len() - 1 ==> text_lt(#[trigger] k[x], k[x + 1]),
    ensures
        text_lt(k[i], k[j]),
    decreases j - i,
{
    if i < j - 1 {
        steps_ascend(k, i, j - 1);
        assert(text_lt(k[j - 1], k[j - 1 + 1]));
        text_lt_transitive(k[i], k[j - 1], k[j]);
    }
}

// ── Rows ────────────────────────────────────────────────────────────────────────────────

/// A row of the table.
#[derive(Debug)]
pub struct RawRow {
    pub id: String,
    pub source: String,
    pub type_: String,
    pub directive_tier: String,
    pub payload_tier: String,
    pub payload: String,
    pub provenance: Option<String>,
    pub received_at: i64,
    pub dedup_key: Option<String>,
    pub pop_after: Option<i64>,
    pub priority: String,
    pub status: String,
    pub directive_body: String,
    pub entry: String,
    pub baton: Option<String>,
}

/// What a [`RawRow`] holds.
#[verifier::ext_equal]
pub struct RawRowV {
    pub id: Seq<char>,
    pub source: Seq<char>,
    pub type_: Seq<char>,
    pub directive_tier: Seq<char>,
    pub payload_tier: Seq<char>,
    pub payload: Seq<char>,
    pub provenance: Option<Seq<char>>,
    pub received_at: i64,
    pub dedup_key: Option<Seq<char>>,
    pub pop_after: Option<i64>,
    pub priority: Seq<char>,
    pub status: Seq<char>,
    pub directive_body: Seq<char>,
    pub entry: Seq<char>,
    pub baton: Option<Seq<char>>,
}

impl View for RawRow {
    type V = RawRowV;

    open spec fn view(&self) -> RawRowV {
        RawRowV {
            id: self.id@,
            source: self.source@,
            type_: self.type_@,
            directive_tier: self.directive_tier@,
            payload_tier: self.payload_tier@,
            payload: self.payload@,
            provenance: self.provenance.deep_view(),
            received_at: self.received_at,
            dedup_key: self.dedup_key.deep_view(),
            pop_after: self.pop_after,
            priority: self.priority@,
            status: self.status@,
            directive_body: self.directive_body@,
            entry: self.entry@,
            baton: self.baton.deep_view(),
        }
    }
}

/// A stimulus as a row.
pub open spec fn row_of(s: StimulusV) -> RawRowV {
    RawRowV {
        id: s.id,
        source: s.source,
        type_: s.type_,
        directive_tier: s.directive_tier,
        payload_tier: s.payload_tier,
        payload: json_text(s.payload),
        provenance: s.provenance,
        received_at: s.received_at,
        dedup_key: s.dedup_key,
        pop_after: s.pop_after,
        priority: priority_name(s.priority),
        status: status_name(s.status),
        directive_body: s.directive_body,
        entry: s.entry,
        baton: match s.baton {
            Some(b) => Some(json_text(baton_tree(b))),
            None => None,
        },
    }
}

/// The document in a text.
pub open spec fn document_in(text: Seq<char>) -> Option<JsonV> {
    match json_read(text) {
        Ok(v) => Some(value_tree(v)),
        Err(_) => None,
    }
}

/// The baton in an optional text.
pub open spec fn baton_text_in(text: Option<Seq<char>>) -> Option<Option<BatonV>> {
    match text {
        None => Some(None),
        Some(s) => match document_in(s) {
            Some(t) => match baton_in(t) {
                Some(b) => Some(Some(b)),
                None => None,
            },
            None => None,
        },
    }
}

/// The stimulus in a row.
pub open spec fn stimulus_in(r: RawRowV) -> Option<StimulusV> {
    match (
        document_in(r.payload),
        priority_of(r.priority),
        status_of(r.status),
        baton_text_in(r.baton),
    ) {
        (Some(payload), Some(priority), Some(status), Some(baton)) => Some(
            StimulusV {
                id: r.id,
                source: r.source,
                type_: r.type_,
                directive_tier: r.directive_tier,
                payload_tier: r.payload_tier,
                payload,
                provenance: r.provenance,
                received_at: r.received_at,
                dedup_key: r.dedup_key,
                pop_after: r.pop_after,
                priority,
                status,
                directive_body: r.directive_body,
                entry: r.entry,
                baton,
            },
        ),
        _ => None,
    }
}

/// What is wrong with a row that holds no stimulus: of the columns that do not fit, the first
/// one read.
pub open spec fn row_fault(r: RawRowV) -> Option<Seq<char>> {
    let f = match json_read(r.payload) {
        Ok(_) => None,
        Err(e) => Some(json_error_text(e)),
    };
    let f = or_fault(f, fault_unless(priority_of(r.priority) is Some, "unknown priority"@));
    let f = or_fault(f, fault_unless(status_of(r.status) is Some, "unknown status"@));
    or_fault(
        f,
        match r.baton {
            None => None,
            Some(s) => match json_read(s) {
                Ok(v) => baton_fault(value_tree(v)),
                Err(e) => Some(json_error_text(e)),
            },
        },
    )
}

/// A label of a priority names that priority.
pub proof fn a_priority_reads_back(p: Priority)
    ensures
        priority_of(priority_name(p)) == Some(p),
{
    reveal_strlit("low");
    reveal_strlit("normal");
    reveal_strlit("high");
    reveal_strlit("urgent");
    assert("low"@.len() == 3 && "normal"@[0] == 'n' && "high"@.len() == 4 && "urgent"@[0] == 'u');
    assert("normal"@.len() == 6 && "urgent"@.len() == 6);
}

impl RawRow {
    /// A stimulus as a row. Where its payload is plain, the row reads back as the stimulus.
    pub fn write(s: &Stimulus) -> (r: RawRow)
        ensures
            r@ == row_of(s@),
            plain(s@.payload, MAX_NESTING as nat) ==> stimulus_in(r@) == Some(s@),
    {
        let payload = s.payload.to_text();
        let baton = match &s.baton {
            Some(b) => {
                let t = b.to_json();
                proof {
                    b.refs.domain_is_finite();
                    assert(texts(b.refs).dom() =~= b.refs@.dom());
                    a_baton_reads_back(b@);
                }
                Some(t.to_text())
            },
            None => None,
        };
        proof {
            a_priority_reads_back(s.priority);
            a_status_reads_back(s.status);
        }
        RawRow {
            id: s.id.0.clone(),
            source: s.source.clone(),
            type_: s.type_.0.clone(),
            directive_tier: owned(s.directive_tier.name()),
            payload_tier: owned(s.payload_tier.name()),
            payload,
            provenance: owned_opt(&s.provenance),
            received_at: s.received_at,
            dedup_key: owned_opt(&s.dedup_key),
            pop_after: s.pop_after,
            priority: owned(s.priority.label()),
            status: owned(s.status.label()),
            directive_body: s.directive_body.clone(),
            entry: s.entry.clone(),
            baton,
        }
    }

    /// The stimulus in a row.
    pub fn read(self) -> (r: Result<Stimulus, DackError>)
        ensures
            match stimulus_in(self@) {
                Some(s) => r is Ok && r->Ok_0@ == s,
                None => r is Err && r->Err_0 is Json && row_fault(self@) == Some(
                    (r->Err_0->Json_0)@,
                ),
            },
    {
        let payload = match Json::parse(self.payload.as_str()) {
            Ok(j) => j,
            Err(e) => return Err(DackError::Json(e)),
        };
        let priority = match priority_from_label(self.priority.as_str()) {
            Some(p) => p,
            None => return Err(DackError::Json(owned("unknown priority"))),
        };
        let status = match StimulusStatus::from_label(self.status.as_str()) {
            Some(s) => s,
            None => return Err(DackError::Json(owned("unknown status"))),
        };
        let baton = match &self.baton {
            Some(text) => match Json::parse(text.as_str()) {
                Ok(j) => match Baton::from_json(&j) {
                    Ok(b) => Some(b),
                    Err(e) => return Err(DackError::Json(e)),
                },
                Err(e) => return Err(DackError::Json(e)),
            },
            None => None,
        };
        Ok(
            Stimulus {
                id: StimulusId(self.id),
                source: self.source,
                type_: StimulusType(self.type_),
                directive_tier: TrustTier::named(self.directive_tier.as_str()),
                payload_tier: TrustTier::named(self.payload_tier.as_str()),
                payload,
                provenance: self.provenance,
                received_at: self.received_at,
                dedup_key: self.dedup_key,
                pop_after: self.pop_after,
                priority,
                status,
                directive_body: self.directive_body,
                entry: self.entry,
                baton,
            },
        )
    }
}

/// A row keeps every field of its stimulus, and is read back field by field.
pub proof fn a_row_keeps_every_field(s: StimulusV, r: RawRowV)
    ensures
        ({
            let w = row_of(s);
            &&& w.id == s.id && w.source == s.source && w.type_ == s.type_
            &&& w.directive_tier == s.directive_tier && w.payload_tier == s.payload_tier
            &&& w.payload == json_text(s.payload) && w.provenance == s.provenance
            &&& w.received_at == s.received_at && w.dedup_key == s.dedup_key
            &&& w.pop_after == s.pop_after && w.directive_body == s.directive_body
            &&& w.entry == s.entry
            &&& priority_of(w.priority) == Some(s.priority)
            &&& status_of(w.status) == Some(s.status)
            &&& w.baton is None <==> s.baton is None
        }),
        stimulus_in(r) matches Some(x) ==> {
            &&& x.id == r.id && x.source == r.source && x.type_ == r.type_
            &&& x.directive_tier == r.directive_tier && x.payload_tier == r.payload_tier
            &&& document_in(r.payload) == Some(x.payload) && x.provenance == r.provenance
            &&& x.received_at == r.received_at && x.dedup_key == r.dedup_key
            &&& x.pop_after == r.pop_after && x.directive_body == r.directive_body
            &&& x.entry == r.entry
            &&& priority_of(r.priority) == Some(x.priority)
            &&& status_of(r.status) == Some(x.status)
            &&& x.baton is None <==> r.baton is None
        },
        stimulus_in(r) is Some <==> {
            &&& document_in(r.payload) is Some
            &&& priority_of(r.priority) is Some
            &&& status_of(r.status) is Some
            &&& baton_text_in(r.baton) is Some
        },
{
    a_priority_reads_back(s.priority);
    a_status_reads_back(s.status);
}

/// A baton is written with its gist, its references, its two tiers, and where it comes from.
pub proof fn a_baton_is_written_with_its_fields(b: BatonV)
    ensures
        field(baton_tree(b), "gist"@) == Some(JsonV::Str(b.gist)),
        field(baton_tree(b), "refs"@) == Some(texts_object(b.refs)),
        field(baton_tree(b), "directive_tier"@) == Some(JsonV::Str(b.directive_tier)),
        field(baton_tree(b), "payload_tier"@) == Some(JsonV::Str(b.payload_tier)),
        field(baton_tree(b), "runlog_ref"@) == Some(JsonV::Str(b.runlog_ref)),
        field(baton_tree(b), "thoughts"@) == Some(JsonV::Str(b.thoughts)),
{
    reveal_strlit("directive_tier");
    reveal_strlit("gist");
    reveal_strlit("payload_tier");
    reveal_strlit("refs");
    reveal_strlit("runlog_ref");
    reveal_strlit("thoughts");
    assert("directive_tier"@.len() == 14 && "gist"@.len() == 4 && "payload_tier"@.len() == 12);
    assert("refs"@.len() == 4 && "runlog_ref"@.len() == 10 && "thoughts"@.len() == 8);
    assert("gist"@[0] == 'g' && "refs"@[0] == 'r');
    let f = seq![
        ("directive_tier"@, JsonV::Str(b.directive_tier)),
        ("gist"@, JsonV::Str(b.gist)),
        ("payload_tier"@, JsonV::Str(b.payload_tier)),
        ("refs"@, texts_object(b.refs)),
        ("runlog_ref"@, JsonV::Str(b.runlog_ref)),
        ("thoughts"@, JsonV::Str(b.thoughts)),
    ];
    assert(baton_tree(b) == JsonV::Object(f));
    crate::json::a_field_is_found_by_its_name(f, 0, "directive_tier"@);
    crate::json::a_field_is_found_by_its_name(f, 1, "gist"@);
    crate::json::a_field_is_found_by_its_name(f, 2, "payload_tier"@);
    crate::json::a_field_is_found_by_its_name(f, 3, "refs"@);
    crate::json::a_field_is_found_by_its_name(f, 4, "runlog_ref"@);
    crate::json::a_field_is_found_by_its_name(f, 5, "thoughts"@);
}

} // verus!
