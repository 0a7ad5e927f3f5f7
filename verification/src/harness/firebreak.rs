//! The firebreak: how a step's output becomes the baton that opens the next step.
//!
//! A baton carries what the agent digested, and the few references that the harness itself
//! lifts out of the payload. The raw payload does not cross.

use vstd::prelude::*;

use crate::json::{field, text_field, Json, JsonV};
use crate::model::baton::{Baton, BatonV};
use crate::model::proposal::{plain, plain_text, AgentOutput, AgentOutputV};
use crate::model::stimulus::{Stimulus, TrustTier};
use crate::strmap::{texts, StrMap};
use crate::text::{owned, same_text};

verus! {

// ── What a branch replies to ────────────────────────────────────────────────────────────

/// An item is known under `id` by one of these fields.
pub open spec fn known_as(item: JsonV, fields: Seq<Seq<char>>, id: Seq<char>) -> bool {
    exists|i: int|
        0 <= i < fields.len() && field(item, #[trigger] fields[i]) is Some && plain(
            field(item, fields[i])->0,
        ) == id
}

/// The first item that is known under `id`.
pub open spec fn item_known_as(items: Seq<JsonV>, fields: Seq<Seq<char>>, id: Seq<char>) -> Option<
    JsonV,
>
    decreases items.len(),
{
    if items.len() == 0 {
        None
    } else if known_as(items[0], fields, id) {
        Some(items[0])
    } else {
        item_known_as(items.skip(1), fields, id)
    }
}

/// What a branch replies to: the item of the batch that it names, and otherwise the payload
/// as a whole. An id that no item has is ignored.
pub open spec fn reply_source(
    payload: JsonV,
    reply_to: Option<Seq<char>>,
    fields: Seq<Seq<char>>,
) -> JsonV {
    match (reply_to, field(payload, "items"@)) {
        (Some(id), Some(JsonV::Array(items))) => match item_known_as(items, fields, id) {
            Some(item) => item,
            None => payload,
        },
        _ => payload,
    }
}

fn is_known_as(item: &Json, fields: &Vec<String>, id: &str) -> (r: bool)
    ensures
        r == known_as(item@, fields.deep_view(), id@),
{
    let ghost f = fields.deep_view();
    let mut i: usize = 0;
    while i < fields.len()
        invariant
            i <= fields@.len(),
            f == fields.deep_view(),
            forall|k: int|
                0 <= k < i ==> !(field(item@, #[trigger] f[k]) is Some && plain(
                    field(item@, f[k])->0,
                ) == id@),
        decreases fields@.len() - i,
    {
        assert(f[i as int] == fields@[i as int]@);
        match item.get(fields[i].as_str()) {
            Some(x) => if same_text(plain_text(x).as_str(), id) {
                return true;
            },
            None => {},
        }
        i += 1;
    }
    false
}

/// What a branch replies to.
pub fn find_reply_source<'a>(
    payload: &'a Json,
    reply_to: &Option<String>,
    fields: &Vec<String>,
) -> (r: &'a Json)
    ensures
        r@ == reply_source(payload@, reply_to.deep_view(), fields.deep_view()),
{
    let id = match reply_to {
        Some(id) => id,
        None => return payload,
    };
    let list = match payload.get("items") {
        Some(x) => x,
        None => return payload,
    };
    match list.as_array() {
        None => payload,
        Some(v) => {
            let ghost items = list@->Array_0;
            let mut i: usize = 0;
            assert(items.skip(0) =~= items);
            while i < v.len()
                invariant
                    i <= v@.len(),
                    items.len() == v@.len(),
                    forall|k: int| 0 <= k < v@.len() ==> #[trigger] items[k] == v@[k]@,
                    field(payload@, "items"@) == Some(JsonV::Array(items)),
                    item_known_as(items, fields.deep_view(), id@) == item_known_as(
                        items.skip(i as int),
                        fields.deep_view(),
                        id@,
                    ),
                    reply_to.deep_view() == Some(id@),
                decreases v@.len() - i,
            {
                assert(items.skip(i as int)[0] == v@[i as int]@);
                assert(items.skip(i as int).skip(1) =~= items.skip(i + 1));
                if is_known_as(&v[i], fields, id.as_str()) {
                    return &v[i];
                }
                i += 1;
            }
            payload
        },
    }
}

// ── The baton ───────────────────────────────────────────────────────────────────────────

/// A map with one more text, where there is one.
pub open spec fn with_text(
    m: Map<Seq<char>, Seq<char>>,
    key: Seq<char>,
    v: Option<Seq<char>>,
) -> Map<Seq<char>, Seq<char>> {
    match v {
        Some(s) => m.insert(key, s),
        None => m,
    }
}

/// The references that cross: the agent's own, and the reply target as the harness lifts it
/// out of what the branch replies to.
pub open spec fn crossing_refs(out: AgentOutputV, source: JsonV) -> Map<Seq<char>, Seq<char>> {
    let own = match out.proposal {
        Some(p) => p.refs,
        None => Map::empty(),
    };
    with_text(
        with_text(own, "source_tweet_id"@, text_field(source, "id"@)),
        "source_author"@,
        text_field(source, "author_username"@),
    )
}

/// The gist that crosses: the branch's own, else that of the proposal, else the thought.
pub open spec fn crossing_gist(out: AgentOutputV, gist: Seq<char>) -> Seq<char> {
    if gist.len() > 0 {
        gist
    } else {
        match out.proposal {
            Some(p) => p.gist,
            None => out.thought,
        }
    }
}

/// The baton of a branch.
pub open spec fn baton_of(
    out: AgentOutputV,
    gist: Seq<char>,
    source: JsonV,
    directive_tier: Seq<char>,
    runlog_ref: Seq<char>,
    trust: Seq<char>,
) -> BatonV {
    BatonV {
        gist: crossing_gist(out, gist),
        refs: crossing_refs(out, source),
        directive_tier,
        payload_tier: trust,
        runlog_ref,
        thoughts: out.thought,
    }
}

fn lift(refs: &mut StrMap<String>, key: &str, source: &Json, from: &str)
    ensures
        texts(*final(refs)) == with_text(texts(*old(refs)), key@, text_field(source@, from@)),
{
    let ghost m = texts(*refs);
    match source.get_str(from) {
        Some(s) => {
            refs.insert(owned(key), s.clone());
            assert(texts(*refs) =~= m.insert(key@, s@));
        },
        None => {},
    }
}

/// Builds the baton of a branch with the given gist that replies to `source`.
pub fn branch_baton(
    out: &AgentOutput,
    gist: &str,
    source: &Json,
    directive_tier: &TrustTier,
    runlog_ref: &str,
    trust: &TrustTier,
) -> (r: Baton)
    ensures
        r@ == baton_of(out@, gist@, source@, directive_tier@, runlog_ref@, trust@),
{
    let own_gist = match &out.proposal {
        Some(p) => p.gist.clone(),
        None => out.thought.clone(),
    };
    let gist = if gist.is_empty() {
        own_gist
    } else {
        owned(gist)
    };
    let mut refs = match &out.proposal {
        Some(p) => p.refs.copy(),
        None => StrMap::new(),
    };
    assert(out.proposal is None ==> texts(refs) =~= Map::empty());
    lift(&mut refs, "source_tweet_id", source, "id");
    lift(&mut refs, "source_author", source, "author_username");
    Baton {
        gist,
        refs,
        directive_tier: directive_tier.clone(),
        payload_tier: trust.clone(),
        runlog_ref: owned(runlog_ref),
        thoughts: out.thought.clone(),
    }
}

/// Builds the baton of an output that takes a single step.
pub fn build_baton(
    perceive: &AgentOutput,
    stimulus: &Stimulus,
    runlog_ref: String,
    cycle_trust: TrustTier,
) -> (r: Baton)
    ensures
        r@ == baton_of(
            perceive@,
            Seq::empty(),
            stimulus@.payload,
            stimulus@.directive_tier,
            runlog_ref@,
            cycle_trust@,
        ),
{
    proof {
        reveal_strlit("");
        assert(""@ =~= Seq::empty());
    }
    branch_baton(
        perceive,
        "",
        &stimulus.payload,
        &stimulus.directive_tier,
        runlog_ref.as_str(),
        &cycle_trust,
    )
}

// ── Laws ────────────────────────────────────────────────────────────────────────────────

/// The firebreak: nothing of a payload crosses into a baton but the id and the author of
/// what is replied to. Two payloads that agree on these two give the same baton, whatever
/// else they say.
pub proof fn the_raw_payload_does_not_cross(
    out: AgentOutputV,
    gist: Seq<char>,
    a: JsonV,
    b: JsonV,
    directive_tier: Seq<char>,
    runlog_ref: Seq<char>,
    trust: Seq<char>,
)
    requires
        text_field(a, "id"@) == text_field(b, "id"@),
        text_field(a, "author_username"@) == text_field(b, "author_username"@),
    ensures
        baton_of(out, gist, a, directive_tier, runlog_ref, trust) == baton_of(
            out,
            gist,
            b,
            directive_tier,
            runlog_ref,
            trust,
        ),
{
}

/// The reply target is the harness's own: where the source has an id, the id that crosses is
/// that one, whatever the agent wrote.
pub proof fn the_reply_target_is_the_harness_own(
    out: AgentOutputV,
    gist: Seq<char>,
    source: JsonV,
    directive_tier: Seq<char>,
    runlog_ref: Seq<char>,
    trust: Seq<char>,
    id: Seq<char>,
)
    requires
        text_field(source, "id"@) == Some(id),
    ensures
        baton_of(
            out,
            gist,
            source,
            directive_tier,
            runlog_ref,
            trust,
        ).refs.contains_key("source_tweet_id"@),
        baton_of(
            out,
            gist,
            source,
            directive_tier,
            runlog_ref,
            trust,
        ).refs["source_tweet_id"@] == id,
{
    reveal_strlit("source_tweet_id");
    reveal_strlit("source_author");
    assert("source_tweet_id"@.len() != "source_author"@.len());
}

/// A branch replies to something that the harness holds: to an item of the batch or to the
/// payload itself, and to an item only under an id that the item has.
pub proof fn a_reply_stays_in_the_batch(
    payload: JsonV,
    reply_to: Option<Seq<char>>,
    fields: Seq<Seq<char>>,
)
    ensures
        reply_source(payload, reply_to, fields) == payload || (field(payload, "items"@) matches Some(
            JsonV::Array(items),
        ) && items.contains(reply_source(payload, reply_to, fields)) && known_as(
            reply_source(payload, reply_to, fields),
            fields,
            reply_to->0,
        )),
{
    match (reply_to, field(payload, "items"@)) {
        (Some(id), Some(JsonV::Array(items))) => {
            found_item_is_there(items, fields, id);
        },
        _ => {},
    }
}

proof fn found_item_is_there(items: Seq<JsonV>, fields: Seq<Seq<char>>, id: Seq<char>)
    ensures
        item_known_as(items, fields, id) matches Some(x) ==> items.contains(x) && known_as(
            x,
            fields,
            id,
        ),
    decreases items.len(),
{
    if items.len() > 0 {
        if known_as(items[0], fields, id) {
            assert(items.contains(items[0]));
        } else {
            found_item_is_there(items.skip(1), fields, id);
            match item_known_as(items.skip(1), fields, id) {
                Some(x) => {
                    let i = choose|i: int| 0 <= i < items.skip(1).len() && items.skip(1)[i] == x;
                    assert(items[i + 1] == x);
                },
                None => {},
            }
        }
    }
}

/// A branch that names an item of the batch answers to that item: to the first one that has the
/// id in one of the fields. A branch that names none, an id that no item has, and a payload that
/// is no batch leave it with the payload as a whole.
pub proof fn a_branch_answers_to_the_item_it_names(
    payload: JsonV,
    items: Seq<JsonV>,
    id: Seq<char>,
    fields: Seq<Seq<char>>,
    i: int,
)
    requires
        field(payload, "items"@) == Some(JsonV::Array(items)),
    ensures
        reply_source(payload, None, fields) == payload,
        0 <= i < items.len() && known_as(items[i], fields, id) && (forall|j: int|
            0 <= j < i ==> !known_as(#[trigger] items[j], fields, id)) ==> reply_source(
            payload,
            Some(id),
            fields,
        ) == items[i],
        (forall|j: int| 0 <= j < items.len() ==> !known_as(#[trigger] items[j], fields, id))
            ==> reply_source(payload, Some(id), fields) == payload,
{
    the_first_known_item_is_found(items, fields, id, i);
}

/// A payload that is no batch is answered to as a whole.
pub proof fn a_single_payload_is_answered_to(
    payload: JsonV,
    reply_to: Option<Seq<char>>,
    fields: Seq<Seq<char>>,
)
    requires
        field(payload, "items"@) is None || !(field(payload, "items"@)->0 is Array),
    ensures
        reply_source(payload, reply_to, fields) == payload,
{
}

proof fn the_first_known_item_is_found(
    items: Seq<JsonV>,
    fields: Seq<Seq<char>>,
    id: Seq<char>,
    i: int,
)
    ensures
        0 <= i < items.len() && known_as(items[i], fields, id) && (forall|j: int|
            0 <= j < i ==> !known_as(#[trigger] items[j], fields, id)) ==> item_known_as(
            items,
            fields,
            id,
        ) == Some(items[i]),
        (forall|j: int| 0 <= j < items.len() ==> !known_as(#[trigger] items[j], fields, id))
            ==> item_known_as(items, fields, id) is None,
    decreases items.len(),
{
    if items.len() > 0 {
        let r = items.skip(1);
        the_first_known_item_is_found(r, fields, id, i - 1);
        assert forall|j: int| 0 <= j < r.len() implies #[trigger] r[j] == items[j + 1] by {}
        assert(items[0] == items[0]);
        if i > 0 && i < items.len() && (forall|j: int|
            0 <= j < i ==> !known_as(#[trigger] items[j], fields, id)) {
            assert(!known_as(items[0], fields, id));
            assert forall|j: int| 0 <= j < i - 1 implies !known_as(#[trigger] r[j], fields, id) by {
                assert(r[j] == items[j + 1]);
            }
        }
        if forall|j: int| 0 <= j < items.len() ==> !known_as(#[trigger] items[j], fields, id) {
            assert(!known_as(items[0], fields, id));
            assert forall|j: int| 0 <= j < r.len() implies !known_as(
                #[trigger] r[j],
                fields,
                id,
            ) by {
                assert(r[j] == items[j + 1]);
            }
        }
    }
}

/// An item is known by an id where one of the fields holds it, as a text or as a value that is
/// written so.
pub proof fn an_item_is_known_by_a_field(item: JsonV, fields: Seq<Seq<char>>, i: int, id: Seq<char>)
    requires
        0 <= i < fields.len(),
        field(item, fields[i]) == Some(JsonV::Str(id)),
    ensures
        known_as(item, fields, id),
{
    assert(field(item, fields[i]) is Some);
}

/// A baton tells the next step what the branch says, what the run thought, where the run is
/// recorded, and how far both may be trusted. Without a gist of its own the branch says what the
/// proposal does, and without a proposal what the run thought.
pub proof fn a_baton_tells_what_was_digested(
    out: AgentOutputV,
    gist: Seq<char>,
    source: JsonV,
    directive_tier: Seq<char>,
    runlog_ref: Seq<char>,
    trust: Seq<char>,
)
    ensures
        ({
            let b = baton_of(out, gist, source, directive_tier, runlog_ref, trust);
            &&& gist.len() > 0 ==> b.gist == gist
            &&& gist.len() == 0 && out.proposal is Some ==> b.gist == out.proposal->0.gist
            &&& gist.len() == 0 && out.proposal is None ==> b.gist == out.thought
            &&& b.thoughts == out.thought
            &&& b.runlog_ref == runlog_ref
            &&& b.directive_tier == directive_tier
            &&& b.payload_tier == trust
        }),
{
}

/// The references of a baton are the agent's own, but for the two that the harness lifts out of
/// what is answered to: the id and the author, each where the source has it as a text.
pub proof fn a_baton_refers_to_its_source(out: AgentOutputV, source: JsonV, key: Seq<char>)
    ensures
        ({
            let own = match out.proposal {
                Some(p) => p.refs,
                None => Map::empty(),
            };
            let refs = baton_of(out, out.thought, source, out.thought, out.thought, out.thought).refs;
            &&& forall|g: Seq<char>, d: Seq<char>, r: Seq<char>, t: Seq<char>|
                (#[trigger] baton_of(out, g, source, d, r, t)).refs == refs
            &&& key != "source_tweet_id"@ && key != "source_author"@ ==> {
                &&& refs.contains_key(key) <==> own.contains_key(key)
                &&& own.contains_key(key) ==> refs[key] == own[key]
            }
            &&& text_field(source, "id"@) matches Some(x) ==> refs.contains_key(
                "source_tweet_id"@,
            ) && refs["source_tweet_id"@] == x
            &&& text_field(source, "author_username"@) matches Some(x) ==> refs.contains_key(
                "source_author"@,
            ) && refs["source_author"@] == x
            &&& text_field(source, "id"@) is None && text_field(source, "author_username"@) is None
                ==> refs == own
        }),
{
    reveal_strlit("source_tweet_id");
    reveal_strlit("source_author");
    assert("source_tweet_id"@.len() != "source_author"@.len());
}

/// An item is known by nothing but what its fields hold.
pub proof fn an_item_is_known_by_nothing_else(item: JsonV, fields: Seq<Seq<char>>, id: Seq<char>)
    requires
        forall|i: int|
            0 <= i < fields.len() ==> match field(item, #[trigger] fields[i]) {
                None => true,
                Some(x) => plain(x) != id,
            },
    ensures
        !known_as(item, fields, id),
{
}

} // verus!
