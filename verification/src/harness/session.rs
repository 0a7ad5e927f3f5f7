//! Sticky sessions: an engine session that is resumed by later wakes of the same conversation.
//! A session belongs to one prompt at one trust, so resuming never crosses the firebreak.

use vstd::prelude::*;

use crate::decode::{get_text, models, text_at};
use crate::json::{Json, JsonV};
use crate::runtime::SessionId;
use crate::state_prompt::{PromptV, StatePrompt};
use crate::text::{owned, same_text};

verus! {

// ── The key ─────────────────────────────────────────────────────────────────────────────

/// What a stimulus gives for one dimension of a key: a field of its payload. Its thread is the
/// key by which it was folded, else the conversation that its payload names.
pub open spec fn dimension(
    dedup_key: Option<Seq<char>>,
    payload: JsonV,
    name: Seq<char>,
) -> Option<Seq<char>> {
    if name == "thread_id"@ && dedup_key is Some {
        dedup_key
    } else if name == "thread_id"@ && text_at(payload, "conversation_id"@, true) is Some {
        text_at(payload, "conversation_id"@, true)
    } else {
        text_at(payload, name, true)
    }
}

/// What a stimulus gives for several dimensions; nothing where one of them is missing.
pub open spec fn dimensions(
    dedup_key: Option<Seq<char>>,
    payload: JsonV,
    fields: Seq<Seq<char>>,
) -> Option<Seq<Seq<char>>>
    decreases fields.len(),
{
    if fields.len() == 0 {
        Some(Seq::empty())
    } else {
        match (
            dimensions(dedup_key, payload, fields.drop_last()),
            dimension(dedup_key, payload, fields.last()),
        ) {
            (Some(rest), Some(v)) => Some(rest.push(v)),
            _ => None,
        }
    }
}

/// The key of the session that a step belongs to: the prompt, the cycle's trust and what the
/// prompt asks of the stimulus. A prompt that keeps no session has none.
pub open spec fn key_of(
    p: PromptV,
    trust: Seq<char>,
    dedup_key: Option<Seq<char>>,
    payload: JsonV,
) -> Option<Seq<Seq<char>>> {
    match p.front.session {
        Some((true, fields)) => match dimensions(dedup_key, payload, fields) {
            Some(d) => Some(seq![p.id, trust] + d),
            None => None,
        },
        _ => None,
    }
}

proof fn a_missing_field_has_no_dimensions(
    dedup_key: Option<Seq<char>>,
    payload: JsonV,
    fields: Seq<Seq<char>>,
    n: int,
)
    requires
        0 <= n <= fields.len(),
        dimensions(dedup_key, payload, fields.take(n)) is None,
    ensures
        dimensions(dedup_key, payload, fields) is None,
    decreases fields.len() - n,
{
    if n == fields.len() {
        assert(fields.take(n) =~= fields);
    } else {
        assert(fields.take(n + 1).drop_last() =~= fields.take(n));
        a_missing_field_has_no_dimensions(dedup_key, payload, fields, n + 1);
    }
}

fn read_dimension(dedup_key: &Option<String>, payload: &Json, name: &str) -> (r: Option<String>)
    ensures
        r.deep_view() == dimension(dedup_key.deep_view(), payload@, name@),
{
    if same_text(name, "thread_id") {
        if let Some(k) = dedup_key {
            return Some(k.clone());
        }
        if let Ok(c) = get_text(payload, "conversation_id", true) {
            return Some(c);
        }
    }
    match get_text(payload, name, true) {
        Ok(v) => Some(v),
        Err(_) => None,
    }
}

/// The key of the session that a step belongs to, from the key by which its stimulus was folded
/// and the stimulus's payload.
pub fn session_key(
    prompt: &StatePrompt,
    trust: &str,
    dedup_key: &Option<String>,
    payload: &Json,
) -> (r: Option<Vec<String>>)
    ensures
        r.deep_view() == key_of(prompt@, trust@, dedup_key.deep_view(), payload@),
{
    match &prompt.session {
        Some(s) => {
            if !s.sticky {
                return None;
            }
            let ghost fields = models(s.key@);
            let mut out: Vec<String> = Vec::new();
            out.push(prompt.id.clone());
            out.push(owned(trust));
            let mut i: usize = 0;
            assert(fields.take(0) =~= Seq::empty());
            assert(out.deep_view() =~= seq![prompt.id@, trust@] + Seq::<Seq<char>>::empty());
            while i < s.key.len()
                invariant
                    i <= s.key@.len(),
                    fields == models(s.key@),
                    prompt@.front.session == Some((true, fields)),
                    dimensions(
                        dedup_key.deep_view(),
                        payload@,
                        fields.take(i as int),
                    ) is Some,
                    out.deep_view() == seq![prompt.id@, trust@] + dimensions(
                        dedup_key.deep_view(),
                        payload@,
                        fields.take(i as int),
                    )->0,
                decreases s.key@.len() - i,
            {
                proof {
                    assert(fields.take(i + 1).drop_last() =~= fields.take(i as int));
                    assert(fields.take(i + 1).last() == s.key@[i as int]@);
                }
                let ghost o = out.deep_view();
                match read_dimension(dedup_key, payload, s.key[i].as_str()) {
                    Some(v) => {
                        out.push(v);
                        assert(out.deep_view() =~= o.push(v@));
                        assert(out.deep_view() =~= seq![prompt.id@, trust@] + dimensions(
                            dedup_key.deep_view(),
                            payload@,
                            fields.take(i + 1),
                        )->0);
                    },
                    None => {
                        proof {
                            a_missing_field_has_no_dimensions(
                                dedup_key.deep_view(),
                                payload@,
                                fields,
                                i + 1,
                            );
                        }
                        return None;
                    },
                }
                i += 1;
            }
            assert(fields.take(i as int) =~= fields);
            Some(out)
        },
        None => None,
    }
}

// ── The table ───────────────────────────────────────────────────────────────────────────

/// A session that is kept.
#[derive(Debug)]
pub struct SessionRow {
    pub key: Vec<String>,
    pub id: SessionId,
    /// When it was last used, in Unix seconds.
    pub used: i64,
}

/// What a [`SessionRow`] holds.
#[verifier::ext_equal]
pub struct RowV {
    pub key: Seq<Seq<char>>,
    pub id: Seq<char>,
    pub used: i64,
}

impl DeepView for SessionRow {
    type V = RowV;

    open spec fn deep_view(&self) -> RowV {
        RowV { key: self.key.deep_view(), id: self.id@, used: self.used }
    }
}

/// The sessions that are kept.
#[derive(Debug)]
pub struct SessionTable {
    pub rows: Vec<SessionRow>,
}

impl View for SessionTable {
    type V = Seq<RowV>;

    open spec fn view(&self) -> Seq<RowV> {
        self.rows.deep_view()
    }
}

/// The session under a key, and when it was last used.
pub open spec fn found(rows: Seq<RowV>, key: Seq<Seq<char>>) -> Option<(Seq<char>, i64)>
    decreases rows.len(),
{
    if rows.len() == 0 {
        None
    } else if rows.last().key == key {
        Some((rows.last().id, rows.last().used))
    } else {
        found(rows.drop_last(), key)
    }
}

/// A session is live until it was idle for too long; a bound of 0 never drops one.
pub open spec fn live(used: i64, now: i64, ttl: u64) -> bool {
    ttl == 0 || now - used <= ttl
}

/// The session that is resumed.
pub open spec fn resumable(rows: Seq<RowV>, key: Seq<Seq<char>>, now: i64, ttl: u64) -> Option<
    (Seq<char>, i64),
> {
    match found(rows, key) {
        Some((id, used)) => if live(used, now, ttl) {
            Some((id, used))
        } else {
            None
        },
        None => None,
    }
}

/// The rows of other keys.
pub open spec fn others(rows: Seq<RowV>, key: Seq<Seq<char>>) -> Seq<RowV>
    decreases rows.len(),
{
    if rows.len() == 0 {
        Seq::empty()
    } else if rows.last().key == key {
        others(rows.drop_last(), key)
    } else {
        others(rows.drop_last(), key).push(rows.last())
    }
}

/// What is kept once a step has run. It began under one key and ended under another where it
/// touched something less trusted: what it resumed is then forgotten under the first, and its
/// session is kept under the second.
pub open spec fn settled(
    rows: Seq<RowV>,
    before: Option<Seq<Seq<char>>>,
    after: Option<Seq<Seq<char>>>,
    id: Option<Seq<char>>,
    now: i64,
) -> Seq<RowV> {
    let kept = match before {
        Some(b) => if before == after {
            rows
        } else {
            others(rows, b)
        },
        None => rows,
    };
    match (after, id) {
        (Some(key), Some(id)) => others(kept, key).push(RowV { key, id, used: now }),
        _ => kept,
    }
}

fn is_live(used: i64, now: i64, ttl: u64) -> (r: bool)
    ensures
        r == live(used, now, ttl),
{
    ttl == 0 || now as i128 - used as i128 <= ttl as i128
}

fn same_key(a: &Vec<String>, b: &Vec<String>) -> (r: bool)
    ensures
        r == (a.deep_view() == b.deep_view()),
{
    let ghost av = a.deep_view();
    let ghost bv = b.deep_view();
    assert(av.len() == a@.len() && bv.len() == b@.len());
    if a.len() != b.len() {
        return false;
    }
    let mut i: usize = 0;
    while i < a.len()
        invariant
            i <= a@.len(),
            a@.len() == b@.len(),
            av == a.deep_view(),
            bv == b.deep_view(),
            forall|k: int| 0 <= k < i ==> av[k] == bv[k],
        decreases a@.len() - i,
    {
        assert(av[i as int] == a@[i as int]@ && bv[i as int] == b@[i as int]@);
        if !same_text(a[i].as_str(), b[i].as_str()) {
            return false;
        }
        i += 1;
    }
    assert(av =~= bv);
    true
}

fn copy_row(row: &SessionRow) -> (r: SessionRow)
    ensures
        r.deep_view() == row.deep_view(),
{
    SessionRow { key: crate::text::owned_all(&row.key), id: row.id.clone(), used: row.used }
}

impl SessionTable {
    pub fn new() -> (r: SessionTable)
        ensures
            r@ == Seq::<RowV>::empty(),
    {
        let rows: Vec<SessionRow> = Vec::new();
        assert(rows.deep_view() =~= Seq::empty());
        SessionTable { rows }
    }

    /// The session to resume under a key, and when it was last used; none where there is none
    /// or it was idle for too long.
    pub fn resume(&self, key: &Vec<String>, now: i64, ttl: u64) -> (r: Option<(SessionId, i64)>)
        ensures
            match r {
                Some((id, used)) => resumable(self@, key.deep_view(), now, ttl) == Some((id@, used)),
                None => resumable(self@, key.deep_view(), now, ttl) is None,
            },
    {
        let mut i: usize = self.rows.len();
        let ghost all = self@;
        assert(all.len() == self.rows@.len());
        assert(all.take(i as int) =~= all);
        while i > 0
            invariant
                i <= self.rows@.len(),
                all == self@,
                all.len() == self.rows@.len(),
                found(all, key.deep_view()) == found(all.take(i as int), key.deep_view()),
            decreases i,
        {
            proof {
                assert(all.take(i as int).last() == all[i - 1]);
                assert(all[i - 1] == self.rows@[i - 1].deep_view());
                assert(all.take(i as int).drop_last() =~= all.take(i - 1));
            }
            let row = &self.rows[i - 1];
            if same_key(&row.key, key) {
                return if is_live(row.used, now, ttl) {
                    Some((row.id.clone(), row.used))
                } else {
                    None
                };
            }
            i -= 1;
        }
        None
    }

    /// Forgets the session under a key.
    pub fn forget(&mut self, key: &Vec<String>)
        ensures
            final(self)@ == others(old(self)@, key.deep_view()),
    {
        let ghost all = self@;
        assert(all.len() == self.rows@.len());
        let mut out: Vec<SessionRow> = Vec::new();
        let mut i: usize = 0;
        assert(all.take(0) =~= Seq::empty());
        assert(out.deep_view() =~= Seq::empty());
        while i < self.rows.len()
            invariant
                i <= self.rows@.len(),
                all == self@,
                all.len() == self.rows@.len(),
                out.deep_view() == others(all.take(i as int), key.deep_view()),
            decreases self.rows@.len() - i,
        {
            proof {
                assert(all.take(i + 1).last() == all[i as int]);
                assert(all[i as int] == self.rows@[i as int].deep_view());
                assert(all.take(i + 1).drop_last() =~= all.take(i as int));
            }
            let ghost o = out.deep_view();
            if !same_key(&self.rows[i].key, key) {
                out.push(copy_row(&self.rows[i]));
                assert(out.deep_view() =~= o.push(all[i as int]));
            }
            i += 1;
        }
        assert(all.take(i as int) =~= all);
        self.rows = out;
    }

    /// Keeps a session under a key, in place of the one that was kept there.
    pub fn record(&mut self, key: Vec<String>, id: SessionId, now: i64)
        ensures
            final(self)@ == others(old(self)@, key.deep_view()).push(
                RowV { key: key.deep_view(), id: id@, used: now },
            ),
    {
        self.forget(&key);
        let ghost o = self@;
        self.rows.push(SessionRow { key, id, used: now });
        assert(self@ =~= o.push(RowV { key: key.deep_view(), id: id@, used: now }));
    }

    /// Keeps the session of a step that has run, under the key of the trust that the step ended
    /// with.
    pub fn settle(
        &mut self,
        before: &Option<Vec<String>>,
        after: Option<Vec<String>>,
        id: Option<SessionId>,
        now: i64,
    )
        ensures
            final(self)@ == settled(
                old(self)@,
                before.deep_view(),
                after.deep_view(),
                id.deep_view(),
                now,
            ),
    {
        match before {
            Some(b) => {
                let same = match &after {
                    Some(a) => same_key(a, b),
                    None => false,
                };
                if !same {
                    self.forget(b);
                }
            },
            None => {},
        }
        match (after, id) {
            (Some(key), Some(id)) => self.record(key, id, now),
            _ => {},
        }
    }
}

// ── Laws ────────────────────────────────────────────────────────────────────────────────

/// A different prompt or a different trust is always a different session.
pub proof fn a_session_never_crosses_the_firebreak(
    p: PromptV,
    q: PromptV,
    trust: Seq<char>,
    other: Seq<char>,
    dedup: Option<Seq<char>>,
    dedup2: Option<Seq<char>>,
    payload: JsonV,
    payload2: JsonV,
)
    requires
        key_of(p, trust, dedup, payload) is Some,
        key_of(p, trust, dedup, payload) == key_of(q, other, dedup2, payload2),
    ensures
        p.id == q.id,
        trust == other,
{
    let a = key_of(p, trust, dedup, payload)->0;
    let b = key_of(q, other, dedup2, payload2)->0;
    assert(a[0] == p.id && b[0] == q.id);
    assert(a[1] == trust && b[1] == other);
}

/// Stimuli of one thread share their session, whatever their payloads hold.
pub proof fn a_thread_shares_its_session(
    p: PromptV,
    trust: Seq<char>,
    thread: Seq<char>,
    payload: JsonV,
    payload2: JsonV,
)
    requires
        p.front.session == Some((true, seq!["thread_id"@])),
    ensures
        key_of(p, trust, Some(thread), payload) == Some(seq![p.id, trust, thread]),
        key_of(p, trust, Some(thread), payload) == key_of(p, trust, Some(thread), payload2),
{
    let f = seq!["thread_id"@];
    assert(f.drop_last() =~= Seq::empty());
    assert(dimensions(Some(thread), payload, f.drop_last()) == Some(Seq::<Seq<char>>::empty()));
    assert(dimensions(Some(thread), payload2, f.drop_last()) == Some(Seq::<Seq<char>>::empty()));
    assert(f.last() == "thread_id"@);
    assert(seq![p.id, trust] + Seq::<Seq<char>>::empty().push(thread) =~= seq![
        p.id,
        trust,
        thread,
    ]);
}

proof fn others_keep(rows: Seq<RowV>, key: Seq<Seq<char>>, k: Seq<Seq<char>>)
    requires
        k != key,
    ensures
        found(others(rows, key), k) == found(rows, k),
    decreases rows.len(),
{
    if rows.len() > 0 {
        others_keep(rows.drop_last(), key, k);
        if rows.last().key != key {
            assert(others(rows, key).drop_last() =~= others(rows.drop_last(), key));
        }
    }
}

/// A session that was just used is the one that its key resumes, and every other key resumes
/// what it resumed before.
pub proof fn a_recorded_session_is_resumed(
    rows: Seq<RowV>,
    key: Seq<Seq<char>>,
    id: Seq<char>,
    now: i64,
    other: Seq<Seq<char>>,
)
    ensures
        ({
            let after = others(rows, key).push(RowV { key, id, used: now });
            &&& found(after, key) == Some((id, now))
            &&& other != key ==> found(after, other) == found(rows, other)
        }),
{
    let after = others(rows, key).push(RowV { key, id, used: now });
    assert(after.drop_last() =~= others(rows, key));
    if other != key {
        others_keep(rows, key, other);
    }
}

proof fn others_hold_no_such_key(rows: Seq<RowV>, key: Seq<Seq<char>>)
    ensures
        found(others(rows, key), key) is None,
    decreases rows.len(),
{
    if rows.len() > 0 {
        others_hold_no_such_key(rows.drop_last(), key);
        if rows.last().key != key {
            assert(others(rows, key).drop_last() =~= others(rows.drop_last(), key));
        }
    }
}

/// A session that touched something less trusted is never resumed at the trust that it began
/// with.
pub proof fn a_tainted_session_is_not_resumed(
    rows: Seq<RowV>,
    before: Seq<Seq<char>>,
    after: Option<Seq<Seq<char>>>,
    id: Option<Seq<char>>,
    now: i64,
)
    requires
        after != Some(before),
    ensures
        found(settled(rows, Some(before), after, id, now), before) is None,
{
    others_hold_no_such_key(rows, before);
    if after is Some && id is Some {
        a_recorded_session_is_resumed(others(rows, before), after->0, id->0, now, before);
    }
}

/// A dimension of a session is a text of the payload under its name; the thread is the key under
/// which the stimulus was gathered, or the conversation of the payload.
pub proof fn a_thread_is_its_conversation(
    dedup: Option<Seq<char>>,
    payload: JsonV,
    name: Seq<char>,
    c: Seq<char>,
)
    ensures
        name != "thread_id"@ ==> dimension(dedup, payload, name) == text_at(payload, name, true),
        dedup is Some ==> dimension(dedup, payload, "thread_id"@) == dedup,
        dedup is None && text_at(payload, "conversation_id"@, true) == Some(c) ==> dimension(
            dedup,
            payload,
            "thread_id"@,
        ) == Some(c),
        dedup is None && text_at(payload, "conversation_id"@, true) is None ==> dimension(
            dedup,
            payload,
            "thread_id"@,
        ) == text_at(payload, "thread_id"@, true),
{
}

/// A sticky prompt keeps a session for each value of its dimensions, in their order, and none where
/// a dimension is missing. Any other prompt keeps none.
pub proof fn a_session_has_every_dimension(
    p: PromptV,
    trust: Seq<char>,
    dedup: Option<Seq<char>>,
    payload: JsonV,
)
    ensures
        match p.front.session {
            Some((sticky, fields)) => {
                &&& key_of(p, trust, dedup, payload) is Some <==> sticky && forall|i: int|
                    0 <= i < fields.len() ==> dimension(dedup, payload, #[trigger] fields[i]) is Some
                &&& key_of(p, trust, dedup, payload) matches Some(k) ==> {
                    &&& k.len() == fields.len() + 2
                    &&& k[0] == p.id && k[1] == trust
                    &&& forall|i: int|
                        0 <= i < fields.len() ==> dimension(dedup, payload, #[trigger] fields[i])
                            == Some(k[i + 2])
                }
            },
            None => key_of(p, trust, dedup, payload) is None,
        },
{
    match p.front.session {
        Some((_, fields)) => {
            every_dimension_is_read(dedup, payload, fields);
        },
        None => {},
    }
}

proof fn every_dimension_is_read(dedup: Option<Seq<char>>, payload: JsonV, fields: Seq<Seq<char>>)
    ensures
        dimensions(dedup, payload, fields) is Some <==> forall|i: int|
            0 <= i < fields.len() ==> dimension(dedup, payload, #[trigger] fields[i]) is Some,
        dimensions(dedup, payload, fields) matches Some(v) ==> {
            &&& v.len() == fields.len()
            &&& forall|i: int|
                0 <= i < fields.len() ==> dimension(dedup, payload, #[trigger] fields[i]) == Some(v[i])
        },
    decreases fields.len(),
{
    if fields.len() > 0 {
        let rest = fields.drop_last();
        every_dimension_is_read(dedup, payload, rest);
        assert(forall|i: int|
            #![trigger rest[i]]
            #![trigger fields[i]]
            0 <= i < rest.len() ==> rest[i] == fields[i]);
        assert(fields.last() == fields[fields.len() - 1]);
    }
}

/// A session is resumed while it was used within its time, to the second, and always where there is
/// no limit.
pub proof fn a_session_lasts_its_time(
    rows: Seq<RowV>,
    key: Seq<Seq<char>>,
    id: Seq<char>,
    used: i64,
    now: i64,
    ttl: u64,
)
    requires
        found(rows, key) == Some((id, used)),
    ensures
        resumable(rows, key, now, 0) == Some((id, used)),
        ttl > 0 && now <= used + ttl ==> resumable(rows, key, now, ttl) == Some((id, used)),
        ttl > 0 && now > used + ttl ==> resumable(rows, key, now, ttl) is None,
{
}

/// A session is found by its key: the last row with it, and none where no row has it.
pub proof fn a_session_is_found_by_its_key(rows: Seq<RowV>, key: Seq<Seq<char>>, i: int)
    ensures
        0 <= i < rows.len() && rows[i].key == key && (forall|j: int|
            i < j < rows.len() ==> (#[trigger] rows[j]).key != key) ==> found(rows, key) == Some(
            (rows[i].id, rows[i].used),
        ),
        (forall|j: int| 0 <= j < rows.len() ==> (#[trigger] rows[j]).key != key) ==> found(
            rows,
            key,
        ) is None,
    decreases rows.len(),
{
    if rows.len() > 0 {
        let rest = rows.drop_last();
        let n = rows.len() - 1;
        assert(forall|j: int|
            #![trigger rest[j]]
            #![trigger rows[j]]
            0 <= j < rest.len() ==> rest[j] == rows[j]);
        assert(rows.last() == rows[n]);
        a_session_is_found_by_its_key(rest, key, i);
    }
}

/// Forgetting a session takes away the rows of its key alone, and leaves the others in their order.
pub proof fn forgetting_takes_one_session(a: Seq<RowV>, b: Seq<RowV>, r: RowV, key: Seq<Seq<char>>)
    ensures
        others(a + b, key) == others(a, key) + others(b, key),
        others(seq![r], key) == if r.key == key {
            Seq::<RowV>::empty()
        } else {
            seq![r]
        },
    decreases b.len(),
{
    assert(seq![r].drop_last() =~= Seq::<RowV>::empty());
    assert(others(seq![r].drop_last(), key) =~= Seq::<RowV>::empty());
    if b.len() == 0 {
        assert(a + b =~= a);
        assert(others(b, key) =~= Seq::<RowV>::empty());
        assert(others(a, key) + others(b, key) =~= others(a, key));
    } else {
        forgetting_takes_one_session(a, b.drop_last(), r, key);
        assert((a + b).drop_last() =~= a + b.drop_last());
        assert((a + b).last() == b.last());
        assert(others(a + b, key) =~= others(a, key) + others(b, key));
    }
}

/// When a run settles, its session is kept under the key that it has then, with the time, and no
/// session of another key is touched but the one that the run began with.
pub proof fn a_settled_session_stands_under_its_new_key(
    rows: Seq<RowV>,
    before: Option<Seq<Seq<char>>>,
    after: Option<Seq<Seq<char>>>,
    id: Option<Seq<char>>,
    now: i64,
    other: Seq<Seq<char>>,
)
    ensures
        after is Some && id is Some ==> found(settled(rows, before, after, id, now), after->0)
            == Some((id->0, now)),
        before != Some(other) && after != Some(other) ==> found(
            settled(rows, before, after, id, now),
            other,
        ) == found(rows, other),
        id is None && before is Some && before == after ==> settled(rows, before, after, id, now)
            == rows,
{
    let kept = match before {
        Some(b) => if before == after {
            rows
        } else {
            others(rows, b)
        },
        None => rows,
    };
    match before {
        Some(b) => {
            a_recorded_session_is_resumed(rows, b, Seq::empty(), 0, other);
            let r = RowV { key: b, id: Seq::empty(), used: 0i64 };
            assert(others(rows, b).push(r).drop_last() =~= others(rows, b));
        },
        None => {},
    }
    match (after, id) {
        (Some(k), Some(i)) => {
            a_recorded_session_is_resumed(kept, k, i, now, other);
        },
        _ => {},
    }
}

} // verus!
