//! The queue of stimuli.
//!
//! One row is handed out at a time, by priority and then by age. A row may carry a second
//! before which it is not handed out. Beside the rows stand the cursors: small texts by
//! which pollers, the pause switch and the reflect cadence remember where they were.

use vstd::prelude::*;

use crate::config::{tier_meet, TierV, TrustLattice};
use crate::json::{Json, JsonV};
use crate::model::stimulus::{
    priority_rank, Priority, Stimulus, StimulusId, StimulusStatus, StimulusV, TrustTier,
};
use crate::strmap::{texts, StrMap};
use crate::text::{owned, same_text};

verus! {

/// A queue that lives in memory.
#[derive(Debug)]
pub struct InMemoryQueue {
    pub rows: Vec<Stimulus>,
    pub cursors: StrMap<String>,
}

/// What rows hold.
pub open spec fn rows_view(v: Seq<Stimulus>) -> Seq<StimulusV> {
    v.map_values(|s: Stimulus| s@)
}

/// A row can be handed out at `now`.
pub open spec fn ready(s: StimulusV, now: i64) -> bool {
    s.status == StimulusStatus::Pending && (s.pop_after is Some ==> s.pop_after->0 <= now)
}

/// `a` is handed out before `b` whatever their places: it has the higher priority, or the
/// same and is older.
pub open spec fn goes_before(a: StimulusV, b: StimulusV) -> bool {
    priority_rank(a.priority) < priority_rank(b.priority) || (priority_rank(a.priority)
        == priority_rank(b.priority) && a.received_at < b.received_at)
}

/// The row that is handed out at `now`: a ready one that no ready row goes before, and the
/// first of those that are equal.
pub open spec fn is_next(rows: Seq<StimulusV>, now: i64, i: int) -> bool {
    &&& 0 <= i < rows.len()
    &&& ready(rows[i], now)
    &&& forall|j: int|
        0 <= j < rows.len() && ready(#[trigger] rows[j], now) ==> !goes_before(rows[j], rows[i])
            && (j < i ==> goes_before(rows[i], rows[j]))
}

/// A row with another status.
pub open spec fn with_status(s: StimulusV, status: StimulusStatus) -> StimulusV {
    StimulusV { status, ..s }
}

/// The first row with this id.
pub open spec fn row_index(rows: Seq<StimulusV>, id: Seq<char>) -> Option<int>
    decreases rows.len(),
{
    if rows.len() == 0 {
        None
    } else if rows[0].id == id {
        Some(0)
    } else {
        match row_index(rows.skip(1), id) {
            Some(i) => Some(i + 1),
            None => None,
        }
    }
}

/// A row that is found by its id has that id.
pub proof fn row_index_names_a_row(rows: Seq<StimulusV>, id: Seq<char>)
    ensures
        row_index(rows, id) is Some ==> 0 <= row_index(rows, id)->0 < rows.len() && rows[row_index(
            rows,
            id,
        )->0].id == id,
    decreases rows.len(),
{
    if rows.len() > 0 && rows[0].id != id {
        row_index_names_a_row(rows.skip(1), id);
    }
}

/// The rows after the row with this id got another status.
pub open spec fn status_set(
    rows: Seq<StimulusV>,
    id: Seq<char>,
    status: StimulusStatus,
) -> Seq<StimulusV> {
    match row_index(rows, id) {
        Some(i) => rows.update(i, with_status(rows[i], status)),
        None => rows,
    }
}

/// A row that a candidate of this type and key can fold into.
pub open spec fn foldable(s: StimulusV, type_: Seq<char>, key: Seq<char>) -> bool {
    s.status == StimulusStatus::Pending && s.type_ == type_ && s.dedup_key == Some(key)
}

/// The rows after something folded into the row with this id: the row has another payload, and
/// is trusted no more than before and no more than what folded in.
pub open spec fn folded_in(
    rows: Seq<StimulusV>,
    l: Seq<TierV>,
    id: Seq<char>,
    payload: JsonV,
    tier: Seq<char>,
) -> Seq<StimulusV> {
    match row_index(rows, id) {
        Some(i) => rows.update(
            i,
            StimulusV {
                payload,
                payload_tier: tier_meet(l, rows[i].payload_tier, tier),
                ..rows[i]
            },
        ),
        None => rows,
    }
}

/// The number of rows that wait.
pub open spec fn pending(rows: Seq<StimulusV>) -> nat
    decreases rows.len(),
{
    if rows.len() == 0 {
        0
    } else {
        pending(rows.drop_last()) + if rows.last().status == StimulusStatus::Pending {
            1nat
        } else {
            0
        }
    }
}

/// The number of rows that are out.
pub open spec fn dispatched(rows: Seq<StimulusV>) -> nat
    decreases rows.len(),
{
    if rows.len() == 0 {
        0
    } else {
        dispatched(rows.drop_last()) + if rows.last().status == StimulusStatus::Dispatched {
            1nat
        } else {
            0
        }
    }
}

/// A row that may be given up under load.
pub open spec fn sheddable(s: StimulusV) -> bool {
    s.status == StimulusStatus::Pending && s.priority == Priority::Low
}

/// The row that is given up first: the oldest of low priority, and the first of those that
/// are equally old.
pub open spec fn is_oldest_low(rows: Seq<StimulusV>, i: int) -> bool {
    &&& 0 <= i < rows.len()
    &&& sheddable(rows[i])
    &&& forall|j: int|
        0 <= j < rows.len() && sheddable(#[trigger] rows[j]) ==> rows[i].received_at
            <= rows[j].received_at && (j < i ==> rows[i].received_at < rows[j].received_at)
}

/// `after` comes from `before` by giving up, one by one, the rows that are `gone`.
pub open spec fn shed_from(
    before: Seq<StimulusV>,
    after: Seq<StimulusV>,
    gone: Seq<Seq<char>>,
    cap: int,
) -> bool
    decreases gone.len(),
{
    if gone.len() == 0 {
        before == after
    } else {
        &&& pending(before) > cap
        &&& exists|i: int|
            {
                &&& #[trigger] is_oldest_low(before, i)
                &&& before[i].id == gone[0]
                &&& shed_from(before.remove(i), after, gone.skip(1), cap)
            }
    }
}

fn comes_first(a: &Stimulus, b: &Stimulus) -> (r: bool)
    ensures
        r == goes_before(a@, b@),
{
    let x: i32 = a.priority.numeric();
    let y: i32 = b.priority.numeric();
    x < y || (x == y && a.received_at < b.received_at)
}

fn is_ready(s: &Stimulus, now: i64) -> (r: bool)
    ensures
        r == ready(s@, now),
{
    s.status == StimulusStatus::Pending && match s.pop_after {
        Some(t) => t <= now,
        None => true,
    }
}

impl InMemoryQueue {
    /// What the rows hold.
    pub open spec fn view(&self) -> Seq<StimulusV> {
        rows_view(self.rows@)
    }

    /// What the cursors hold.
    pub open spec fn marks(&self) -> Map<Seq<char>, Seq<char>> {
        texts(self.cursors)
    }

    /// An empty queue.
    pub fn new() -> (r: InMemoryQueue)
        ensures
            r@ == Seq::<StimulusV>::empty(),
            r.marks() == Map::<Seq<char>, Seq<char>>::empty(),
    {
        let r = InMemoryQueue { rows: Vec::new(), cursors: StrMap::new() };
        assert(r@ =~= Seq::empty());
        assert(r.marks() =~= Map::empty());
        r
    }

    /// Adds a row.
    pub fn enqueue(&mut self, stimulus: Stimulus)
        ensures
            final(self)@ == old(self)@.push(stimulus@),
            final(self).cursors == old(self).cursors,
    {
        let ghost before = self@;
        self.rows.push(stimulus);
        assert(self@ =~= before.push(stimulus@));
    }

    /// Adds a row, unless one with its id is there: a fire that is tried again is no second
    /// wake. Tells whether the row was added.
    pub fn enqueue_once(&mut self, stimulus: Stimulus) -> (r: bool)
        ensures
            r == (row_index(old(self)@, stimulus.id@) is None),
            final(self)@ == (if r {
                old(self)@.push(stimulus@)
            } else {
                old(self)@
            }),
            final(self).cursors == old(self).cursors,
    {
        match self.find(&stimulus.id) {
            Some(_) => false,
            None => {
                self.enqueue(stimulus);
                true
            },
        }
    }

    fn find(&self, id: &StimulusId) -> (r: Option<usize>)
        ensures
            match r {
                Some(i) => row_index(self@, id@) == Some(i as int) && i < self.rows@.len(),
                None => row_index(self@, id@) is None,
            },
    {
        let ghost all = self@;
        let mut i: usize = 0;
        assert(all.skip(0) =~= all);
        while i < self.rows.len()
            invariant
                i <= self.rows@.len(),
                all == self@,
                row_index(all, id@) == (match row_index(all.skip(i as int), id@) {
                    Some(k) => Some(k + i),
                    None => None,
                }),
            decreases self.rows@.len() - i,
        {
            assert(all.skip(i as int)[0] == self.rows@[i as int]@);
            assert(all.skip(i as int).skip(1) =~= all.skip(i + 1));
            if same_text(self.rows[i].id.0.as_str(), id.0.as_str()) {
                return Some(i);
            }
            i += 1;
        }
        None
    }

    fn put_status(&mut self, i: usize, status: StimulusStatus)
        requires
            i < old(self).rows@.len(),
        ensures
            final(self)@ == old(self)@.update(i as int, with_status(old(self)@[i as int], status)),
            final(self).cursors == old(self).cursors,
    {
        let ghost before = self@;
        let mut s = self.rows[i].clone();
        s.status = status;
        let ghost v = s@;
        self.rows.set(i, s);
        assert(v == with_status(before[i as int], status));
        assert(self@ =~= before.update(i as int, v));
    }

    /// Hands out the next row, if one is ready at `now`, and marks it as out.
    pub fn next(&mut self, now: i64) -> (r: Option<Stimulus>)
        ensures
            match r {
                Some(s) => exists|i: int|
                    {
                        &&& #[trigger] is_next(old(self)@, now, i)
                        &&& s@ == with_status(old(self)@[i], StimulusStatus::Dispatched)
                        &&& final(self)@ == old(self)@.update(i, s@)
                    },
                None => final(self)@ == old(self)@ && forall|i: int|
                    0 <= i < old(self)@.len() ==> !ready(#[trigger] old(self)@[i], now),
            },
            final(self).cursors == old(self).cursors,
    {
        let ghost all = self@;
        let mut best: Option<usize> = None;
        let mut i: usize = 0;
        while i < self.rows.len()
            invariant
                i <= self.rows@.len(),
                self == old(self),
                all == self@,
                match best {
                    Some(b) => b < i && ready(all[b as int], now) && forall|j: int|
                        0 <= j < i && ready(#[trigger] all[j], now) ==> !goes_before(
                            all[j],
                            all[b as int],
                        ) && (j < b ==> goes_before(all[b as int], all[j])),
                    None => forall|j: int| 0 <= j < i ==> !ready(#[trigger] all[j], now),
                },
            decreases self.rows@.len() - i,
        {
            assert(all[i as int] == self.rows@[i as int]@);
            if is_ready(&self.rows[i], now) {
                match best {
                    Some(b) => {
                        assert(all[b as int] == self.rows@[b as int]@);
                        if comes_first(&self.rows[i], &self.rows[b]) {
                            best = Some(i);
                        }
                    },
                    None => {
                        best = Some(i);
                    },
                }
            }
            i += 1;
        }
        match best {
            Some(b) => {
                self.put_status(b, StimulusStatus::Dispatched);
                assert(is_next(all, now, b as int));
                assert(self@.len() == self.rows@.len());
                assert(self@[b as int] == self.rows@[b as int]@);
                Some(self.rows[b].clone())
            },
            None => None,
        }
    }

    /// Gives the row with this id another status.
    pub fn update_status(&mut self, id: &StimulusId, status: StimulusStatus)
        ensures
            final(self)@ == status_set(old(self)@, id@, status),
            final(self).cursors == old(self).cursors,
    {
        match self.find(id) {
            Some(i) => self.put_status(i, status),
            None => {},
        }
    }

    /// Replaces the payload of the row with this id.
    pub fn set_payload(&mut self, id: &StimulusId, payload: Json)
        ensures
            final(self)@ == (match row_index(old(self)@, id@) {
                Some(i) => old(self)@.update(
                    i,
                    StimulusV { payload: payload@, ..old(self)@[i] },
                ),
                None => old(self)@,
            }),
            final(self).cursors == old(self).cursors,
    {
        let ghost before = self@;
        match self.find(id) {
            Some(i) => {
                let ghost p = payload@;
                let mut s = self.rows[i].clone();
                s.payload = payload;
                let ghost v = s@;
                self.rows.set(i, s);
                assert(v == StimulusV { payload: p, ..before[i as int] });
                assert(self@ =~= before.update(i as int, v));
            },
            None => {},
        }
    }

    /// Puts a payload in the place of the payload of the row with this id, and lowers the trust of
    /// the row to what the payload brings.
    pub fn fold(
        &mut self,
        lattice: &TrustLattice,
        id: &StimulusId,
        payload: Json,
        tier: &TrustTier,
    )
        ensures
            final(self)@ == folded_in(old(self)@, lattice@, id@, payload@, tier@),
            final(self).cursors == old(self).cursors,
    {
        let ghost before = self@;
        match self.find(id) {
            Some(i) => {
                let ghost p = payload@;
                let mut s = self.rows[i].clone();
                s.payload = payload;
                s.payload_tier = lattice.meet(&self.rows[i].payload_tier, tier);
                let ghost v = s@;
                self.rows.set(i, s);
                assert(v == StimulusV {
                    payload: p,
                    payload_tier: tier_meet(lattice@, before[i as int].payload_tier, tier@),
                    ..before[i as int]
                });
                assert(self@ =~= before.update(i as int, v));
            },
            None => {},
        }
    }

    /// Makes every row wait again that a crash left marked as out, and counts them.
    pub fn reclaim_orphans(&mut self) -> (r: usize)
        ensures
            r == dispatched(old(self)@),
            final(self)@ == reclaimed(old(self)@),
            final(self).cursors == old(self).cursors,
    {
        let ghost all = self@;
        let mut n: usize = 0;
        let mut i: usize = 0;
        assert(all.take(0) =~= Seq::empty());
        assert(reclaimed(all).take(0) + all.skip(0) =~= all);
        while i < self.rows.len()
            invariant
                i <= self.rows@.len(),
                self.rows@.len() == all.len(),
                n <= i,
                n == dispatched(all.take(i as int)),
                self@ == reclaimed(all).take(i as int) + all.skip(i as int),
                self.cursors == old(self).cursors,
            decreases self.rows@.len() - i,
        {
            proof {
                assert(all.take(i + 1).drop_last() =~= all.take(i as int));
                assert(all.take(i + 1).last() == all[i as int]);
                assert(self@[i as int] == all[i as int]);
                assert(self@[i as int] == self.rows@[i as int]@);
            }
            if self.rows[i].status == StimulusStatus::Dispatched {
                self.put_status(i, StimulusStatus::Pending);
                n += 1;
            }
            assert(self@ =~= reclaimed(all).take(i + 1) + all.skip(i + 1));
            i += 1;
        }
        assert(all.take(i as int) =~= all);
        assert(reclaimed(all).take(i as int) + all.skip(i as int) =~= reclaimed(all));
        n
    }

    /// The rows that a candidate of this type and key can fold into, in the order in which
    /// they came.
    pub fn find_coalescable(&self, type_: &str, dedup_key: &str) -> (r: Vec<Stimulus>)
        ensures
            rows_view(r@) == self@.filter(|s: StimulusV| foldable(s, type_@, dedup_key@)),
    {
        let ghost all = self@;
        let ghost p = |s: StimulusV| foldable(s, type_@, dedup_key@);
        let mut out: Vec<Stimulus> = Vec::new();
        let mut i: usize = 0;
        assert(all.take(0) =~= Seq::empty());
        assert(rows_view(out@) =~= all.take(0).filter(p)) by {
            reveal(Seq::filter);
        }
        while i < self.rows.len()
            invariant
                i <= self.rows@.len(),
                all == self@,
                p == (|s: StimulusV| foldable(s, type_@, dedup_key@)),
                rows_view(out@) == all.take(i as int).filter(p),
            decreases self.rows@.len() - i,
        {
            proof {
                assert(all.take(i + 1).drop_last() =~= all.take(i as int));
                assert(all.take(i + 1).last() == self.rows@[i as int]@);
                reveal(Seq::filter);
            }
            let ghost o = out@;
            let s = &self.rows[i];
            let same_key = match &s.dedup_key {
                Some(k) => same_text(k.as_str(), dedup_key),
                None => false,
            };
            if s.status == StimulusStatus::Pending && same_text(s.type_.0.as_str(), type_)
                && same_key {
                let c = s.clone();
                let ghost v = c@;
                out.push(c);
                assert(rows_view(out@) =~= rows_view(o).push(v));
            }
            i += 1;
        }
        assert(all.take(i as int) =~= all);
        out
    }

    /// The number of rows that wait.
    pub fn depth(&self) -> (r: usize)
        ensures
            r == pending(self@),
    {
        let ghost all = self@;
        let mut n: usize = 0;
        let mut i: usize = 0;
        assert(all.take(0) =~= Seq::empty());
        while i < self.rows.len()
            invariant
                i <= self.rows@.len(),
                all == self@,
                n <= i,
                n == pending(all.take(i as int)),
            decreases self.rows@.len() - i,
        {
            proof {
                assert(all.take(i + 1).drop_last() =~= all.take(i as int));
                assert(all.take(i + 1).last() == self.rows@[i as int]@);
            }
            if self.rows[i].status == StimulusStatus::Pending {
                n += 1;
            }
            i += 1;
        }
        assert(all.take(i as int) =~= all);
        n
    }

    /// The text of a cursor.
    pub fn get_cursor(&self, key: &str) -> (r: Option<String>)
        ensures
            match r {
                Some(v) => self.marks().contains_key(key@) && self.marks()[key@] == v@,
                None => !self.marks().contains_key(key@),
            },
    {
        match self.cursors.get(key) {
            Some(v) => Some(v.clone()),
            None => None,
        }
    }

    /// Sets the text of a cursor.
    pub fn set_cursor(&mut self, key: &str, value: &str)
        ensures
            final(self).marks() == old(self).marks().insert(key@, value@),
            final(self).rows == old(self).rows,
    {
        let ghost m = self.marks();
        self.cursors.insert(owned(key), owned(value));
        assert(self.marks() =~= m.insert(key@, value@));
    }

    fn oldest_low(&self) -> (r: Option<usize>)
        ensures
            match r {
                Some(i) => is_oldest_low(self@, i as int),
                None => forall|i: int| 0 <= i < self@.len() ==> !sheddable(#[trigger] self@[i]),
            },
    {
        let ghost all = self@;
        let mut best: Option<usize> = None;
        let mut i: usize = 0;
        while i < self.rows.len()
            invariant
                i <= self.rows@.len(),
                all == self@,
                match best {
                    Some(b) => b < i && sheddable(all[b as int]) && forall|j: int|
                        0 <= j < i && sheddable(#[trigger] all[j]) ==> all[b as int].received_at
                            <= all[j].received_at && (j < b ==> all[b as int].received_at
                            < all[j].received_at),
                    None => forall|j: int| 0 <= j < i ==> !sheddable(#[trigger] all[j]),
                },
            decreases self.rows@.len() - i,
        {
            assert(all[i as int] == self.rows@[i as int]@);
            if self.rows[i].status == StimulusStatus::Pending && self.rows[i].priority
                == Priority::Low {
                match best {
                    Some(b) => {
                        assert(all[b as int] == self.rows@[b as int]@);
                        if self.rows[i].received_at < self.rows[b].received_at {
                            best = Some(i);
                        }
                    },
                    None => {
                        best = Some(i);
                    },
                }
            }
            i += 1;
        }
        best
    }

    /// Gives up the oldest rows of low priority until no more than `cap` rows wait, or no
    /// row of low priority is left. Returns the ids of what was given up, in that order.
    pub fn shed(&mut self, cap: u64) -> (r: Vec<StimulusId>)
        ensures
            shed_from(old(self)@, final(self)@, r.deep_view(), cap as int),
            pending(final(self)@) <= cap || forall|i: int|
                0 <= i < final(self)@.len() ==> !sheddable(#[trigger] final(self)@[i]),
            final(self).cursors == old(self).cursors,
    {
        let mut gone: Vec<StimulusId> = Vec::new();
        let ghost start = self@;
        assert(gone.deep_view() =~= Seq::empty());
        loop
            invariant
                shed_from(start, self@, gone.deep_view(), cap as int),
                start == old(self)@,
                self.cursors == old(self).cursors,
            decreases self.rows@.len(),
        {
            if self.depth() as u64 <= cap {
                return gone;
            }
            match self.oldest_low() {
                None => return gone,
                Some(i) => {
                    let ghost before = self@;
                    let ghost g = gone.deep_view();
                    let s = self.rows.remove(i);
                    assert(self@ =~= before.remove(i as int));
                    let ghost id = s.id@;
                    assert(id == before[i as int].id);
                    gone.push(s.id);
                    assert(gone.deep_view() =~= g.push(id));
                    proof {
                        shed_one_more(start, before, self@, g, i as int, cap as int);
                    }
                },
            }
        }
    }
}

/// The rows after every row that is out waits again.
pub open spec fn reclaimed(rows: Seq<StimulusV>) -> Seq<StimulusV> {
    rows.map_values(
        |s: StimulusV|
            if s.status == StimulusStatus::Dispatched {
                with_status(s, StimulusStatus::Pending)
            } else {
                s
            },
    )
}

proof fn shed_one_more(
    start: Seq<StimulusV>,
    before: Seq<StimulusV>,
    after: Seq<StimulusV>,
    gone: Seq<Seq<char>>,
    i: int,
    cap: int,
)
    requires
        shed_from(start, before, gone, cap),
        pending(before) > cap,
        is_oldest_low(before, i),
        after == before.remove(i),
    ensures
        shed_from(start, after, gone.push(before[i].id), cap),
    decreases gone.len(),
{
    let more = gone.push(before[i].id);
    if gone.len() == 0 {
        assert(more.skip(1) =~= Seq::empty());
        assert(shed_from(before.remove(i), after, more.skip(1), cap));
        assert(is_oldest_low(start, i));
    } else {
        let k = choose|k: int|
            {
                &&& #[trigger] is_oldest_low(start, k)
                &&& start[k].id == gone[0]
                &&& shed_from(start.remove(k), before, gone.skip(1), cap)
            };
        shed_one_more(start.remove(k), before, after, gone.skip(1), i, cap);
        assert(more.skip(1) =~= gone.skip(1).push(before[i].id));
        assert(is_oldest_low(start, k));
    }
}

// ── Laws ────────────────────────────────────────────────────────────────────────────────

/// At most one row can be the next.
pub proof fn the_next_row_is_unique(rows: Seq<StimulusV>, now: i64, i: int, j: int)
    requires
        is_next(rows, now, i),
        is_next(rows, now, j),
    ensures
        i == j,
{
    assert(ready(rows[i], now) && ready(rows[j], now));
}

/// A waiting row of a higher priority is never passed over for one of a lower.
pub proof fn urgent_rows_go_first(rows: Seq<StimulusV>, now: i64, i: int, j: int)
    requires
        is_next(rows, now, i),
        0 <= j < rows.len(),
        ready(rows[j], now),
    ensures
        priority_rank(rows[i].priority) <= priority_rank(rows[j].priority),
        priority_rank(rows[i].priority) == priority_rank(rows[j].priority)
            ==> rows[i].received_at <= rows[j].received_at,
{
}

proof fn pending_over_update(rows: Seq<StimulusV>, i: int, s: StimulusV)
    requires
        0 <= i < rows.len(),
        rows[i].status == StimulusStatus::Pending,
        s.status != StimulusStatus::Pending,
    ensures
        pending(rows.update(i, s)) == pending(rows) - 1,
    decreases rows.len(),
{
    let u = rows.update(i, s);
    if i == rows.len() - 1 {
        assert(u.drop_last() =~= rows.drop_last());
    } else {
        assert(u.drop_last() =~= rows.drop_last().update(i, s));
        pending_over_update(rows.drop_last(), i, s);
    }
}

/// Handing a row out takes exactly one row off the depth, and the same row is not handed
/// out twice.
pub proof fn a_row_is_leased_once(rows: Seq<StimulusV>, now: i64, later: i64, i: int)
    requires
        is_next(rows, now, i),
    ensures
        pending(rows.update(i, with_status(rows[i], StimulusStatus::Dispatched))) == pending(rows)
            - 1,
        !is_next(rows.update(i, with_status(rows[i], StimulusStatus::Dispatched)), later, i),
{
    pending_over_update(rows, i, with_status(rows[i], StimulusStatus::Dispatched));
}

/// After a reclaim no row is out.
pub proof fn reclaim_leaves_no_orphan(rows: Seq<StimulusV>)
    ensures
        dispatched(reclaimed(rows)) == 0,
        pending(reclaimed(rows)) == pending(rows) + dispatched(rows),
    decreases rows.len(),
{
    if rows.len() > 0 {
        reclaim_leaves_no_orphan(rows.drop_last());
        assert(reclaimed(rows).drop_last() =~= reclaimed(rows.drop_last()));
    }
}

/// Load shedding never gives up a row above low priority, nor one that is not waiting.
pub proof fn only_low_rows_are_shed(
    before: Seq<StimulusV>,
    after: Seq<StimulusV>,
    gone: Seq<Seq<char>>,
    cap: int,
    s: StimulusV,
)
    requires
        shed_from(before, after, gone, cap),
        before.contains(s),
        !sheddable(s),
    ensures
        after.contains(s),
    decreases gone.len(),
{
    if gone.len() > 0 {
        let i = choose|i: int|
            {
                &&& #[trigger] is_oldest_low(before, i)
                &&& before[i].id == gone[0]
                &&& shed_from(before.remove(i), after, gone.skip(1), cap)
            };
        let k = choose|k: int| 0 <= k < before.len() && before[k] == s;
        let rest = before.remove(i);
        if k < i {
            assert(rest[k] == s);
        } else {
            assert(rest[k - 1] == s);
        }
        only_low_rows_are_shed(rest, after, gone.skip(1), cap, s);
    }
}

/// A waiting row without a second of its own is ready at once, one with a second from that second
/// on, and a row that does not wait never.
pub proof fn a_row_waits_for_its_second(s: StimulusV, now: i64, t: i64)
    ensures
        s.status == StimulusStatus::Pending && s.pop_after is None ==> ready(s, now),
        s.status == StimulusStatus::Pending && s.pop_after == Some(t) ==> (ready(s, now) <==> now
            >= t),
        s.status != StimulusStatus::Pending ==> !ready(s, now),
{
}

/// The row that is handed out is ready; and of the ready rows it is the one with the highest
/// priority, of those the oldest, and of those the first.
pub proof fn the_next_row_is_the_most_pressing(rows: Seq<StimulusV>, now: i64, i: int)
    requires
        0 <= i < rows.len(),
        rows[i].status == StimulusStatus::Pending,
        rows[i].pop_after is Some ==> rows[i].pop_after->0 <= now,
        forall|j: int|
            0 <= j < rows.len() && j != i && (#[trigger] rows[j]).status == StimulusStatus::Pending
                && (rows[j].pop_after is Some ==> rows[j].pop_after->0 <= now) ==> {
                ||| pressing(rows[i].priority) > pressing(rows[j].priority)
                ||| pressing(rows[i].priority) == pressing(rows[j].priority)
                    && rows[i].received_at < rows[j].received_at
                ||| pressing(rows[i].priority) == pressing(rows[j].priority)
                    && rows[i].received_at == rows[j].received_at && i < j
            },
    ensures
        is_next(rows, now, i),
{
    assert forall|j: int| 0 <= j < rows.len() && ready(#[trigger] rows[j], now) implies !goes_before(
        rows[j],
        rows[i],
    ) && (j < i ==> goes_before(rows[i], rows[j])) by {}
}

/// How much a priority presses.
pub open spec fn pressing(p: Priority) -> int {
    match p {
        Priority::Low => 0,
        Priority::Normal => 1,
        Priority::High => 2,
        Priority::Urgent => 3,
    }
}

/// A row is found by its id, where no earlier one has it, and none where no row has it.
pub proof fn a_row_is_found_by_its_id(rows: Seq<StimulusV>, i: int, id: Seq<char>)
    ensures
        0 <= i < rows.len() && rows[i].id == id && (forall|j: int|
            0 <= j < i ==> (#[trigger] rows[j]).id != id) ==> row_index(rows, id) == Some(i),
        (forall|j: int| 0 <= j < rows.len() ==> (#[trigger] rows[j]).id != id) ==> row_index(
            rows,
            id,
        ) is None,
    decreases rows.len(),
{
    if rows.len() > 0 {
        let r = rows.skip(1);
        a_row_is_found_by_its_id(r, i - 1, id);
        assert forall|j: int| 0 <= j < r.len() implies #[trigger] r[j] == rows[j + 1] by {}
        if 0 < i < rows.len() && (forall|j: int| 0 <= j < i ==> (#[trigger] rows[j]).id != id) {
            assert(rows[0].id != id);
            assert forall|j: int| 0 <= j < i - 1 implies (#[trigger] r[j]).id != id by {
                assert(r[j] == rows[j + 1]);
            }
        }
        if forall|j: int| 0 <= j < rows.len() ==> (#[trigger] rows[j]).id != id {
            assert(rows[0].id != id);
            assert forall|j: int| 0 <= j < r.len() implies (#[trigger] r[j]).id != id by {
                assert(r[j] == rows[j + 1]);
            }
        }
    }
}

/// No two rows have the same id.
pub open spec fn ids_differ(rows: Seq<StimulusV>) -> bool {
    forall|i: int, j: int|
        0 <= i < rows.len() && 0 <= j < rows.len() && (#[trigger] rows[i]).id == (
        #[trigger] rows[j]).id ==> i == j
}

/// A status goes to the row with the id, and to no other.
pub proof fn a_status_goes_to_one_row(rows: Seq<StimulusV>, i: int, status: StimulusStatus, k: int)
    requires
        ids_differ(rows),
        0 <= i < rows.len(),
        0 <= k < rows.len(),
    ensures
        status_set(rows, rows[i].id, status).len() == rows.len(),
        k != i ==> status_set(rows, rows[i].id, status)[k] == rows[k],
        status_set(rows, rows[i].id, status)[i] == (StimulusV { status, ..rows[i] }),
{
    a_row_is_found_by_its_id(rows, i, rows[i].id);
}

/// A row that waits counts to the depth, and another does not.
pub proof fn the_depth_counts_what_waits(rows: Seq<StimulusV>, s: StimulusV)
    ensures
        pending(Seq::empty()) == 0,
        s.status == StimulusStatus::Pending ==> pending(rows.push(s)) == pending(rows) + 1,
        s.status != StimulusStatus::Pending ==> pending(rows.push(s)) == pending(rows),
{
    assert(rows.push(s).drop_last() =~= rows);
}

/// After a reclaim every row that was out waits again, and every other row is as it was.
pub proof fn a_reclaim_puts_back_what_was_out(rows: Seq<StimulusV>, i: int)
    requires
        0 <= i < rows.len(),
    ensures
        reclaimed(rows).len() == rows.len(),
        rows[i].status == StimulusStatus::Dispatched ==> reclaimed(rows)[i] == (StimulusV {
            status: StimulusStatus::Pending,
            ..rows[i]
        }),
        rows[i].status != StimulusStatus::Dispatched ==> reclaimed(rows)[i] == rows[i],
{
}

/// Load shedding gives up only while more rows wait than may; each row that it gives up is a
/// waiting one of low priority, and no older one of these is left.
pub proof fn the_oldest_low_rows_are_shed_first(
    before: Seq<StimulusV>,
    after: Seq<StimulusV>,
    gone: Seq<Seq<char>>,
    cap: int,
)
    requires
        shed_from(before, after, gone, cap),
    ensures
        after.len() == before.len() - gone.len(),
        pending(before) <= cap ==> after == before && gone.len() == 0,
        gone.len() > 0 ==> exists|i: int|
            {
                &&& 0 <= i < before.len()
                &&& (#[trigger] before[i]).id == gone[0]
                &&& before[i].status == StimulusStatus::Pending
                &&& before[i].priority == Priority::Low
                &&& forall|j: int|
                    0 <= j < after.len() && (#[trigger] after[j]).status == StimulusStatus::Pending
                        && after[j].priority == Priority::Low ==> before[i].received_at
                        <= after[j].received_at
            },
    decreases gone.len(),
{
    if gone.len() > 0 {
        let i = choose|i: int|
            {
                &&& #[trigger] is_oldest_low(before, i)
                &&& before[i].id == gone[0]
                &&& shed_from(before.remove(i), after, gone.skip(1), cap)
            };
        let rest = before.remove(i);
        the_oldest_low_rows_are_shed_first(rest, after, gone.skip(1), cap);
        what_is_left_was_there(rest, after, gone.skip(1), cap);
        assert(before[i].id == gone[0]);
        assert forall|j: int|
            0 <= j < after.len() && (#[trigger] after[j]).status == StimulusStatus::Pending
                && after[j].priority == Priority::Low implies before[i].received_at
            <= after[j].received_at by {
            assert(rest.contains(after[j]));
            let k = choose|k: int| 0 <= k < rest.len() && rest[k] == after[j];
            let m = if k < i {
                k
            } else {
                k + 1
            };
            assert(before[m] == after[j]);
            assert(sheddable(before[m]));
        }
    }
}

proof fn what_is_left_was_there(
    before: Seq<StimulusV>,
    after: Seq<StimulusV>,
    gone: Seq<Seq<char>>,
    cap: int,
)
    requires
        shed_from(before, after, gone, cap),
    ensures
        forall|j: int| 0 <= j < after.len() ==> before.contains(#[trigger] after[j]),
    decreases gone.len(),
{
    if gone.len() > 0 {
        let i = choose|i: int|
            {
                &&& #[trigger] is_oldest_low(before, i)
                &&& before[i].id == gone[0]
                &&& shed_from(before.remove(i), after, gone.skip(1), cap)
            };
        let rest = before.remove(i);
        what_is_left_was_there(rest, after, gone.skip(1), cap);
        assert forall|j: int| 0 <= j < after.len() implies before.contains(#[trigger] after[j]) by {
            assert(rest.contains(after[j]));
            let k = choose|k: int| 0 <= k < rest.len() && rest[k] == after[j];
            if k < i {
                assert(before[k] == after[j]);
            } else {
                assert(before[k + 1] == after[j]);
            }
        }
    }
}

/// Only a row that still waits, of the same kind and under the same key, may take another in.
pub proof fn only_a_waiting_row_of_the_kind_takes_in(s: StimulusV, type_: Seq<char>, key: Seq<char>)
    ensures
        s.status == StimulusStatus::Pending && s.dedup_key == Some(key) ==> foldable(s, s.type_, key),
        s.status != StimulusStatus::Pending ==> !foldable(s, type_, key),
        s.type_ != type_ ==> !foldable(s, type_, key),
        s.dedup_key != Some(key) ==> !foldable(s, type_, key),
{
}

} // verus!
