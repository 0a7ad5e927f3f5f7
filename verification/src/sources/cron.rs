//! The timers of the duties.

use vstd::prelude::*;

use crate::error::{error_detail, DackError};
use crate::sources::{FiredTrigger, FiredV};
use crate::stimuli::pairs_view;
use crate::text::{count_words, has_prefix, owned, trim, trimmed, word_count};

verus! {

// ── What is trusted of cron and chrono ──────────────────────────────────────────────────

#[verifier::external_type_specification]
#[verifier::external_body]
pub struct ExSchedule(cron::Schedule);

/// The schedule that an expression of six or seven fields stands for.
pub uninterp spec fn cron_schedule(expr: Seq<char>) -> Option<cron::Schedule>;

/// `cron::Schedule::from_str`: the schedule, or the one message that the crate has for an
/// expression that it cannot read.
#[verifier::external_body]
fn read_schedule(expr: &str) -> (r: Result<cron::Schedule, String>)
    ensures
        r is Ok ==> cron_schedule(expr@) == Some(r->Ok_0),
        r is Err ==> cron_schedule(expr@) is None && r->Err_0@
            == "Invalid expression: Invalid cron expression."@,
{
    <cron::Schedule as std::str::FromStr>::from_str(expr).map_err(|e| e.to_string())
}

/// A second that a calendar can name.
pub open spec fn in_calendar(secs: i64) -> bool {
    -8_000_000_000_000 <= secs <= 8_000_000_000_000
}

/// The second after another at which a schedule next fires, in universal time.
pub uninterp spec fn cron_next(schedule: cron::Schedule, after: i64) -> Option<i64>;

/// `cron::Schedule::after(..).next()` on a `chrono::DateTime<Utc>`: a second that is later than
/// the one that was asked about and in no year after 2100. That none between the two matches is
/// not claimed: on a schedule of later years the search starts from the month of the second that
/// was asked about.
#[verifier::external_body]
fn schedule_next(schedule: &cron::Schedule, after: i64) -> (r: Option<i64>)
    requires
        in_calendar(after),
    ensures
        r == cron_next(*schedule, after),
        r is Some ==> r->0 > after && in_calendar(r->0),
{
    let at: chrono::DateTime<chrono::Utc> = chrono::DateTime::from_timestamp(after, 0).unwrap();
    schedule.after(&at).next().map(|t| t.timestamp())
}

// ── Expressions ─────────────────────────────────────────────────────────────────────────

/// An expression of the familiar five fields gets a column of seconds in front; every other
/// one stays as it is.
pub open spec fn normalized(expr: Seq<char>) -> Seq<char> {
    let e = trimmed(expr);
    if word_count(e, false) == 5 {
        "0 "@ + e
    } else {
        e
    }
}

/// An expression in the form that the schedules are read in.
pub fn normalize_cron(expr: &str) -> (r: String)
    ensures
        r@ == normalized(expr@),
{
    let e = trim(expr);
    if count_words(e.as_str()) == 5 {
        let mut out = owned("0 ");
        out.append(e.as_str());
        out
    } else {
        e
    }
}

/// What is said of an expression that cannot be read.
pub open spec fn bad_cron(expr: Seq<char>) -> Seq<char> {
    "bad cron `"@ + expr + "`: Invalid expression: Invalid cron expression."@
}

/// Reads an expression of five fields or more.
pub fn parse_cron(expr: &str) -> (r: Result<cron::Schedule, DackError>)
    ensures
        match cron_schedule(normalized(expr@)) {
            Some(s) => r == Ok::<cron::Schedule, DackError>(s),
            None => r is Err && r->Err_0 is Stimulus && error_detail(r->Err_0) == bad_cron(expr@),
        },
{
    match read_schedule(normalize_cron(expr).as_str()) {
        Ok(s) => Ok(s),
        Err(e) => {
            let mut out = owned("bad cron `");
            out.append(expr);
            out.append("`: ");
            out.append(e.as_str());
            proof {
                reveal_strlit("`: ");
                reveal_strlit("Invalid expression: Invalid cron expression.");
                reveal_strlit("`: Invalid expression: Invalid cron expression.");
                assert("`: "@ + "Invalid expression: Invalid cron expression."@
                    =~= "`: Invalid expression: Invalid cron expression."@);
                assert(out@ =~= bad_cron(expr@));
            }
            Err(DackError::Stimulus(out))
        },
    }
}

/// The first second after `after` at which a schedule fires; none where it never fires again.
pub fn next_fire(schedule: &cron::Schedule, after: i64) -> (r: Option<i64>)
    requires
        in_calendar(after),
    ensures
        r == cron_next(*schedule, after),
        r is Some ==> r->0 > after && in_calendar(r->0),
{
    schedule_next(schedule, after)
}

// ── The wheel ───────────────────────────────────────────────────────────────────────────

/// The timers of all duties.
pub struct CronWheel {
    pub schedules: Vec<(String, cron::Schedule)>,
}

impl View for CronWheel {
    type V = Seq<(Seq<char>, cron::Schedule)>;

    open spec fn view(&self) -> Seq<(Seq<char>, cron::Schedule)> {
        self.schedules@.map_values(|p: (String, cron::Schedule)| (p.0@, p.1))
    }
}

/// The timers that duties and their expressions give: a duty whose expression cannot be read
/// has none.
pub open spec fn timers(crons: Seq<(Seq<char>, Seq<char>)>) -> Seq<(Seq<char>, cron::Schedule)>
    decreases crons.len(),
{
    if crons.len() == 0 {
        Seq::empty()
    } else {
        match cron_schedule(normalized(crons.last().1)) {
            Some(s) => timers(crons.drop_last()).push((crons.last().0, s)),
            None => timers(crons.drop_last()),
        }
    }
}

/// The duties whose expressions cannot be read, each with what is wrong.
pub open spec fn unread(crons: Seq<(Seq<char>, Seq<char>)>) -> Seq<(Seq<char>, Seq<char>)>
    decreases crons.len(),
{
    if crons.len() == 0 {
        Seq::empty()
    } else {
        match cron_schedule(normalized(crons.last().1)) {
            Some(_) => unread(crons.drop_last()),
            None => unread(crons.drop_last()).push((crons.last().0, bad_cron(crons.last().1))),
        }
    }
}

/// The soonest second at which any timer fires.
pub open spec fn soonest_of(t: Seq<(Seq<char>, cron::Schedule)>, now: i64) -> Option<i64>
    decreases t.len(),
{
    if t.len() == 0 {
        None
    } else {
        match (soonest_of(t.drop_last(), now), cron_next(t.last().1, now)) {
            (Some(a), Some(b)) => Some(if b < a {
                b
            } else {
                a
            }),
            (Some(a), None) => Some(a),
            (None, b) => b,
        }
    }
}

/// The triggers of the timers that came due.
pub open spec fn due_of(t: Seq<(Seq<char>, cron::Schedule)>, since: i64, now: i64) -> Seq<FiredV>
    decreases t.len(),
{
    if t.len() == 0 {
        Seq::empty()
    } else {
        match cron_next(t.last().1, since) {
            Some(at) if at <= now => due_of(t.drop_last(), since, now).push(
                FiredV { def_id: t.last().0, payload: Seq::empty() },
            ),
            _ => due_of(t.drop_last(), since, now),
        }
    }
}

/// How long the wheel sleeps where no timer is set, in milliseconds.
pub const PARKED_MS: u64 = 3_600_000;

/// How long the wheel sleeps: until the soonest timer, or for an hour where there is none.
pub open spec fn sleep_of(soonest: Option<i64>, now_ms: i64) -> int {
    match soonest {
        Some(t) => if t * 1000 > now_ms {
            t * 1000 - now_ms
        } else {
            0
        },
        None => PARKED_MS as int,
    }
}

impl CronWheel {
    pub fn new() -> (r: CronWheel)
        ensures
            r@ == Seq::<(Seq<char>, cron::Schedule)>::empty(),
    {
        let r = CronWheel { schedules: Vec::new() };
        assert(r@ =~= Seq::empty());
        r
    }

    /// Sets all timers anew. One expression that cannot be read silences no other timer; the
    /// duties that have none are handed back with what is wrong.
    pub fn reschedule(&mut self, crons: &Vec<(String, String)>) -> (r: Vec<(String, DackError)>)
        ensures
            final(self)@ == timers(pairs_view(crons@)),
            r@.map_values(|p: (String, DackError)| (p.0@, error_detail(p.1))) == unread(
                pairs_view(crons@),
            ),
            forall|i: int| 0 <= i < r@.len() ==> (#[trigger] r@[i]).1 is Stimulus,
    {
        let ghost all = pairs_view(crons@);
        let mut parsed: Vec<(String, cron::Schedule)> = Vec::new();
        let mut skipped: Vec<(String, DackError)> = Vec::new();
        let mut i: usize = 0;
        let ghost name = |p: (String, DackError)| (p.0@, error_detail(p.1));
        let ghost timer = |p: (String, cron::Schedule)| (p.0@, p.1);
        proof {
            assert(all.take(0) =~= Seq::empty());
            assert(parsed@.map_values(timer) =~= Seq::empty());
            assert(skipped@.map_values(name) =~= Seq::empty());
        }
        while i < crons.len()
            invariant
                i <= crons@.len(),
                all == pairs_view(crons@),
                name == (|p: (String, DackError)| (p.0@, error_detail(p.1))),
                forall|k: int| 0 <= k < skipped@.len() ==> (#[trigger] skipped@[k]).1 is Stimulus,
                timer == (|p: (String, cron::Schedule)| (p.0@, p.1)),
                parsed@.map_values(timer) == timers(all.take(i as int)),
                skipped@.map_values(name) == unread(all.take(i as int)),
            decreases crons@.len() - i,
        {
            proof {
                assert(all.take(i + 1).drop_last() =~= all.take(i as int));
                assert(all.take(i + 1).last() == (crons@[i as int].0@, crons@[i as int].1@));
            }
            let ghost p = parsed@;
            let ghost s = skipped@;
            let id = crons[i].0.clone();
            match parse_cron(crons[i].1.as_str()) {
                Ok(schedule) => {
                    parsed.push((id, schedule));
                    assert(parsed@.map_values(timer) =~= p.map_values(timer).push(
                        (id@, schedule),
                    ));
                },
                Err(e) => {
                    skipped.push((id, e));
                    assert(skipped@.map_values(name) =~= s.map_values(name).push(
                        (id@, error_detail(e)),
                    ));
                },
            }
            i += 1;
        }
        assert(all.take(i as int) =~= all);
        self.schedules = parsed;
        assert(self@ =~= parsed@.map_values(timer));
        assert(skipped@.map_values(name) =~= skipped@.map_values(
            |p: (String, DackError)| (p.0@, error_detail(p.1)),
        ));
        skipped
    }

    /// The soonest second at which any timer fires.
    pub fn soonest(&self, now: i64) -> (r: Option<i64>)
        requires
            in_calendar(now),
        ensures
            r == soonest_of(self@, now),
            r is Some ==> in_calendar(r->0),
    {
        let ghost all = self@;
        let mut best: Option<i64> = None;
        let mut i: usize = 0;
        assert(all.len() == self.schedules@.len());
        assert(all.take(0) =~= Seq::empty());
        while i < self.schedules.len()
            invariant
                i <= self.schedules@.len(),
                all == self@,
                in_calendar(now),
                best == soonest_of(all.take(i as int), now),
                best is Some ==> in_calendar(best->0),
            decreases self.schedules@.len() - i,
        {
            proof {
                assert(all.take(i + 1).drop_last() =~= all.take(i as int));
                assert(all.take(i + 1).last() == (
                    self.schedules@[i as int].0@,
                    self.schedules@[i as int].1,
                ));
            }
            let at: Option<i64> = next_fire(&self.schedules[i].1, now);
            best = match (best, at) {
                (Some(a), Some(b)) => Some(
                    if b < a {
                        b
                    } else {
                        a
                    },
                ),
                (Some(a), None) => Some(a),
                (None, b) => b,
            };
            i += 1;
        }
        assert(all.take(i as int) =~= all);
        best
    }

    /// How long to sleep before the next timer, in milliseconds.
    pub fn wait_ms(&self, now: i64, now_ms: i64) -> (r: u64)
        requires
            in_calendar(now),
            now * 1000 <= now_ms < now * 1000 + 1000,
        ensures
            r == sleep_of(soonest_of(self@, now), now_ms),
    {
        match self.soonest(now) {
            Some(t) => {
                let span: i64 = t * 1000 - now_ms;
                if span > 0 {
                    span as u64
                } else {
                    0
                }
            },
            None => PARKED_MS,
        }
    }

    /// The triggers of the timers that came due between two seconds.
    pub fn due(&self, since: i64, now: i64) -> (r: Vec<FiredTrigger>)
        requires
            in_calendar(since),
        ensures
            r.deep_view() == due_of(self@, since, now),
    {
        let ghost all = self@;
        let mut out: Vec<FiredTrigger> = Vec::new();
        let mut i: usize = 0;
        assert(all.len() == self.schedules@.len());
        assert(all.take(0) =~= Seq::empty());
        assert(out.deep_view() =~= Seq::empty());
        while i < self.schedules.len()
            invariant
                i <= self.schedules@.len(),
                all == self@,
                in_calendar(since),
                out.deep_view() == due_of(all.take(i as int), since, now),
            decreases self.schedules@.len() - i,
        {
            proof {
                assert(all.take(i + 1).drop_last() =~= all.take(i as int));
                assert(all.take(i + 1).last() == (
                    self.schedules@[i as int].0@,
                    self.schedules@[i as int].1,
                ));
            }
            let ghost o = out.deep_view();
            match next_fire(&self.schedules[i].1, since) {
                Some(at) => if at <= now {
                    let payload: Vec<u8> = Vec::new();
                    let fired = FiredTrigger { def_id: self.schedules[i].0.clone(), payload };
                    assert(payload@ =~= Seq::empty());
                    out.push(fired);
                    assert(out.deep_view() =~= o.push(fired.deep_view()));
                },
                None => {},
            }
            i += 1;
        }
        assert(all.take(i as int) =~= all);
        out
    }
}

// ── Laws ────────────────────────────────────────────────────────────────────────────────

/// Every duty either has a timer or is reported.
pub proof fn no_duty_is_lost(crons: Seq<(Seq<char>, Seq<char>)>)
    ensures
        timers(crons).len() + unread(crons).len() == crons.len(),
    decreases crons.len(),
{
    if crons.len() > 0 {
        no_duty_is_lost(crons.drop_last());
    }
}

/// No timer fires before the soonest: until then nothing is due.
pub proof fn nothing_is_due_before_the_soonest(
    t: Seq<(Seq<char>, cron::Schedule)>,
    since: i64,
    now: i64,
)
    requires
        match soonest_of(t, since) {
            Some(s) => now < s,
            None => true,
        },
    ensures
        due_of(t, since, now) == Seq::<FiredV>::empty(),
    decreases t.len(),
{
    if t.len() > 0 {
        nothing_is_due_before_the_soonest(t.drop_last(), since, now);
    }
}

/// When the soonest timer is reached, something is due.
pub proof fn something_is_due_at_the_soonest(
    t: Seq<(Seq<char>, cron::Schedule)>,
    since: i64,
    now: i64,
)
    requires
        soonest_of(t, since) is Some,
        soonest_of(t, since)->0 <= now,
    ensures
        due_of(t, since, now).len() > 0,
    decreases t.len(),
{
    if t.len() > 0 {
        let rest = soonest_of(t.drop_last(), since);
        if rest is Some && rest->0 <= now {
            something_is_due_at_the_soonest(t.drop_last(), since, now);
        }
    }
}

/// A schedule of five fields fires at the full minute; another one is taken as it stands. White
/// space around it says nothing.
pub proof fn five_fields_fire_at_the_full_minute(expr: Seq<char>)
    ensures
        word_count(trimmed(expr), false) == 5 ==> normalized(expr) == "0 "@ + trimmed(expr),
        word_count(trimmed(expr), false) != 5 ==> normalized(expr) == trimmed(expr),
{
}

/// Every duty whose schedule can be read has its timer, in the order of the duties, and every
/// other one is told of with its schedule.
pub proof fn every_readable_duty_has_a_timer(
    a: Seq<(Seq<char>, Seq<char>)>,
    b: Seq<(Seq<char>, Seq<char>)>,
    x: (Seq<char>, Seq<char>),
)
    ensures
        timers(a + b) == timers(a) + timers(b),
        unread(a + b) == unread(a) + unread(b),
        cron_schedule(normalized(x.1)) matches Some(s) ==> timers(seq![x]) == seq![(x.0, s)]
            && unread(seq![x]).len() == 0,
        cron_schedule(normalized(x.1)) is None ==> timers(seq![x]).len() == 0 && unread(
            seq![x],
        ).len() == 1 && unread(seq![x])[0].0 == x.0 && has_prefix(
            unread(seq![x])[0].1,
            "bad cron `"@ + x.1 + "`"@,
        ),
    decreases b.len(),
{
    let one = seq![x];
    assert(one.drop_last() =~= Seq::empty());
    assert(one.last() == x);
    assert(timers(one.drop_last()) =~= Seq::empty());
    assert(unread(one.drop_last()) =~= Seq::empty());
    reveal_strlit("bad cron `");
    reveal_strlit("`");
    reveal_strlit("`: Invalid expression: Invalid cron expression.");
    let p = "bad cron `"@ + x.1 + "`"@;
    assert(bad_cron(x.1).subrange(0, p.len() as int) =~= p);
    match cron_schedule(normalized(x.1)) {
        Some(s) => {
            assert(timers(one) =~= seq![(x.0, s)]);
        },
        None => {
            assert(unread(one) =~= seq![(x.0, bad_cron(x.1))]);
        },
    }
    if b.len() == 0 {
        assert(a + b =~= a);
        assert(timers(a) + timers(b) =~= timers(a));
        assert(unread(a) + unread(b) =~= unread(a));
    } else {
        every_readable_duty_has_a_timer(a, b.drop_last(), x);
        assert((a + b).drop_last() =~= a + b.drop_last());
        assert((a + b).last() == b.last());
        assert(timers(a + b) =~= timers(a) + timers(b));
        assert(unread(a + b) =~= unread(a) + unread(b));
    }
}

/// The wheel waits for the duty that fires first: no duty fires before that second, and one does
/// fire in it.
pub proof fn the_wheel_waits_for_the_first(t: Seq<(Seq<char>, cron::Schedule)>, now: i64, i: int)
    ensures
        0 <= i < t.len() && cron_next(t[i].1, now) is Some ==> soonest_of(t, now) is Some
            && soonest_of(t, now)->0 <= cron_next(t[i].1, now)->0,
        soonest_of(t, now) is Some ==> exists|k: int|
            0 <= k < t.len() && cron_next((#[trigger] t[k]).1, now) == soonest_of(t, now),
    decreases t.len(),
{
    if t.len() > 0 {
        let init = t.drop_last();
        the_wheel_waits_for_the_first(init, now, i);
        assert(t[t.len() - 1] == t.last());
        if 0 <= i < init.len() {
            assert(init[i] == t[i]);
        }
        if soonest_of(t, now) is Some && soonest_of(t, now) == soonest_of(init, now) {
            let k = choose|k: int|
                0 <= k < init.len() && cron_next((#[trigger] init[k]).1, now) == soonest_of(
                    init,
                    now,
                );
            assert(t[k] == init[k]);
        }
    }
}

/// A duty is fired once its second has come, with nothing in its hands; in the order of the
/// duties, each once.
pub proof fn every_due_duty_is_fired(
    a: Seq<(Seq<char>, cron::Schedule)>,
    b: Seq<(Seq<char>, cron::Schedule)>,
    x: (Seq<char>, cron::Schedule),
    since: i64,
    now: i64,
)
    ensures
        due_of(a + b, since, now) == due_of(a, since, now) + due_of(b, since, now),
        cron_next(x.1, since) is Some && cron_next(x.1, since)->0 <= now ==> due_of(
            seq![x],
            since,
            now,
        ) == seq![FiredV { def_id: x.0, payload: Seq::empty() }],
        cron_next(x.1, since) is None || cron_next(x.1, since)->0 > now ==> due_of(
            seq![x],
            since,
            now,
        ).len() == 0,
    decreases b.len(),
{
    let one = seq![x];
    assert(one.drop_last() =~= Seq::empty());
    assert(one.last() == x);
    assert(due_of(one.drop_last(), since, now) =~= Seq::empty());
    if cron_next(x.1, since) is Some && cron_next(x.1, since)->0 <= now {
        assert(due_of(one, since, now) =~= seq![FiredV { def_id: x.0, payload: Seq::empty() }]);
    }
    if b.len() == 0 {
        assert(a + b =~= a);
        assert(due_of(a, since, now) + due_of(b, since, now) =~= due_of(a, since, now));
    } else {
        every_due_duty_is_fired(a, b.drop_last(), x, since, now);
        assert((a + b).drop_last() =~= a + b.drop_last());
        assert((a + b).last() == b.last());
        assert(due_of(a + b, since, now) =~= due_of(a, since, now) + due_of(b, since, now));
    }
}

/// The wheel sleeps until the second that it waits for, not at all where that is past, and an hour
/// where nothing is scheduled.
pub proof fn the_wheel_sleeps_until_then(t: i64, now_ms: i64)
    ensures
        t * 1000 > now_ms ==> now_ms + sleep_of(Some(t), now_ms) == t * 1000,
        t * 1000 <= now_ms ==> sleep_of(Some(t), now_ms) == 0,
        sleep_of(None, now_ms) == 3_600_000,
{
}

} // verus!
