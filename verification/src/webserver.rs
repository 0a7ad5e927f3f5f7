//! The webhooks. A request can wake a duty and cannot introduce one: its body is data.

use vstd::prelude::*;

use crate::sources::{FiredTrigger, FiredV};
use crate::stimuli::pairs_view;
use crate::strmap::{texts, StrMap};

verus! {

/// The largest body that is taken, in bytes.
pub const MAX_BODY: usize = 1_048_576;

/// Which path wakes which duty.
#[derive(Debug)]
pub struct Routes {
    pub table: StrMap<String>,
}

/// What is made of a request.
#[derive(Debug)]
pub enum Route {
    /// It is answered with this status at once.
    Refuse(u16),
    /// Its body is read, and wakes this duty.
    Wake(String),
}

/// The table of a list of routes: of two of one path the later one holds.
pub open spec fn table_of(r: Seq<(Seq<char>, Seq<char>)>) -> Map<Seq<char>, Seq<char>>
    decreases r.len(),
{
    if r.len() == 0 {
        Map::empty()
    } else {
        table_of(r.drop_last()).insert(r.last().0, r.last().1)
    }
}

impl Routes {
    pub fn new() -> (r: Routes)
        ensures
            texts(r.table) == Map::<Seq<char>, Seq<char>>::empty(),
    {
        let table: StrMap<String> = StrMap::new();
        assert(texts(table) =~= Map::empty());
        Routes { table }
    }

    /// Puts other routes in the place of those that were there.
    pub fn set_routes(&mut self, routes: &Vec<(String, String)>)
        ensures
            texts(final(self).table) == table_of(pairs_view(routes@)),
    {
        let ghost all = pairs_view(routes@);
        let mut table: StrMap<String> = StrMap::new();
        let mut i: usize = 0;
        assert(all.take(0) =~= Seq::empty());
        assert(texts(table) =~= Map::empty());
        while i < routes.len()
            invariant
                i <= routes@.len(),
                all == pairs_view(routes@),
                texts(table) == table_of(all.take(i as int)),
            decreases routes@.len() - i,
        {
            proof {
                assert(all.take(i + 1).drop_last() =~= all.take(i as int));
                assert(all.take(i + 1).last() == (routes@[i as int].0@, routes@[i as int].1@));
            }
            let ghost before = texts(table);
            table.insert(routes[i].0.clone(), routes[i].1.clone());
            assert(texts(table) =~= before.insert(routes@[i as int].0@, routes@[i as int].1@));
            i += 1;
        }
        assert(all.take(i as int) =~= all);
        self.table = table;
    }

    /// What is made of a request: only a post to a known path wakes anything.
    pub fn route(&self, is_post: bool, path: &str) -> (r: Route)
        ensures
            !is_post ==> r == Route::Refuse(405),
            is_post && !texts(self.table).contains_key(path@) ==> r == Route::Refuse(404),
            is_post && texts(self.table).contains_key(path@) ==> r is Wake && r->Wake_0@ == texts(
                self.table,
            )[path@],
    {
        if !is_post {
            return Route::Refuse(405);
        }
        match self.table.get(path) {
            Some(id) => Route::Wake(id.clone()),
            None => Route::Refuse(404),
        }
    }
}

/// The trigger of a request whose body was read; one whose body could not be read, or was too
/// large, is refused.
pub fn fire(def_id: String, body: Option<Vec<u8>>) -> (r: Result<FiredTrigger, u16>)
    ensures
        match body {
            Some(b) => r is Ok && r->Ok_0.deep_view() == (FiredV { def_id: def_id@, payload: b@ }),
            None => r == Err::<FiredTrigger, u16>(400),
        },
{
    match body {
        Some(payload) => Ok(FiredTrigger { def_id, payload }),
        None => Err(400),
    }
}

/// The status of a trigger that was handed on, or could not be since the harness goes down.
pub fn handed_on(sent: bool) -> (r: u16)
    ensures
        sent ==> r == 202,
        !sent ==> r == 503,
{
    if sent {
        202
    } else {
        503
    }
}

/// A path leads to the duty that was last put there, and a path that none was put at leads nowhere.
pub proof fn a_path_leads_to_its_duty(r: Seq<(Seq<char>, Seq<char>)>, i: int, path: Seq<char>)
    ensures
        0 <= i < r.len() && r[i].0 == path && (forall|j: int|
            i < j < r.len() ==> (#[trigger] r[j]).0 != path) ==> table_of(r).contains_key(path)
            && table_of(r)[path] == r[i].1,
        (forall|j: int| 0 <= j < r.len() ==> (#[trigger] r[j]).0 != path) ==> !table_of(
            r,
        ).contains_key(path),
    decreases r.len(),
{
    if r.len() > 0 {
        let init = r.drop_last();
        a_path_leads_to_its_duty(init, i, path);
        assert(r[r.len() - 1] == r.last());
        assert forall|j: int| 0 <= j < init.len() implies #[trigger] init[j] == r[j] by {}
        if forall|j: int| 0 <= j < r.len() ==> (#[trigger] r[j]).0 != path {
            assert(r[r.len() - 1].0 != path);
            assert forall|j: int| 0 <= j < init.len() implies (#[trigger] init[j]).0 != path by {
                assert(init[j] == r[j]);
            }
        }
        if 0 <= i < init.len() && (forall|j: int| i < j < r.len() ==> (#[trigger] r[j]).0 != path) {
            assert(r[r.len() - 1].0 != path);
            assert(init[i] == r[i]);
            assert forall|j: int| i < j < init.len() implies (#[trigger] init[j]).0 != path by {
                assert(init[j] == r[j]);
            }
        }
    }
}

} // verus!
