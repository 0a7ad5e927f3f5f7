//! A map from texts to values that is walked in the order of its keys.

use vstd::prelude::*;

use crate::text::{
    same_text, text_before, text_lt, text_lt_irreflexive, text_lt_total, text_lt_transitive,
};

verus! {

/// A map with text keys. Walking it by index meets the keys in ascending order, each once.
#[derive(Debug)]
pub struct StrMap<V> {
    entries: Vec<(String, V)>,
}

/// `keys` is strictly ascending.
pub open spec fn ascending(keys: Seq<Seq<char>>) -> bool {
    forall|i: int, j: int|
        0 <= i < j < keys.len() ==> text_lt(#[trigger] keys[i], #[trigger] keys[j])
}

/// `keys` are the elements of a set, in ascending order.
pub open spec fn orders(keys: Seq<Seq<char>>, d: Set<Seq<char>>) -> bool {
    ascending(keys) && forall|k: Seq<char>| #[trigger] keys.contains(k) <==> d.contains(k)
}

/// The elements of a finite set in ascending order.
pub open spec fn in_order(d: Set<Seq<char>>) -> Seq<Seq<char>> {
    choose|keys: Seq<Seq<char>>| orders(keys, d)
}

/// There is one ascending order only.
pub proof fn the_order_is_unique(a: Seq<Seq<char>>, d: Set<Seq<char>>)
    requires
        orders(a, d),
    ensures
        in_order(d) == a,
{
    let b = in_order(d);
    assert forall|k: Seq<char>| #[trigger] a.contains(k) <==> b.contains(k) by {
        assert(d.contains(k) <==> b.contains(k));
    }
    same_elements_same_order(a, b);
}

proof fn place_in(keys: Seq<Seq<char>>, a: Seq<char>, n: int) -> (p: int)
    requires
        ascending(keys),
        0 <= n <= keys.len(),
        !keys.contains(a),
        forall|i: int| n <= i < keys.len() ==> text_lt(a, #[trigger] keys[i]),
    ensures
        0 <= p <= keys.len(),
        forall|i: int| 0 <= i < p ==> text_lt(#[trigger] keys[i], a),
        forall|i: int| p <= i < keys.len() ==> text_lt(a, #[trigger] keys[i]),
    decreases n,
{
    if n == 0 {
        0
    } else {
        text_lt_total(keys[n - 1], a);
        assert(keys.contains(keys[n - 1]));
        if text_lt(a, keys[n - 1]) {
            place_in(keys, a, n - 1)
        } else {
            assert forall|i: int| 0 <= i < n implies text_lt(#[trigger] keys[i], a) by {
                if i < n - 1 {
                    text_lt_transitive(keys[i], keys[n - 1], a);
                }
            }
            n
        }
    }
}

/// A finite set can be put in ascending order.
pub proof fn a_finite_set_has_an_order(d: Set<Seq<char>>)
    requires
        d.finite(),
    ensures
        orders(in_order(d), d),
    decreases d.len(),
{
    if d.len() == 0 {
        assert(d =~= Set::empty());
        assert(orders(Seq::empty(), d));
    } else {
        let a = d.choose();
        let rest = d.remove(a);
        a_finite_set_has_an_order(rest);
        let keys = in_order(rest);
        assert(!keys.contains(a));
        let p = place_in(keys, a, keys.len() as int);
        let w = keys.insert(p, a);
        assert forall|i: int, j: int| 0 <= i < j < w.len() implies text_lt(
            #[trigger] w[i],
            #[trigger] w[j],
        ) by {
            let x = if i < p { i } else { i - 1 };
            let y = if j < p { j } else { j - 1 };
            if i != p {
                assert(w[i] == keys[x]);
            }
            if j != p {
                assert(w[j] == keys[y]);
            }
        }
        assert forall|k: Seq<char>| #[trigger] w.contains(k) <==> d.contains(k) by {
            if w.contains(k) && k != a {
                let i = choose|i: int| 0 <= i < w.len() && w[i] == k;
                let x = if i < p { i } else { i - 1 };
                assert(keys[x] == k);
                assert(keys.contains(k));
            }
            if d.contains(k) && k != a {
                assert(rest.contains(k));
                assert(keys.contains(k));
                let x = choose|x: int| 0 <= x < keys.len() && keys[x] == k;
                if x < p {
                    assert(w[x] == k);
                } else {
                    assert(w[x + 1] == k);
                }
            }
            assert(w[p] == a);
        }
        assert(orders(w, d));
    }
}

proof fn same_elements_same_order(a: Seq<Seq<char>>, b: Seq<Seq<char>>)
    requires
        ascending(a),
        ascending(b),
        forall|k: Seq<char>| #[trigger] a.contains(k) <==> b.contains(k),
    ensures
        a == b,
    decreases a.len(),
{
    if a.len() == 0 {
        if b.len() > 0 {
            assert(b.contains(b[0]));
            assert(a.contains(b[0]));
        }
        assert(a =~= b);
    } else {
        assert(a.contains(a.last()));
        assert(b.contains(a.last()));
        let j = choose|j: int| 0 <= j < b.len() && b[j] == a.last();
        assert(b.contains(b.last()));
        assert(a.contains(b.last()));
        let i = choose|i: int| 0 <= i < a.len() && a[i] == b.last();
        if a.last() != b.last() {
            assert(text_lt(a[i], a.last()));
            assert(text_lt(b[j], b.last()));
            text_lt_transitive(a.last(), b.last(), a.last());
            text_lt_irreflexive(a.last());
        }
        let (x, y) = (a.drop_last(), b.drop_last());
        ascending_distinct(a);
        ascending_distinct(b);
        assert forall|k: Seq<char>| #[trigger] x.contains(k) <==> y.contains(k) by {
            if x.contains(k) {
                let m = choose|m: int| 0 <= m < x.len() && x[m] == k;
                assert(a[m] == k && a.contains(k) && k != a.last());
                assert(b.contains(k));
                let n = choose|n: int| 0 <= n < b.len() && b[n] == k;
                assert(y[n] == k);
            }
            if y.contains(k) {
                let m = choose|m: int| 0 <= m < y.len() && y[m] == k;
                assert(b[m] == k && b.contains(k) && k != b.last());
                assert(a.contains(k));
                let n = choose|n: int| 0 <= n < a.len() && a[n] == k;
                assert(x[n] == k);
            }
        }
        same_elements_same_order(x, y);
        assert(a =~= x.push(a.last()));
        assert(b =~= y.push(b.last()));
    }
}

spec fn entry_keys<V>(e: Seq<(String, V)>) -> Seq<Seq<char>> {
    Seq::new(e.len(), |i: int| e[i].0@)
}

spec fn entry_index<V>(e: Seq<(String, V)>, k: Seq<char>) -> int {
    choose|i: int| 0 <= i < e.len() && (#[trigger] e[i]).0@ == k
}

spec fn entry_map<V>(e: Seq<(String, V)>) -> Map<Seq<char>, V> {
    Map::new(
        |k: Seq<char>| exists|i: int| 0 <= i < e.len() && (#[trigger] e[i]).0@ == k,
        |k: Seq<char>| e[entry_index(e, k)].1,
    )
}

proof fn ascending_distinct(keys: Seq<Seq<char>>)
    requires
        ascending(keys),
    ensures
        keys.no_duplicates(),
{
    assert forall|i: int, j: int| 0 <= i < keys.len() && 0 <= j < keys.len() && i != j implies keys[i]
        != keys[j] by {
        text_lt_irreflexive(keys[i]);
        if i < j {
            assert(text_lt(keys[i], keys[j]));
        } else {
            assert(text_lt(keys[j], keys[i]));
        }
    }
}

proof fn entry_at<V>(e: Seq<(String, V)>, i: int)
    requires
        ascending(entry_keys(e)),
        0 <= i < e.len(),
    ensures
        entry_map(e).contains_key(e[i].0@),
        entry_map(e)[e[i].0@] == e[i].1,
{
    let k = entry_index(e, e[i].0@);
    ascending_distinct(entry_keys(e));
    assert(e[i].0@ == e[i].0@);
    assert(entry_keys(e)[k] == entry_keys(e)[i]);
}

impl<V> StrMap<V> {
    #[verifier::type_invariant]
    spec fn in_order(self) -> bool {
        ascending(entry_keys(self.entries@))
    }

    /// The keys, in the order in which the map is walked.
    pub closed spec fn keys(self) -> Seq<Seq<char>> {
        entry_keys(self.entries@)
    }

    /// The empty map.
    pub fn new() -> (r: StrMap<V>)
        ensures
            r@ == Map::<Seq<char>, V>::empty(),
            r.keys() == Seq::<Seq<char>>::empty(),
    {
        let r = StrMap { entries: Vec::new() };
        assert(r@ =~= Map::empty());
        assert(r.keys() =~= Seq::empty());
        r
    }

    /// The number of keys.
    pub fn len(&self) -> (r: usize)
        ensures
            r == self.keys().len(),
            self.keys() == in_order(self@.dom()),
            orders(self.keys(), self@.dom()),
    {
        proof {
            use_type_invariant(self);
            self.keys_in_order();
        }
        self.entries.len()
    }

    /// Whether the map has no key.
    pub fn is_empty(&self) -> (r: bool)
        ensures
            r == (self.keys().len() == 0),
            self.keys() == in_order(self@.dom()),
    {
        self.len() == 0
    }

    /// A map has finitely many keys.
    pub proof fn domain_is_finite(&self)
        ensures
            self@.dom().finite(),
    {
        let e = self.entries@;
        let keys = entry_keys(e);
        vstd::seq_lib::seq_to_set_is_finite(keys);
        assert forall|k: Seq<char>| #[trigger] self@.dom().contains(k) implies keys.to_set().contains(
            k,
        ) by {
            let i = choose|i: int| 0 <= i < e.len() && (#[trigger] e[i]).0@ == k;
            assert(keys[i] == k);
        }
        assert(self@.dom().subset_of(keys.to_set()));
        vstd::set_lib::lemma_len_subset(self@.dom(), keys.to_set());
    }

    proof fn keys_in_order(self)
        requires
            self.in_order(),
        ensures
            self.keys() == in_order(self@.dom()),
            orders(self.keys(), self@.dom()),
    {
        let keys = self.keys();
        let e = self.entries@;
        assert forall|k: Seq<char>| #[trigger] keys.contains(k) <==> self@.dom().contains(k) by {
            if keys.contains(k) {
                let i = choose|i: int| 0 <= i < keys.len() && keys[i] == k;
                assert(e[i].0@ == k);
            }
            if self@.dom().contains(k) {
                let i = choose|i: int| 0 <= i < e.len() && (#[trigger] e[i]).0@ == k;
                assert(keys[i] == k);
            }
        }
        the_order_is_unique(keys, self@.dom());
    }

    /// The `i`-th key and its value.
    pub fn at(&self, i: usize) -> (r: (&String, &V))
        requires
            i < self.keys().len(),
        ensures
            r.0@ == self.keys()[i as int],
            self@.contains_key(r.0@),
            *r.1 == self@[r.0@],
    {
        proof {
            use_type_invariant(self);
            entry_at(self.entries@, i as int);
        }
        (&self.entries[i].0, &self.entries[i].1)
    }

    /// The value of `key`.
    pub fn get(&self, key: &str) -> (r: Option<&V>)
        ensures
            match r {
                Some(v) => self@.contains_key(key@) && *v == self@[key@],
                None => !self@.contains_key(key@),
            },
    {
        proof {
            use_type_invariant(self);
        }
        let mut i: usize = 0;
        while i < self.entries.len()
            invariant
                i <= self.entries@.len(),
                ascending(entry_keys(self.entries@)),
                forall|j: int| 0 <= j < i ==> (#[trigger] self.entries@[j]).0@ != key@,
            decreases self.entries@.len() - i,
        {
            if same_text(self.entries[i].0.as_str(), key) {
                proof {
                    entry_at(self.entries@, i as int);
                }
                return Some(&self.entries[i].1);
            }
            i += 1;
        }
        None
    }

    /// Sets the value of `key`.
    pub fn insert(&mut self, key: String, value: V)
        ensures
            final(self)@ == old(self)@.insert(key@, value),
            final(self).keys().to_set() == old(self).keys().to_set().insert(key@),
            ascending(final(self).keys()),
    {
        proof {
            use_type_invariant(&*self);
        }
        let ghost e0 = self.entries@;
        let mut e: Vec<(String, V)> = Vec::new();
        std::mem::swap(&mut e, &mut self.entries);
        let mut i: usize = 0;
        while i < e.len() && text_before(e[i].0.as_str(), key.as_str())
            invariant
                i <= e@.len(),
                e@ == e0,
                forall|j: int| 0 <= j < i ==> text_lt((#[trigger] e0[j]).0@, key@),
            decreases e@.len() - i,
        {
            i += 1;
        }
        let ghost k0 = entry_keys(e0);
        if i < e.len() && same_text(e[i].0.as_str(), key.as_str()) {
            proof {
                assert(entry_keys(e0.update(i as int, (key, value))) =~= k0);
            }
            e.set(i, (key, value));
            proof {
                insert_is_map_insert(e0, e@, i as int, key@, value);
            }
        } else {
            proof {
                let e1 = e0.insert(i as int, (key, value));
                let k1 = entry_keys(e1);
                assert(k1 =~= k0.insert(i as int, key@));
                if i < e0.len() {
                    text_lt_total(key@, e0[i as int].0@);
                }
                assert forall|a: int, b: int| 0 <= a < b < k1.len() implies text_lt(k1[a], k1[b]) by {
                    if a < i && b == i {
                    } else if b < i {
                        assert(text_lt(k0[a], k0[b]));
                    } else if a == i {
                        if b - 1 > i {
                            assert(text_lt(k0[i as int], k0[b - 1]));
                            text_lt_transitive(key@, k0[i as int], k0[b - 1]);
                        }
                    } else if a > i {
                        assert(text_lt(k0[a - 1], k0[b - 1]));
                    } else {
                        assert(text_lt(k0[a], k0[b - 1]));
                    }
                }
            }
            e.insert(i, (key, value));
            proof {
                insert_is_map_insert(e0, e@, i as int, key@, value);
            }
        }
        self.entries = e;
    }
}

/// What replacing the entry of a key, or putting in a new entry, does to the map.
proof fn insert_is_map_insert<V>(
    e0: Seq<(String, V)>,
    e1: Seq<(String, V)>,
    i: int,
    key: Seq<char>,
    value: V,
)
    requires
        ascending(entry_keys(e0)),
        ascending(entry_keys(e1)),
        0 <= i < e1.len(),
        e1[i].0@ == key,
        e1[i].1 == value,
        ({
            ||| i < e0.len() && e0[i].0@ == key && e1 == e0.update(i, e1[i])
            ||| i <= e0.len() && e1 == e0.insert(i, e1[i])
        }),
    ensures
        entry_map(e1) == entry_map(e0).insert(key, value),
        entry_keys(e1).to_set() == entry_keys(e0).to_set().insert(key),
{
    let m0 = entry_map(e0);
    let m1 = entry_map(e1);
    entry_at(e1, i);
    let replaces = i < e0.len() && e0[i].0@ == key && e1 == e0.update(i, e1[i]);
    assert forall|k: Seq<char>| m1.contains_key(k) <==> m0.insert(key, value).contains_key(k) by {
        if m1.contains_key(k) && k != key {
            let j = choose|j: int| 0 <= j < e1.len() && (#[trigger] e1[j]).0@ == k;
            if replaces || j < i {
                assert(e0[j].0@ == k);
            } else {
                assert(e0[j - 1].0@ == k);
            }
        }
        if m0.contains_key(k) && k != key {
            let j = choose|j: int| 0 <= j < e0.len() && (#[trigger] e0[j]).0@ == k;
            if replaces || j < i {
                assert(e1[j].0@ == k);
            } else {
                assert(e1[j + 1].0@ == k);
            }
        }
    }
    assert forall|k: Seq<char>| m1.contains_key(k) implies m1[k] == m0.insert(key, value)[k] by {
        if k != key {
            let j = choose|j: int| 0 <= j < e1.len() && (#[trigger] e1[j]).0@ == k;
            entry_at(e1, j);
            if replaces || j < i {
                entry_at(e0, j);
            } else {
                entry_at(e0, j - 1);
            }
        }
    }
    assert(m1 =~= m0.insert(key, value));
    let s0 = entry_keys(e0);
    let s1 = entry_keys(e1);
    assert forall|k: Seq<char>| s1.to_set().contains(k) <==> s0.to_set().insert(key).contains(k) by {
        if s1.contains(k) {
            let j = choose|j: int| 0 <= j < s1.len() && s1[j] == k;
            assert(e1[j].0@ == k);
            assert(m1.contains_key(k));
            assert(m0.insert(key, value).contains_key(k));
            if k != key {
                assert(m0.contains_key(k));
                let h = choose|h: int| 0 <= h < e0.len() && (#[trigger] e0[h]).0@ == k;
                assert(s0[h] == k);
            }
        }
        if s0.contains(k) {
            let j = choose|j: int| 0 <= j < s0.len() && s0[j] == k;
            assert(e0[j].0@ == k);
            assert(m0.contains_key(k));
            assert(m0.insert(key, value).contains_key(k));
            assert(m1.contains_key(k));
            let h = choose|h: int| 0 <= h < e1.len() && (#[trigger] e1[h]).0@ == k;
            assert(s1[h] == k);
        }
        if k == key {
            assert(s1[i] == k);
        }
    }
    assert(s1.to_set() =~= s0.to_set().insert(key));
}

impl<V> View for StrMap<V> {
    type V = Map<Seq<char>, V>;

    closed spec fn view(&self) -> Map<Seq<char>, V> {
        entry_map(self.entries@)
    }
}

/// The contents of a map of texts.
pub open spec fn texts(m: StrMap<String>) -> Map<Seq<char>, Seq<char>> {
    m@.map_values(|s: String| s@)
}

/// The keys and values of a map of texts, in the order of the keys.
pub open spec fn pairs_of(m: Map<Seq<char>, Seq<char>>) -> Seq<(Seq<char>, Seq<char>)> {
    in_order(m.dom()).map_values(|k: Seq<char>| (k, m[k]))
}

/// An environment with another laid over it.
pub open spec fn overlaid(
    a: Map<Seq<char>, Seq<char>>,
    b: Map<Seq<char>, Seq<char>>,
) -> Map<Seq<char>, Seq<char>> {
    a.union_prefer_right(b)
}

impl StrMap<String> {
    /// Lays the entries of another map over those of this one.
    pub fn overlay(&mut self, more: &StrMap<String>)
        ensures
            texts(*final(self)) == overlaid(texts(*old(self)), texts(*more)),
    {
        let ghost start = texts(*self);
        let ghost mv = texts(*more);
        let n: usize = more.len();
        let ghost keys = more.keys();
        assert(mv.dom() =~= more@.dom());
        let mut i: usize = 0;
        while i < n
            invariant
                i <= n,
                n == keys.len(),
                keys == more.keys(),
                orders(keys, more@.dom()),
                mv == texts(*more),
                mv.dom() == more@.dom(),
                forall|k: Seq<char>|
                    #[trigger] texts(*self).contains_key(k) <==> start.contains_key(k) || exists|j: int|
                        0 <= j < i && keys[j] == k,
                forall|k: Seq<char>| #[trigger]
                    texts(*self).contains_key(k) ==> texts(*self)[k] == (if exists|j: int|
                        0 <= j < i && keys[j] == k {
                        mv[k]
                    } else {
                        start[k]
                    }),
            decreases n - i,
        {
            let (k, v) = more.at(i);
            let ghost before = texts(*self);
            let ghost kv = k@;
            self.insert(k.clone(), v.clone());
            proof {
                assert(texts(*self) =~= before.insert(kv, mv[kv]));
                assert forall|x: Seq<char>|
                    #[trigger] texts(*self).contains_key(x) <==> start.contains_key(x) || exists|j: int|
                        0 <= j < i + 1 && keys[j] == x by {
                    if x == kv {
                        assert(keys[i as int] == x);
                    } else if start.contains_key(x) || exists|j: int| 0 <= j < i + 1 && keys[j] == x {
                        if !start.contains_key(x) {
                            let j = choose|j: int| 0 <= j < i + 1 && keys[j] == x;
                            assert(j < i);
                        }
                    }
                }
                assert forall|x: Seq<char>| #[trigger] texts(*self).contains_key(x) implies texts(
                    *self,
                )[x] == (if exists|j: int| 0 <= j < i + 1 && keys[j] == x {
                    mv[x]
                } else {
                    start[x]
                }) by {
                    if x == kv {
                        assert(keys[i as int] == x);
                    } else {
                        assert(before.contains_key(x));
                        if exists|j: int| 0 <= j < i + 1 && keys[j] == x {
                            let j = choose|j: int| 0 <= j < i + 1 && keys[j] == x;
                            assert(j < i && keys[j] == x);
                        }
                    }
                }
            }
            i += 1;
        }
        proof {
            let r = texts(*self);
            assert forall|k: Seq<char>| mv.contains_key(k) <==> (exists|j: int|
                0 <= j < n && keys[j] == k) by {
                if mv.contains_key(k) {
                    assert(keys.contains(k));
                }
                if exists|j: int| 0 <= j < n && keys[j] == k {
                    assert(keys.contains(k));
                }
            }
            assert(r =~= overlaid(start, mv));
        }
    }

    /// A copy of a map of texts.
    pub fn copy(&self) -> (r: StrMap<String>)
        ensures
            r.keys() == self.keys(),
            texts(r) == texts(*self),
    {
        proof {
            use_type_invariant(self);
        }
        let mut e: Vec<(String, String)> = Vec::new();
        let mut i: usize = 0;
        while i < self.entries.len()
            invariant
                i <= self.entries@.len(),
                e@.len() == i,
                forall|j: int|
                    0 <= j < i ==> (#[trigger] e@[j]).0@ == self.entries@[j].0@ && e@[j].1@
                        == self.entries@[j].1@,
            decreases self.entries@.len() - i,
        {
            e.push((self.entries[i].0.clone(), self.entries[i].1.clone()));
            i += 1;
        }
        let ghost e0 = self.entries@;
        assert(entry_keys(e@) =~= entry_keys(e0));
        let r = StrMap { entries: e };
        proof {
            let a = r@;
            let b = self@;
            assert forall|k: Seq<char>| a.contains_key(k) <==> b.contains_key(k) by {
                if a.contains_key(k) {
                    let j = choose|j: int| 0 <= j < e@.len() && (#[trigger] e@[j]).0@ == k;
                    assert(e0[j].0@ == k);
                }
                if b.contains_key(k) {
                    let j = choose|j: int| 0 <= j < e0.len() && (#[trigger] e0[j]).0@ == k;
                    assert(e@[j].0@ == k);
                }
            }
            assert forall|k: Seq<char>| a.contains_key(k) implies a[k]@ == b[k]@ by {
                let j = choose|j: int| 0 <= j < e@.len() && (#[trigger] e@[j]).0@ == k;
                entry_at(e@, j);
                entry_at(e0, j);
            }
            assert(texts(r) =~= texts(*self));
        }
        r
    }
}

/// Laying one set of variables over another keeps all of both, and what is laid over counts.
pub proof fn what_is_laid_over_counts(
    a: Map<Seq<char>, Seq<char>>,
    b: Map<Seq<char>, Seq<char>>,
    k: Seq<char>,
)
    ensures
        overlaid(a, b).contains_key(k) <==> a.contains_key(k) || b.contains_key(k),
        b.contains_key(k) ==> overlaid(a, b)[k] == b[k],
        a.contains_key(k) && !b.contains_key(k) ==> overlaid(a, b)[k] == a[k],
{
}

/// The pairs of a map are its keys in their order, each once, with their values.
pub proof fn the_pairs_of_a_map_are_in_order(m: Map<Seq<char>, Seq<char>>, k: Seq<char>, i: int, j: int)
    requires
        m.dom().finite(),
    ensures
        m.contains_key(k) <==> pairs_of(m).contains((k, m[k])),
        0 <= i < pairs_of(m).len() ==> m.contains_key(pairs_of(m)[i].0) && pairs_of(m)[i].1
            == m[pairs_of(m)[i].0],
        0 <= i < j < pairs_of(m).len() ==> text_lt(pairs_of(m)[i].0, pairs_of(m)[j].0),
{
    let o = in_order(m.dom());
    a_finite_set_has_an_order(m.dom());
    assert(orders(o, m.dom()));
    if m.contains_key(k) {
        assert(m.dom().contains(k));
        assert(o.contains(k));
        let x = choose|x: int| 0 <= x < o.len() && o[x] == k;
        assert(pairs_of(m)[x] == (k, m[k]));
    }
    if pairs_of(m).contains((k, m[k])) {
        let x = choose|x: int| 0 <= x < pairs_of(m).len() && pairs_of(m)[x] == (k, m[k]);
        assert(o[x] == k);
        assert(o.contains(k));
    }
    if 0 <= i < pairs_of(m).len() {
        assert(o.contains(o[i]));
    }
}

} // verus!
