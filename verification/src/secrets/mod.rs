//! Secrets. What can be rotated may be handed on in an environment; the key of the soul is a
//! reference that only the harness resolves, and is handed on to nothing.

use vstd::prelude::*;

use crate::config::DackConfig;
use crate::error::{error_detail, DackError};
use crate::strmap::{texts, StrMap};
use crate::text::{after_prefix, owned, push_from, push_one, strip_prefix};

pub mod providers;

verus! {

// ── Environments ────────────────────────────────────────────────────────────────────────

/// The part of an environment that has these names.
pub open spec fn picked(host: Map<Seq<char>, Seq<char>>, names: Seq<Seq<char>>) -> Map<
    Seq<char>,
    Seq<char>,
> {
    host.restrict(names.to_set())
}

/// Picks variables by their names. A name without a value is passed over.
pub fn pick_env(host: &StrMap<String>, names: &Vec<String>) -> (r: StrMap<String>)
    ensures
        texts(r) == picked(texts(*host), names.deep_view()),
{
    let ghost all = names.deep_view();
    let mut out: StrMap<String> = StrMap::new();
    let mut i: usize = 0;
    assert(all.len() == names@.len());
    assert(texts(out) =~= picked(texts(*host), all.take(0)));
    while i < names.len()
        invariant
            i <= names@.len(),
            all == names.deep_view(),
            texts(out) == picked(texts(*host), all.take(i as int)),
        decreases names@.len() - i,
    {
        let ghost before = texts(out);
        let ghost n = all[i as int];
        assert(n == names@[i as int]@);
        proof {
            assert(all.take(i + 1) =~= all.take(i as int).push(n));
            assert forall|k: Seq<char>| #[trigger]
                all.take(i + 1).to_set().contains(k) == (all.take(i as int).to_set().contains(k)
                    || k == n) by {
                let a = all.take(i as int);
                let b = all.take(i + 1);
                if b.contains(k) && k != n {
                    let j = choose|j: int| 0 <= j < b.len() && b[j] == k;
                    assert(a[j] == k);
                }
                if a.contains(k) {
                    let j = choose|j: int| 0 <= j < a.len() && a[j] == k;
                    assert(b[j] == k);
                }
                assert(b[i as int] == n);
            }
        }
        match host.get(names[i].as_str()) {
            Some(v) => {
                out.insert(names[i].clone(), v.clone());
                assert(texts(out) =~= before.insert(n, v@));
                assert(texts(*host).contains_key(n) && texts(*host)[n] == v@);
                assert forall|k: Seq<char>| #[trigger]
                    texts(out).contains_key(k) == picked(
                        texts(*host),
                        all.take(i + 1),
                    ).contains_key(k) by {
                    assert(all.take(i + 1).to_set().contains(k) == (all.take(
                        i as int,
                    ).to_set().contains(k) || k == n));
                }
                assert(texts(out) =~= picked(texts(*host), all.take(i + 1)));
            },
            None => {
                assert(!texts(*host).contains_key(n));
                assert forall|k: Seq<char>| #[trigger]
                    texts(out).contains_key(k) == picked(
                        texts(*host),
                        all.take(i + 1),
                    ).contains_key(k) by {
                    assert(all.take(i + 1).to_set().contains(k) == (all.take(
                        i as int,
                    ).to_set().contains(k) || k == n));
                }
                assert(texts(out) =~= picked(texts(*host), all.take(i + 1)));
            },
        }
        i += 1;
    }
    assert(all.take(i as int) =~= all);
    out
}

/// What is handed on to the agent and the sensors: the variables that the operator listed, and
/// no others.
pub fn forwarded_env(config: &DackConfig, host: &StrMap<String>) -> (r: StrMap<String>)
    ensures
        texts(r) == picked(texts(*host), config.forwarded_env.deep_view()),
{
    pick_env(host, &config.forwarded_env)
}

/// The names that a sensor sees.
pub open spec fn sensor_names(c: DackConfig) -> Seq<Seq<char>> {
    seq!["PATH"@] + c.forwarded_env.deep_view()
}

/// What a sensor sees before its own secrets: where programs are found, and what is handed on.
pub fn sensor_env(config: &DackConfig, host: &StrMap<String>) -> (r: StrMap<String>)
    ensures
        texts(r) == picked(texts(*host), sensor_names(*config)),
{
    let mut names: Vec<String> = Vec::new();
    assert(names.deep_view() =~= Seq::empty());
    push_one(&mut names, "PATH");
    push_from(&mut names, &config.forwarded_env, 0);
    assert(config.forwarded_env.deep_view().skip(0) =~= config.forwarded_env.deep_view());
    assert(names.deep_view() =~= sensor_names(*config));
    pick_env(host, &names)
}

/// The names that the engine's bridge sees.
pub open spec fn bridge_names(c: DackConfig) -> Seq<Seq<char>> {
    seq!["PATH"@, "HOME"@] + c.runtime.env.deep_view() + c.forwarded_env.deep_view()
}

/// What the engine's bridge sees before the connector's own credentials.
pub fn bridge_env(config: &DackConfig, host: &StrMap<String>) -> (r: StrMap<String>)
    ensures
        texts(r) == picked(texts(*host), bridge_names(*config)),
{
    let mut names: Vec<String> = Vec::new();
    assert(names.deep_view() =~= Seq::empty());
    push_one(&mut names, "PATH");
    push_one(&mut names, "HOME");
    push_from(&mut names, &config.runtime.env, 0);
    push_from(&mut names, &config.forwarded_env, 0);
    assert(config.runtime.env.deep_view().skip(0) =~= config.runtime.env.deep_view());
    assert(config.forwarded_env.deep_view().skip(0) =~= config.forwarded_env.deep_view());
    assert(names.deep_view() =~= bridge_names(*config));
    pick_env(host, &names)
}

// ── References ──────────────────────────────────────────────────────────────────────────

/// Secrets that are kept in files.
#[derive(Debug)]
pub struct FileSecretStore;

impl FileSecretStore {
    /// The file of a reference.
    pub fn path(&self, reference: &str) -> (r: Result<String, DackError>)
        ensures
            match after_prefix(reference@, "file://"@) {
                Some(p) => r is Ok && r->Ok_0@ == p,
                None => r is Err && r->Err_0 is Config && error_detail(r->Err_0)
                    == "unsupported secret reference scheme: "@ + reference@,
            },
    {
        match strip_prefix(reference, "file://") {
            Some(p) => Ok(p),
            None => {
                let mut out = owned("unsupported secret reference scheme: ");
                out.append(reference);
                Err(DackError::Config(out))
            },
        }
    }
}

// ── Laws ────────────────────────────────────────────────────────────────────────────────

/// What the operator did not list reaches neither the agent nor a sensor, whatever the
/// harness's own environment holds.
pub proof fn nothing_unlisted_is_forwarded(
    c: DackConfig,
    host: Map<Seq<char>, Seq<char>>,
    name: Seq<char>,
)
    requires
        !c.forwarded_env.deep_view().contains(name),
    ensures
        !picked(host, c.forwarded_env.deep_view()).contains_key(name),
        name != "PATH"@ ==> !picked(host, sensor_names(c)).contains_key(name),
{
    let names = sensor_names(c);
    if name != "PATH"@ && names.contains(name) {
        let i = choose|i: int| 0 <= i < names.len() && names[i] == name;
        assert(c.forwarded_env.deep_view()[i - 1] == name);
    }
}

/// What is listed and set is forwarded with its value, and nothing else.
pub proof fn what_is_listed_is_forwarded(
    host: Map<Seq<char>, Seq<char>>,
    names: Seq<Seq<char>>,
    v: Seq<char>,
)
    ensures
        picked(host, names).contains_key(v) <==> host.contains_key(v) && exists|i: int|
            0 <= i < names.len() && #[trigger] names[i] == v,
        picked(host, names).contains_key(v) ==> picked(host, names)[v] == host[v],
{
    if names.contains(v) {
        let i = choose|i: int| 0 <= i < names.len() && names[i] == v;
        assert(names[i] == v);
    }
}

/// A sensor sees where programs are, and what the operator forwards; the engine also sees where the
/// home is, and what its own settings name.
pub proof fn each_side_sees_its_own_variables(c: DackConfig, v: Seq<char>)
    ensures
        sensor_names(c).contains(v) <==> v == "PATH"@ || c.forwarded_env.deep_view().contains(v),
        bridge_names(c).contains(v) <==> v == "PATH"@ || v == "HOME"@
            || c.forwarded_env.deep_view().contains(v) || c.runtime.env.deep_view().contains(v),
{
    let f = c.forwarded_env.deep_view();
    let e = c.runtime.env.deep_view();
    let s = sensor_names(c);
    let b = bridge_names(c);
    assert(s[0] == "PATH"@ && b[0] == "PATH"@ && b[1] == "HOME"@);
    if f.contains(v) {
        let i = choose|i: int| 0 <= i < f.len() && f[i] == v;
        assert(s[i + 1] == v);
        assert(b[i + 2 + e.len()] == v);
    }
    if e.contains(v) {
        let i = choose|i: int| 0 <= i < e.len() && e[i] == v;
        assert(b[i + 2] == v);
    }
    if s.contains(v) {
        let i = choose|i: int| 0 <= i < s.len() && s[i] == v;
        if i > 0 {
            assert(f[i - 1] == v);
        }
    }
    if b.contains(v) {
        let i = choose|i: int| 0 <= i < b.len() && b[i] == v;
        if i >= 2 + e.len() {
            assert(f[i - 2 - e.len()] == v);
        } else if i >= 2 {
            assert(e[i - 2] == v);
        }
    }
}

} // verus!
