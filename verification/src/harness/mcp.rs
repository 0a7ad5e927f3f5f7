//! The capability handshake.
//!
//! A prompt asks for servers; the operator's policy for its state admits them; a server's own
//! tier and floor of trust have to fit. What does not pass is left out, and the cycle goes
//! on. A token goes into the server's transport and nowhere else.

use vstd::prelude::*;

use crate::decode::FromTree;
use crate::config::{
    a_server_is_found_by_its_name, open_prefix, server_index, server_index_names_a_server, server_prefix, tier_rank, CapabilityPrefix, CapabilityTier,
    DackConfig, McpAuth, McpServerConfig, McpTransport, PrefixV, TierPolicy, TierPolicyV, TierV,
    TrustLattice,
};
use crate::json::{
    a_field_is_found_by_its_name, field, fields_view, set_field, texts_tree, with_field,
    with_field_reads_back, Json, JsonV,
};
use crate::model::proposal::{plain, plain_text};
use crate::model::stimulus::TrustTier;
use crate::state::ConsciousnessState;
use crate::state_prompt::{ref_name, McpRef, McpRefV, StatePrompt};
use crate::stimuli::pairs_view;
use crate::strmap::{a_finite_set_has_an_order, in_order, orders, pairs_of, texts, StrMap};
use crate::text::{
    any_same, has_prefix, owned, starts_with, text_lt, text_lt_irreflexive, text_lt_transitive,
};

verus! {

/// What the host lends to a server that it spawns.
#[derive(Debug)]
pub struct Host {
    /// Variables that every spawned server gets.
    pub env: Vec<(String, String)>,
    /// The absolute paths of relative ones that exist.
    pub resolved: StrMap<String>,
}

/// What the providers made: for each name its variables, or that it failed.
pub type Secrets = StrMap<Option<StrMap<String>>>;

/// What a provider made.
pub open spec fn made_by(s: Secrets, name: Seq<char>) -> Option<Map<Seq<char>, Seq<char>>> {
    if s@.contains_key(name) {
        match s@[name] {
            Some(env) => Some(texts(env)),
            None => None,
        }
    } else {
        None
    }
}

// ── What fits where ─────────────────────────────────────────────────────────────────────

/// A server of this tier may be used in this state: reading everywhere, posting in Express,
/// settling in Settle.
pub open spec fn fits(tier: CapabilityTier, state: ConsciousnessState) -> bool {
    match tier {
        CapabilityTier::Read => true,
        CapabilityTier::Post => state == ConsciousnessState::Express,
        CapabilityTier::Settle => state == ConsciousnessState::Settle,
    }
}

/// Whether a server of this tier may be used in this state.
pub fn tier_fits_state(tier: CapabilityTier, state: ConsciousnessState) -> (r: bool)
    ensures
        r == fits(tier, state),
{
    match tier {
        CapabilityTier::Read => true,
        CapabilityTier::Post => state == ConsciousnessState::Express,
        CapabilityTier::Settle => state == ConsciousnessState::Settle,
    }
}

/// A cycle has the trust that a server asks for.
pub open spec fn trusted_enough(l: Seq<TierV>, floor: Option<TrustTier>, trust: Seq<char>) -> bool {
    floor is Some ==> tier_rank(l, trust) >= tier_rank(l, floor->0@)
}

/// A server is admitted: the policy lists it and does not deny it, its tier fits the state
/// and the cycle has the trust that it asks for.
pub open spec fn admitted(
    l: Seq<TierV>,
    p: TierPolicyV,
    state: ConsciousnessState,
    trust: Seq<char>,
    s: McpServerConfig,
) -> bool {
    &&& !p.deny.contains(s.name@)
    &&& p.import.contains(s.name@)
    &&& fits(s.tier, state)
    &&& trusted_enough(l, s.min_trust, trust)
}

// ── The transport ───────────────────────────────────────────────────────────────────────

/// The variable of a provider that is the token: the one that is named, else its first.
pub open spec fn token_key(key: Option<Seq<char>>, env: Map<Seq<char>, Seq<char>>) -> Option<
    Seq<char>,
> {
    match key {
        Some(k) => Some(k),
        None => if in_order(env.dom()).len() > 0 {
            Some(in_order(env.dom())[0])
        } else {
            None
        },
    }
}

/// The token that a provider made.
pub open spec fn token_in(key: Option<Seq<char>>, env: Map<Seq<char>, Seq<char>>) -> Option<
    Seq<char>,
> {
    match token_key(key, env) {
        Some(k) => if env.contains_key(k) {
            Some(env[k])
        } else {
            None
        },
        None => None,
    }
}

/// The header by which a token is handed over: `Authorization: Bearer <token>` unless the
/// operator says otherwise. An empty scheme hands over the bare token.
pub open spec fn header_of(
    header: Option<Seq<char>>,
    scheme: Option<Seq<char>>,
    token: Seq<char>,
) -> (Seq<char>, Seq<char>) {
    let name = match header {
        Some(h) => h,
        None => "Authorization"@,
    };
    let word = match scheme {
        Some(s) => s,
        None => "Bearer"@,
    };
    (name, if word.len() == 0 {
        token
    } else {
        word + " "@ + token
    })
}

/// Fields with these texts, each key once, the last value winning.
pub open spec fn text_fields(pairs: Seq<(Seq<char>, Seq<char>)>) -> Seq<(Seq<char>, JsonV)>
    decreases pairs.len(),
{
    if pairs.len() == 0 {
        Seq::empty()
    } else {
        with_field(text_fields(pairs.drop_last()), pairs.last().0, JsonV::Str(pairs.last().1))
    }
}

/// The variables that are filled from what the cycle replies to.
pub open spec fn scope_pairs(vars: Seq<(Seq<char>, Seq<char>)>, scope: JsonV) -> Seq<
    (Seq<char>, Seq<char>),
>
    decreases vars.len(),
{
    if vars.len() == 0 {
        Seq::empty()
    } else {
        let rest = scope_pairs(vars.drop_last(), scope);
        match field(scope, vars.last().1) {
            Some(x) => rest.push((vars.last().0, plain(x))),
            None => rest,
        }
    }
}

/// The variable by which a spawned server gets its token.
pub open spec fn token_pairs(auth: Option<McpAuth>, token: Option<Seq<char>>) -> Seq<
    (Seq<char>, Seq<char>),
> {
    match (auth, token) {
        (Some(a), Some(t)) => match a.env {
            Some(k) => seq![(k@, t)],
            None => Seq::empty(),
        },
        _ => Seq::empty(),
    }
}

/// The environment of a spawned server: what the host lends, the operator's fixed values,
/// what is locked to the cycle, and the token.
pub open spec fn spawn_env(
    host: Host,
    s: McpServerConfig,
    scope: JsonV,
    token: Option<Seq<char>>,
) -> Seq<(Seq<char>, Seq<char>)> {
    pairs_view(host.env@) + pairs_of(texts(s.env)) + scope_pairs(
        pairs_of(texts(s.scope_env)),
        scope,
    ) + token_pairs(s.auth, token)
}

/// An argument, made absolute where it is a relative path that exists.
pub open spec fn absolute_arg(host: Host, arg: Seq<char>) -> Seq<char> {
    if !has_prefix(arg, "/"@) && texts(host.resolved).contains_key(arg) {
        texts(host.resolved)[arg]
    } else {
        arg
    }
}

/// The header fields of a server that is reached over HTTP.
pub open spec fn header_fields(auth: Option<McpAuth>, token: Option<Seq<char>>) -> Seq<
    (Seq<char>, JsonV),
> {
    match (auth, token) {
        (Some(a), Some(t)) => {
            let h = header_of(a.header.deep_view(), a.scheme.deep_view(), t);
            seq![(h.0, JsonV::Str(h.1))]
        },
        _ => Seq::empty(),
    }
}

/// How a server is handed to the engine.
pub open spec fn server_tree(
    host: Host,
    s: McpServerConfig,
    scope: JsonV,
    token: Option<Seq<char>>,
) -> JsonV {
    match s.transport {
        McpTransport::Http { url } => JsonV::Object(
            seq![
                ("type"@, JsonV::Str("http"@)),
                ("url"@, JsonV::Str(url@)),
                ("headers"@, JsonV::Object(header_fields(s.auth, token))),
            ],
        ),
        McpTransport::Stdio { command, args } => JsonV::Object(
            seq![
                ("type"@, JsonV::Str("stdio"@)),
                ("command"@, JsonV::Str(command@)),
                (
                    "args"@,
                    texts_tree(args.deep_view().map_values(|a: Seq<char>| absolute_arg(host, a))),
                ),
                ("env"@, JsonV::Object(text_fields(spawn_env(host, s, scope, token)))),
            ],
        ),
    }
}

fn pick_token(key: &Option<String>, env: &StrMap<String>) -> (r: Option<String>)
    ensures
        r.deep_view() == token_in(key.deep_view(), texts(*env)),
{
    let n: usize = env.len();
    assert(texts(*env).dom() =~= env@.dom());
    match key {
        Some(k) => match env.get(k.as_str()) {
            Some(v) => Some(v.clone()),
            None => None,
        },
        None => if n > 0 {
            let (_k, v) = env.at(0);
            Some(v.clone())
        } else {
            None
        },
    }
}

fn header_value(scheme: &Option<String>, token: &str) -> (r: String)
    ensures
        r@ == header_of(None, scheme.deep_view(), token@).1,
{
    let word = match scheme {
        Some(s) => s.clone(),
        None => owned("Bearer"),
    };
    proof {
        reveal_strlit("Bearer");
    }
    if word.as_str().is_empty() {
        owned(token)
    } else {
        let mut out = word;
        out.append(" ");
        out.append(token);
        out
    }
}

fn push_pairs(out: &mut Vec<(String, String)>, m: &StrMap<String>)
    ensures
        pairs_view(final(out)@) == pairs_view(old(out)@) + pairs_of(texts(*m)),
{
    let n: usize = m.len();
    let ghost keys = m.keys();
    let ghost all = pairs_of(texts(*m));
    let ghost start = pairs_view(out@);
    proof {
        assert(texts(*m).dom() =~= m@.dom());
        assert(start + all.take(0) =~= start);
    }
    let mut i: usize = 0;
    while i < n
        invariant
            i <= n,
            n == keys.len(),
            keys == m.keys(),
            keys == in_order(m@.dom()),
            texts(*m).dom() == m@.dom(),
            all == pairs_of(texts(*m)),
            pairs_view(out@) == start + all.take(i as int),
        decreases n - i,
    {
        let (k, v) = m.at(i);
        let ghost o = out@;
        out.push((k.clone(), v.clone()));
        assert(all[i as int] == (keys[i as int], texts(*m)[keys[i as int]]));
        assert(pairs_view(out@) =~= pairs_view(o).push((k@, v@)));
        assert(all.take(i + 1) =~= all.take(i as int).push(all[i as int]));
        assert(pairs_view(out@) =~= start + all.take(i + 1));
        i += 1;
    }
    assert(all.take(i as int) =~= all);
}

fn push_scope(out: &mut Vec<(String, String)>, vars: &StrMap<String>, scope: &Json)
    ensures
        pairs_view(final(out)@) == pairs_view(old(out)@) + scope_pairs(
            pairs_of(texts(*vars)),
            scope@,
        ),
{
    let n: usize = vars.len();
    let ghost keys = vars.keys();
    let ghost all = pairs_of(texts(*vars));
    let ghost start = pairs_view(out@);
    proof {
        assert(texts(*vars).dom() =~= vars@.dom());
        assert(all.take(0) =~= Seq::empty());
        assert(start + scope_pairs(all.take(0), scope@) =~= start);
    }
    let mut i: usize = 0;
    while i < n
        invariant
            i <= n,
            n == keys.len(),
            keys == vars.keys(),
            keys == in_order(vars@.dom()),
            texts(*vars).dom() == vars@.dom(),
            all == pairs_of(texts(*vars)),
            pairs_view(out@) == start + scope_pairs(all.take(i as int), scope@),
        decreases n - i,
    {
        let (k, name) = vars.at(i);
        let ghost o = out@;
        proof {
            assert(all[i as int] == (keys[i as int], texts(*vars)[keys[i as int]]));
            assert(all.take(i + 1).drop_last() =~= all.take(i as int));
            assert(all.take(i + 1).last() == (k@, name@));
        }
        match scope.get(name.as_str()) {
            Some(x) => {
                let v = plain_text(x);
                let ghost vv = v@;
                out.push((k.clone(), v));
                assert(pairs_view(out@) =~= pairs_view(o).push((k@, vv)));
                assert(pairs_view(out@) =~= start + scope_pairs(all.take(i + 1), scope@));
            },
            None => {},
        }
        i += 1;
    }
    assert(all.take(i as int) =~= all);
}

fn text_object(pairs: &Vec<(String, String)>) -> (r: Json)
    ensures
        r@ == JsonV::Object(text_fields(pairs_view(pairs@))),
{
    let ghost all = pairs_view(pairs@);
    let mut f: Vec<(String, Json)> = Vec::new();
    let mut i: usize = 0;
    assert(all.take(0) =~= Seq::empty());
    assert(fields_view(f@) =~= Seq::empty());
    while i < pairs.len()
        invariant
            i <= pairs@.len(),
            all == pairs_view(pairs@),
            fields_view(f@) == text_fields(all.take(i as int)),
        decreases pairs@.len() - i,
    {
        proof {
            assert(all.take(i + 1).drop_last() =~= all.take(i as int));
            assert(all.take(i + 1).last() == all[i as int]);
        }
        set_field(&mut f, pairs[i].0.as_str(), Json::Str(pairs[i].1.clone()));
        i += 1;
    }
    assert(all.take(i as int) =~= all);
    Json::object(f)
}

fn copy_pairs(v: &Vec<(String, String)>) -> (r: Vec<(String, String)>)
    ensures
        pairs_view(r@) == pairs_view(v@),
{
    let mut out: Vec<(String, String)> = Vec::new();
    let mut i: usize = 0;
    while i < v.len()
        invariant
            i <= v@.len(),
            out@.len() == i,
            forall|k: int|
                0 <= k < i ==> (#[trigger] out@[k]).0@ == v@[k].0@ && out@[k].1@ == v@[k].1@,
        decreases v@.len() - i,
    {
        out.push((v[i].0.clone(), v[i].1.clone()));
        i += 1;
    }
    assert(pairs_view(out@) =~= pairs_view(v@));
    out
}

/// An argument, made absolute where it is a relative path that exists.
pub fn absolutize_arg(host: &Host, arg: &str) -> (r: String)
    ensures
        r@ == absolute_arg(*host, arg@),
{
    if !starts_with(arg, "/") {
        match host.resolved.get(arg) {
            Some(abs) => return abs.clone(),
            None => {},
        }
    }
    owned(arg)
}

/// How a server is handed to the engine, with its token in the transport.
pub fn build_mcp_config(host: &Host, server: &McpServerConfig, scope: &Json, token: &Option<String>) -> (r: Json)
    ensures
        r@ == server_tree(*host, *server, scope@, token.deep_view()),
{
    match &server.transport {
        McpTransport::Http { url } => {
            let mut headers: Vec<(String, Json)> = Vec::new();
            match (&server.auth, token) {
                (Some(auth), Some(tok)) => {
                    let name = match &auth.header {
                        Some(h) => h.clone(),
                        None => owned("Authorization"),
                    };
                    let value = header_value(&auth.scheme, tok.as_str());
                    headers.push((name, Json::Str(value)));
                },
                _ => {},
            }
            assert(fields_view(headers@) =~= header_fields(server.auth, token.deep_view()));
            let f = vec![
                (owned("type"), Json::Str(owned("http"))),
                (owned("url"), Json::Str(url.clone())),
                (owned("headers"), Json::object(headers)),
            ];
            let r = Json::object(f);
            assert(r@->Object_0 =~= server_tree(*host, *server, scope@, token.deep_view())->Object_0);
            r
        },
        McpTransport::Stdio { command, args } => {
            let ghost av = args.deep_view();
            let mut abs: Vec<String> = Vec::new();
            let mut i: usize = 0;
            while i < args.len()
                invariant
                    i <= args@.len(),
                    abs@.len() == i,
                    forall|k: int|
                        0 <= k < i ==> (#[trigger] abs@[k])@ == absolute_arg(*host, args@[k]@),
                decreases args@.len() - i,
            {
                abs.push(absolutize_arg(host, args[i].as_str()));
                i += 1;
            }
            assert(abs.deep_view() =~= av.map_values(|a: Seq<char>| absolute_arg(*host, a)));
            let mut env = copy_pairs(&host.env);
            push_pairs(&mut env, &server.env);
            push_scope(&mut env, &server.scope_env, scope);
            let ghost before = pairs_view(env@);
            match (&server.auth, token) {
                (Some(auth), Some(tok)) => match &auth.env {
                    Some(k) => {
                        env.push((k.clone(), tok.clone()));
                        assert(pairs_view(env@) =~= before.push((k@, tok@)));
                    },
                    None => {},
                },
                _ => {},
            }
            assert(pairs_view(env@) =~= spawn_env(*host, *server, scope@, token.deep_view()));
            let f = vec![
                (owned("type"), Json::Str(owned("stdio"))),
                (owned("command"), Json::Str(command.clone())),
                (owned("args"), Json::texts(&abs)),
                (owned("env"), text_object(&env)),
            ];
            let r = Json::object(f);
            assert(r@->Object_0 =~= server_tree(*host, *server, scope@, token.deep_view())->Object_0);
            r
        },
    }
}

// ── Assembly ────────────────────────────────────────────────────────────────────────────

/// What a step gets.
pub struct AssemblyV {
    pub servers: Map<Seq<char>, JsonV>,
    pub read: Seq<PrefixV>,
}

/// What servers hold.
pub open spec fn trees(m: StrMap<Json>) -> Map<Seq<char>, JsonV> {
    m@.map_values(|j: Json| j@)
}

/// The server of an import, as it is handed to the engine; nothing where it is not admitted,
/// not registered, or its secret failed.
pub open spec fn imported(
    c: DackConfig,
    p: TierPolicyV,
    state: ConsciousnessState,
    trust: Seq<char>,
    scope: JsonV,
    secrets: Secrets,
    host: Host,
    name: Seq<char>,
) -> Option<JsonV> {
    match server_index(c.mcp_servers@, name) {
        None => None,
        Some(i) => {
            let s = c.mcp_servers@[i];
            if !admitted(c.trust_tiers.deep_view(), p, state, trust, s) {
                None
            } else {
                match s.auth {
                    None => Some(server_tree(host, s, scope, None)),
                    Some(a) => match made_by(secrets, a.secret@) {
                        Some(env) => Some(
                            server_tree(host, s, scope, token_in(a.key.deep_view(), env)),
                        ),
                        None => None,
                    },
                }
            }
        },
    }
}

/// A public server that the prompt brought itself: reached over HTTP, without a secret.
pub open spec fn inlined(url: Seq<char>) -> JsonV {
    JsonV::Object(
        seq![
            ("type"@, JsonV::Str("http"@)),
            ("url"@, JsonV::Str(url)),
            ("headers"@, JsonV::Object(Seq::empty())),
        ],
    )
}

/// What one more request adds.
pub open spec fn granted(
    a: AssemblyV,
    c: DackConfig,
    p: TierPolicyV,
    state: ConsciousnessState,
    trust: Seq<char>,
    scope: JsonV,
    secrets: Secrets,
    host: Host,
    r: McpRefV,
) -> AssemblyV {
    match r {
        McpRefV::Import(name) => match imported(c, p, state, trust, scope, secrets, host, name) {
            Some(t) => AssemblyV { servers: a.servers.insert(name, t), read: a.read },
            None => a,
        },
        McpRefV::Inline(name, url) => if p.deny.contains(name) || p.mcp_whitelist {
            a
        } else {
            AssemblyV {
                servers: a.servers.insert(name, inlined(url)),
                read: a.read.push(open_prefix(server_prefix(name))),
            }
        },
    }
}

/// What a prompt's requests come to.
pub open spec fn assembled(
    c: DackConfig,
    p: TierPolicyV,
    state: ConsciousnessState,
    trust: Seq<char>,
    scope: JsonV,
    secrets: Secrets,
    host: Host,
    refs: Seq<McpRefV>,
) -> AssemblyV
    decreases refs.len(),
{
    if refs.len() == 0 {
        AssemblyV { servers: Map::empty(), read: Seq::empty() }
    } else {
        granted(
            assembled(c, p, state, trust, scope, secrets, host, refs.drop_last()),
            c,
            p,
            state,
            trust,
            scope,
            secrets,
            host,
            refs.last(),
        )
    }
}

/// A server that an import may use, if it is admitted.
fn pass_gate<'a>(
    config: &'a DackConfig,
    lattice: &TrustLattice,
    policy: &TierPolicy,
    state: ConsciousnessState,
    trust: &TrustTier,
    name: &str,
) -> (r: Option<&'a McpServerConfig>)
    requires
        lattice@ == config.trust_tiers.deep_view(),
    ensures
        match r {
            Some(s) => server_index(config.mcp_servers@, name@) is Some && *s
                == config.mcp_servers@[server_index(config.mcp_servers@, name@)->0] && admitted(
                lattice@,
                policy@,
                state,
                trust@,
                *s,
            ),
            None => server_index(config.mcp_servers@, name@) is None || !admitted(
                lattice@,
                policy@,
                state,
                trust@,
                config.mcp_servers@[server_index(config.mcp_servers@, name@)->0],
            ),
        },
{
    let s = match config.mcp_server(name) {
        Some(s) => s,
        None => return None,
    };
    if any_same(&policy.deny, s.name.as_str()) || !any_same(&policy.import, s.name.as_str()) {
        return None;
    }
    if !tier_fits_state(s.tier, state) {
        return None;
    }
    match &s.min_trust {
        Some(floor) => if lattice.rank(trust) < lattice.rank(floor) {
            return None;
        },
        None => {},
    }
    Some(s)
}

/// The providers whose tokens a prompt's admitted requests need, in the order of the
/// requests.
pub fn required_secrets(config: &DackConfig, prompt: &StatePrompt, trust: &TrustTier) -> (r: Vec<
    String,
>)
    ensures
        r.deep_view() == secrets_needed(*config, prompt@.front.state, trust@, prompt@.front.mcp),
{
    let policy = config.tier_policy_for(prompt.state);
    let lattice = config.lattice();
    let ghost refs = prompt@.front.mcp;
    let mut out: Vec<String> = Vec::new();
    let mut i: usize = 0;
    assert(refs.take(0) =~= Seq::empty());
    assert(out.deep_view() =~= Seq::empty());
    while i < prompt.mcp.len()
        invariant
            i <= prompt.mcp@.len(),
            refs == prompt@.front.mcp,
            lattice@ == config.trust_tiers.deep_view(),
            policy@ == crate::config::policy_of(config.tier_policy@, prompt.state),
            out.deep_view() == secrets_needed(
                *config,
                prompt.state,
                trust@,
                refs.take(i as int),
            ),
        decreases prompt.mcp@.len() - i,
    {
        proof {
            assert(refs.take(i + 1).drop_last() =~= refs.take(i as int));
            assert(refs.take(i + 1).last() == prompt.mcp@[i as int].model());
        }
        let ghost o = out.deep_view();
        match &prompt.mcp[i] {
            McpRef::Import(name) => match pass_gate(
                config,
                &lattice,
                &policy,
                prompt.state,
                trust,
                name.as_str(),
            ) {
                Some(s) => match &s.auth {
                    Some(a) => {
                        out.push(a.secret.clone());
                        assert(out.deep_view() =~= o.push(a.secret@));
                    },
                    None => {},
                },
                None => {},
            },
            McpRef::Inline { .. } => {},
        }
        i += 1;
    }
    assert(refs.take(i as int) =~= refs);
    out
}

/// The provider of an import that is admitted.
pub open spec fn secret_needed(
    c: DackConfig,
    state: ConsciousnessState,
    trust: Seq<char>,
    r: McpRefV,
) -> Option<Seq<char>> {
    match r {
        McpRefV::Import(name) => match server_index(c.mcp_servers@, name) {
            Some(i) => {
                let s = c.mcp_servers@[i];
                if admitted(
                    c.trust_tiers.deep_view(),
                    crate::config::policy_of(c.tier_policy@, state),
                    state,
                    trust,
                    s,
                ) && s.auth is Some {
                    Some(s.auth->0.secret@)
                } else {
                    None
                }
            },
            None => None,
        },
        McpRefV::Inline(_, _) => None,
    }
}

/// The providers of all imports that are admitted.
pub open spec fn secrets_needed(
    c: DackConfig,
    state: ConsciousnessState,
    trust: Seq<char>,
    refs: Seq<McpRefV>,
) -> Seq<Seq<char>>
    decreases refs.len(),
{
    if refs.len() == 0 {
        Seq::empty()
    } else {
        let rest = secrets_needed(c, state, trust, refs.drop_last());
        match secret_needed(c, state, trust, refs.last()) {
            Some(s) => rest.push(s),
            None => rest,
        }
    }
}

/// Assembles the servers that a step gets, and the prefixes of those that the prompt brought
/// itself, which can only be read from.
pub fn assemble_mcp_servers(
    config: &DackConfig,
    prompt: &StatePrompt,
    trust: &TrustTier,
    scope: &Json,
    secrets: &Secrets,
    host: &Host,
) -> (r: (StrMap<Json>, Vec<CapabilityPrefix>))
    ensures
        ({
            let a = assembled(
                *config,
                crate::config::policy_of(config.tier_policy@, prompt.state),
                prompt.state,
                trust@,
                scope@,
                *secrets,
                *host,
                prompt@.front.mcp,
            );
            trees(r.0) == a.servers && r.1.deep_view() == a.read
        }),
{
    let policy = config.tier_policy_for(prompt.state);
    let lattice = config.lattice();
    let ghost refs = prompt@.front.mcp;
    let ghost state = prompt.state;
    let mut out: StrMap<Json> = StrMap::new();
    let mut read: Vec<CapabilityPrefix> = Vec::new();
    let mut i: usize = 0;
    assert(refs.take(0) =~= Seq::empty());
    assert(trees(out) =~= Map::empty());
    assert(read.deep_view() =~= Seq::empty());
    while i < prompt.mcp.len()
        invariant
            i <= prompt.mcp@.len(),
            refs == prompt@.front.mcp,
            state == prompt.state,
            lattice@ == config.trust_tiers.deep_view(),
            policy@ == crate::config::policy_of(config.tier_policy@, state),
            ({
                let a = assembled(
                    *config,
                    policy@,
                    state,
                    trust@,
                    scope@,
                    *secrets,
                    *host,
                    refs.take(i as int),
                );
                trees(out) == a.servers && read.deep_view() == a.read
            }),
        decreases prompt.mcp@.len() - i,
    {
        proof {
            assert(refs.take(i + 1).drop_last() =~= refs.take(i as int));
            assert(refs.take(i + 1).last() == prompt.mcp@[i as int].model());
        }
        let ghost o = trees(out);
        let ghost ro = read.deep_view();
        match &prompt.mcp[i] {
            McpRef::Import(name) => {
                let tree = import_server(
                    config,
                    &lattice,
                    &policy,
                    prompt.state,
                    trust,
                    scope,
                    secrets,
                    host,
                    name.as_str(),
                );
                match tree {
                    Some(t) => {
                        let ghost tv = t@;
                        out.insert(name.clone(), t);
                        assert(trees(out) =~= o.insert(name@, tv));
                    },
                    None => {},
                }
            },
            McpRef::Inline { name, url } => {
                if !any_same(&policy.deny, name.as_str()) && !policy.mcp_whitelist {
                    let t = inline_server(url.as_str());
                    let ghost tv = t@;
                    out.insert(name.clone(), t);
                    assert(trees(out) =~= o.insert(name@, tv));
                    let mut prefix = owned("mcp__");
                    prefix.append(name.as_str());
                    prefix.append("__");
                    let cp = CapabilityPrefix::open(prefix.as_str());
                    let ghost cv = cp.deep_view();
                    read.push(cp);
                    assert(read.deep_view() =~= ro.push(cv));
                }
            },
        }
        i += 1;
    }
    assert(refs.take(i as int) =~= refs);
    (out, read)
}

fn import_server(
    config: &DackConfig,
    lattice: &TrustLattice,
    policy: &TierPolicy,
    state: ConsciousnessState,
    trust: &TrustTier,
    scope: &Json,
    secrets: &Secrets,
    host: &Host,
    name: &str,
) -> (r: Option<Json>)
    requires
        lattice@ == config.trust_tiers.deep_view(),
    ensures
        match r {
            Some(t) => imported(
                *config,
                policy@,
                state,
                trust@,
                scope@,
                *secrets,
                *host,
                name@,
            ) == Some(t@),
            None => imported(
                *config,
                policy@,
                state,
                trust@,
                scope@,
                *secrets,
                *host,
                name@,
            ) is None,
        },
{
    let s = match pass_gate(config, lattice, policy, state, trust, name) {
        Some(s) => s,
        None => return None,
    };
    let token = match &s.auth {
        None => None,
        Some(auth) => match secrets.get(auth.secret.as_str()) {
            Some(Some(env)) => pick_token(&auth.key, env),
            _ => return None,
        },
    };
    Some(build_mcp_config(host, s, scope, &token))
}

fn inline_server(url: &str) -> (r: Json)
    ensures
        r@ == inlined(url@),
{
    let none: Vec<(String, Json)> = Vec::new();
    let f = vec![
        (owned("type"), Json::Str(owned("http"))),
        (owned("url"), Json::Str(owned(url))),
        (owned("headers"), Json::object(none)),
    ];
    let r = Json::object(f);
    assert(fields_view(none@) =~= Seq::empty());
    assert(r@->Object_0 =~= inlined(url@)->Object_0);
    r
}

// ── Laws ────────────────────────────────────────────────────────────────────────────────

/// Irreversible authority is handed out in Settle and nowhere else, and a post tool in
/// Express and nowhere else: an import is handed out only where its tier fits the state, the
/// policy lists it and does not deny it, and the cycle has the trust that it asks for.
pub proof fn an_import_is_gated_on_both_sides(
    c: DackConfig,
    p: TierPolicyV,
    state: ConsciousnessState,
    trust: Seq<char>,
    scope: JsonV,
    secrets: Secrets,
    host: Host,
    name: Seq<char>,
)
    requires
        imported(c, p, state, trust, scope, secrets, host, name) is Some,
    ensures
        server_index(c.mcp_servers@, name) is Some,
        ({
            let s = c.mcp_servers@[server_index(c.mcp_servers@, name)->0];
            &&& s.tier == CapabilityTier::Settle ==> state == ConsciousnessState::Settle
            &&& s.tier == CapabilityTier::Post ==> state == ConsciousnessState::Express
            &&& p.import.contains(s.name@)
            &&& !p.deny.contains(s.name@)
            &&& s.min_trust is Some ==> tier_rank(c.trust_tiers.deep_view(), trust) >= tier_rank(
                c.trust_tiers.deep_view(),
                s.min_trust->0@,
            )
            &&& s.auth is Some ==> made_by(secrets, s.auth->0.secret@) is Some
        }),
{
}

/// Whatever a step gets, its prompt asked for, and it was granted: either an import that
/// was let through, or a server that the prompt brought itself, in a state that is open, which
/// carries no secret and is only read from.
pub proof fn nothing_is_granted_unasked(
    c: DackConfig,
    p: TierPolicyV,
    state: ConsciousnessState,
    trust: Seq<char>,
    scope: JsonV,
    secrets: Secrets,
    host: Host,
    refs: Seq<McpRefV>,
    name: Seq<char>,
)
    requires
        assembled(c, p, state, trust, scope, secrets, host, refs).servers.contains_key(name),
    ensures
        ({
            let a = assembled(c, p, state, trust, scope, secrets, host, refs);
            exists|i: int|
                {
                    &&& 0 <= i < refs.len()
                    &&& ref_name(#[trigger] refs[i]) == name
                    &&& match refs[i] {
                        McpRefV::Import(_) => imported(
                            c,
                            p,
                            state,
                            trust,
                            scope,
                            secrets,
                            host,
                            name,
                        ) == Some(a.servers[name]),
                        McpRefV::Inline(_, url) => !p.mcp_whitelist && !p.deny.contains(name)
                            && a.servers[name] == inlined(url) && a.read.contains(
                            open_prefix(server_prefix(name)),
                        ),
                    }
                }
        }),
    decreases refs.len(),
{
    if refs.len() > 0 {
        let before = assembled(c, p, state, trust, scope, secrets, host, refs.drop_last());
        let a = assembled(c, p, state, trust, scope, secrets, host, refs);
        let r = refs.last();
        let adds = match r {
            McpRefV::Import(n) => n == name && imported(
                c,
                p,
                state,
                trust,
                scope,
                secrets,
                host,
                n,
            ) is Some,
            McpRefV::Inline(n, _) => n == name && !p.deny.contains(n) && !p.mcp_whitelist,
        };
        if adds {
            assert(ref_name(refs[refs.len() - 1]) == name);
            if r is Inline {
                assert(a.read.last() == open_prefix(server_prefix(name)));
            }
        } else {
            nothing_is_granted_unasked(
                c,
                p,
                state,
                trust,
                scope,
                secrets,
                host,
                refs.drop_last(),
                name,
            );
            let i = choose|i: int|
                {
                    &&& 0 <= i < refs.drop_last().len()
                    &&& ref_name(#[trigger] refs.drop_last()[i]) == name
                    &&& match refs.drop_last()[i] {
                        McpRefV::Import(_) => imported(
                            c,
                            p,
                            state,
                            trust,
                            scope,
                            secrets,
                            host,
                            name,
                        ) == Some(before.servers[name]),
                        McpRefV::Inline(_, url) => !p.mcp_whitelist && !p.deny.contains(name)
                            && before.servers[name] == inlined(url) && before.read.contains(
                            open_prefix(server_prefix(name)),
                        ),
                    }
                };
            assert(refs[i] == refs.drop_last()[i]);
            if before.read.contains(open_prefix(server_prefix(name))) {
                let k = choose|k: int|
                    0 <= k < before.read.len() && before.read[k] == open_prefix(
                        server_prefix(name),
                    );
                assert(a.read[k] == before.read[k]);
            }
        }
    }
}

/// A state that the operator did not open grants nothing.
pub proof fn a_locked_state_grants_nothing(
    c: DackConfig,
    state: ConsciousnessState,
    trust: Seq<char>,
    scope: JsonV,
    secrets: Secrets,
    host: Host,
    refs: Seq<McpRefV>,
)
    ensures
        ({
            let a = assembled(
                c,
                crate::config::locked_policy(),
                state,
                trust,
                scope,
                secrets,
                host,
                refs,
            );
            a.servers == Map::<Seq<char>, JsonV>::empty() && a.read == Seq::<PrefixV>::empty()
        }),
    decreases refs.len(),
{
    if refs.len() > 0 {
        a_locked_state_grants_nothing(c, state, trust, scope, secrets, host, refs.drop_last());
    }
}

/// A server that a step in this state may have: the policy lists it and does not deny it, it reads,
/// or posts and the state is Express, or settles and the state is Settle, and the cycle ranks no
/// lower than the server asks.
pub open spec fn may_have(
    l: Seq<TierV>,
    p: TierPolicyV,
    state: ConsciousnessState,
    trust: Seq<char>,
    s: McpServerConfig,
) -> bool {
    &&& exists|i: int| 0 <= i < p.import.len() && #[trigger] p.import[i] == s.name@
    &&& forall|i: int| 0 <= i < p.deny.len() ==> #[trigger] p.deny[i] != s.name@
    &&& {
        ||| s.tier == CapabilityTier::Read
        ||| s.tier == CapabilityTier::Post && state == ConsciousnessState::Express
        ||| s.tier == CapabilityTier::Settle && state == ConsciousnessState::Settle
    }
    &&& s.min_trust is Some ==> tier_rank(l, s.min_trust->0@) <= tier_rank(l, trust)
}

/// The secret of a server is at hand: it asks for none, or the provider that it names made its
/// variables.
pub open spec fn unlocked(s: McpServerConfig, secrets: Secrets) -> bool {
    s.auth is Some ==> secrets@.contains_key(s.auth->0.secret@)
        && secrets@[s.auth->0.secret@] is Some
}

/// A server is handed over by its own transport.
pub open spec fn is_reached_by(t: JsonV, s: McpServerConfig, host: Host) -> bool {
    match s.transport {
        McpTransport::Http { url } => {
            &&& field(t, "type"@) == Some(JsonV::Str("http"@))
            &&& field(t, "url"@) == Some(JsonV::Str(url@))
            &&& field(t, "headers"@) is Some
            &&& field(t, "headers"@)->0 is Object
            &&& s.auth is None ==> field(t, "headers"@) == Some(JsonV::Object(Seq::empty()))
        },
        McpTransport::Stdio { command, args } => {
            &&& field(t, "type"@) == Some(JsonV::Str("stdio"@))
            &&& field(t, "command"@) == Some(JsonV::Str(command@))
            &&& field(t, "args"@) is Some
            &&& field(t, "args"@)->0 is Array
            &&& field(t, "args"@)->0->Array_0.len() == args@.len()
            &&& forall|i: int|
                0 <= i < args@.len() ==> #[trigger] field(t, "args"@)->0->Array_0[i]
                    == JsonV::Str(absolute_arg(host, args@[i]@))
            &&& field(t, "env"@) is Some
            &&& field(t, "env"@)->0 is Object
        },
    }
}

proof fn a_server_is_reached_by_its_transport(
    host: Host,
    s: McpServerConfig,
    scope: JsonV,
    token: Option<Seq<char>>,
)
    ensures
        is_reached_by(server_tree(host, s, scope, token), s, host),
        s.transport is Http ==> field(server_tree(host, s, scope, token), "headers"@) == Some(
            JsonV::Object(header_fields(s.auth, token)),
        ),
        s.transport is Stdio ==> field(server_tree(host, s, scope, token), "env"@) == Some(
            JsonV::Object(text_fields(spawn_env(host, s, scope, token))),
        ),
{
    reveal_strlit("type");
    reveal_strlit("url");
    reveal_strlit("headers");
    reveal_strlit("command");
    reveal_strlit("args");
    reveal_strlit("env");
    assert("type"@[0] == 't' && "args"@[0] == 'a' && "url"@[0] == 'u' && "env"@[0] == 'e');
    let t = server_tree(host, s, scope, token);
    let f = t->Object_0;
    match s.transport {
        McpTransport::Http { url } => {
            a_field_is_found_by_its_name(f, 0, "type"@);
            a_field_is_found_by_its_name(f, 1, "url"@);
            a_field_is_found_by_its_name(f, 2, "headers"@);
        },
        McpTransport::Stdio { command, args } => {
            a_field_is_found_by_its_name(f, 0, "type"@);
            a_field_is_found_by_its_name(f, 1, "command"@);
            a_field_is_found_by_its_name(f, 2, "args"@);
            a_field_is_found_by_its_name(f, 3, "env"@);
        },
    }
}

/// Whatever is admitted is handed out: where a prompt imports a registered server that a step in
/// the state may have, and its secret is at hand, the step gets it under its name, by its own
/// transport. A server that the prompt brings itself under the same name may stand in its place.
pub proof fn what_is_admitted_is_handed_out(
    c: DackConfig,
    p: TierPolicyV,
    state: ConsciousnessState,
    trust: Seq<char>,
    scope: JsonV,
    secrets: Secrets,
    host: Host,
    refs: Seq<McpRefV>,
    k: int,
    i: int,
)
    requires
        0 <= k < refs.len(),
        0 <= i < c.mcp_servers@.len(),
        refs[k] == McpRefV::Import(c.mcp_servers@[i].name@),
        forall|j: int|
            0 <= j < i ==> (#[trigger] c.mcp_servers@[j]).name@ != c.mcp_servers@[i].name@,
        may_have(c.trust_tiers.deep_view(), p, state, trust, c.mcp_servers@[i]),
        unlocked(c.mcp_servers@[i], secrets),
    ensures
        ({
            let s = c.mcp_servers@[i];
            let a = assembled(c, p, state, trust, scope, secrets, host, refs).servers;
            &&& a.contains_key(s.name@)
            &&& (forall|j: int|
                k < j < refs.len() ==> !((#[trigger] refs[j]) is Inline) || ref_name(refs[j])
                    != s.name@) ==> is_reached_by(a[s.name@], s, host) && imported(
                c,
                p,
                state,
                trust,
                scope,
                secrets,
                host,
                s.name@,
            ) == Some(a[s.name@])
        }),
    decreases refs.len(),
{
    let s = c.mcp_servers@[i];
    a_server_is_found_by_its_name(c.mcp_servers@, i);
    let token = match s.auth {
        None => None,
        Some(a) => token_in(a.key.deep_view(), texts(secrets@[a.secret@]->0)),
    };
    a_server_is_reached_by_its_transport(host, s, scope, token);
    assert(p.import.contains(s.name@)) by {
        let m = choose|m: int| 0 <= m < p.import.len() && #[trigger] p.import[m] == s.name@;
        assert(p.import[m] == s.name@);
    }
    assert(imported(c, p, state, trust, scope, secrets, host, s.name@) == Some(
        server_tree(host, s, scope, token),
    ));
    if k < refs.len() - 1 {
        let init = refs.drop_last();
        assert(init[k] == refs[k]);
        what_is_admitted_is_handed_out(
            c,
            p,
            state,
            trust,
            scope,
            secrets,
            host,
            init,
            k,
            i,
        );
        assert forall|j: int| k < j < init.len() implies #[trigger] init[j] == refs[j] by {}
        assert(refs[refs.len() - 1] == refs.last());
    }
}

/// A server that the prompt brings itself is handed out in a state that the operator left open,
/// unless its name is denied; it is reached at its own address without a secret, and its tools
/// count as reads. In a state for registered servers alone it is not.
pub proof fn an_open_state_takes_what_the_prompt_brings(
    c: DackConfig,
    p: TierPolicyV,
    state: ConsciousnessState,
    trust: Seq<char>,
    scope: JsonV,
    secrets: Secrets,
    host: Host,
    refs: Seq<McpRefV>,
    name: Seq<char>,
    url: Seq<char>,
)
    ensures
        ({
            let before = assembled(c, p, state, trust, scope, secrets, host, refs);
            let a = assembled(
                c,
                p,
                state,
                trust,
                scope,
                secrets,
                host,
                refs.push(McpRefV::Inline(name, url)),
            );
            let denied = exists|i: int| 0 <= i < p.deny.len() && #[trigger] p.deny[i] == name;
            &&& !p.mcp_whitelist && !denied ==> {
                &&& a.servers.contains_key(name)
                &&& field(a.servers[name], "type"@) == Some(JsonV::Str("http"@))
                &&& field(a.servers[name], "url"@) == Some(JsonV::Str(url))
                &&& field(a.servers[name], "headers"@) == Some(JsonV::Object(Seq::empty()))
                &&& a.servers.dom() == before.servers.dom().insert(name)
                &&& a.read == before.read.push(
                    PrefixV { prefix: "mcp__"@ + name + "__"@, tools: Seq::empty() },
                )
            }
            &&& p.mcp_whitelist || denied ==> a == before
        }),
{
    reveal_strlit("type");
    reveal_strlit("url");
    reveal_strlit("headers");
    let r = McpRefV::Inline(name, url);
    assert(refs.push(r).drop_last() =~= refs);
    let f = inlined(url)->Object_0;
    assert("type"@.len() == 4 && "url"@.len() == 3 && "headers"@.len() == 7);
    a_field_is_found_by_its_name(f, 0, "type"@);
    a_field_is_found_by_its_name(f, 1, "url"@);
    a_field_is_found_by_its_name(f, 2, "headers"@);
    if p.deny.contains(name) {
        let i = choose|i: int| 0 <= i < p.deny.len() && p.deny[i] == name;
        assert(p.deny[i] == name);
    }
    assert(field(inlined(url), "type"@) == Some(JsonV::Str("http"@)));
    assert(field(inlined(url), "url"@) == Some(JsonV::Str(url)));
    assert(field(inlined(url), "headers"@) == Some(JsonV::Object(Seq::empty())));
    let before = assembled(c, p, state, trust, scope, secrets, host, refs);
    let a = assembled(c, p, state, trust, scope, secrets, host, refs.push(r));
    assert(refs.push(r).last() == r);
    assert(a == granted(before, c, p, state, trust, scope, secrets, host, r));
    if !p.mcp_whitelist && !p.deny.contains(name) {
        assert(a.servers[name] == inlined(url));
        assert(a.servers.dom() =~= before.servers.dom().insert(name));
        assert(open_prefix(server_prefix(name)) == (PrefixV {
            prefix: "mcp__"@ + name + "__"@,
            tools: Seq::empty(),
        }));
    }
}

/// What a step may not have, what is not registered, and what has no secret at hand is left out,
/// and the rest is handed out as before.
pub proof fn what_is_not_admitted_is_left_out(
    c: DackConfig,
    p: TierPolicyV,
    state: ConsciousnessState,
    trust: Seq<char>,
    scope: JsonV,
    secrets: Secrets,
    host: Host,
    refs: Seq<McpRefV>,
    name: Seq<char>,
)
    requires
        forall|i: int|
            0 <= i < c.mcp_servers@.len() && (#[trigger] c.mcp_servers@[i]).name@ == name
                ==> !may_have(c.trust_tiers.deep_view(), p, state, trust, c.mcp_servers@[i])
                || !unlocked(c.mcp_servers@[i], secrets),
    ensures
        assembled(
            c,
            p,
            state,
            trust,
            scope,
            secrets,
            host,
            refs.push(McpRefV::Import(name)),
        ) == assembled(c, p, state, trust, scope, secrets, host, refs),
{
    let r = McpRefV::Import(name);
    assert(refs.push(r).drop_last() =~= refs);
    server_index_names_a_server(c.mcp_servers@, name);
    match server_index(c.mcp_servers@, name) {
        Some(i) => {
            let s = c.mcp_servers@[i];
            assert(s.name@ == name);
            if admitted(c.trust_tiers.deep_view(), p, state, trust, s) {
                let m = choose|m: int| 0 <= m < p.import.len() && p.import[m] == s.name@;
                assert(p.import[m] == s.name@);
                assert forall|j: int| 0 <= j < p.deny.len() implies #[trigger] p.deny[j]
                    != s.name@ by {
                    if p.deny[j] == s.name@ {
                        assert(p.deny.contains(s.name@));
                    }
                }
                assert(may_have(c.trust_tiers.deep_view(), p, state, trust, s));
            }
        },
        None => {},
    }
}

/// The providers that are asked are those of the servers that a step may have: each one of these
/// that asks for a secret is there, and no other.
pub proof fn only_needed_secrets_are_made(
    c: DackConfig,
    state: ConsciousnessState,
    trust: Seq<char>,
    refs: Seq<McpRefV>,
    k: int,
    i: int,
)
    requires
        0 <= k < refs.len(),
        0 <= i < c.mcp_servers@.len(),
        refs[k] == McpRefV::Import(c.mcp_servers@[i].name@),
        forall|j: int|
            0 <= j < i ==> (#[trigger] c.mcp_servers@[j]).name@ != c.mcp_servers@[i].name@,
        c.mcp_servers@[i].auth is Some,
    ensures
        ({
            let p = crate::config::policy_of(c.tier_policy@, state);
            let s = c.mcp_servers@[i];
            may_have(c.trust_tiers.deep_view(), p, state, trust, s) ==> secrets_needed(
                c,
                state,
                trust,
                refs,
            ).contains(s.auth->0.secret@)
        }),
    decreases refs.len(),
{
    let p = crate::config::policy_of(c.tier_policy@, state);
    let s = c.mcp_servers@[i];
    a_server_is_found_by_its_name(c.mcp_servers@, i);
    if may_have(c.trust_tiers.deep_view(), p, state, trust, s) {
        assert(p.import.contains(s.name@)) by {
            let m = choose|m: int| 0 <= m < p.import.len() && #[trigger] p.import[m] == s.name@;
            assert(p.import[m] == s.name@);
        }
        let rest = secrets_needed(c, state, trust, refs.drop_last());
        let all = secrets_needed(c, state, trust, refs);
        if k == refs.len() - 1 {
            assert(all.last() == s.auth->0.secret@);
        } else {
            assert(refs.drop_last()[k] == refs[k]);
            only_needed_secrets_are_made(c, state, trust, refs.drop_last(), k, i);
            let m = choose|m: int| 0 <= m < rest.len() && rest[m] == s.auth->0.secret@;
            assert(all[m] == rest[m]);
        }
    }
}

/// Nothing is made that no server of the step needs.
pub proof fn a_secret_that_is_made_is_needed(
    c: DackConfig,
    state: ConsciousnessState,
    trust: Seq<char>,
    refs: Seq<McpRefV>,
    name: Seq<char>,
)
    requires
        secrets_needed(c, state, trust, refs).contains(name),
    ensures
        exists|i: int|
            {
                &&& 0 <= i < c.mcp_servers@.len()
                &&& (#[trigger] c.mcp_servers@[i]).auth is Some
                &&& c.mcp_servers@[i].auth->0.secret@ == name
                &&& refs.contains(McpRefV::Import(c.mcp_servers@[i].name@))
                &&& may_have(
                    c.trust_tiers.deep_view(),
                    crate::config::policy_of(c.tier_policy@, state),
                    state,
                    trust,
                    c.mcp_servers@[i],
                )
            },
    decreases refs.len(),
{
    let p = crate::config::policy_of(c.tier_policy@, state);
    if refs.len() > 0 {
        let init = refs.drop_last();
        let rest = secrets_needed(c, state, trust, init);
        let all = secrets_needed(c, state, trust, refs);
        if secret_needed(c, state, trust, refs.last()) == Some(name) {
            let n = refs.last()->Import_0;
            server_index_names_a_server(c.mcp_servers@, n);
            let i = server_index(c.mcp_servers@, n)->0;
            let s = c.mcp_servers@[i];
            let m = choose|m: int| 0 <= m < p.import.len() && p.import[m] == s.name@;
            assert(p.import[m] == s.name@);
            assert forall|j: int| 0 <= j < p.deny.len() implies #[trigger] p.deny[j]
                != s.name@ by {
                if p.deny[j] == s.name@ {
                    assert(p.deny.contains(s.name@));
                }
            }
            assert(refs[refs.len() - 1] == McpRefV::Import(s.name@));
            assert(c.mcp_servers@[i].auth is Some);
        } else {
            let m = choose|m: int| 0 <= m < all.len() && all[m] == name;
            assert(rest[m] == name);
            a_secret_that_is_made_is_needed(c, state, trust, init, name);
            let i = choose|i: int|
                {
                    &&& 0 <= i < c.mcp_servers@.len()
                    &&& (#[trigger] c.mcp_servers@[i]).auth is Some
                    &&& c.mcp_servers@[i].auth->0.secret@ == name
                    &&& init.contains(McpRefV::Import(c.mcp_servers@[i].name@))
                    &&& may_have(
                        c.trust_tiers.deep_view(),
                        p,
                        state,
                        trust,
                        c.mcp_servers@[i],
                    )
                };
            let r = McpRefV::Import(c.mcp_servers@[i].name@);
            let j = choose|j: int| 0 <= j < init.len() && init[j] == r;
            assert(refs[j] == r);
            assert(c.mcp_servers@[i].auth is Some);
        }
    }
}

/// The token is the variable that the operator names, or else the provider's first by name; a
/// name that the provider did not make gives none.
pub proof fn a_token_is_the_named_variable(key: Seq<char>, env: Map<Seq<char>, Seq<char>>)
    requires
        env.dom().finite(),
    ensures
        env.contains_key(key) ==> token_in(Some(key), env) == Some(env[key]),
        !env.contains_key(key) ==> token_in(Some(key), env) is None,
        token_in(None, env) is None <==> env.dom() == Set::<Seq<char>>::empty(),
        env.contains_key(key) && (forall|k: Seq<char>| #[trigger]
            env.contains_key(k) && k != key ==> text_lt(key, k)) ==> token_in(None, env) == Some(
            env[key],
        ),
{
    let o = in_order(env.dom());
    a_finite_set_has_an_order(env.dom());
    assert(orders(o, env.dom()));
    if o.len() > 0 {
        assert(o.contains(o[0]));
        assert(env.dom().contains(o[0]));
    }
    if env.contains_key(key) {
        assert(env.dom().contains(key));
        assert(o.contains(key));
        let i = choose|i: int| 0 <= i < o.len() && o[i] == key;
        if (forall|k: Seq<char>| #[trigger]
            env.contains_key(k) && k != key ==> text_lt(key, k)) {
            assert(env.contains_key(o[0]));
            if o[0] != key {
                assert(text_lt(key, o[0]));
                assert(text_lt(o[0], o[i]));
                text_lt_transitive(key, o[0], key);
                text_lt_irreflexive(key);
            }
        }
    }
    if o.len() == 0 {
        assert forall|k: Seq<char>| !env.dom().contains(k) by {
            if env.dom().contains(k) {
                assert(o.contains(k));
            }
        }
        assert(env.dom() =~= Set::empty());
    }
}

/// A server over HTTP gets its token in one header: as a bearer token in `Authorization`, unless
/// the operator names another header or scheme; an empty scheme leaves the bare token. Without a
/// token there is no header.
pub proof fn a_token_goes_into_one_header(a: McpAuth, token: Seq<char>)
    ensures
        header_fields(Some(a), None).len() == 0,
        header_fields(None, Some(token)).len() == 0,
        header_fields(Some(a), Some(token)).len() == 1,
        a.header is None ==> header_fields(Some(a), Some(token))[0].0 == "Authorization"@,
        a.header is Some ==> header_fields(Some(a), Some(token))[0].0 == a.header->0@,
        a.scheme is None ==> header_fields(Some(a), Some(token))[0].1 == JsonV::Str(
            "Bearer "@ + token,
        ),
        a.scheme is Some && a.scheme->0@.len() > 0 ==> header_fields(Some(a), Some(token))[0].1
            == JsonV::Str(a.scheme->0@ + " "@ + token),
        a.scheme is Some && a.scheme->0@.len() == 0 ==> header_fields(Some(a), Some(token))[0].1
            == JsonV::Str(token),
{
    reveal_strlit("Bearer");
    reveal_strlit("Bearer ");
    reveal_strlit(" ");
    assert("Bearer"@ + " "@ + token =~= "Bearer "@ + token);
}

/// Of several values for one variable the last one counts.
pub proof fn the_last_value_of_a_variable_counts(
    pairs: Seq<(Seq<char>, Seq<char>)>,
    i: int,
    key: Seq<char>,
)
    ensures
        0 <= i < pairs.len() && pairs[i].0 == key && (forall|j: int|
            i < j < pairs.len() ==> (#[trigger] pairs[j]).0 != key) ==> field(
            JsonV::Object(text_fields(pairs)),
            key,
        ) == Some(JsonV::Str(pairs[i].1)),
        (forall|j: int| 0 <= j < pairs.len() ==> (#[trigger] pairs[j]).0 != key) ==> field(
            JsonV::Object(text_fields(pairs)),
            key,
        ) is None,
    decreases pairs.len(),
{
    if pairs.len() > 0 {
        let init = pairs.drop_last();
        let last = pairs.last();
        the_last_value_of_a_variable_counts(init, i, key);
        with_field_reads_back(text_fields(init), last.0, JsonV::Str(last.1), key);
        assert(pairs[pairs.len() - 1] == last);
        assert forall|j: int| 0 <= j < init.len() implies #[trigger] init[j] == pairs[j] by {}
        if forall|j: int| 0 <= j < pairs.len() ==> (#[trigger] pairs[j]).0 != key {
            assert(pairs[pairs.len() - 1].0 != key);
            assert forall|j: int| 0 <= j < init.len() implies (#[trigger] init[j]).0 != key by {
                assert(init[j] == pairs[j]);
            }
        }
        if 0 <= i < init.len() && pairs[i].0 == key && (forall|j: int|
            i < j < pairs.len() ==> (#[trigger] pairs[j]).0 != key) {
            assert(pairs[pairs.len() - 1].0 != key);
            assert(init[i] == pairs[i]);
            assert forall|j: int| i < j < init.len() implies (#[trigger] init[j]).0 != key by {
                assert(init[j] == pairs[j]);
            }
        }
    }
}

/// A spawned server gets its token in the variable that the operator names for it, whatever else
/// sets that variable.
pub proof fn a_spawned_server_gets_its_token(
    host: Host,
    s: McpServerConfig,
    scope: JsonV,
    token: Seq<char>,
)
    requires
        s.transport is Stdio,
        s.auth is Some,
        s.auth->0.env is Some,
    ensures
        field(
            field(server_tree(host, s, scope, Some(token)), "env"@)->0,
            s.auth->0.env->0@,
        ) == Some(JsonV::Str(token)),
{
    a_server_is_reached_by_its_transport(host, s, scope, Some(token));
    let pairs = spawn_env(host, s, scope, Some(token));
    assert(pairs.last() == (s.auth->0.env->0@, token));
    the_last_value_of_a_variable_counts(pairs, pairs.len() - 1, s.auth->0.env->0@);
}

/// A spawned server gets the operator's fixed variables, and those that are filled from what the
/// cycle answers to, the latter over the former; the host's own stand behind both.
pub proof fn a_spawned_server_is_locked_to_its_scope(
    host: Host,
    s: McpServerConfig,
    scope: JsonV,
    key: Seq<char>,
)
    requires
        s.transport is Stdio,
        s.auth is None,
        texts(s.env).dom().finite(),
        texts(s.scope_env).dom().finite(),
    ensures
        ({
            let env = field(server_tree(host, s, scope, None), "env"@)->0;
            let name = texts(s.scope_env)[key];
            let locked = texts(s.scope_env).contains_key(key) && field(scope, name) is Some;
            &&& locked ==> field(env, key) == Some(JsonV::Str(plain(field(scope, name)->0)))
            &&& !locked && texts(s.env).contains_key(key) ==> field(env, key) == Some(
                JsonV::Str(texts(s.env)[key]),
            )
            &&& !locked && !texts(s.env).contains_key(key) && host.env@.len() > 0
                && host.env@.last().0@ == key ==> field(env, key) == Some(
                JsonV::Str(host.env@.last().1@),
            )
        }),
{
    a_server_is_reached_by_its_transport(host, s, scope, None);
    let h = pairs_view(host.env@);
    let fixed = pairs_of(texts(s.env));
    let vars = pairs_of(texts(s.scope_env));
    let filled = scope_pairs(vars, scope);
    let pairs = spawn_env(host, s, scope, None);
    assert(pairs =~= h + fixed + filled);
    pairs_are_the_map(texts(s.env), key);
    pairs_are_the_map(texts(s.scope_env), key);
    filled_variables(vars, scope, key);
    let name = texts(s.scope_env)[key];
    let locked = texts(s.scope_env).contains_key(key) && field(scope, name) is Some;
    let n = h.len() + fixed.len();
    if locked {
        let k = choose|k: int| 0 <= k < vars.len() && #[trigger] vars[k] == (key, name);
        filled_once(vars, scope, k);
        let m = choose|m: int|
            0 <= m < filled.len() && #[trigger] filled[m] == (key, plain(field(scope, name)->0))
                && forall|j: int| m < j < filled.len() ==> (#[trigger] filled[j]).0 != key;
        assert(pairs[n + m] == filled[m]);
        assert forall|j: int| n + m < j < pairs.len() implies (#[trigger] pairs[j]).0 != key by {
            assert(pairs[j] == filled[j - n]);
        }
        the_last_value_of_a_variable_counts(pairs, n + m, key);
    } else {
        assert forall|j: int| 0 <= j < filled.len() implies (#[trigger] filled[j]).0 != key by {
            if filled[j].0 == key {
                let k = choose|k: int|
                    0 <= k < vars.len() && (#[trigger] vars[k]).0 == key && field(
                        scope,
                        vars[k].1,
                    ) is Some;
                assert(false);
            }
        }
        if texts(s.env).contains_key(key) {
            let k = choose|k: int|
                0 <= k < fixed.len() && #[trigger] fixed[k] == (key, texts(s.env)[key]);
            assert(pairs[h.len() + k] == fixed[k]);
            assert forall|j: int| h.len() + k < j < pairs.len() implies (#[trigger] pairs[j]).0
                != key by {
                if j < n {
                    assert(pairs[j] == fixed[j - h.len()]);
                } else {
                    assert(pairs[j] == filled[j - n]);
                }
            }
            the_last_value_of_a_variable_counts(pairs, h.len() + k, key);
        } else if host.env@.len() > 0 && host.env@.last().0@ == key {
            assert(pairs[h.len() - 1] == h.last());
            assert forall|j: int| h.len() - 1 < j < pairs.len() implies (#[trigger] pairs[j]).0
                != key by {
                if j < n {
                    assert(pairs[j] == fixed[j - h.len()]);
                } else {
                    assert(pairs[j] == filled[j - n]);
                }
            }
            the_last_value_of_a_variable_counts(pairs, h.len() - 1, key);
        }
    }
}

proof fn pairs_are_the_map(m: Map<Seq<char>, Seq<char>>, key: Seq<char>)
    requires
        m.dom().finite(),
    ensures
        m.contains_key(key) ==> exists|k: int|
            0 <= k < pairs_of(m).len() && #[trigger] pairs_of(m)[k] == (key, m[key]),
        forall|i: int, j: int|
            0 <= i < pairs_of(m).len() && 0 <= j < pairs_of(m).len() && (#[trigger] pairs_of(
                m,
            )[i]).0 == (#[trigger] pairs_of(m)[j]).0 ==> i == j,
        forall|i: int|
            0 <= i < pairs_of(m).len() ==> m.contains_key((#[trigger] pairs_of(m)[i]).0)
                && pairs_of(m)[i].1 == m[pairs_of(m)[i].0],
{
    let o = in_order(m.dom());
    let p = pairs_of(m);
    a_finite_set_has_an_order(m.dom());
    assert(orders(o, m.dom()));
    if m.contains_key(key) {
        assert(m.dom().contains(key));
        assert(o.contains(key));
        let k = choose|k: int| 0 <= k < o.len() && o[k] == key;
        assert(p[k] == (key, m[key]));
    }
    assert forall|i: int, j: int|
        0 <= i < p.len() && 0 <= j < p.len() && (#[trigger] p[i]).0 == (#[trigger] p[j]).0 implies i
        == j by {
        assert(p[i].0 == o[i] && p[j].0 == o[j]);
        if i < j {
            assert(text_lt(o[i], o[j]));
            text_lt_irreflexive(o[i]);
        } else if j < i {
            assert(text_lt(o[j], o[i]));
            text_lt_irreflexive(o[i]);
        }
    }
    assert forall|i: int| 0 <= i < p.len() implies m.contains_key((#[trigger] p[i]).0) && p[i].1
        == m[p[i].0] by {
        assert(p[i].0 == o[i]);
        assert(o.contains(o[i]));
    }
}

proof fn filled_variables(vars: Seq<(Seq<char>, Seq<char>)>, scope: JsonV, key: Seq<char>)
    ensures
        forall|j: int|
            0 <= j < scope_pairs(vars, scope).len() && (#[trigger] scope_pairs(vars, scope)[j]).0
                == key ==> exists|k: int|
                0 <= k < vars.len() && (#[trigger] vars[k]).0 == key && field(
                    scope,
                    vars[k].1,
                ) is Some,
    decreases vars.len(),
{
    if vars.len() > 0 {
        let init = vars.drop_last();
        let all = scope_pairs(vars, scope);
        let rest = scope_pairs(init, scope);
        filled_variables(init, scope, key);
        assert forall|j: int| 0 <= j < all.len() && (#[trigger] all[j]).0 == key implies exists|k: int|
            0 <= k < vars.len() && (#[trigger] vars[k]).0 == key && field(
                scope,
                vars[k].1,
            ) is Some by {
            if j < rest.len() {
                assert(rest[j] == all[j]);
                let k = choose|k: int|
                    0 <= k < init.len() && (#[trigger] init[k]).0 == key && field(
                        scope,
                        init[k].1,
                    ) is Some;
                assert(vars[k] == init[k]);
            } else {
                assert(vars[vars.len() - 1].0 == key);
            }
        }
    }
}

proof fn filled_once(vars: Seq<(Seq<char>, Seq<char>)>, scope: JsonV, k: int)
    requires
        0 <= k < vars.len(),
        field(scope, vars[k].1) is Some,
        forall|i: int, j: int|
            0 <= i < vars.len() && 0 <= j < vars.len() && (#[trigger] vars[i]).0 == (
            #[trigger] vars[j]).0 ==> i == j,
    ensures
        exists|m: int|
            0 <= m < scope_pairs(vars, scope).len() && #[trigger] scope_pairs(vars, scope)[m] == (
                vars[k].0,
                plain(field(scope, vars[k].1)->0),
            ) && forall|j: int|
                m < j < scope_pairs(vars, scope).len() ==> (#[trigger] scope_pairs(
                    vars,
                    scope,
                )[j]).0 != vars[k].0,
    decreases vars.len(),
{
    let init = vars.drop_last();
    let all = scope_pairs(vars, scope);
    let rest = scope_pairs(init, scope);
    if k == vars.len() - 1 {
        assert(all[all.len() - 1] == (vars[k].0, plain(field(scope, vars[k].1)->0)));
    } else {
        assert forall|i: int| 0 <= i < init.len() implies #[trigger] init[i] == vars[i] by {}
        filled_once(init, scope, k);
        let m = choose|m: int|
            0 <= m < rest.len() && #[trigger] rest[m] == (
                init[k].0,
                plain(field(scope, init[k].1)->0),
            ) && forall|j: int| m < j < rest.len() ==> (#[trigger] rest[j]).0 != init[k].0;
        assert(all[m] == rest[m]);
        assert(vars[vars.len() - 1].0 != vars[k].0) by {
            if vars[vars.len() - 1].0 == vars[k].0 {
                assert(k == vars.len() - 1);
            }
        }
        assert forall|j: int| m < j < all.len() implies (#[trigger] all[j]).0 != vars[k].0 by {
            if j < rest.len() {
                assert(all[j] == rest[j]);
            }
        }
    }
}

/// An argument that names a relative path which exists becomes absolute, and every other one stays
/// as it is.
pub proof fn only_relative_paths_become_absolute(host: Host, arg: Seq<char>)
    ensures
        arg.len() > 0 && arg[0] == '/' ==> absolute_arg(host, arg) == arg,
        !texts(host.resolved).contains_key(arg) ==> absolute_arg(host, arg) == arg,
        (arg.len() == 0 || arg[0] != '/') && texts(host.resolved).contains_key(arg) ==> absolute_arg(
            host,
            arg,
        ) == texts(host.resolved)[arg],
{
    reveal_strlit("/");
    if arg.len() > 0 {
        assert(arg.subrange(0, 1)[0] == arg[0]);
        assert(arg[0] == '/' ==> arg.subrange(0, 1) =~= "/"@);
    }
}

} // verus!
