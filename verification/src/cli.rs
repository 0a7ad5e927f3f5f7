//! What the operator can ask for, and how a deployment is put together.

use vstd::prelude::*;

use crate::config::{Connector, DackConfig, IdentityRole, RemoteKind, RuntimeEngine, SoulRemote};
use crate::error::{error_detail, DackError};
use crate::identity::{find_role, of_role, Did};
use crate::paths::{join_path, joined_path};
use crate::repo::gitcore::paths_of;
use crate::repo::multi::PushTarget;
use crate::repo::{ChangeV, CommitMeta, MetaV, RepoChange, RepoPath};
use crate::runtime::openclaude::OpenClaudeClient;
use crate::secrets::{bridge_env, bridge_names, picked};
use crate::stimuli::pairs_view;
use crate::strmap::{overlaid, texts, StrMap};
use crate::text::{
    has_part, has_prefix, nat_text, occurs_at, owned, owned_opt, parts_nest, same_text,
    starts_with, u64_text, what_stands_between_is_a_part,
};

verus! {

/// A call of the program.
#[derive(Debug)]
pub struct Cli {
    /// Where the configuration is.
    pub config: String,
    pub command: Command,
}

/// What the operator asks for.
#[derive(Debug)]
pub enum Command {
    /// Boot the harness and process stimuli.
    Run,
    /// How deep the queue is, and how the duties are.
    Status,
    /// Show what was recorded today.
    Log { follow: bool },
    /// Give the agent a signed instruction.
    Say { instruction: String },
    /// Halt dispatch.
    Pause,
    /// Go on.
    Resume,
    /// Stop at once.
    Kill,
    /// Reflect now, whatever the schedule says.
    ReflectNow,
    /// Commit what was changed by hand, so that no run takes it back.
    Reconcile,
}

// ── The runtime ─────────────────────────────────────────────────────────────────────────

/// The credentials of a connector, as the bridge is told them.
pub open spec fn connector_vars(c: Connector) -> Map<Seq<char>, Seq<char>> {
    match c {
        Connector::Opengateway { api_url, api_key } => {
            let on = Map::<Seq<char>, Seq<char>>::empty().insert("CLAUDE_CODE_USE_OPENAI"@, "1"@);
            let with_url = match api_url {
                Some(u) => on.insert("OPENAI_BASE_URL"@, u@),
                None => on,
            };
            match api_key {
                Some(k) => with_url.insert("OPENAI_API_KEY"@, k@),
                None => with_url,
            }
        },
        Connector::Anthropic { .. } => Map::empty(),
    }
}

impl Connector {
    /// The credentials of the connector, as the bridge is told them.
    pub fn env_overrides(&self) -> (r: StrMap<String>)
        ensures
            texts(r) == connector_vars(*self),
    {
        let mut env: StrMap<String> = StrMap::new();
        assert(texts(env) =~= Map::empty());
        match self {
            Connector::Opengateway { api_url, api_key } => {
                let ghost m0 = texts(env);
                env.insert(owned("CLAUDE_CODE_USE_OPENAI"), owned("1"));
                assert(texts(env) =~= m0.insert("CLAUDE_CODE_USE_OPENAI"@, "1"@));
                match api_url {
                    Some(u) => {
                        let ghost m = texts(env);
                        env.insert(owned("OPENAI_BASE_URL"), u.clone());
                        assert(texts(env) =~= m.insert("OPENAI_BASE_URL"@, u@));
                    },
                    None => {},
                }
                match api_key {
                    Some(k) => {
                        let ghost m = texts(env);
                        env.insert(owned("OPENAI_API_KEY"), k.clone());
                        assert(texts(env) =~= m.insert("OPENAI_API_KEY"@, k@));
                    },
                    None => {},
                }
            },
            Connector::Anthropic { .. } => {},
        }
        env
    }

    /// Whether the model is named in the environment, and not in the options.
    pub fn model_via_openai_env(&self) -> (r: bool)
        ensures
            r == (self is Opengateway),
    {
        match self {
            Connector::Opengateway { .. } => true,
            Connector::Anthropic { .. } => false,
        }
    }
}

/// A number of seconds in milliseconds, as far as they can be counted.
pub open spec fn in_ms(secs: u64) -> u64 {
    if secs * 1000 <= u64::MAX {
        (secs * 1000) as u64
    } else {
        u64::MAX
    }
}

/// The client of the runtime. A connector without an adapter is refused in so many words.
pub fn build_runtime(config: &DackConfig, host: &StrMap<String>) -> (r: Result<
    OpenClaudeClient,
    DackError,
>)
    ensures
        r is Err <==> config.runtime.connector is Anthropic,
        r is Err ==> r->Err_0 is NotImplemented && error_detail(r->Err_0)
            == "runtime.connector: anthropic — not wired yet (only opengateway). The model channel (options.model) is supported; the env/auth wiring is the TODO."@,
        r is Ok ==> {
            &&& r->Ok_0.command.deep_view() == seq!["bun"@, "run"@, "bridge.ts"@]
            &&& r->Ok_0.cwd.deep_view() == (match config.runtime.engine {
                RuntimeEngine::Openclaude { bridge_dir } => Some(bridge_dir@),
            })
            &&& texts(r->Ok_0.env) == overlaid(
                picked(texts(*host), bridge_names(*config)),
                connector_vars(config.runtime.connector),
            )
            &&& r->Ok_0.model.deep_view() == config.runtime.model.deep_view()
            &&& r->Ok_0.model_via_env
            &&& r->Ok_0.timeout_ms == in_ms(config.invoke_timeout_secs)
        },
{
    let rt = &config.runtime;
    match &rt.connector {
        Connector::Anthropic { .. } => return Err(
            DackError::NotImplemented(
                owned(
                    "runtime.connector: anthropic — not wired yet (only opengateway). The model channel (options.model) is supported; the env/auth wiring is the TODO.",
                ),
            ),
        ),
        Connector::Opengateway { .. } => {},
    }
    let bridge_dir = match &rt.engine {
        RuntimeEngine::Openclaude { bridge_dir } => bridge_dir,
    };
    let mut env = bridge_env(config, host);
    env.overlay(&rt.connector.env_overrides());
    let secs: u64 = config.invoke_timeout_secs;
    let timeout_ms: u64 = if secs <= u64::MAX / 1000 {
        secs * 1000
    } else {
        u64::MAX
    };
    Ok(
        OpenClaudeClient::bun_bridge(
            bridge_dir.as_str(),
            env,
            owned_opt(&rt.model),
            rt.connector.model_via_openai_env(),
            timeout_ms,
        ),
    )
}

// ── Where the soul is pushed ────────────────────────────────────────────────────────────

/// The role that a name stands for.
pub open spec fn role_of(name: Seq<char>) -> Option<IdentityRole> {
    if name == "soul"@ {
        Some(IdentityRole::Soul)
    } else if name == "operator"@ {
        Some(IdentityRole::Operator)
    } else if name == "builder"@ {
        Some(IdentityRole::Builder)
    } else {
        None
    }
}

fn role_named(name: &str) -> (r: Option<IdentityRole>)
    ensures
        r == role_of(name@),
{
    if same_text(name, "soul") {
        Some(IdentityRole::Soul)
    } else if same_text(name, "operator") {
        Some(IdentityRole::Operator)
    } else if same_text(name, "builder") {
        Some(IdentityRole::Builder)
    } else {
        None
    }
}

/// Whether the pushes to a remote are signed: as it says, or else as its address shows.
pub open spec fn is_signed(kind: Option<RemoteKind>, url: Seq<char>) -> bool {
    match kind {
        Some(k) => k == RemoteKind::Gitlawb,
        None => has_prefix(url, "gitlawb://"@),
    }
}

/// Where the key of a role is.
pub open spec fn key_of_role(dirs: Seq<(IdentityRole, String)>, name: Seq<char>) -> Option<
    Seq<char>,
> {
    match role_of(name) {
        Some(role) => match of_role(dirs, role) {
            Some(dir) => Some(joined_path(dir@, "identity.pem"@)),
            None => None,
        },
        None => None,
    }
}

/// A target does what a remote says. A remote whose pushes are signed and that has no key has
/// no target.
pub open spec fn targets(
    t: Option<PushTarget>,
    url: Seq<char>,
    signed: bool,
    required: bool,
    key: Option<Seq<char>>,
    node: Seq<char>,
    auth: Option<(Seq<char>, Seq<char>)>,
) -> bool {
    if signed {
        match key {
            Some(k) => match t {
                Some(PushTarget::Gitlawb { name, url: u, key_path, node: n, required: q }) =>
                name@ == url && u@ == url && key_path@ == k && n@ == node && q == required,
                _ => false,
            },
            None => t is None,
        }
    } else {
        match t {
            Some(PushTarget::Git { name, url: u, token, required: q }) => name@ == url && u@ == url
                && q == required && (match (token, auth) {
                (Some((user, env)), Some((u2, e2))) => user@ == u2 && env@ == e2,
                (None, None) => true,
                _ => false,
            }),
            _ => false,
        }
    }
}

/// The token of a remote: the user name, and the variable that holds it.
pub open spec fn remote_auth(r: SoulRemote) -> Option<(Seq<char>, Seq<char>)> {
    match r.auth {
        Some(a) => Some((a.username@, a.token_env@)),
        None => None,
    }
}

fn make_target(
    url: &str,
    signed: bool,
    required: bool,
    key: Option<String>,
    node: &str,
    token: Option<(String, String)>,
) -> (r: Option<PushTarget>)
    ensures
        targets(
            r,
            url@,
            signed,
            required,
            key.deep_view(),
            node@,
            match token {
                Some((user, env)) => Some((user@, env@)),
                None => None,
            },
        ),
{
    if !signed {
        return Some(
            PushTarget::Git { name: owned(url), url: owned(url), token, required },
        );
    }
    match key {
        Some(key_path) => Some(
            PushTarget::Gitlawb {
                name: owned(url),
                url: owned(url),
                key_path,
                node: owned(node),
                required,
            },
        ),
        None => None,
    }
}

fn find_key(dirs: &Vec<(IdentityRole, String)>, name: &str) -> (r: Option<String>)
    ensures
        r.deep_view() == key_of_role(dirs@, name@),
{
    match role_named(name) {
        Some(role) => match find_role(dirs, role) {
            Some(dir) => Some(join_path(dir.as_str(), "identity.pem")),
            None => None,
        },
        None => None,
    }
}

/// The node of a remote.
pub open spec fn node_of(r: SoulRemote, default: Seq<char>) -> Seq<char> {
    match r.node {
        Some(n) => n@,
        None => default,
    }
}

/// The target of a remote. `dirs` are the identity directories.
pub fn remote_target(remote: &SoulRemote, default_node: &str, dirs: &Vec<(IdentityRole, String)>) -> (r:
    Option<PushTarget>)
    ensures
        targets(
            r,
            remote.url@,
            is_signed(remote.kind, remote.url@),
            remote.required,
            key_of_role(dirs@, remote.identity@),
            node_of(*remote, default_node@),
            remote_auth(*remote),
        ),
{
    let signed = match remote.kind {
        Some(k) => match k {
            RemoteKind::Gitlawb => true,
            RemoteKind::Git => false,
        },
        None => starts_with(remote.url.as_str(), "gitlawb://"),
    };
    let node = match &remote.node {
        Some(n) => n.as_str(),
        None => default_node,
    };
    let token = match &remote.auth {
        Some(a) => Some((a.username.clone(), a.token_env.clone())),
        None => None,
    };
    make_target(
        remote.url.as_str(),
        signed,
        remote.required,
        find_key(dirs, remote.identity.as_str()),
        node,
        token,
    )
}

/// The target of the older form of a single remote: one that need not be reached, signed with
/// the soul's key where it is signed.
pub fn legacy_target(url: &str, node: &str, dirs: &Vec<(IdentityRole, String)>) -> (r: Option<
    PushTarget,
>)
    ensures
        targets(
            r,
            url@,
            has_prefix(url@, "gitlawb://"@),
            false,
            key_of_role(dirs@, "soul"@),
            node@,
            None,
        ),
{
    make_target(url, starts_with(url, "gitlawb://"), false, find_key(dirs, "soul"), node, None)
}

/// A remote gives a target.
pub open spec fn has_target(r: SoulRemote, dirs: Seq<(IdentityRole, String)>) -> bool {
    is_signed(r.kind, r.url@) ==> key_of_role(dirs, r.identity@) is Some
}

/// How many of some remotes give a target.
pub open spec fn target_count(r: Seq<SoulRemote>, dirs: Seq<(IdentityRole, String)>) -> nat
    decreases r.len(),
{
    if r.len() == 0 {
        0
    } else {
        target_count(r.drop_last(), dirs) + if has_target(r.last(), dirs) {
            1nat
        } else {
            0nat
        }
    }
}

/// Where the soul is pushed to: the remotes that are listed, or the single one of the older
/// form where none is.
pub fn push_targets(config: &DackConfig, dirs: &Vec<(IdentityRole, String)>) -> (r: Vec<PushTarget>)
    ensures
        config.soul_remotes@.len() > 0 ==> {
            &&& r@.len() == target_count(config.soul_remotes@, dirs@)
            &&& forall|i: int|
                0 <= i < config.soul_remotes@.len() && has_target(
                    #[trigger] config.soul_remotes@[i],
                    dirs@,
                ) ==> targets(
                    Some(r@[target_count(config.soul_remotes@.take(i), dirs@) as int]),
                    config.soul_remotes@[i].url@,
                    is_signed(config.soul_remotes@[i].kind, config.soul_remotes@[i].url@),
                    config.soul_remotes@[i].required,
                    key_of_role(dirs@, config.soul_remotes@[i].identity@),
                    node_of(config.soul_remotes@[i], config.gitlawb_node@),
                    remote_auth(config.soul_remotes@[i]),
                )
        },
        config.soul_remotes@.len() == 0 ==> match config.soul_remote {
            Some(url) => targets(
                if r@.len() == 1 {
                    Some(r@[0])
                } else {
                    None
                },
                url@,
                has_prefix(url@, "gitlawb://"@),
                false,
                key_of_role(dirs@, "soul"@),
                config.gitlawb_node@,
                None,
            ) && r@.len() <= 1,
            None => r@.len() == 0,
        },
{
    let mut out: Vec<PushTarget> = Vec::new();
    let all = &config.soul_remotes;
    if all.len() == 0 {
        match &config.soul_remote {
            Some(url) => match legacy_target(url.as_str(), config.gitlawb_node.as_str(), dirs) {
                Some(t) => out.push(t),
                None => {},
            },
            None => {},
        }
        return out;
    }
    let mut i: usize = 0;
    assert(all@.take(0) =~= Seq::empty());
    while i < all.len()
        invariant
            i <= all@.len(),
            *all == config.soul_remotes,
            out@.len() == target_count(all@.take(i as int), dirs@),
            forall|k: int|
                0 <= k < i && has_target(#[trigger] all@[k], dirs@) ==> target_count(
                    all@.take(k),
                    dirs@,
                ) < out@.len() && targets(
                    Some(out@[target_count(all@.take(k), dirs@) as int]),
                    all@[k].url@,
                    is_signed(all@[k].kind, all@[k].url@),
                    all@[k].required,
                    key_of_role(dirs@, all@[k].identity@),
                    node_of(all@[k], config.gitlawb_node@),
                    remote_auth(all@[k]),
                ),
        decreases all@.len() - i,
    {
        proof {
            assert(all@.take(i + 1).drop_last() =~= all@.take(i as int));
            assert(all@.take(i + 1).last() == all@[i as int]);
        }
        let t = remote_target(&all[i], config.gitlawb_node.as_str(), dirs);
        assert(t is Some <==> has_target(all@[i as int], dirs@));
        match t {
            Some(t) => out.push(t),
            None => {},
        }
        i += 1;
    }
    assert(all@.take(i as int) =~= all@);
    out
}

// ── The commands ────────────────────────────────────────────────────────────────────────

/// The paths of changes.
pub open spec fn change_paths(c: Seq<ChangeV>) -> Seq<Seq<char>> {
    c.map_values(|x: ChangeV| x.path)
}

/// What was changed by hand, and the commit that keeps it: it is the operator's, not the
/// agent's.
pub fn reconcile_commit(changes: &Vec<RepoChange>, operator_did: &str) -> (r: (
    Vec<RepoPath>,
    CommitMeta,
))
    ensures
        paths_of(r.0@) == change_paths(changes.deep_view()),
        r.1@ == (MetaV {
            message: "reconcile "@ + nat_text(changes@.len()) + " external path(s) (operator)"@,
            author_did: operator_did@,
        }),
{
    let ghost c = changes.deep_view();
    let mut paths: Vec<RepoPath> = Vec::new();
    let mut i: usize = 0;
    assert(c.len() == changes@.len());
    assert(paths_of(paths@) =~= change_paths(c.take(0)));
    while i < changes.len()
        invariant
            i <= changes@.len(),
            c == changes.deep_view(),
            paths_of(paths@) == change_paths(c.take(i as int)),
        decreases changes@.len() - i,
    {
        let ghost p = paths_of(paths@);
        paths.push(changes[i].path.clone());
        assert(c[i as int] == changes@[i as int]@);
        assert(paths_of(paths@) =~= p.push(c[i as int].path));
        assert(paths_of(paths@) =~= change_paths(c.take(i + 1)));
        i += 1;
    }
    assert(c.take(i as int) =~= c);
    let mut message = owned("reconcile ");
    message.append(u64_text(changes.len() as u64).as_str());
    message.append(" external path(s) (operator)");
    (paths, CommitMeta { message, author_did: owned(operator_did) })
}

/// Whether an instruction can be signed: without the operator's identity it cannot.
pub fn may_say(operator: Option<&Did>) -> (r: Result<(), DackError>)
    ensures
        r is Ok <==> operator is Some,
        r is Err ==> r->Err_0 is Config && error_detail(r->Err_0)
            == "dack say: no operator identity dir (identities.operator) — cannot sign"@,
{
    match operator {
        Some(_) => Ok(()),
        None => Err(
            DackError::Config(
                owned("dack say: no operator identity dir (identities.operator) — cannot sign"),
            ),
        ),
    }
}

/// The answer to a request to stop at once: the signal that drains is the way to stop.
pub fn kill_error() -> (r: DackError)
    ensures
        r is NotImplemented,
        error_detail(r)
            == "dack kill — use SIGTERM (systemctl stop / Ctrl-C) for a graceful drain"@,
{
    DackError::NotImplemented(
        owned("dack kill — use SIGTERM (systemctl stop / Ctrl-C) for a graceful drain"),
    )
}

/// The lines of what is wrong with duties.
pub open spec fn error_lines(e: Seq<(Seq<char>, Seq<char>)>) -> Seq<char>
    decreases e.len(),
{
    if e.len() == 0 {
        Seq::empty()
    } else {
        error_lines(e.drop_last()) + ("  ! "@ + e.last().0 + ": "@ + e.last().1 + "\n"@)
    }
}

/// The report of how things are.
pub open spec fn report(depth: nat, duties: nat, e: Seq<(Seq<char>, Seq<char>)>) -> Seq<char> {
    "queue:  "@ + nat_text(depth) + " pending\nduties: "@ + nat_text(duties) + " registered, "@
        + nat_text(e.len()) + " malformed\n"@ + error_lines(e)
}

/// The report of how things are: how many rows wait, how many duties there are, and what is
/// wrong with the others.
pub fn status_report(depth: usize, duties: usize, errors: &Vec<(String, String)>) -> (r: String)
    ensures
        r@ == report(depth as nat, duties as nat, pairs_view(errors@)),
{
    let ghost e = pairs_view(errors@);
    let mut out = owned("queue:  ");
    out.append(u64_text(depth as u64).as_str());
    out.append(" pending\nduties: ");
    out.append(u64_text(duties as u64).as_str());
    out.append(" registered, ");
    out.append(u64_text(errors.len() as u64).as_str());
    out.append(" malformed\n");
    let ghost head = out@;
    let mut i: usize = 0;
    assert(e.take(0) =~= Seq::empty());
    assert(out@ =~= head + error_lines(e.take(0)));
    while i < errors.len()
        invariant
            i <= errors@.len(),
            e == pairs_view(errors@),
            out@ == head + error_lines(e.take(i as int)),
        decreases errors@.len() - i,
    {
        proof {
            assert(e.take(i + 1).drop_last() =~= e.take(i as int));
            assert(e.take(i + 1).last() == (errors@[i as int].0@, errors@[i as int].1@));
        }
        let ghost o = out@;
        out.append("  ! ");
        out.append(errors[i].0.as_str());
        out.append(": ");
        out.append(errors[i].1.as_str());
        out.append("\n");
        assert(out@ =~= head + error_lines(e.take(i + 1)));
        i += 1;
    }
    assert(e.take(i as int) =~= e);
    out
}

/// The gateway is switched on with its address and its key, each where it is given; the provider's
/// own needs nothing.
pub proof fn a_connector_sets_its_variables(c: Connector, k: Seq<char>)
    ensures
        match c {
            Connector::Opengateway { api_url, api_key } => {
                let m = connector_vars(c);
                &&& m.contains_key("CLAUDE_CODE_USE_OPENAI"@) && m["CLAUDE_CODE_USE_OPENAI"@] == "1"@
                &&& m.contains_key("OPENAI_BASE_URL"@) <==> api_url is Some
                &&& api_url matches Some(u) ==> m["OPENAI_BASE_URL"@] == u@
                &&& m.contains_key("OPENAI_API_KEY"@) <==> api_key is Some
                &&& api_key matches Some(x) ==> m["OPENAI_API_KEY"@] == x@
                &&& m.contains_key(k) ==> k == "CLAUDE_CODE_USE_OPENAI"@ || k == "OPENAI_BASE_URL"@
                    || k == "OPENAI_API_KEY"@
            },
            Connector::Anthropic { .. } => !connector_vars(c).contains_key(k),
        },
{
    reveal_strlit("CLAUDE_CODE_USE_OPENAI");
    reveal_strlit("OPENAI_BASE_URL");
    reveal_strlit("OPENAI_API_KEY");
    assert("CLAUDE_CODE_USE_OPENAI"@.len() == 22);
    assert("OPENAI_BASE_URL"@.len() == 15 && "OPENAI_API_KEY"@.len() == 14);
}

/// Seconds are a thousand milliseconds each, up to what fits.
pub proof fn a_second_is_a_thousand_milliseconds(secs: u64)
    ensures
        in_ms(secs) <= secs * 1000,
        secs * 1000 <= u64::MAX ==> in_ms(secs) == secs * 1000,
        secs * 1000 > u64::MAX ==> in_ms(secs) == u64::MAX,
{
}

/// A role is read by its name. Its key lies in its directory, and there is none where the name is
/// no role or the role has no directory.
pub proof fn a_role_has_its_key(
    name: Seq<char>,
    dirs: Seq<(IdentityRole, String)>,
    role: IdentityRole,
    dir: String,
)
    ensures
        role_of(name) == Some(IdentityRole::Soul) <==> name == "soul"@,
        role_of(name) == Some(IdentityRole::Operator) <==> name == "operator"@,
        role_of(name) == Some(IdentityRole::Builder) <==> name == "builder"@,
        role_of(name) is None ==> key_of_role(dirs, name) is None,
        role_of(name) == Some(role) && of_role(dirs, role) == Some(dir) ==> key_of_role(dirs, name)
            == Some(joined_path(dir@, "identity.pem"@)),
        role_of(name) == Some(role) && of_role(dirs, role) is None ==> key_of_role(dirs, name)
            is None,
{
    reveal_strlit("soul");
    reveal_strlit("operator");
    reveal_strlit("builder");
    assert("soul"@.len() == 4 && "operator"@.len() == 8 && "builder"@.len() == 7);
}

/// A remote is signed for where it says so, and where it says nothing, by its address.
pub proof fn a_remote_is_signed_by_kind_or_address(url: Seq<char>, rest: Seq<char>)
    ensures
        is_signed(Some(RemoteKind::Gitlawb), url),
        !is_signed(Some(RemoteKind::Git), url),
        is_signed(None, "gitlawb://"@ + rest),
        is_signed(None, url) ==> url.len() >= 10 && url.take(10) == "gitlawb://"@,
{
    reveal_strlit("gitlawb://");
    let t = "gitlawb://"@ + rest;
    assert(t.subrange(0, 10) =~= "gitlawb://"@);
    assert(occurs_at(t, "gitlawb://"@, 0));
    if is_signed(None, url) {
        assert(url.take(10) =~= url.subrange(0, 10));
    }
}

/// A remote that must be signed for is a target only where there is a key; every other is one. It
/// has the node and the login that it names.
pub proof fn every_remote_with_a_key_is_a_target(
    a: Seq<SoulRemote>,
    b: Seq<SoulRemote>,
    r: SoulRemote,
    dirs: Seq<(IdentityRole, String)>,
    node: Seq<char>,
)
    ensures
        has_target(r, dirs) <==> !is_signed(r.kind, r.url@) || key_of_role(dirs, r.identity@)
            is Some,
        target_count(a + b, dirs) == target_count(a, dirs) + target_count(b, dirs),
        target_count(seq![r], dirs) == if has_target(r, dirs) {
            1nat
        } else {
            0nat
        },
        r.node matches Some(n) ==> node_of(r, node) == n@,
        r.node is None ==> node_of(r, node) == node,
        r.auth matches Some(x) ==> remote_auth(r) == Some((x.username@, x.token_env@)),
        r.auth is None ==> remote_auth(r) is None,
    decreases b.len(),
{
    assert(seq![r].drop_last() =~= Seq::<SoulRemote>::empty());
    assert(target_count(seq![r].drop_last(), dirs) == 0);
    if b.len() == 0 {
        assert(a + b =~= a);
    } else {
        every_remote_with_a_key_is_a_target(a, b.drop_last(), r, dirs, node);
        assert((a + b).drop_last() =~= a + b.drop_last());
        assert((a + b).last() == b.last());
    }
}

/// The report tells how much waits, how many duties there are, and each one that cannot be read
/// with the reason.
pub proof fn the_report_tells_every_fault(
    depth: nat,
    duties: nat,
    e: Seq<(Seq<char>, Seq<char>)>,
    i: int,
)
    ensures
        has_part(report(depth, duties, e), "queue:  "@ + nat_text(depth) + " pending\n"@),
        has_part(report(depth, duties, e), "duties: "@ + nat_text(duties) + " registered, "@ + nat_text(
            e.len(),
        ) + " malformed\n"@),
        0 <= i < e.len() ==> has_part(
            report(depth, duties, e),
            "  ! "@ + e[i].0 + ": "@ + e[i].1 + "\n"@,
        ),
{
    let r = report(depth, duties, e);
    let q = "queue:  "@ + nat_text(depth) + " pending\n"@;
    let d = "duties: "@ + nat_text(duties) + " registered, "@ + nat_text(e.len()) + " malformed\n"@;
    let l = error_lines(e);
    reveal_strlit(" pending\nduties: ");
    reveal_strlit(" pending\n");
    reveal_strlit("duties: ");
    assert(" pending\nduties: "@ =~= " pending\n"@ + "duties: "@);
    assert(r =~= q + d + l);
    assert(r =~= Seq::<char>::empty() + q + (d + l));
    what_stands_between_is_a_part(Seq::empty(), q, d + l);
    what_stands_between_is_a_part(q, d, l);
    if 0 <= i < e.len() {
        every_fault_has_its_line(e, i);
        assert(r =~= (q + d) + l + Seq::<char>::empty());
        what_stands_between_is_a_part(q + d, l, Seq::empty());
        parts_nest(r, l, "  ! "@ + e[i].0 + ": "@ + e[i].1 + "\n"@);
    }
}

proof fn every_fault_has_its_line(e: Seq<(Seq<char>, Seq<char>)>, i: int)
    requires
        0 <= i < e.len(),
    ensures
        has_part(error_lines(e), "  ! "@ + e[i].0 + ": "@ + e[i].1 + "\n"@),
    decreases e.len(),
{
    let line = "  ! "@ + e[i].0 + ": "@ + e[i].1 + "\n"@;
    let rest = error_lines(e.drop_last());
    let last = "  ! "@ + e.last().0 + ": "@ + e.last().1 + "\n"@;
    let all = error_lines(e);
    assert(all == rest + last);
    if i == e.len() - 1 {
        assert(all =~= rest + line + Seq::<char>::empty());
        what_stands_between_is_a_part(rest, line, Seq::empty());
    } else {
        assert(e.drop_last()[i] == e[i]);
        every_fault_has_its_line(e.drop_last(), i);
        assert(all =~= Seq::<char>::empty() + rest + last);
        what_stands_between_is_a_part(Seq::empty(), rest, last);
        parts_nest(all, rest, line);
    }
}

} // verus!
