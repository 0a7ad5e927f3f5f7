//! Reading the configuration from YAML. What is not said has a default, and the defaults are
//! the cautious ones.

use vstd::prelude::*;

use crate::config::{
    default_lattice, locked_policy, policy_of, public_data_never_settles, tier_meet, tier_reaches,
    CapabilityTier, Connector, DackConfig, DryRun, IdentityDirs,
    McpAuth, McpServerConfig, McpTransport, ModuleConfig, RemoteAuth, RemoteKind, RuntimeConfig,
    RuntimeEngine, SecretsProviderConfig, SoulRemote, TierPolicy, TierPolicyV, TierV,
    TrustTierDef, WorkerSandboxConfig,
};
use crate::decode::{
    bool_fault, bool_or_at, entries_of, entry_models, fault_unless, field_error, get_bool_or, get_i64_or,
    get_list, get_map, get_opt_text, get_opt_u64, get_opt_value, get_text, get_text_or, get_texts,
    get_texts_or, get_u64_or, get_value, get_value_or, i64_fault, i64_or_at, in_field, list_at,
    list_fault, map_at, map_fault, misfit, missing, models, opt_model, opt_text_at, opt_text_fault,
    opt_u64_at, opt_u64_fault, opt_value_at, opt_value_fault, or_fault, presence_fault, read_scalar,
    scalar, text_at, text_fault, text_or_at, text_or_fault, texts_fault, texts_of, texts_or_at,
    u64_fault, u64_or_at, value_at, value_fault, value_or_at, value_or_fault, values_of, within,
    FromTree,
};
use crate::error::DackError;
use crate::json::{
    field, fields_view, number_i64, number_u64, only_objects_have_fields, value_tree,
    yaml_error_text, yaml_read, Json, JsonV,
};
use crate::model::stimulus::TrustTier;
use crate::state::{state_from_tag, state_of_tag, ConsciousnessState};
use crate::text::{owned, same_text};

verus! {

// ── Trust ───────────────────────────────────────────────────────────────────────────────

impl FromTree for TrustTierDef {
    type Model = TierV;

    open spec fn model(&self) -> TierV {
        (self.name@, self.reaches)
    }

    open spec fn read(t: JsonV) -> Option<TierV> {
        match (
            text_at(t, "name"@, true),
            value_or_at::<ConsciousnessState>(t, "reaches"@, ConsciousnessState::Express),
        ) {
            (Some(name), Some(reaches)) => if t is Object {
                Some((name, reaches))
            } else {
                None
            },
            _ => None,
        }
    }

    open spec fn fault(t: JsonV) -> Option<Seq<char>> {
        let f = fault_unless(t is Object, "expected a map"@);
        let f = or_fault(f, text_fault(t, "name"@, true));
        or_fault(f, value_or_fault::<ConsciousnessState>(t, "reaches"@))
    }

    fn from_tree(j: &Json) -> (r: Result<TrustTierDef, String>) {
        match j {
            Json::Object(_) => {},
            _ => return Err(owned("expected a map")),
        }
        let name = match get_text(j, "name", true) {
            Ok(x) => x,
            Err(e) => return Err(e),
        };
        match get_value_or::<ConsciousnessState>(j, "reaches", ConsciousnessState::Express) {
            Ok(reaches) => Ok(TrustTierDef { name, reaches }),
            Err(e) => Err(e),
        }
    }
}

/// The lattice of a deployment that configures none.
pub fn default_trust_tiers() -> (r: Vec<TrustTierDef>)
    ensures
        models(r@) == default_lattice(),
{
    let r = vec![
        TrustTierDef { name: owned("public"), reaches: ConsciousnessState::Express },
        TrustTierDef { name: owned("self"), reaches: ConsciousnessState::Reflect },
        TrustTierDef { name: owned("operator_signed"), reaches: ConsciousnessState::Reflect },
    ];
    assert(models(r@) =~= default_lattice());
    r
}

// ── Capabilities ────────────────────────────────────────────────────────────────────────

impl FromTree for TierPolicy {
    type Model = TierPolicyV;

    open spec fn model(&self) -> TierPolicyV {
        TierPolicyV {
            mcp_whitelist: self.mcp_whitelist,
            import: self.import.deep_view(),
            deny: self.deny.deep_view(),
            model: self.model.deep_view(),
            allow_model_override: self.allow_model_override,
        }
    }

    open spec fn read(t: JsonV) -> Option<TierPolicyV> {
        match (
            bool_or_at(t, "mcp_whitelist"@, true),
            texts_or_at(t, "import"@, Seq::empty(), true),
            texts_or_at(t, "deny"@, Seq::empty(), true),
            opt_text_at(t, "model"@, true),
            bool_or_at(t, "allow_model_override"@, false),
        ) {
            (
                Some(mcp_whitelist),
                Some(import),
                Some(deny),
                Some(model),
                Some(allow_model_override),
            ) => if t is Object || t is Null {
                Some(TierPolicyV { mcp_whitelist, import, deny, model, allow_model_override })
            } else {
                None
            },
            _ => None,
        }
    }

    open spec fn fault(t: JsonV) -> Option<Seq<char>> {
        let f = fault_unless(t is Object || t is Null, "expected a map"@);
        let f = or_fault(f, bool_fault(t, "mcp_whitelist"@));
        let f = or_fault(f, texts_fault(t, "import"@, true));
        let f = or_fault(f, texts_fault(t, "deny"@, true));
        let f = or_fault(f, opt_text_fault(t, "model"@, true));
        or_fault(f, bool_fault(t, "allow_model_override"@))
    }

    fn from_tree(j: &Json) -> (r: Result<TierPolicy, String>) {
        match j {
            Json::Object(_) => {},
            Json::Null => {},
            _ => return Err(owned("expected a map")),
        }
        let mcp_whitelist = match get_bool_or(j, "mcp_whitelist", true) {
            Ok(x) => x,
            Err(e) => return Err(e),
        };
        let import = match get_texts(j, "import", true) {
            Ok(x) => x,
            Err(e) => return Err(e),
        };
        let deny = match get_texts(j, "deny", true) {
            Ok(x) => x,
            Err(e) => return Err(e),
        };
        let model = match get_opt_text(j, "model", true) {
            Ok(x) => x,
            Err(e) => return Err(e),
        };
        let allow_model_override = match get_bool_or(j, "allow_model_override", false) {
            Ok(x) => x,
            Err(e) => return Err(e),
        };
        Ok(TierPolicy { mcp_whitelist, import, deny, model, allow_model_override })
    }
}

/// The policies of a map from states to policies.
pub open spec fn policies_of(f: Seq<(Seq<char>, JsonV)>) -> Option<
    Seq<(ConsciousnessState, TierPolicyV)>,
>
    decreases f.len(),
{
    if f.len() == 0 {
        Some(Seq::empty())
    } else {
        match (
            policies_of(f.drop_last()),
            state_of_tag(f.last().0),
            TierPolicy::read(f.last().1),
        ) {
            (Some(rest), Some(state), Some(policy)) => Some(rest.push((state, policy))),
            _ => None,
        }
    }
}

/// The policies of a field.
pub open spec fn policies_at(t: JsonV, key: Seq<char>) -> Option<
    Seq<(ConsciousnessState, TierPolicyV)>,
> {
    match field(t, key) {
        None => Some(Seq::empty()),
        Some(JsonV::Null) => Some(Seq::empty()),
        Some(JsonV::Object(f)) => policies_of(f),
        _ => None,
    }
}

/// What is wrong with the first policy that does not fit.
pub open spec fn policy_entries_fault(f: Seq<(Seq<char>, JsonV)>) -> Option<Seq<char>>
    decreases f.len(),
{
    if f.len() == 0 {
        None
    } else {
        or_fault(
            policy_entries_fault(f.drop_last()),
            or_fault(
                fault_unless(
                    state_of_tag(f.last().0) is Some,
                    misfit(f.last().0, "a state"@),
                ),
                TierPolicy::fault(f.last().1),
            ),
        )
    }
}

/// What is wrong with the policies of a field.
pub open spec fn policies_fault(t: JsonV, key: Seq<char>) -> Option<Seq<char>> {
    match field(t, key) {
        None => None,
        Some(JsonV::Null) => None,
        Some(JsonV::Object(f)) => match policy_entries_fault(f) {
            Some(e) => Some(within(key, e)),
            None => None,
        },
        _ => Some(misfit(key, "a map"@)),
    }
}

/// What policies hold.
pub open spec fn policies_view(p: Seq<(ConsciousnessState, TierPolicy)>) -> Seq<
    (ConsciousnessState, TierPolicyV),
> {
    p.map_values(|x: (ConsciousnessState, TierPolicy)| (x.0, x.1@))
}

proof fn policies_prefix(f: Seq<(Seq<char>, JsonV)>, n: int)
    requires
        0 <= n <= f.len(),
        policies_of(f.take(n)) is None,
        policy_entries_fault(f.take(n)) is Some,
    ensures
        policies_of(f) is None,
        policy_entries_fault(f) == policy_entries_fault(f.take(n)),
    decreases f.len() - n,
{
    if n < f.len() {
        assert(f.take(n + 1).drop_last() =~= f.take(n));
        policies_prefix(f, n + 1);
    } else {
        assert(f.take(n) =~= f);
    }
}

fn get_policies(j: &Json, key: &str) -> (r: Result<Vec<(ConsciousnessState, TierPolicy)>, String>)
    ensures
        match policies_at(j@, key@) {
            Some(v) => r is Ok && policies_view(r->Ok_0@) == v,
            None => r is Err,
        },
        match r {
            Ok(_) => policies_fault(j@, key@) is None,
            Err(e) => policies_fault(j@, key@) == Some(e@),
        },
{
    let mut out: Vec<(ConsciousnessState, TierPolicy)> = Vec::new();
    assert(policies_view(out@) =~= Seq::empty());
    let x = match j.get(key) {
        Some(x) => x,
        None => return Ok(out),
    };
    match x {
        Json::Null => Ok(out),
        Json::Object(v) => {
            let ghost f = fields_view(v@);
            assert(x@->Object_0 =~= f);
            let mut i: usize = 0;
            assert(f.take(0) =~= Seq::empty());
            while i < v.len()
                invariant
                    i <= v@.len(),
                    f == fields_view(v@),
                    field(j@, key@) == Some(JsonV::Object(f)),
                    policies_of(f.take(i as int)) == Some(policies_view(out@)),
                    policy_entries_fault(f.take(i as int)) is None,
                decreases v@.len() - i,
            {
                proof {
                    assert(f.take(i + 1).drop_last() =~= f.take(i as int));
                    assert(f.take(i + 1).last() == (v@[i as int].0@, v@[i as int].1@));
                }
                let ghost o = out@;
                let state = match state_from_tag(v[i].0.as_str()) {
                    Some(s) => s,
                    None => {
                        proof {
                            policies_prefix(f, i + 1);
                        }
                        return Err(in_field(key, field_error(v[i].0.as_str(), "a state")));
                    },
                };
                match TierPolicy::from_tree(&v[i].1) {
                    Ok(p) => {
                        let ghost pv = p@;
                        out.push((state, p));
                        assert(policies_view(out@) =~= policies_view(o).push((state, pv)));
                    },
                    Err(e) => {
                        proof {
                            policies_prefix(f, i + 1);
                        }
                        return Err(in_field(key, e));
                    },
                }
                i += 1;
            }
            assert(f.take(i as int) =~= f);
            Ok(out)
        },
        _ => Err(field_error(key, "a map")),
    }
}

/// The texts of a required field.
pub open spec fn required_texts(t: JsonV, key: Seq<char>) -> Option<Seq<Seq<char>>> {
    match field(t, key) {
        Some(_) => texts_or_at(t, key, Seq::empty(), true),
        None => None,
    }
}

/// What is wrong with a required list of texts.
pub open spec fn required_texts_fault(t: JsonV, key: Seq<char>) -> Option<Seq<char>> {
    or_fault(presence_fault(t, key), texts_fault(t, key, true))
}

fn get_required_texts(j: &Json, key: &str) -> (r: Result<Vec<String>, String>)
    ensures
        match required_texts(j@, key@) {
            Some(s) => r is Ok && r->Ok_0.deep_view() == s,
            None => r is Err,
        },
        match r {
            Ok(_) => required_texts_fault(j@, key@) is None,
            Err(e) => required_texts_fault(j@, key@) == Some(e@),
        },
{
    match j.get(key) {
        Some(_) => get_texts(j, key, true),
        None => Err(missing(key)),
    }
}

/// What a [`SecretsProviderConfig`] holds.
#[verifier::ext_equal]
pub struct SecretsProviderV {
    pub name: Seq<char>,
    pub command: Seq<Seq<char>>,
    pub env: Map<Seq<char>, Seq<char>>,
    pub keys: Seq<Seq<char>>,
    pub trust: Seq<char>,
}

impl FromTree for SecretsProviderConfig {
    type Model = SecretsProviderV;

    open spec fn model(&self) -> SecretsProviderV {
        SecretsProviderV {
            name: self.name@,
            command: self.command.deep_view(),
            env: entry_models(self.env@),
            keys: self.keys.deep_view(),
            trust: self.trust@,
        }
    }

    open spec fn read(t: JsonV) -> Option<SecretsProviderV> {
        match (
            text_at(t, "name"@, true),
            required_texts(t, "command"@),
            map_at::<String>(t, "env"@),
            texts_or_at(t, "keys"@, Seq::empty(), true),
            value_or_at::<TrustTier>(t, "trust"@, "self"@),
        ) {
            (
                Some(name),
                Some(command),
                Some(env),
                Some(keys),
                Some(trust),
            ) => if t is Object {
                Some(SecretsProviderV { name, command, env, keys, trust })
            } else {
                None
            },
            _ => None,
        }
    }

    open spec fn fault(t: JsonV) -> Option<Seq<char>> {
        let f = fault_unless(t is Object, "expected a map"@);
        let f = or_fault(f, text_fault(t, "name"@, true));
        let f = or_fault(f, required_texts_fault(t, "command"@));
        let f = or_fault(f, map_fault::<String>(t, "env"@));
        let f = or_fault(f, texts_fault(t, "keys"@, true));
        or_fault(f, value_or_fault::<TrustTier>(t, "trust"@))
    }

    fn from_tree(j: &Json) -> (r: Result<SecretsProviderConfig, String>) {
        match j {
            Json::Object(_) => {},
            _ => return Err(owned("expected a map")),
        }
        let name = match get_text(j, "name", true) {
            Ok(x) => x,
            Err(e) => return Err(e),
        };
        let command = match get_required_texts(j, "command") {
            Ok(x) => x,
            Err(e) => return Err(e),
        };
        let env = match get_map::<String>(j, "env") {
            Ok(x) => x,
            Err(e) => return Err(e),
        };
        let keys = match get_texts(j, "keys", true) {
            Ok(x) => x,
            Err(e) => return Err(e),
        };
        let trust = match get_value_or::<TrustTier>(j, "trust", TrustTier::self_()) {
            Ok(x) => x,
            Err(e) => return Err(e),
        };
        Ok(SecretsProviderConfig { name, command, env, keys, trust })
    }
}

impl FromTree for CapabilityTier {
    type Model = CapabilityTier;

    open spec fn model(&self) -> CapabilityTier {
        *self
    }

    open spec fn read(t: JsonV) -> Option<CapabilityTier> {
        match scalar(t, false) {
            Some(s) => if s == "read"@ {
                Some(CapabilityTier::Read)
            } else if s == "post"@ {
                Some(CapabilityTier::Post)
            } else if s == "settle"@ {
                Some(CapabilityTier::Settle)
            } else {
                None
            },
            None => None,
        }
    }

    open spec fn fault(t: JsonV) -> Option<Seq<char>> {
        fault_unless(Self::read(t) is Some, "expected read, post or settle"@)
    }

    fn from_tree(j: &Json) -> (r: Result<CapabilityTier, String>) {
        match read_scalar(j, false) {
            Some(s) => if same_text(s.as_str(), "read") {
                Ok(CapabilityTier::Read)
            } else if same_text(s.as_str(), "post") {
                Ok(CapabilityTier::Post)
            } else if same_text(s.as_str(), "settle") {
                Ok(CapabilityTier::Settle)
            } else {
                Err(owned("expected read, post or settle"))
            },
            None => Err(owned("expected read, post or settle")),
        }
    }
}

/// What a [`McpTransport`] holds.
#[verifier::ext_equal]
pub enum TransportV {
    Http { url: Seq<char> },
    Stdio { command: Seq<char>, args: Seq<Seq<char>> },
}

impl FromTree for McpTransport {
    type Model = TransportV;

    open spec fn model(&self) -> TransportV {
        match self {
            McpTransport::Http { url } => TransportV::Http { url: url@ },
            McpTransport::Stdio { command, args } => TransportV::Stdio {
                command: command@,
                args: args.deep_view(),
            },
        }
    }

    open spec fn read(t: JsonV) -> Option<TransportV> {
        match text_at(t, "type"@, false) {
            Some(k) => if k == "http"@ {
                match text_at(t, "url"@, false) {
                    Some(url) => Some(TransportV::Http { url }),
                    None => None,
                }
            } else if k == "stdio"@ {
                match (
                    text_at(t, "command"@, false),
                    texts_or_at(t, "args"@, Seq::empty(), false),
                ) {
                    (Some(command), Some(args)) => Some(TransportV::Stdio { command, args }),
                    _ => None,
                }
            } else {
                None
            },
            None => None,
        }
    }

    open spec fn fault(t: JsonV) -> Option<Seq<char>> {
        or_fault(
            text_fault(t, "type"@, false),
            match text_at(t, "type"@, false) {
                Some(k) => if k == "http"@ {
                    text_fault(t, "url"@, false)
                } else if k == "stdio"@ {
                    or_fault(text_fault(t, "command"@, false), texts_fault(t, "args"@, false))
                } else {
                    Some(misfit("type"@, "http or stdio"@))
                },
                None => None,
            },
        )
    }

    fn from_tree(j: &Json) -> (r: Result<McpTransport, String>) {
        let kind = match get_text(j, "type", false) {
            Ok(x) => x,
            Err(e) => return Err(e),
        };
        if same_text(kind.as_str(), "http") {
            match get_text(j, "url", false) {
                Ok(url) => Ok(McpTransport::Http { url }),
                Err(e) => Err(e),
            }
        } else if same_text(kind.as_str(), "stdio") {
            let command = match get_text(j, "command", false) {
                Ok(x) => x,
                Err(e) => return Err(e),
            };
            match get_texts(j, "args", false) {
                Ok(args) => Ok(McpTransport::Stdio { command, args }),
                Err(e) => Err(e),
            }
        } else {
            Err(field_error("type", "http or stdio"))
        }
    }
}

/// What a [`McpAuth`] holds.
#[verifier::ext_equal]
pub struct McpAuthV {
    pub secret: Seq<char>,
    pub key: Option<Seq<char>>,
    pub header: Option<Seq<char>>,
    pub scheme: Option<Seq<char>>,
    pub env: Option<Seq<char>>,
}

impl FromTree for McpAuth {
    type Model = McpAuthV;

    open spec fn model(&self) -> McpAuthV {
        McpAuthV {
            secret: self.secret@,
            key: self.key.deep_view(),
            header: self.header.deep_view(),
            scheme: self.scheme.deep_view(),
            env: self.env.deep_view(),
        }
    }

    open spec fn read(t: JsonV) -> Option<McpAuthV> {
        match (
            text_at(t, "secret"@, true),
            opt_text_at(t, "key"@, true),
            opt_text_at(t, "header"@, true),
            opt_text_at(t, "scheme"@, true),
            opt_text_at(t, "env"@, true),
        ) {
            (
                Some(secret),
                Some(key),
                Some(header),
                Some(scheme),
                Some(env),
            ) => if t is Object {
                Some(McpAuthV { secret, key, header, scheme, env })
            } else {
                None
            },
            _ => None,
        }
    }

    open spec fn fault(t: JsonV) -> Option<Seq<char>> {
        let f = fault_unless(t is Object, "expected a map"@);
        let f = or_fault(f, text_fault(t, "secret"@, true));
        let f = or_fault(f, opt_text_fault(t, "key"@, true));
        let f = or_fault(f, opt_text_fault(t, "header"@, true));
        let f = or_fault(f, opt_text_fault(t, "scheme"@, true));
        or_fault(f, opt_text_fault(t, "env"@, true))
    }

    fn from_tree(j: &Json) -> (r: Result<McpAuth, String>) {
        match j {
            Json::Object(_) => {},
            _ => return Err(owned("expected a map")),
        }
        let secret = match get_text(j, "secret", true) {
            Ok(x) => x,
            Err(e) => return Err(e),
        };
        let key = match get_opt_text(j, "key", true) {
            Ok(x) => x,
            Err(e) => return Err(e),
        };
        let header = match get_opt_text(j, "header", true) {
            Ok(x) => x,
            Err(e) => return Err(e),
        };
        let scheme = match get_opt_text(j, "scheme", true) {
            Ok(x) => x,
            Err(e) => return Err(e),
        };
        let env = match get_opt_text(j, "env", true) {
            Ok(x) => x,
            Err(e) => return Err(e),
        };
        Ok(McpAuth { secret, key, header, scheme, env })
    }
}

/// What a [`McpServerConfig`] holds.
#[verifier::ext_equal]
pub struct McpServerV {
    pub name: Seq<char>,
    pub transport: TransportV,
    pub auth: Option<McpAuthV>,
    pub tier: CapabilityTier,
    pub tools: Seq<Seq<char>>,
    pub trust: Seq<char>,
    pub min_trust: Option<Seq<char>>,
    pub scope_env: Map<Seq<char>, Seq<char>>,
    pub env: Map<Seq<char>, Seq<char>>,
}

impl FromTree for McpServerConfig {
    type Model = McpServerV;

    open spec fn model(&self) -> McpServerV {
        McpServerV {
            name: self.name@,
            transport: self.transport.model(),
            auth: opt_model(self.auth),
            tier: self.tier.model(),
            tools: self.tools.deep_view(),
            trust: self.trust@,
            min_trust: opt_model(self.min_trust),
            scope_env: entry_models(self.scope_env@),
            env: entry_models(self.env@),
        }
    }

    open spec fn read(t: JsonV) -> Option<McpServerV> {
        match (
            text_at(t, "name"@, true),
            value_at::<McpTransport>(t, "transport"@),
            opt_value_at::<McpAuth>(t, "auth"@),
            value_at::<CapabilityTier>(t, "tier"@),
            texts_or_at(t, "tools"@, Seq::empty(), true),
            value_or_at::<TrustTier>(t, "trust"@, "self"@),
            opt_value_at::<TrustTier>(t, "min_trust"@),
            map_at::<String>(t, "scope_env"@),
            map_at::<String>(t, "env"@),
        ) {
            (
                Some(name),
                Some(transport),
                Some(auth),
                Some(tier),
                Some(tools),
                Some(trust),
                Some(min_trust),
                Some(scope_env),
                Some(env),
            ) => if t is Object {
                Some(McpServerV { name, transport, auth, tier, tools, trust, min_trust, scope_env, env })
            } else {
                None
            },
            _ => None,
        }
    }

    open spec fn fault(t: JsonV) -> Option<Seq<char>> {
        let f = fault_unless(t is Object, "expected a map"@);
        let f = or_fault(f, text_fault(t, "name"@, true));
        let f = or_fault(f, value_fault::<McpTransport>(t, "transport"@));
        let f = or_fault(f, opt_value_fault::<McpAuth>(t, "auth"@));
        let f = or_fault(f, value_fault::<CapabilityTier>(t, "tier"@));
        let f = or_fault(f, texts_fault(t, "tools"@, true));
        let f = or_fault(f, value_or_fault::<TrustTier>(t, "trust"@));
        let f = or_fault(f, opt_value_fault::<TrustTier>(t, "min_trust"@));
        let f = or_fault(f, map_fault::<String>(t, "scope_env"@));
        or_fault(f, map_fault::<String>(t, "env"@))
    }

    fn from_tree(j: &Json) -> (r: Result<McpServerConfig, String>) {
        match j {
            Json::Object(_) => {},
            _ => return Err(owned("expected a map")),
        }
        let name = match get_text(j, "name", true) {
            Ok(x) => x,
            Err(e) => return Err(e),
        };
        let transport = match get_value::<McpTransport>(j, "transport") {
            Ok(x) => x,
            Err(e) => return Err(e),
        };
        let auth = match get_opt_value::<McpAuth>(j, "auth") {
            Ok(x) => x,
            Err(e) => return Err(e),
        };
        let tier = match get_value::<CapabilityTier>(j, "tier") {
            Ok(x) => x,
            Err(e) => return Err(e),
        };
        let tools = match get_texts(j, "tools", true) {
            Ok(x) => x,
            Err(e) => return Err(e),
        };
        let trust = match get_value_or::<TrustTier>(j, "trust", TrustTier::self_()) {
            Ok(x) => x,
            Err(e) => return Err(e),
        };
        let min_trust = match get_opt_value::<TrustTier>(j, "min_trust") {
            Ok(x) => x,
            Err(e) => return Err(e),
        };
        let scope_env = match get_map::<String>(j, "scope_env") {
            Ok(x) => x,
            Err(e) => return Err(e),
        };
        let env = match get_map::<String>(j, "env") {
            Ok(x) => x,
            Err(e) => return Err(e),
        };
        Ok(McpServerConfig { name, transport, auth, tier, tools, trust, min_trust, scope_env, env })
    }
}

/// What a [`IdentityDirs`] holds.
#[verifier::ext_equal]
pub struct IdentityDirsV {
    pub soul: Option<Seq<char>>,
    pub operator: Option<Seq<char>>,
    pub builder: Option<Seq<char>>,
}

impl FromTree for IdentityDirs {
    type Model = IdentityDirsV;

    open spec fn model(&self) -> IdentityDirsV {
        IdentityDirsV {
            soul: self.soul.deep_view(),
            operator: self.operator.deep_view(),
            builder: self.builder.deep_view(),
        }
    }

    open spec fn read(t: JsonV) -> Option<IdentityDirsV> {
        match (
            opt_text_at(t, "soul"@, true),
            opt_text_at(t, "operator"@, true),
            opt_text_at(t, "builder"@, true),
        ) {
            (
                Some(soul),
                Some(operator),
                Some(builder),
            ) => if t is Object || t is Null {
                Some(IdentityDirsV { soul, operator, builder })
            } else {
                None
            },
            _ => None,
        }
    }

    open spec fn fault(t: JsonV) -> Option<Seq<char>> {
        let f = fault_unless(t is Object || t is Null, "expected a map"@);
        let f = or_fault(f, opt_text_fault(t, "soul"@, true));
        let f = or_fault(f, opt_text_fault(t, "operator"@, true));
        or_fault(f, opt_text_fault(t, "builder"@, true))
    }

    fn from_tree(j: &Json) -> (r: Result<IdentityDirs, String>) {
        match j {
            Json::Object(_) => {},
            Json::Null => {},
            _ => return Err(owned("expected a map")),
        }
        let soul = match get_opt_text(j, "soul", true) {
            Ok(x) => x,
            Err(e) => return Err(e),
        };
        let operator = match get_opt_text(j, "operator", true) {
            Ok(x) => x,
            Err(e) => return Err(e),
        };
        let builder = match get_opt_text(j, "builder", true) {
            Ok(x) => x,
            Err(e) => return Err(e),
        };
        Ok(IdentityDirs { soul, operator, builder })
    }
}

// ── Runtime, channels, remotes ──────────────────────────────────────────────────────────

impl FromTree for RuntimeEngine {
    type Model = Seq<char>;

    open spec fn model(&self) -> Seq<char> {
        match self {
            RuntimeEngine::Openclaude { bridge_dir } => bridge_dir@,
        }
    }

    open spec fn read(t: JsonV) -> Option<Seq<char>> {
        if text_at(t, "type"@, false) == Some("openclaude"@) {
            text_or_at(t, "bridge_dir"@, "openclaude-bridge"@, false)
        } else {
            None
        }
    }

    open spec fn fault(t: JsonV) -> Option<Seq<char>> {
        or_fault(
            text_fault(t, "type"@, false),
            or_fault(
                fault_unless(
                    text_at(t, "type"@, false) == Some("openclaude"@),
                    misfit("type"@, "openclaude"@),
                ),
                text_or_fault(t, "bridge_dir"@, false),
            ),
        )
    }

    fn from_tree(j: &Json) -> (r: Result<RuntimeEngine, String>) {
        let kind = match get_text(j, "type", false) {
            Ok(x) => x,
            Err(e) => return Err(e),
        };
        if !same_text(kind.as_str(), "openclaude") {
            return Err(field_error("type", "openclaude"));
        }
        match get_text_or(j, "bridge_dir", "openclaude-bridge", false) {
            Ok(bridge_dir) => Ok(RuntimeEngine::Openclaude { bridge_dir }),
            Err(e) => Err(e),
        }
    }
}

/// What a [`Connector`] holds.
#[verifier::ext_equal]
pub enum ConnectorV {
    Opengateway { api_url: Option<Seq<char>>, api_key: Option<Seq<char>> },
    Anthropic { api_key: Option<Seq<char>> },
}

impl FromTree for Connector {
    type Model = ConnectorV;

    open spec fn model(&self) -> ConnectorV {
        match self {
            Connector::Opengateway { api_url, api_key } => ConnectorV::Opengateway {
                api_url: api_url.deep_view(),
                api_key: api_key.deep_view(),
            },
            Connector::Anthropic { api_key } => ConnectorV::Anthropic {
                api_key: api_key.deep_view(),
            },
        }
    }

    open spec fn read(t: JsonV) -> Option<ConnectorV> {
        match text_at(t, "type"@, false) {
            Some(k) => if k == "opengateway"@ {
                match (
                    opt_text_at(t, "api_url"@, false),
                    opt_text_at(t, "api_key"@, false),
                ) {
                    (Some(api_url), Some(api_key)) => Some(
                        ConnectorV::Opengateway { api_url, api_key },
                    ),
                    _ => None,
                }
            } else if k == "anthropic"@ {
                match opt_text_at(t, "api_key"@, false) {
                    Some(api_key) => Some(ConnectorV::Anthropic { api_key }),
                    None => None,
                }
            } else {
                None
            },
            None => None,
        }
    }

    open spec fn fault(t: JsonV) -> Option<Seq<char>> {
        or_fault(
            text_fault(t, "type"@, false),
            or_fault(
                opt_text_fault(t, "api_key"@, false),
                match text_at(t, "type"@, false) {
                    Some(k) => if k == "opengateway"@ {
                        opt_text_fault(t, "api_url"@, false)
                    } else {
                        fault_unless(
                            k == "anthropic"@,
                            misfit("type"@, "opengateway or anthropic"@),
                        )
                    },
                    None => None,
                },
            ),
        )
    }

    fn from_tree(j: &Json) -> (r: Result<Connector, String>) {
        let kind = match get_text(j, "type", false) {
            Ok(x) => x,
            Err(e) => return Err(e),
        };
        let api_key = match get_opt_text(j, "api_key", false) {
            Ok(x) => x,
            Err(e) => return Err(e),
        };
        if same_text(kind.as_str(), "opengateway") {
            match get_opt_text(j, "api_url", false) {
                Ok(api_url) => Ok(Connector::Opengateway { api_url, api_key }),
                Err(e) => Err(e),
            }
        } else if same_text(kind.as_str(), "anthropic") {
            Ok(Connector::Anthropic { api_key })
        } else {
            Err(field_error("type", "opengateway or anthropic"))
        }
    }
}

/// A smaller natural number of a field with a default.
pub open spec fn u32_or_at(t: JsonV, key: Seq<char>, default: u32) -> Option<u32> {
    match u64_or_at(t, key, default as u64) {
        Some(n) => if n <= u32::MAX {
            Some(n as u32)
        } else {
            None
        },
        None => None,
    }
}

/// What is wrong with a smaller natural number.
pub open spec fn u32_fault(t: JsonV, key: Seq<char>) -> Option<Seq<char>> {
    or_fault(
        u64_fault(t, key),
        fault_unless(u32_or_at(t, key, 0) is Some, misfit(key, "a smaller number"@)),
    )
}

fn get_u32_or(j: &Json, key: &str, default: u32) -> (r: Result<u32, String>)
    ensures
        match u32_or_at(j@, key@, default) {
            Some(n) => r is Ok && r->Ok_0 == n,
            None => r is Err,
        },
        match r {
            Ok(_) => u32_fault(j@, key@) is None,
            Err(e) => u32_fault(j@, key@) == Some(e@),
        },
{
    match get_u64_or(j, key, default as u64) {
        Ok(n) => if n <= u32::MAX as u64 {
            Ok(n as u32)
        } else {
            Err(field_error(key, "a smaller number"))
        },
        Err(e) => Err(e),
    }
}

/// What a [`WorkerSandboxConfig`] holds.
#[verifier::ext_equal]
pub struct WorkerSandboxV {
    pub enabled: bool,
    pub image: Seq<char>,
    pub memory: Seq<char>,
    pub pids_limit: u32,
    pub require: bool,
}

impl FromTree for WorkerSandboxConfig {
    type Model = WorkerSandboxV;

    open spec fn model(&self) -> WorkerSandboxV {
        WorkerSandboxV {
            enabled: self.enabled,
            image: self.image@,
            memory: self.memory@,
            pids_limit: self.pids_limit,
            require: self.require,
        }
    }

    open spec fn read(t: JsonV) -> Option<WorkerSandboxV> {
        match (
            bool_or_at(t, "enabled"@, false),
            text_or_at(t, "image"@, ""@, true),
            text_or_at(t, "memory"@, "2g"@, true),
            u32_or_at(t, "pids_limit"@, 256),
            bool_or_at(t, "require"@, true),
        ) {
            (
                Some(enabled),
                Some(image),
                Some(memory),
                Some(pids_limit),
                Some(require),
            ) => if t is Object || t is Null {
                Some(WorkerSandboxV { enabled, image, memory, pids_limit, require })
            } else {
                None
            },
            _ => None,
        }
    }

    open spec fn fault(t: JsonV) -> Option<Seq<char>> {
        let f = fault_unless(t is Object || t is Null, "expected a map"@);
        let f = or_fault(f, bool_fault(t, "enabled"@));
        let f = or_fault(f, text_or_fault(t, "image"@, true));
        let f = or_fault(f, text_or_fault(t, "memory"@, true));
        let f = or_fault(f, u32_fault(t, "pids_limit"@));
        or_fault(f, bool_fault(t, "require"@))
    }

    fn from_tree(j: &Json) -> (r: Result<WorkerSandboxConfig, String>) {
        match j {
            Json::Object(_) => {},
            Json::Null => {},
            _ => return Err(owned("expected a map")),
        }
        let enabled = match get_bool_or(j, "enabled", false) {
            Ok(x) => x,
            Err(e) => return Err(e),
        };
        let image = match get_text_or(j, "image", "", true) {
            Ok(x) => x,
            Err(e) => return Err(e),
        };
        let memory = match get_text_or(j, "memory", "2g", true) {
            Ok(x) => x,
            Err(e) => return Err(e),
        };
        let pids_limit: u32 = match get_u32_or(j, "pids_limit", 256) {
            Ok(x) => x,
            Err(e) => return Err(e),
        };
        let require = match get_bool_or(j, "require", true) {
            Ok(x) => x,
            Err(e) => return Err(e),
        };
        Ok(WorkerSandboxConfig { enabled, image, memory, pids_limit, require })
    }
}

/// Workers that run on the host.
pub open spec fn host_workers() -> WorkerSandboxV {
    WorkerSandboxV {
        enabled: false,
        image: ""@,
        memory: "2g"@,
        pids_limit: 256,
        require: true,
    }
}

impl Default for WorkerSandboxConfig {
    fn default() -> (r: WorkerSandboxConfig)
        ensures
            r.model() == host_workers(),
    {
        WorkerSandboxConfig {
            enabled: false,
            image: owned(""),
            memory: owned("2g"),
            pids_limit: 256,
            require: true,
        }
    }
}

/// The variables that the bridge is given where nothing is said.
pub open spec fn gateway_names() -> Seq<Seq<char>> {
    seq!["OPENAI_API_KEY"@, "OPENAI_BASE_URL"@, "OPENAI_MODEL"@]
}

fn default_runtime_env() -> (r: Vec<String>)
    ensures
        r.deep_view() == gateway_names(),
{
    let r = vec![owned("OPENAI_API_KEY"), owned("OPENAI_BASE_URL"), owned("OPENAI_MODEL")];
    assert(r.deep_view() =~= gateway_names());
    r
}

/// What a [`RuntimeConfig`] holds.
#[verifier::ext_equal]
pub struct RuntimeV {
    pub engine: Seq<char>,
    pub connector: ConnectorV,
    pub model: Option<Seq<char>>,
    pub env: Seq<Seq<char>>,
    pub worker_sandbox: WorkerSandboxV,
}

impl FromTree for RuntimeConfig {
    type Model = RuntimeV;

    open spec fn model(&self) -> RuntimeV {
        RuntimeV {
            engine: self.engine.model(),
            connector: self.connector.model(),
            model: self.model.deep_view(),
            env: self.env.deep_view(),
            worker_sandbox: self.worker_sandbox.model(),
        }
    }

    open spec fn read(t: JsonV) -> Option<RuntimeV> {
        match (
            value_or_at::<RuntimeEngine>(t, "engine"@, "openclaude-bridge"@),
            value_or_at::<Connector>(t, "connector"@, ConnectorV::Opengateway { api_url: None, api_key: None }),
            opt_text_at(t, "model"@, true),
            texts_or_at(t, "env"@, gateway_names(), true),
            value_or_at::<WorkerSandboxConfig>(t, "worker_sandbox"@, host_workers()),
        ) {
            (
                Some(engine),
                Some(connector),
                Some(model),
                Some(env),
                Some(worker_sandbox),
            ) => if t is Object || t is Null {
                Some(RuntimeV { engine, connector, model, env, worker_sandbox })
            } else {
                None
            },
            _ => None,
        }
    }

    open spec fn fault(t: JsonV) -> Option<Seq<char>> {
        let f = fault_unless(t is Object || t is Null, "expected a map"@);
        let f = or_fault(f, value_or_fault::<RuntimeEngine>(t, "engine"@));
        let f = or_fault(f, value_or_fault::<Connector>(t, "connector"@));
        let f = or_fault(f, opt_text_fault(t, "model"@, true));
        let f = or_fault(f, texts_fault(t, "env"@, true));
        or_fault(f, value_or_fault::<WorkerSandboxConfig>(t, "worker_sandbox"@))
    }

    fn from_tree(j: &Json) -> (r: Result<RuntimeConfig, String>) {
        match j {
            Json::Object(_) => {},
            Json::Null => {},
            _ => return Err(owned("expected a map")),
        }
        let engine = match get_value_or::<RuntimeEngine>(j, "engine", RuntimeEngine::Openclaude { bridge_dir: owned("openclaude-bridge") }) {
            Ok(x) => x,
            Err(e) => return Err(e),
        };
        let connector = match get_value_or::<Connector>(j, "connector", Connector::Opengateway { api_url: None, api_key: None }) {
            Ok(x) => x,
            Err(e) => return Err(e),
        };
        let model = match get_opt_text(j, "model", true) {
            Ok(x) => x,
            Err(e) => return Err(e),
        };
        let env = match get_texts_or(j, "env", default_runtime_env(), true) {
            Ok(x) => x,
            Err(e) => return Err(e),
        };
        let worker_sandbox = match get_value_or::<WorkerSandboxConfig>(j, "worker_sandbox", WorkerSandboxConfig::default()) {
            Ok(x) => x,
            Err(e) => return Err(e),
        };
        Ok(RuntimeConfig { engine, connector, model, env, worker_sandbox })
    }
}

/// The runtime of a deployment that configures none.
pub open spec fn default_runtime() -> RuntimeV {
    RuntimeV {
        engine: "openclaude-bridge"@,
        connector: ConnectorV::Opengateway { api_url: None, api_key: None },
        model: None,
        env: gateway_names(),
        worker_sandbox: host_workers(),
    }
}

impl Default for RuntimeConfig {
    fn default() -> (r: RuntimeConfig)
        ensures
            r.model() == default_runtime(),
    {
        RuntimeConfig {
            engine: RuntimeEngine::Openclaude { bridge_dir: owned("openclaude-bridge") },
            connector: Connector::Opengateway { api_url: None, api_key: None },
            model: None,
            env: default_runtime_env(),
            worker_sandbox: WorkerSandboxConfig::default(),
        }
    }
}

/// What a [`ModuleConfig`] holds.
#[verifier::ext_equal]
pub struct ModuleV {
    pub name: Seq<char>,
    pub command: Seq<Seq<char>>,
    pub secrets: Seq<Seq<char>>,
    pub env: Map<Seq<char>, Seq<char>>,
    pub cwd: Option<Seq<char>>,
    pub enabled: bool,
}

impl FromTree for ModuleConfig {
    type Model = ModuleV;

    open spec fn model(&self) -> ModuleV {
        ModuleV {
            name: self.name@,
            command: self.command.deep_view(),
            secrets: self.secrets.deep_view(),
            env: entry_models(self.env@),
            cwd: self.cwd.deep_view(),
            enabled: self.enabled,
        }
    }

    open spec fn read(t: JsonV) -> Option<ModuleV> {
        match (
            text_at(t, "name"@, true),
            required_texts(t, "command"@),
            texts_or_at(t, "secrets"@, Seq::empty(), true),
            map_at::<String>(t, "env"@),
            opt_text_at(t, "cwd"@, true),
            bool_or_at(t, "enabled"@, true),
        ) {
            (
                Some(name),
                Some(command),
                Some(secrets),
                Some(env),
                Some(cwd),
                Some(enabled),
            ) => if t is Object {
                Some(ModuleV { name, command, secrets, env, cwd, enabled })
            } else {
                None
            },
            _ => None,
        }
    }

    open spec fn fault(t: JsonV) -> Option<Seq<char>> {
        let f = fault_unless(t is Object, "expected a map"@);
        let f = or_fault(f, text_fault(t, "name"@, true));
        let f = or_fault(f, required_texts_fault(t, "command"@));
        let f = or_fault(f, texts_fault(t, "secrets"@, true));
        let f = or_fault(f, map_fault::<String>(t, "env"@));
        let f = or_fault(f, opt_text_fault(t, "cwd"@, true));
        or_fault(f, bool_fault(t, "enabled"@))
    }

    fn from_tree(j: &Json) -> (r: Result<ModuleConfig, String>) {
        match j {
            Json::Object(_) => {},
            _ => return Err(owned("expected a map")),
        }
        let name = match get_text(j, "name", true) {
            Ok(x) => x,
            Err(e) => return Err(e),
        };
        let command = match get_required_texts(j, "command") {
            Ok(x) => x,
            Err(e) => return Err(e),
        };
        let secrets = match get_texts(j, "secrets", true) {
            Ok(x) => x,
            Err(e) => return Err(e),
        };
        let env = match get_map::<String>(j, "env") {
            Ok(x) => x,
            Err(e) => return Err(e),
        };
        let cwd = match get_opt_text(j, "cwd", true) {
            Ok(x) => x,
            Err(e) => return Err(e),
        };
        let enabled = match get_bool_or(j, "enabled", true) {
            Ok(x) => x,
            Err(e) => return Err(e),
        };
        Ok(ModuleConfig { name, command, secrets, env, cwd, enabled })
    }
}

impl FromTree for RemoteKind {
    type Model = RemoteKind;

    open spec fn model(&self) -> RemoteKind {
        *self
    }

    open spec fn read(t: JsonV) -> Option<RemoteKind> {
        match scalar(t, false) {
            Some(s) => if s == "git"@ {
                Some(RemoteKind::Git)
            } else if s == "gitlawb"@ {
                Some(RemoteKind::Gitlawb)
            } else {
                None
            },
            None => None,
        }
    }

    open spec fn fault(t: JsonV) -> Option<Seq<char>> {
        fault_unless(Self::read(t) is Some, "expected git or gitlawb"@)
    }

    fn from_tree(j: &Json) -> (r: Result<RemoteKind, String>) {
        match read_scalar(j, false) {
            Some(s) => if same_text(s.as_str(), "git") {
                Ok(RemoteKind::Git)
            } else if same_text(s.as_str(), "gitlawb") {
                Ok(RemoteKind::Gitlawb)
            } else {
                Err(owned("expected git or gitlawb"))
            },
            None => Err(owned("expected git or gitlawb")),
        }
    }
}

/// What a [`RemoteAuth`] holds.
#[verifier::ext_equal]
pub struct RemoteAuthV {
    pub token_env: Seq<char>,
    pub username: Seq<char>,
}

impl FromTree for RemoteAuth {
    type Model = RemoteAuthV;

    open spec fn model(&self) -> RemoteAuthV {
        RemoteAuthV {
            token_env: self.token_env@,
            username: self.username@,
        }
    }

    open spec fn read(t: JsonV) -> Option<RemoteAuthV> {
        match (
            text_at(t, "token_env"@, true),
            text_or_at(t, "username"@, "x-access-token"@, true),
        ) {
            (
                Some(token_env),
                Some(username),
            ) => if t is Object {
                Some(RemoteAuthV { token_env, username })
            } else {
                None
            },
            _ => None,
        }
    }

    open spec fn fault(t: JsonV) -> Option<Seq<char>> {
        let f = fault_unless(t is Object, "expected a map"@);
        let f = or_fault(f, text_fault(t, "token_env"@, true));
        or_fault(f, text_or_fault(t, "username"@, true))
    }

    fn from_tree(j: &Json) -> (r: Result<RemoteAuth, String>) {
        match j {
            Json::Object(_) => {},
            _ => return Err(owned("expected a map")),
        }
        let token_env = match get_text(j, "token_env", true) {
            Ok(x) => x,
            Err(e) => return Err(e),
        };
        let username = match get_text_or(j, "username", "x-access-token", true) {
            Ok(x) => x,
            Err(e) => return Err(e),
        };
        Ok(RemoteAuth { token_env, username })
    }
}

/// What a [`SoulRemote`] holds.
#[verifier::ext_equal]
pub struct SoulRemoteV {
    pub url: Seq<char>,
    pub kind: Option<RemoteKind>,
    pub required: bool,
    pub node: Option<Seq<char>>,
    pub identity: Seq<char>,
    pub auth: Option<RemoteAuthV>,
}

impl FromTree for SoulRemote {
    type Model = SoulRemoteV;

    open spec fn model(&self) -> SoulRemoteV {
        SoulRemoteV {
            url: self.url@,
            kind: opt_model(self.kind),
            required: self.required,
            node: self.node.deep_view(),
            identity: self.identity@,
            auth: opt_model(self.auth),
        }
    }

    open spec fn read(t: JsonV) -> Option<SoulRemoteV> {
        match (
            text_at(t, "url"@, true),
            opt_value_at::<RemoteKind>(t, "kind"@),
            bool_or_at(t, "required"@, false),
            opt_text_at(t, "node"@, true),
            text_or_at(t, "identity"@, "soul"@, true),
            opt_value_at::<RemoteAuth>(t, "auth"@),
        ) {
            (
                Some(url),
                Some(kind),
                Some(required),
                Some(node),
                Some(identity),
                Some(auth),
            ) => if t is Object {
                Some(SoulRemoteV { url, kind, required, node, identity, auth })
            } else {
                None
            },
            _ => None,
        }
    }

    open spec fn fault(t: JsonV) -> Option<Seq<char>> {
        let f = fault_unless(t is Object, "expected a map"@);
        let f = or_fault(f, text_fault(t, "url"@, true));
        let f = or_fault(f, opt_value_fault::<RemoteKind>(t, "kind"@));
        let f = or_fault(f, bool_fault(t, "required"@));
        let f = or_fault(f, opt_text_fault(t, "node"@, true));
        let f = or_fault(f, text_or_fault(t, "identity"@, true));
        or_fault(f, opt_value_fault::<RemoteAuth>(t, "auth"@))
    }

    fn from_tree(j: &Json) -> (r: Result<SoulRemote, String>) {
        match j {
            Json::Object(_) => {},
            _ => return Err(owned("expected a map")),
        }
        let url = match get_text(j, "url", true) {
            Ok(x) => x,
            Err(e) => return Err(e),
        };
        let kind = match get_opt_value::<RemoteKind>(j, "kind") {
            Ok(x) => x,
            Err(e) => return Err(e),
        };
        let required = match get_bool_or(j, "required", false) {
            Ok(x) => x,
            Err(e) => return Err(e),
        };
        let node = match get_opt_text(j, "node", true) {
            Ok(x) => x,
            Err(e) => return Err(e),
        };
        let identity = match get_text_or(j, "identity", "soul", true) {
            Ok(x) => x,
            Err(e) => return Err(e),
        };
        let auth = match get_opt_value::<RemoteAuth>(j, "auth") {
            Ok(x) => x,
            Err(e) => return Err(e),
        };
        Ok(SoulRemote { url, kind, required, node, identity, auth })
    }
}

/// What a [`DryRun`] holds.
#[verifier::ext_equal]
pub struct DryRunV {
    pub enabled: bool,
    pub block: Seq<Seq<char>>,
}

impl FromTree for DryRun {
    type Model = DryRunV;

    open spec fn model(&self) -> DryRunV {
        DryRunV {
            enabled: self.enabled,
            block: self.block.deep_view(),
        }
    }

    open spec fn read(t: JsonV) -> Option<DryRunV> {
        match (
            bool_or_at(t, "enabled"@, false),
            texts_or_at(t, "block"@, Seq::empty(), true),
        ) {
            (
                Some(enabled),
                Some(block),
            ) => if t is Object || t is Null {
                Some(DryRunV { enabled, block })
            } else {
                None
            },
            _ => None,
        }
    }

    open spec fn fault(t: JsonV) -> Option<Seq<char>> {
        let f = fault_unless(t is Object || t is Null, "expected a map"@);
        let f = or_fault(f, bool_fault(t, "enabled"@));
        or_fault(f, texts_fault(t, "block"@, true))
    }

    fn from_tree(j: &Json) -> (r: Result<DryRun, String>) {
        match j {
            Json::Object(_) => {},
            Json::Null => {},
            _ => return Err(owned("expected a map")),
        }
        let enabled = match get_bool_or(j, "enabled", false) {
            Ok(x) => x,
            Err(e) => return Err(e),
        };
        let block = match get_texts(j, "block", true) {
            Ok(x) => x,
            Err(e) => return Err(e),
        };
        Ok(DryRun { enabled, block })
    }
}

impl Default for DryRun {
    fn default() -> (r: DryRun)
        ensures
            r.model() == (DryRunV { enabled: false, block: Seq::empty() }),
    {
        let r = DryRun { enabled: false, block: Vec::new() };
        assert(r.block.deep_view() =~= Seq::empty());
        r
    }
}

impl Default for IdentityDirs {
    fn default() -> (r: IdentityDirs)
        ensures
            r.model() == (IdentityDirsV { soul: None, operator: None, builder: None }),
    {
        IdentityDirs { soul: None, operator: None, builder: None }
    }
}

// ── The whole ───────────────────────────────────────────────────────────────────────────

/// The lattice of a field; the usual one where the field is absent.
pub open spec fn tiers_at(t: JsonV) -> Option<Seq<TierV>> {
    match field(t, "trust_tiers"@) {
        Some(_) => list_at::<TrustTierDef>(t, "trust_tiers"@),
        None => Some(default_lattice()),
    }
}

/// What is wrong with the lattice of a field.
pub open spec fn tiers_fault(t: JsonV) -> Option<Seq<char>> {
    list_fault::<TrustTierDef>(t, "trust_tiers"@)
}

fn get_tiers(j: &Json) -> (r: Result<Vec<TrustTierDef>, String>)
    ensures
        match tiers_at(j@) {
            Some(v) => r is Ok && models(r->Ok_0@) == v,
            None => r is Err,
        },
        match r {
            Ok(_) => tiers_fault(j@) is None,
            Err(e) => tiers_fault(j@) == Some(e@),
        },
{
    match j.get("trust_tiers") {
        Some(_) => get_list::<TrustTierDef>(j, "trust_tiers"),
        None => Ok(default_trust_tiers()),
    }
}

/// The cap of the queue: a large one where the field is absent, none where it holds nothing.
pub open spec fn depth_at(t: JsonV) -> Option<Option<u64>> {
    match field(t, "queue_max_depth"@) {
        Some(_) => opt_u64_at(t, "queue_max_depth"@),
        None => Some(Some(10_000)),
    }
}

/// What is wrong with the cap of the queue.
pub open spec fn depth_fault(t: JsonV) -> Option<Seq<char>> {
    opt_u64_fault(t, "queue_max_depth"@)
}

fn get_depth(j: &Json) -> (r: Result<Option<u64>, String>)
    ensures
        match depth_at(j@) {
            Some(v) => r == Ok::<Option<u64>, String>(v),
            None => r is Err,
        },
        match r {
            Ok(_) => depth_fault(j@) is None,
            Err(e) => depth_fault(j@) == Some(e@),
        },
{
    match j.get("queue_max_depth") {
        Some(_) => get_opt_u64(j, "queue_max_depth"),
        None => Ok(Some(10_000)),
    }
}

/// The tools that publish, where nothing is said.
pub open spec fn usual_post_tools() -> Seq<Seq<char>> {
    seq!["mcp__twitter__"@]
}

/// The tools that cannot be undone, where nothing is said.
pub open spec fn usual_settle_tools() -> Seq<Seq<char>> {
    seq!["mcp__bankr__"@, "mcp__dac__"@]
}

fn default_post_tools() -> (r: Vec<String>)
    ensures
        r.deep_view() == usual_post_tools(),
{
    let r = vec![owned("mcp__twitter__")];
    assert(r.deep_view() =~= usual_post_tools());
    r
}

fn default_settle_tools() -> (r: Vec<String>)
    ensures
        r.deep_view() == usual_settle_tools(),
{
    let r = vec![owned("mcp__bankr__"), owned("mcp__dac__")];
    assert(r.deep_view() =~= usual_settle_tools());
    r
}

/// A document holds a configuration: every field that is there can be read, and the operator is
/// named.
pub open spec fn readable(t: JsonV) -> bool {
    &&& t is Object
    &&& text_at(t, "operator_did"@, true) is Some
    &&& tiers_at(t) is Some
    &&& map_at::<TrustTier>(t, "signed_scripts"@) is Some
    &&& map_at::<TrustTier>(t, "webhooks"@) is Some
    &&& i64_or_at(t, "reflect_min_interval_secs"@, 86_400) is Some
    &&& text_or_at(t, "default_entry"@, "perceive"@, true) is Some
    &&& policies_at(t, "tier_policy"@) is Some
    &&& texts_or_at(t, "forwarded_env"@, Seq::empty(), true) is Some
    &&& map_at::<String>(t, "secrets"@) is Some
    &&& list_at::<SecretsProviderConfig>(t, "secrets_providers"@) is Some
    &&& opt_text_at(t, "reflect_schedule"@, true) is Some
    &&& text_or_at(t, "soul_repo"@, "."@, true) is Some
    &&& text_or_at(t, "db_path"@, "dack.sqlite"@, true) is Some
    &&& text_or_at(t, "webhook_addr"@, "127.0.0.1:8787"@, true) is Some
    &&& value_or_at::<RuntimeConfig>(t, "runtime"@, default_runtime()) is Some
    &&& value_or_at::<IdentityDirs>(t, "identities"@, (IdentityDirsV { soul: None, operator: None, builder: None })) is Some
    &&& opt_text_at(t, "soul_remote"@, true) is Some
    &&& list_at::<SoulRemote>(t, "soul_remotes"@) is Some
    &&& text_or_at(t, "gitlawb_node"@, "https://node.gitlawb.com"@, true) is Some
    &&& u64_or_at(t, "invoke_timeout_secs"@, 300) is Some
    &&& texts_or_at(t, "post_tools"@, usual_post_tools(), true) is Some
    &&& texts_or_at(t, "settle_tools"@, usual_settle_tools(), true) is Some
    &&& list_at::<McpServerConfig>(t, "mcp_servers"@) is Some
    &&& list_at::<ModuleConfig>(t, "modules"@) is Some
    &&& u64_or_at(t, "session_ttl_secs"@, 3600) is Some
    &&& depth_at(t) is Some
    &&& opt_u64_at(t, "baton_ttl_secs"@) is Some
    &&& value_or_at::<DryRun>(t, "dry_run"@, (DryRunV { enabled: false, block: Seq::empty() })) is Some
}

/// A configuration says what a document says.
pub open spec fn says(c: DackConfig, t: JsonV) -> bool {
    &&& text_at(t, "operator_did"@, true) == Some(c.operator_did@)
    &&& tiers_at(t) == Some(models(c.trust_tiers@))
    &&& map_at::<TrustTier>(t, "signed_scripts"@) == Some(entry_models(c.signed_scripts@))
    &&& map_at::<TrustTier>(t, "webhooks"@) == Some(entry_models(c.webhooks@))
    &&& i64_or_at(t, "reflect_min_interval_secs"@, 86_400) == Some(c.reflect_min_interval_secs)
    &&& text_or_at(t, "default_entry"@, "perceive"@, true) == Some(c.default_entry@)
    &&& policies_at(t, "tier_policy"@) == Some(policies_view(c.tier_policy@))
    &&& texts_or_at(t, "forwarded_env"@, Seq::empty(), true) == Some(c.forwarded_env.deep_view())
    &&& map_at::<String>(t, "secrets"@) == Some(entry_models(c.secrets@))
    &&& list_at::<SecretsProviderConfig>(t, "secrets_providers"@) == Some(models(c.secrets_providers@))
    &&& opt_text_at(t, "reflect_schedule"@, true) == Some(c.reflect_schedule.deep_view())
    &&& text_or_at(t, "soul_repo"@, "."@, true) == Some(c.soul_repo@)
    &&& text_or_at(t, "db_path"@, "dack.sqlite"@, true) == Some(c.db_path@)
    &&& text_or_at(t, "webhook_addr"@, "127.0.0.1:8787"@, true) == Some(c.webhook_addr@)
    &&& value_or_at::<RuntimeConfig>(t, "runtime"@, default_runtime()) == Some(c.runtime.model())
    &&& value_or_at::<IdentityDirs>(t, "identities"@, (IdentityDirsV { soul: None, operator: None, builder: None })) == Some(c.identities.model())
    &&& opt_text_at(t, "soul_remote"@, true) == Some(c.soul_remote.deep_view())
    &&& list_at::<SoulRemote>(t, "soul_remotes"@) == Some(models(c.soul_remotes@))
    &&& text_or_at(t, "gitlawb_node"@, "https://node.gitlawb.com"@, true) == Some(c.gitlawb_node@)
    &&& u64_or_at(t, "invoke_timeout_secs"@, 300) == Some(c.invoke_timeout_secs)
    &&& texts_or_at(t, "post_tools"@, usual_post_tools(), true) == Some(c.post_tools.deep_view())
    &&& texts_or_at(t, "settle_tools"@, usual_settle_tools(), true) == Some(c.settle_tools.deep_view())
    &&& list_at::<McpServerConfig>(t, "mcp_servers"@) == Some(models(c.mcp_servers@))
    &&& list_at::<ModuleConfig>(t, "modules"@) == Some(models(c.modules@))
    &&& u64_or_at(t, "session_ttl_secs"@, 3600) == Some(c.session_ttl_secs)
    &&& depth_at(t) == Some(c.queue_max_depth)
    &&& opt_u64_at(t, "baton_ttl_secs"@) == Some(c.baton_ttl_secs)
    &&& value_or_at::<DryRun>(t, "dry_run"@, (DryRunV { enabled: false, block: Seq::empty() })) == Some(c.dry_run.model())
}

/// What is wrong with a document that holds no configuration: the first field that does not fit.
pub open spec fn config_fault(t: JsonV) -> Option<Seq<char>> {
    let f = fault_unless(t is Object, "expected a map"@);
    let f = or_fault(f, text_fault(t, "operator_did"@, true));
    let f = or_fault(f, tiers_fault(t));
    let f = or_fault(f, map_fault::<TrustTier>(t, "signed_scripts"@));
    let f = or_fault(f, map_fault::<TrustTier>(t, "webhooks"@));
    let f = or_fault(f, i64_fault(t, "reflect_min_interval_secs"@));
    let f = or_fault(f, text_or_fault(t, "default_entry"@, true));
    let f = or_fault(f, policies_fault(t, "tier_policy"@));
    let f = or_fault(f, texts_fault(t, "forwarded_env"@, true));
    let f = or_fault(f, map_fault::<String>(t, "secrets"@));
    let f = or_fault(f, list_fault::<SecretsProviderConfig>(t, "secrets_providers"@));
    let f = or_fault(f, opt_text_fault(t, "reflect_schedule"@, true));
    let f = or_fault(f, text_or_fault(t, "soul_repo"@, true));
    let f = or_fault(f, text_or_fault(t, "db_path"@, true));
    let f = or_fault(f, text_or_fault(t, "webhook_addr"@, true));
    let f = or_fault(f, value_or_fault::<RuntimeConfig>(t, "runtime"@));
    let f = or_fault(f, value_or_fault::<IdentityDirs>(t, "identities"@));
    let f = or_fault(f, opt_text_fault(t, "soul_remote"@, true));
    let f = or_fault(f, list_fault::<SoulRemote>(t, "soul_remotes"@));
    let f = or_fault(f, text_or_fault(t, "gitlawb_node"@, true));
    let f = or_fault(f, u64_fault(t, "invoke_timeout_secs"@));
    let f = or_fault(f, texts_fault(t, "post_tools"@, true));
    let f = or_fault(f, texts_fault(t, "settle_tools"@, true));
    let f = or_fault(f, list_fault::<McpServerConfig>(t, "mcp_servers"@));
    let f = or_fault(f, list_fault::<ModuleConfig>(t, "modules"@));
    let f = or_fault(f, u64_fault(t, "session_ttl_secs"@));
    let f = or_fault(f, depth_fault(t));
    let f = or_fault(f, opt_u64_fault(t, "baton_ttl_secs"@));
    or_fault(f, value_or_fault::<DryRun>(t, "dry_run"@))
}

fn config_from_tree(j: &Json) -> (r: Result<DackConfig, String>)
    ensures
        readable(j@) ==> r is Ok && says(r->Ok_0, j@),
        !readable(j@) ==> r is Err && config_fault(j@) == Some(r->Err_0@),
{
    match j {
        Json::Object(_) => {},
        _ => return Err(owned("expected a map")),
    }
    let operator_did = match get_text(j, "operator_did", true) {
        Ok(x) => x,
        Err(e) => return Err(e),
    };
    let trust_tiers = match get_tiers(j) {
        Ok(x) => x,
        Err(e) => return Err(e),
    };
    let signed_scripts = match get_map::<TrustTier>(j, "signed_scripts") {
        Ok(x) => x,
        Err(e) => return Err(e),
    };
    let webhooks = match get_map::<TrustTier>(j, "webhooks") {
        Ok(x) => x,
        Err(e) => return Err(e),
    };
    let reflect_min_interval_secs: i64 = match get_i64_or(j, "reflect_min_interval_secs", 86_400) {
        Ok(x) => x,
        Err(e) => return Err(e),
    };
    let default_entry = match get_text_or(j, "default_entry", "perceive", true) {
        Ok(x) => x,
        Err(e) => return Err(e),
    };
    let tier_policy = match get_policies(j, "tier_policy") {
        Ok(x) => x,
        Err(e) => return Err(e),
    };
    let forwarded_env = match get_texts(j, "forwarded_env", true) {
        Ok(x) => x,
        Err(e) => return Err(e),
    };
    let secrets = match get_map::<String>(j, "secrets") {
        Ok(x) => x,
        Err(e) => return Err(e),
    };
    let secrets_providers = match get_list::<SecretsProviderConfig>(j, "secrets_providers") {
        Ok(x) => x,
        Err(e) => return Err(e),
    };
    let reflect_schedule = match get_opt_text(j, "reflect_schedule", true) {
        Ok(x) => x,
        Err(e) => return Err(e),
    };
    let soul_repo = match get_text_or(j, "soul_repo", ".", true) {
        Ok(x) => x,
        Err(e) => return Err(e),
    };
    let db_path = match get_text_or(j, "db_path", "dack.sqlite", true) {
        Ok(x) => x,
        Err(e) => return Err(e),
    };
    let webhook_addr = match get_text_or(j, "webhook_addr", "127.0.0.1:8787", true) {
        Ok(x) => x,
        Err(e) => return Err(e),
    };
    let runtime = match get_value_or::<RuntimeConfig>(j, "runtime", RuntimeConfig::default()) {
        Ok(x) => x,
        Err(e) => return Err(e),
    };
    let identities = match get_value_or::<IdentityDirs>(j, "identities", IdentityDirs::default()) {
        Ok(x) => x,
        Err(e) => return Err(e),
    };
    let soul_remote = match get_opt_text(j, "soul_remote", true) {
        Ok(x) => x,
        Err(e) => return Err(e),
    };
    let soul_remotes = match get_list::<SoulRemote>(j, "soul_remotes") {
        Ok(x) => x,
        Err(e) => return Err(e),
    };
    let gitlawb_node = match get_text_or(j, "gitlawb_node", "https://node.gitlawb.com", true) {
        Ok(x) => x,
        Err(e) => return Err(e),
    };
    let invoke_timeout_secs: u64 = match get_u64_or(j, "invoke_timeout_secs", 300) {
        Ok(x) => x,
        Err(e) => return Err(e),
    };
    let post_tools = match get_texts_or(j, "post_tools", default_post_tools(), true) {
        Ok(x) => x,
        Err(e) => return Err(e),
    };
    let settle_tools = match get_texts_or(j, "settle_tools", default_settle_tools(), true) {
        Ok(x) => x,
        Err(e) => return Err(e),
    };
    let mcp_servers = match get_list::<McpServerConfig>(j, "mcp_servers") {
        Ok(x) => x,
        Err(e) => return Err(e),
    };
    let modules = match get_list::<ModuleConfig>(j, "modules") {
        Ok(x) => x,
        Err(e) => return Err(e),
    };
    let session_ttl_secs: u64 = match get_u64_or(j, "session_ttl_secs", 3600) {
        Ok(x) => x,
        Err(e) => return Err(e),
    };
    let queue_max_depth: Option<u64> = match get_depth(j) {
        Ok(x) => x,
        Err(e) => return Err(e),
    };
    let baton_ttl_secs: Option<u64> = match get_opt_u64(j, "baton_ttl_secs") {
        Ok(x) => x,
        Err(e) => return Err(e),
    };
    let dry_run = match get_value_or::<DryRun>(j, "dry_run", DryRun::default()) {
        Ok(x) => x,
        Err(e) => return Err(e),
    };
    Ok(
        DackConfig {
            operator_did,
            trust_tiers,
            signed_scripts,
            webhooks,
            reflect_min_interval_secs,
            default_entry,
            tier_policy,
            forwarded_env,
            secrets,
            secrets_providers,
            reflect_schedule,
            soul_repo,
            db_path,
            webhook_addr,
            runtime,
            identities,
            soul_remote,
            soul_remotes,
            gitlawb_node,
            invoke_timeout_secs,
            post_tools,
            settle_tools,
            mcp_servers,
            modules,
            session_ttl_secs,
            queue_max_depth,
            baton_ttl_secs,
            dry_run,
        },
    )
}

impl DackConfig {
    /// Reads a configuration. A text that is not YAML, or does not hold a configuration, is
    /// refused as a whole.
    pub fn from_yaml(text: &str) -> (r: Result<DackConfig, DackError>)
        ensures
            match yaml_read(text@) {
                Ok(v) => if readable(value_tree(v)) {
                    r is Ok && says(r->Ok_0, value_tree(v))
                } else {
                    r is Err && r->Err_0 is Yaml && config_fault(value_tree(v)) == Some(
                        (r->Err_0->Yaml_0)@,
                    )
                },
                Err(e) => r is Err && r->Err_0 is Yaml && (r->Err_0->Yaml_0)@ == yaml_error_text(
                    e,
                ),
            },
    {
        match Json::parse_yaml(text) {
            Ok(j) => match config_from_tree(&j) {
                Ok(c) => Ok(c),
                Err(e) => Err(DackError::Yaml(e)),
            },
            Err(e) => Err(DackError::Yaml(e)),
        }
    }
}

// ── Laws ────────────────────────────────────────────────────────────────────────────────

proof fn no_policy_is_locked(p: Seq<(ConsciousnessState, TierPolicy)>, s: ConsciousnessState)
    requires
        p.len() == 0,
    ensures
        policy_of(p, s) == locked_policy(),
{
}

/// A configuration without policies grants nothing in any state.
pub proof fn an_unconfigured_state_is_locked(c: DackConfig, t: JsonV, s: ConsciousnessState)
    requires
        says(c, t),
        field(t, "tier_policy"@) is None,
    ensures
        policy_of(c.tier_policy@, s) == locked_policy(),
{
    assert(policies_view(c.tier_policy@).len() == 0);
    no_policy_is_locked(c.tier_policy@, s);
}

/// In a configuration without a lattice, a cycle that met public data never walks past Express.
pub proof fn an_unconfigured_lattice_is_cautious(c: DackConfig, t: JsonV, other: Seq<char>)
    requires
        says(c, t),
        field(t, "trust_tiers"@) is None,
    ensures
        tier_reaches(
            c.trust_tiers.deep_view(),
            tier_meet(c.trust_tiers.deep_view(), "public"@, other),
        ) == ConsciousnessState::Express,
{
    assert(c.trust_tiers.deep_view() =~= models(c.trust_tiers@));
    public_data_never_settles(other);
}

/// What a configuration says of its texts, numbers and spans is taken over, and what it does not
/// say has its default.
pub proof fn a_configuration_has_its_defaults(c: DackConfig, t: JsonV)
    requires
        says(c, t),
    ensures
        field(t, "operator_did"@) matches Some(JsonV::Str(s)) ==> c.operator_did@ == s,
        field(t, "operator_did"@) is Some,
        field(t, "default_entry"@) is None ==> c.default_entry@ == "perceive"@,
        field(t, "default_entry"@) matches Some(JsonV::Str(s)) ==> c.default_entry@ == s,
        field(t, "soul_repo"@) is None ==> c.soul_repo@ == "."@,
        field(t, "soul_repo"@) matches Some(JsonV::Str(s)) ==> c.soul_repo@ == s,
        field(t, "db_path"@) is None ==> c.db_path@ == "dack.sqlite"@,
        field(t, "db_path"@) matches Some(JsonV::Str(s)) ==> c.db_path@ == s,
        field(t, "webhook_addr"@) is None ==> c.webhook_addr@ == "127.0.0.1:8787"@,
        field(t, "webhook_addr"@) matches Some(JsonV::Str(s)) ==> c.webhook_addr@ == s,
        field(t, "gitlawb_node"@) is None ==> c.gitlawb_node@ == "https://node.gitlawb.com"@,
        field(t, "gitlawb_node"@) matches Some(JsonV::Str(s)) ==> c.gitlawb_node@ == s,
        field(t, "invoke_timeout_secs"@) is None ==> c.invoke_timeout_secs == 300,
        field(t, "invoke_timeout_secs"@) matches Some(JsonV::Number(n)) ==> number_u64(n) == Some(c.invoke_timeout_secs),
        field(t, "session_ttl_secs"@) is None ==> c.session_ttl_secs == 3600,
        field(t, "session_ttl_secs"@) matches Some(JsonV::Number(n)) ==> number_u64(n) == Some(c.session_ttl_secs),
        field(t, "reflect_min_interval_secs"@) is None ==> c.reflect_min_interval_secs == 86_400,
        field(t, "reflect_min_interval_secs"@) matches Some(JsonV::Number(n)) ==> number_i64(n) == Some(
            c.reflect_min_interval_secs,
        ),
        field(t, "queue_max_depth"@) is None ==> c.queue_max_depth == Some(10_000u64),
        field(t, "queue_max_depth"@) == Some(JsonV::Null) ==> c.queue_max_depth is None,
        field(t, "queue_max_depth"@) matches Some(JsonV::Number(n)) ==> number_u64(n)
            == c.queue_max_depth,
        field(t, "baton_ttl_secs"@) is None ==> c.baton_ttl_secs is None,
        field(t, "baton_ttl_secs"@) matches Some(JsonV::Number(n)) ==> number_u64(n)
            == c.baton_ttl_secs,
        field(t, "reflect_schedule"@) is None ==> c.reflect_schedule is None,
        field(t, "reflect_schedule"@) matches Some(JsonV::Str(s)) ==> c.reflect_schedule.deep_view() == Some(s),
        field(t, "soul_remote"@) is None ==> c.soul_remote is None,
        field(t, "soul_remote"@) matches Some(JsonV::Str(s)) ==> c.soul_remote.deep_view() == Some(s),
{
}

/// What a configuration lists is taken over in its order, and what it does not list is empty: only
/// tools that post and tools that settle are known beforehand.
pub proof fn a_configuration_lists_what_it_has(c: DackConfig, t: JsonV)
    requires
        says(c, t),
    ensures
        field(t, "forwarded_env"@) is None ==> c.forwarded_env.deep_view().len() == 0,
        field(t, "post_tools"@) is None ==> c.post_tools.deep_view() == seq!["mcp__twitter__"@],
        field(t, "settle_tools"@) is None ==> c.settle_tools.deep_view() == seq![
            "mcp__bankr__"@,
            "mcp__dac__"@,
        ],
        field(t, "forwarded_env"@) matches Some(x) ==> texts_of(x, true) == Some(
            c.forwarded_env.deep_view(),
        ),
        field(t, "post_tools"@) matches Some(x) ==> texts_of(x, true) == Some(
            c.post_tools.deep_view(),
        ),
        field(t, "settle_tools"@) matches Some(x) ==> texts_of(x, true) == Some(
            c.settle_tools.deep_view(),
        ),
        field(t, "trust_tiers"@) is None ==> models(c.trust_tiers@) == default_lattice(),
        field(t, "trust_tiers"@) matches Some(JsonV::Array(items)) ==> values_of::<TrustTierDef>(
            items,
        ) == Some(models(c.trust_tiers@)),
        field(t, "mcp_servers"@) is None ==> c.mcp_servers@.len() == 0,
        field(t, "mcp_servers"@) matches Some(JsonV::Array(items)) ==> values_of::<McpServerConfig>(
            items,
        ) == Some(models(c.mcp_servers@)),
        field(t, "modules"@) is None ==> c.modules@.len() == 0,
        field(t, "modules"@) matches Some(JsonV::Array(items)) ==> values_of::<ModuleConfig>(items)
            == Some(models(c.modules@)),
        field(t, "soul_remotes"@) is None ==> c.soul_remotes@.len() == 0,
        field(t, "soul_remotes"@) matches Some(JsonV::Array(items)) ==> values_of::<SoulRemote>(items)
            == Some(models(c.soul_remotes@)),
        field(t, "secrets_providers"@) is None ==> c.secrets_providers@.len() == 0,
        field(t, "secrets_providers"@) matches Some(JsonV::Array(items)) ==> values_of::<
            SecretsProviderConfig,
        >(items) == Some(models(c.secrets_providers@)),
        field(t, "signed_scripts"@) matches Some(JsonV::Object(f)) ==> entries_of::<TrustTier>(f)
            == Some(entry_models(c.signed_scripts@)),
        field(t, "webhooks"@) matches Some(JsonV::Object(f)) ==> entries_of::<TrustTier>(f) == Some(
            entry_models(c.webhooks@),
        ),
        field(t, "secrets"@) matches Some(JsonV::Object(f)) ==> entries_of::<String>(f) == Some(
            entry_models(c.secrets@),
        ),
        field(t, "tier_policy"@) is None ==> c.tier_policy@.len() == 0,
        field(t, "tier_policy"@) matches Some(JsonV::Object(f)) ==> policies_of(f) == Some(
            policies_view(c.tier_policy@),
        ),
        field(t, "runtime"@) is None ==> c.runtime.model() == default_runtime(),
        field(t, "runtime"@) matches Some(x) ==> RuntimeConfig::read(x) == Some(c.runtime.model()),
        field(t, "dry_run"@) is None ==> !c.dry_run.model().enabled && c.dry_run.model().block.len()
            == 0,
        field(t, "dry_run"@) matches Some(x) ==> DryRun::read(x) == Some(c.dry_run.model()),
        field(t, "identities"@) matches Some(x) ==> IdentityDirs::read(x) == Some(
            c.identities.model(),
        ),
        field(t, "identities"@) is None ==> c.identities.model().soul is None
            && c.identities.model().operator is None && c.identities.model().builder is None,
{
    assert(models(c.mcp_servers@).len() == c.mcp_servers@.len());
    assert(models(c.modules@).len() == c.modules@.len());
    assert(models(c.soul_remotes@).len() == c.soul_remotes@.len());
    assert(models(c.secrets_providers@).len() == c.secrets_providers@.len());
    assert(policies_view(c.tier_policy@).len() == c.tier_policy@.len());
}

/// A configuration need say nothing but who its operator is.
pub proof fn a_configuration_needs_its_operator_alone(t: JsonV, did: Seq<char>)
    requires
        t is Object,
        forall|k: Seq<char>| k != "operator_did"@ ==> #[trigger] field(t, k) is None,
    ensures
        field(t, "operator_did"@) == Some(JsonV::Str(did)) ==> readable(t),
        field(t, "operator_did"@) is None ==> !readable(t),
{
    reveal_strlit("operator_did");
    assert("operator_did"@.len() == 12);
    reveal_strlit("trust_tiers");
    assert("trust_tiers"@ != "operator_did"@) by {
        assert("trust_tiers"@.len() == 11);
    }
    reveal_strlit("signed_scripts");
    assert("signed_scripts"@ != "operator_did"@) by {
        assert("signed_scripts"@.len() == 14);
    }
    reveal_strlit("webhooks");
    assert("webhooks"@ != "operator_did"@) by {
        assert("webhooks"@.len() == 8);
    }
    reveal_strlit("reflect_min_interval_secs");
    assert("reflect_min_interval_secs"@ != "operator_did"@) by {
        assert("reflect_min_interval_secs"@.len() == 25);
    }
    reveal_strlit("default_entry");
    assert("default_entry"@ != "operator_did"@) by {
        assert("default_entry"@.len() == 13);
    }
    reveal_strlit("tier_policy");
    assert("tier_policy"@ != "operator_did"@) by {
        assert("tier_policy"@.len() == 11);
    }
    reveal_strlit("forwarded_env");
    assert("forwarded_env"@ != "operator_did"@) by {
        assert("forwarded_env"@.len() == 13);
    }
    reveal_strlit("secrets");
    assert("secrets"@ != "operator_did"@) by {
        assert("secrets"@.len() == 7);
    }
    reveal_strlit("secrets_providers");
    assert("secrets_providers"@ != "operator_did"@) by {
        assert("secrets_providers"@.len() == 17);
    }
    reveal_strlit("reflect_schedule");
    assert("reflect_schedule"@ != "operator_did"@) by {
        assert("reflect_schedule"@.len() == 16);
    }
    reveal_strlit("soul_repo");
    assert("soul_repo"@ != "operator_did"@) by {
        assert("soul_repo"@.len() == 9);
    }
    reveal_strlit("db_path");
    assert("db_path"@ != "operator_did"@) by {
        assert("db_path"@.len() == 7);
    }
    reveal_strlit("webhook_addr");
    assert("webhook_addr"@ != "operator_did"@) by {
        assert("webhook_addr"@.len() == 12);
        assert("webhook_addr"@[0] == 'w');
        assert("operator_did"@[0] == 'o');
    }
    reveal_strlit("runtime");
    assert("runtime"@ != "operator_did"@) by {
        assert("runtime"@.len() == 7);
    }
    reveal_strlit("identities");
    assert("identities"@ != "operator_did"@) by {
        assert("identities"@.len() == 10);
    }
    reveal_strlit("soul_remote");
    assert("soul_remote"@ != "operator_did"@) by {
        assert("soul_remote"@.len() == 11);
    }
    reveal_strlit("soul_remotes");
    assert("soul_remotes"@ != "operator_did"@) by {
        assert("soul_remotes"@.len() == 12);
        assert("soul_remotes"@[0] == 's');
        assert("operator_did"@[0] == 'o');
    }
    reveal_strlit("gitlawb_node");
    assert("gitlawb_node"@ != "operator_did"@) by {
        assert("gitlawb_node"@.len() == 12);
        assert("gitlawb_node"@[0] == 'g');
        assert("operator_did"@[0] == 'o');
    }
    reveal_strlit("invoke_timeout_secs");
    assert("invoke_timeout_secs"@ != "operator_did"@) by {
        assert("invoke_timeout_secs"@.len() == 19);
    }
    reveal_strlit("post_tools");
    assert("post_tools"@ != "operator_did"@) by {
        assert("post_tools"@.len() == 10);
    }
    reveal_strlit("settle_tools");
    assert("settle_tools"@ != "operator_did"@) by {
        assert("settle_tools"@.len() == 12);
        assert("settle_tools"@[0] == 's');
        assert("operator_did"@[0] == 'o');
    }
    reveal_strlit("mcp_servers");
    assert("mcp_servers"@ != "operator_did"@) by {
        assert("mcp_servers"@.len() == 11);
    }
    reveal_strlit("modules");
    assert("modules"@ != "operator_did"@) by {
        assert("modules"@.len() == 7);
    }
    reveal_strlit("session_ttl_secs");
    assert("session_ttl_secs"@ != "operator_did"@) by {
        assert("session_ttl_secs"@.len() == 16);
    }
    reveal_strlit("queue_max_depth");
    assert("queue_max_depth"@ != "operator_did"@) by {
        assert("queue_max_depth"@.len() == 15);
    }
    reveal_strlit("baton_ttl_secs");
    assert("baton_ttl_secs"@ != "operator_did"@) by {
        assert("baton_ttl_secs"@.len() == 14);
    }
    reveal_strlit("dry_run");
    assert("dry_run"@ != "operator_did"@) by {
        assert("dry_run"@.len() == 7);
    }
}

/// A tier reaches expression unless it says more.
pub proof fn a_tier_is_read_from_its_fields(t: JsonV)
    ensures
        TrustTierDef::read(t) matches Some((name, reaches)) ==> {
            &&& text_at(t, "name"@, true) == Some(name)
            &&& field(t, "reaches"@) is None ==> reaches == ConsciousnessState::Express
            &&& field(t, "reaches"@) matches Some(x) ==> ConsciousnessState::read(x) == Some(reaches)
        },
        TrustTierDef::read(t) is Some <==> t is Object && text_at(t, "name"@, true) is Some && (
        field(t, "reaches"@) is Some ==> ConsciousnessState::read(field(t, "reaches"@)->0) is Some),
{
}

/// A policy is closed unless it says that it is open: only listed servers, none listed, and no
/// model of the prompt's own.
pub proof fn a_policy_is_closed_unless_it_says_so(t: JsonV)
    ensures
        TierPolicy::read(t) matches Some(p) ==> {
            &&& p.mcp_whitelist <==> field(t, "mcp_whitelist"@) is None || field(t, "mcp_whitelist"@)
                == Some(JsonV::Bool(true))
            &&& p.allow_model_override <==> field(t, "allow_model_override"@) == Some(
                JsonV::Bool(true),
            )
            &&& field(t, "import"@) is None ==> p.import.len() == 0
            &&& field(t, "import"@) matches Some(x) ==> texts_of(x, true) == Some(p.import)
            &&& field(t, "deny"@) is None ==> p.deny.len() == 0
            &&& field(t, "deny"@) matches Some(x) ==> texts_of(x, true) == Some(p.deny)
            &&& opt_text_at(t, "model"@, true) == Some(p.model)
        },
        TierPolicy::read(JsonV::Null) is Some,
{
    only_objects_have_fields(JsonV::Null, "mcp_whitelist"@, Seq::empty());
    only_objects_have_fields(JsonV::Null, "import"@, Seq::empty());
    only_objects_have_fields(JsonV::Null, "deny"@, Seq::empty());
    only_objects_have_fields(JsonV::Null, "model"@, Seq::empty());
    only_objects_have_fields(JsonV::Null, "allow_model_override"@, Seq::empty());
}

/// The policies of the states are read one by one, each under the name of its state.
pub proof fn policies_are_read_one_by_one(f: Seq<(Seq<char>, JsonV)>)
    ensures
        policies_of(f) is Some <==> forall|i: int|
            0 <= i < f.len() ==> state_of_tag((#[trigger] f[i]).0) is Some && TierPolicy::read(f[i].1)
                is Some,
        policies_of(f) matches Some(v) ==> {
            &&& v.len() == f.len()
            &&& forall|i: int|
                0 <= i < v.len() ==> state_of_tag(f[i].0) == Some((#[trigger] v[i]).0)
                    && TierPolicy::read(f[i].1) == Some(v[i].1)
        },
    decreases f.len(),
{
    if f.len() > 0 {
        let rest = f.drop_last();
        policies_are_read_one_by_one(rest);
        assert(forall|i: int|
            #![trigger rest[i]]
            #![trigger f[i]]
            0 <= i < rest.len() ==> rest[i] == f[i]);
        assert(f.last() == f[f.len() - 1]);
    }
}

/// A tool server has a name, a way to reach it and a tier. It is the soul's own unless it says
/// less, has every tool unless it lists them, and asks for no trust unless it says so.
pub proof fn a_server_is_read_from_its_fields(t: JsonV)
    ensures
        McpServerConfig::read(t) matches Some(s) ==> {
            &&& text_at(t, "name"@, true) == Some(s.name)
            &&& field(t, "transport"@) is Some && McpTransport::read(field(t, "transport"@)->0)
                == Some(s.transport)
            &&& opt_value_at::<McpAuth>(t, "auth"@) == Some(s.auth)
            &&& field(t, "tier"@) is Some && CapabilityTier::read(field(t, "tier"@)->0) == Some(
                s.tier,
            )
            &&& field(t, "tools"@) is None ==> s.tools.len() == 0
            &&& field(t, "tools"@) matches Some(x) ==> texts_of(x, true) == Some(s.tools)
            &&& field(t, "trust"@) is None ==> s.trust == "self"@
            &&& field(t, "trust"@) is Some ==> text_at(t, "trust"@, true) == Some(s.trust)
            &&& opt_text_at(t, "min_trust"@, true) == Some(s.min_trust)
            &&& map_at::<String>(t, "scope_env"@) == Some(s.scope_env)
            &&& map_at::<String>(t, "env"@) == Some(s.env)
        },
        McpServerConfig::read(t) is Some <==> {
            &&& t is Object
            &&& text_at(t, "name"@, true) is Some
            &&& value_at::<McpTransport>(t, "transport"@) is Some
            &&& opt_value_at::<McpAuth>(t, "auth"@) is Some
            &&& value_at::<CapabilityTier>(t, "tier"@) is Some
            &&& texts_or_at(t, "tools"@, Seq::empty(), true) is Some
            &&& text_or_at(t, "trust"@, "self"@, true) is Some
            &&& opt_text_at(t, "min_trust"@, true) is Some
            &&& map_at::<String>(t, "scope_env"@) is Some
            &&& map_at::<String>(t, "env"@) is Some
        },
{
}

/// What a tool may do is read, post or settle; a server is reached over the web or started here.
pub proof fn a_tier_and_a_transport_are_read_by_name(t: JsonV, s: Seq<char>)
    ensures
        CapabilityTier::read(t) == Some(CapabilityTier::Read) <==> t == JsonV::Str("read"@),
        CapabilityTier::read(t) == Some(CapabilityTier::Post) <==> t == JsonV::Str("post"@),
        CapabilityTier::read(t) == Some(CapabilityTier::Settle) <==> t == JsonV::Str("settle"@),
        McpTransport::read(t) == Some(TransportV::Http { url: s }) <==> field(t, "type"@) == Some(
            JsonV::Str("http"@),
        ) && field(t, "url"@) == Some(JsonV::Str(s)),
        McpTransport::read(t) matches Some(TransportV::Stdio { command, args }) ==> {
            &&& field(t, "type"@) == Some(JsonV::Str("stdio"@))
            &&& field(t, "command"@) == Some(JsonV::Str(command))
            &&& field(t, "args"@) is None ==> args.len() == 0
            &&& field(t, "args"@) matches Some(x) ==> texts_of(x, false) == Some(args)
        },
        field(t, "type"@) == Some(JsonV::Str("stdio"@)) && field(t, "command"@) == Some(JsonV::Str(s))
            && field(t, "args"@) is None ==> McpTransport::read(t) is Some,
        McpAuth::read(t) matches Some(a) ==> {
            &&& text_at(t, "secret"@, true) == Some(a.secret)
            &&& opt_text_at(t, "key"@, true) == Some(a.key)
            &&& opt_text_at(t, "header"@, true) == Some(a.header)
            &&& opt_text_at(t, "scheme"@, true) == Some(a.scheme)
            &&& opt_text_at(t, "env"@, true) == Some(a.env)
        },
        RemoteKind::read(t) == Some(RemoteKind::Git) <==> t == JsonV::Str("git"@),
        RemoteKind::read(t) == Some(RemoteKind::Gitlawb) <==> t == JsonV::Str("gitlawb"@),
{
    reveal_strlit("read");
    reveal_strlit("post");
    reveal_strlit("settle");
    reveal_strlit("http");
    reveal_strlit("stdio");
    reveal_strlit("git");
    reveal_strlit("gitlawb");
    assert("read"@.len() == 4 && "post"@.len() == 4 && "settle"@.len() == 6);
    assert("read"@[0] == 'r' && "post"@[0] == 'p');
    assert("http"@.len() == 4 && "stdio"@.len() == 5);
    assert("git"@.len() == 3 && "gitlawb"@.len() == 7);
}

/// A provider of secrets has a name and a command, hands out no key that it does not list, and is
/// the soul's own unless it says less. A module has a name and a command and runs unless it is
/// switched off.
pub proof fn providers_and_modules_are_read_from_their_fields(t: JsonV)
    ensures
        SecretsProviderConfig::read(t) matches Some(p) ==> {
            &&& text_at(t, "name"@, true) == Some(p.name)
            &&& field(t, "command"@) is Some && texts_of(field(t, "command"@)->0, true) == Some(
                p.command,
            )
            &&& map_at::<String>(t, "env"@) == Some(p.env)
            &&& field(t, "keys"@) is None ==> p.keys.len() == 0
            &&& field(t, "keys"@) matches Some(x) ==> texts_of(x, true) == Some(p.keys)
            &&& field(t, "trust"@) is None ==> p.trust == "self"@
            &&& field(t, "trust"@) is Some ==> text_at(t, "trust"@, true) == Some(p.trust)
        },
        ModuleConfig::read(t) matches Some(m) ==> {
            &&& text_at(t, "name"@, true) == Some(m.name)
            &&& field(t, "command"@) is Some && texts_of(field(t, "command"@)->0, true) == Some(
                m.command,
            )
            &&& field(t, "secrets"@) is None ==> m.secrets.len() == 0
            &&& field(t, "secrets"@) matches Some(x) ==> texts_of(x, true) == Some(m.secrets)
            &&& map_at::<String>(t, "env"@) == Some(m.env)
            &&& opt_text_at(t, "cwd"@, true) == Some(m.cwd)
            &&& m.enabled <==> field(t, "enabled"@) is None || field(t, "enabled"@) == Some(
                JsonV::Bool(true),
            )
        },
{
}

/// A remote has an address. Pushing to it may fail unless it is required, and the soul's own key
/// signs for it unless another is named.
pub proof fn a_remote_is_read_from_its_fields(t: JsonV)
    ensures
        SoulRemote::read(t) matches Some(r) ==> {
            &&& text_at(t, "url"@, true) == Some(r.url)
            &&& opt_value_at::<RemoteKind>(t, "kind"@) == Some(r.kind)
            &&& r.required <==> field(t, "required"@) == Some(JsonV::Bool(true))
            &&& opt_text_at(t, "node"@, true) == Some(r.node)
            &&& field(t, "identity"@) is None ==> r.identity == "soul"@
            &&& field(t, "identity"@) is Some ==> text_at(t, "identity"@, true) == Some(r.identity)
            &&& opt_value_at::<RemoteAuth>(t, "auth"@) == Some(r.auth)
        },
        RemoteAuth::read(t) matches Some(a) ==> {
            &&& text_at(t, "token_env"@, true) == Some(a.token_env)
            &&& field(t, "username"@) is None ==> a.username == "x-access-token"@
            &&& field(t, "username"@) is Some ==> text_at(t, "username"@, true) == Some(a.username)
        },
        DryRun::read(t) matches Some(d) ==> {
            &&& d.enabled <==> field(t, "enabled"@) == Some(JsonV::Bool(true))
            &&& field(t, "block"@) is None ==> d.block.len() == 0
            &&& field(t, "block"@) matches Some(x) ==> texts_of(x, true) == Some(d.block)
        },
        IdentityDirs::read(t) matches Some(d) ==> {
            &&& opt_text_at(t, "soul"@, true) == Some(d.soul)
            &&& opt_text_at(t, "operator"@, true) == Some(d.operator)
            &&& opt_text_at(t, "builder"@, true) == Some(d.builder)
        },
{
}

/// A runtime that says nothing runs over the bridge through the gateway, sees the variables of the
/// gateway, and keeps its workers on the host; workers in containers get two gigabytes and 256
/// processes, and must have their container.
pub proof fn a_runtime_has_its_defaults(t: JsonV)
    ensures
        RuntimeConfig::read(t) matches Some(r) ==> {
            &&& field(t, "engine"@) is None ==> r.engine == "openclaude-bridge"@
            &&& field(t, "engine"@) matches Some(x) ==> RuntimeEngine::read(x) == Some(r.engine)
            &&& field(t, "connector"@) is None ==> r.connector == (ConnectorV::Opengateway {
                api_url: None,
                api_key: None,
            })
            &&& field(t, "connector"@) matches Some(x) ==> Connector::read(x) == Some(r.connector)
            &&& opt_text_at(t, "model"@, true) == Some(r.model)
            &&& field(t, "env"@) is None ==> r.env == seq![
                "OPENAI_API_KEY"@,
                "OPENAI_BASE_URL"@,
                "OPENAI_MODEL"@,
            ]
            &&& field(t, "env"@) matches Some(x) ==> texts_of(x, true) == Some(r.env)
            &&& field(t, "worker_sandbox"@) is None ==> !r.worker_sandbox.enabled
                && r.worker_sandbox.require && r.worker_sandbox.memory == "2g"@
                && r.worker_sandbox.pids_limit == 256
            &&& field(t, "worker_sandbox"@) matches Some(x) ==> WorkerSandboxConfig::read(x) == Some(
                r.worker_sandbox,
            )
        },
        WorkerSandboxConfig::read(t) matches Some(w) ==> {
            &&& w.enabled <==> field(t, "enabled"@) == Some(JsonV::Bool(true))
            &&& w.require <==> field(t, "require"@) is None || field(t, "require"@) == Some(
                JsonV::Bool(true),
            )
            &&& field(t, "image"@) is None ==> w.image == ""@
            &&& field(t, "image"@) is Some ==> text_at(t, "image"@, true) == Some(w.image)
            &&& field(t, "memory"@) is None ==> w.memory == "2g"@
            &&& field(t, "memory"@) is Some ==> text_at(t, "memory"@, true) == Some(w.memory)
            &&& field(t, "pids_limit"@) is None ==> w.pids_limit == 256
            &&& field(t, "pids_limit"@) matches Some(JsonV::Number(n)) ==> number_u64(n) == Some(
                w.pids_limit as u64,
            )
        },
        default_runtime().engine == "openclaude-bridge"@,
        default_runtime().connector == (ConnectorV::Opengateway { api_url: None, api_key: None }),
        default_runtime().model is None,
        !default_runtime().worker_sandbox.enabled,
        default_runtime().worker_sandbox.require,
{
}

/// The engine is the one bridge; the connector is the gateway with its address and key, or the
/// provider's own with its key.
pub proof fn a_connector_is_read_by_its_kind(t: JsonV)
    ensures
        RuntimeEngine::read(t) matches Some(dir) ==> {
            &&& field(t, "type"@) == Some(JsonV::Str("openclaude"@))
            &&& field(t, "bridge_dir"@) is None ==> dir == "openclaude-bridge"@
            &&& field(t, "bridge_dir"@) is Some ==> field(t, "bridge_dir"@) == Some(JsonV::Str(dir))
        },
        Connector::read(t) matches Some(ConnectorV::Opengateway { api_url, api_key }) ==> {
            &&& field(t, "type"@) == Some(JsonV::Str("opengateway"@))
            &&& opt_text_at(t, "api_url"@, false) == Some(api_url)
            &&& opt_text_at(t, "api_key"@, false) == Some(api_key)
        },
        Connector::read(t) matches Some(ConnectorV::Anthropic { api_key }) ==> {
            &&& field(t, "type"@) == Some(JsonV::Str("anthropic"@))
            &&& opt_text_at(t, "api_key"@, false) == Some(api_key)
        },
        field(t, "type"@) == Some(JsonV::Str("anthropic"@)) && field(t, "api_key"@) is None
            ==> Connector::read(t) == Some(ConnectorV::Anthropic { api_key: None }),
        field(t, "type"@) == Some(JsonV::Str("opengateway"@)) && field(t, "api_key"@) is None && field(
            t,
            "api_url"@,
        ) is None ==> Connector::read(t) == Some(
            ConnectorV::Opengateway { api_url: None, api_key: None },
        ),
{
    reveal_strlit("opengateway");
    reveal_strlit("anthropic");
    assert("opengateway"@.len() == 11 && "anthropic"@.len() == 9);
}

} // verus!
