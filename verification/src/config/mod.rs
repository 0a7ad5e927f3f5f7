//! The operator's configuration: the authority surface that no model can write.
//!
//! It holds the trust lattice, the registry of capability servers and the policy by which
//! each state may use them, the references to secrets (never their values), and the knobs
//! of the daemon.

use vstd::prelude::*;

use crate::error::DackError;
use crate::model::stimulus::TrustTier;
use crate::state::{rank_of, ConsciousnessState};
use crate::strmap::StrMap;
use crate::text::{has_prefix, owned, owned_all, owned_opt, same_text, starts_with};

pub mod read;

verus! {

// ── The trust lattice ───────────────────────────────────────────────────────────────────

/// One tier of the lattice: its name, and the highest state that a cycle of this trust may
/// walk to. Its rank is its position.
#[derive(Debug)]
pub struct TrustTierDef {
    pub name: String,
    pub reaches: ConsciousnessState,
}

/// What a [`TrustTierDef`] holds.
pub type TierV = (Seq<char>, ConsciousnessState);

impl DeepView for TrustTierDef {
    type V = TierV;

    open spec fn deep_view(&self) -> TierV {
        (self.name@, self.reaches)
    }
}

/// The trust lattice: a total order by position, low to high.
#[derive(Debug)]
pub struct TrustLattice {
    pub tiers: Vec<TrustTierDef>,
}

impl View for TrustLattice {
    type V = Seq<TierV>;

    open spec fn view(&self) -> Seq<TierV> {
        self.tiers.deep_view()
    }
}

/// The position of the first tier named `name`, counted from `from`; nothing where there is
/// none.
pub open spec fn tier_index(l: Seq<TierV>, name: Seq<char>) -> Option<int>
    decreases l.len(),
{
    if l.len() == 0 {
        None
    } else if l[0].0 == name {
        Some(0)
    } else {
        match tier_index(l.skip(1), name) {
            Some(i) => Some(i + 1),
            None => None,
        }
    }
}

/// The rank of a tier. A name that the lattice does not know has the lowest.
pub open spec fn tier_rank(l: Seq<TierV>, name: Seq<char>) -> int {
    match tier_index(l, name) {
        Some(i) => i,
        None => 0,
    }
}

/// The highest state that a cycle of this tier may walk to. A name that the lattice does
/// not know reaches Express.
pub open spec fn tier_reaches(l: Seq<TierV>, name: Seq<char>) -> ConsciousnessState {
    match tier_index(l, name) {
        Some(i) => l[i].1,
        None => ConsciousnessState::Express,
    }
}

/// The lower of two tiers.
pub open spec fn tier_meet(l: Seq<TierV>, a: Seq<char>, b: Seq<char>) -> Seq<char> {
    if tier_rank(l, a) <= tier_rank(l, b) {
        a
    } else {
        b
    }
}

proof fn tier_index_in_range(l: Seq<TierV>, name: Seq<char>)
    ensures
        tier_index(l, name) is Some ==> 0 <= tier_index(l, name)->0 < l.len() && l[tier_index(
            l,
            name,
        )->0].0 == name,
    decreases l.len(),
{
    if l.len() > 0 && l[0].0 != name {
        tier_index_in_range(l.skip(1), name);
    }
}

impl TrustLattice {
    fn index(&self, name: &str) -> (r: Option<usize>)
        ensures
            match r {
                Some(i) => tier_index(self@, name@) == Some(i as int) && i < self.tiers@.len(),
                None => tier_index(self@, name@) is None,
            },
    {
        let ghost l = self@;
        let mut i: usize = 0;
        assert(l.skip(0) =~= l);
        while i < self.tiers.len()
            invariant
                i <= self.tiers@.len(),
                l == self@,
                tier_index(l, name@) == (match tier_index(l.skip(i as int), name@) {
                    Some(k) => Some(k + i),
                    None => None,
                }),
            decreases self.tiers@.len() - i,
        {
            assert(l.skip(i as int)[0] == self.tiers@[i as int].deep_view());
            assert(l.skip(i as int).skip(1) =~= l.skip(i + 1));
            if same_text(self.tiers[i].name.as_str(), name) {
                return Some(i);
            }
            i += 1;
        }
        None
    }

    /// The rank of a tier: the higher, the more trusted.
    pub fn rank(&self, t: &TrustTier) -> (r: usize)
        ensures
            r == tier_rank(self@, t@),
    {
        match self.index(t.name()) {
            Some(i) => i,
            None => 0,
        }
    }

    /// The highest state that a cycle of this tier may walk to.
    pub fn reaches(&self, t: &TrustTier) -> (r: ConsciousnessState)
        ensures
            r == tier_reaches(self@, t@),
    {
        match self.index(t.name()) {
            Some(i) => self.tiers[i].reaches,
            None => ConsciousnessState::Express,
        }
    }

    /// The lower of two tiers.
    pub fn meet(&self, a: &TrustTier, b: &TrustTier) -> (r: TrustTier)
        ensures
            r@ == tier_meet(self@, a@, b@),
            r == *a || r == *b,
    {
        if self.rank(a) <= self.rank(b) {
            a.clone()
        } else {
            b.clone()
        }
    }

    /// Whether the lattice has a tier with this name.
    pub fn contains(&self, name: &str) -> (r: bool)
        ensures
            r == (tier_index(self@, name@) is Some),
    {
        self.index(name).is_some()
    }
}

/// Trust only falls: the meet of two tiers ranks no higher than either.
pub proof fn meet_is_a_lower_bound(l: Seq<TierV>, a: Seq<char>, b: Seq<char>)
    ensures
        tier_rank(l, tier_meet(l, a, b)) <= tier_rank(l, a),
        tier_rank(l, tier_meet(l, a, b)) <= tier_rank(l, b),
        tier_meet(l, a, b) == a || tier_meet(l, a, b) == b,
{
}

/// The meet is the greatest of the lower bounds.
pub proof fn meet_is_the_greatest(l: Seq<TierV>, a: Seq<char>, b: Seq<char>, c: Seq<char>)
    requires
        tier_rank(l, c) <= tier_rank(l, a),
        tier_rank(l, c) <= tier_rank(l, b),
    ensures
        tier_rank(l, c) <= tier_rank(l, tier_meet(l, a, b)),
{
}

/// The order in which tiers are met does not matter to the rank that comes out.
pub proof fn meet_is_associative_and_commutative(
    l: Seq<TierV>,
    a: Seq<char>,
    b: Seq<char>,
    c: Seq<char>,
)
    ensures
        tier_rank(l, tier_meet(l, a, b)) == tier_rank(l, tier_meet(l, b, a)),
        tier_meet(l, tier_meet(l, a, b), c) == tier_meet(l, a, tier_meet(l, b, c)),
        tier_meet(l, a, a) == a,
{
}

/// A mislabelled tier fails safe: it ranks lowest and reaches no further than Express.
pub proof fn an_unknown_tier_fails_safe(l: Seq<TierV>, name: Seq<char>)
    requires
        tier_index(l, name) is None,
    ensures
        tier_rank(l, name) == 0,
        tier_reaches(l, name) == ConsciousnessState::Express,
{
}

/// The states that the tiers reach do not fall as the rank rises.
pub open spec fn ascends(l: Seq<TierV>) -> bool {
    forall|i: int, j: int|
        0 <= i <= j < l.len() ==> rank_of((#[trigger] l[i]).1) <= rank_of((#[trigger] l[j]).1)
}

/// In a lattice whose reach ascends, the ceiling only falls: what a meet reaches, both of
/// its known tiers reach.
pub proof fn the_ceiling_only_falls(l: Seq<TierV>, a: Seq<char>, b: Seq<char>)
    requires
        ascends(l),
        tier_index(l, a) is Some,
        tier_index(l, b) is Some,
    ensures
        rank_of(tier_reaches(l, tier_meet(l, a, b))) <= rank_of(tier_reaches(l, a)),
        rank_of(tier_reaches(l, tier_meet(l, a, b))) <= rank_of(tier_reaches(l, b)),
{
    tier_index_in_range(l, a);
    tier_index_in_range(l, b);
}

/// The lattice that stands where none is configured.
pub open spec fn default_lattice() -> Seq<TierV> {
    seq![
        ("public"@, ConsciousnessState::Express),
        ("self"@, ConsciousnessState::Reflect),
        ("operator_signed"@, ConsciousnessState::Reflect),
    ]
}

/// In the default lattice a cycle that met public data never walks past Express, whatever
/// else it met.
pub proof fn public_data_never_settles(other: Seq<char>)
    ensures
        tier_reaches(default_lattice(), tier_meet(default_lattice(), "public"@, other))
            == ConsciousnessState::Express,
        tier_reaches(default_lattice(), tier_meet(default_lattice(), other, "public"@))
            == ConsciousnessState::Express,
        ascends(default_lattice()),
{
    let l = default_lattice();
    crate::model::stimulus::tier_names_differ();
    reveal_with_fuel(tier_index, 4);
    assert(l.skip(1)[0] == l[1]);
    assert(l.skip(1).skip(1)[0] == l[2]);
    assert(l.skip(1).skip(1).skip(1) =~= Seq::empty());
    tier_index_in_range(l, other);
}

/// A tier ranks by where its name first stands in the lattice, and reaches what is declared
/// there.
pub proof fn a_tier_ranks_by_its_place(l: Seq<TierV>, i: int)
    requires
        0 <= i < l.len(),
        forall|j: int| 0 <= j < i ==> (#[trigger] l[j]).0 != l[i].0,
    ensures
        tier_index(l, l[i].0) == Some(i),
        tier_rank(l, l[i].0) == i,
        tier_reaches(l, l[i].0) == l[i].1,
    decreases i,
{
    if i > 0 {
        assert(l[0].0 != l[i].0);
        let r = l.skip(1);
        assert(r[i - 1] == l[i]);
        assert forall|j: int| 0 <= j < i - 1 implies (#[trigger] r[j]).0 != r[i - 1].0 by {
            assert(r[j] == l[j + 1]);
        }
        a_tier_ranks_by_its_place(r, i - 1);
    }
}

/// A name that stands nowhere in the lattice ranks lowest and reaches Express.
pub proof fn a_name_outside_the_lattice_ranks_lowest(l: Seq<TierV>, name: Seq<char>)
    requires
        forall|j: int| 0 <= j < l.len() ==> (#[trigger] l[j]).0 != name,
    ensures
        tier_index(l, name) is None,
        tier_rank(l, name) == 0,
        tier_reaches(l, name) == ConsciousnessState::Express,
{
    tier_index_in_range(l, name);
}

/// Of two tiers the lower one counts: the meet is the first where it ranks no higher, and
/// otherwise the second.
pub proof fn the_lower_tier_counts(l: Seq<TierV>, a: Seq<char>, b: Seq<char>)
    ensures
        tier_rank(l, a) < tier_rank(l, b) ==> tier_meet(l, a, b) == a && tier_meet(l, b, a) == a,
        tier_rank(l, a) == tier_rank(l, b) ==> tier_meet(l, a, b) == a,
{
}

/// Where no lattice is configured, the outside world ranks below the agent's own, and that below
/// what the operator signed; the last two may walk as far as Reflect.
pub proof fn the_default_lattice_trusts_its_own()
    ensures
        tier_rank(default_lattice(), "public"@) < tier_rank(default_lattice(), "self"@),
        tier_rank(default_lattice(), "self"@) < tier_rank(default_lattice(), "operator_signed"@),
        tier_reaches(default_lattice(), "public"@) == ConsciousnessState::Express,
        tier_reaches(default_lattice(), "self"@) == ConsciousnessState::Reflect,
        tier_reaches(default_lattice(), "operator_signed"@) == ConsciousnessState::Reflect,
{
    let l = default_lattice();
    crate::model::stimulus::tier_names_differ();
    assert(l[0].0 == "public"@ && l[1].0 == "self"@ && l[2].0 == "operator_signed"@);
    a_tier_ranks_by_its_place(l, 0);
    a_tier_ranks_by_its_place(l, 1);
    a_tier_ranks_by_its_place(l, 2);
}

// ── Coalescing ──────────────────────────────────────────────────────────────────────────

#[derive(Debug, Clone, Copy, PartialEq, Eq, Structural)]
pub enum CoalesceMode {
    /// Fold a burst into one wake.
    Batch,
    /// Keep only the newest.
    Latest,
    /// Every candidate wakes on its own.
    Never,
}

#[derive(Debug)]
pub struct CoalescePolicy {
    pub mode: CoalesceMode,
    pub window_sec: Option<u64>,
    pub dedup_key: Option<String>,
}

// ── Capabilities ────────────────────────────────────────────────────────────────────────

/// The operator's half of the capability handshake, for one state.
#[derive(Debug)]
pub struct TierPolicy {
    /// Whether only registered servers may be used here.
    pub mcp_whitelist: bool,
    /// The registered servers that may be imported.
    pub import: Vec<String>,
    /// Names that are never admitted.
    pub deny: Vec<String>,
    /// The model of this state.
    pub model: Option<String>,
    /// Whether a prompt may name its own model.
    pub allow_model_override: bool,
}

/// What a [`TierPolicy`] holds.
#[verifier::ext_equal]
pub struct TierPolicyV {
    pub mcp_whitelist: bool,
    pub import: Seq<Seq<char>>,
    pub deny: Seq<Seq<char>>,
    pub model: Option<Seq<char>>,
    pub allow_model_override: bool,
}

impl View for TierPolicy {
    type V = TierPolicyV;

    open spec fn view(&self) -> TierPolicyV {
        TierPolicyV {
            mcp_whitelist: self.mcp_whitelist,
            import: self.import.deep_view(),
            deny: self.deny.deep_view(),
            model: self.model.deep_view(),
            allow_model_override: self.allow_model_override,
        }
    }
}

impl DeepView for TierPolicy {
    type V = TierPolicyV;

    open spec fn deep_view(&self) -> TierPolicyV {
        self@
    }
}

/// The policy of a state that is not configured: nothing can be granted.
pub open spec fn locked_policy() -> TierPolicyV {
    TierPolicyV {
        mcp_whitelist: true,
        import: Seq::empty(),
        deny: Seq::empty(),
        model: None,
        allow_model_override: false,
    }
}

impl Default for TierPolicy {
    /// Imports only, and none to import.
    fn default() -> (r: TierPolicy)
        ensures
            r@ == locked_policy(),
    {
        let r = TierPolicy {
            mcp_whitelist: true,
            import: Vec::new(),
            deny: Vec::new(),
            model: None,
            allow_model_override: false,
        };
        assert(r@ =~= locked_policy());
        r
    }
}

impl Clone for TierPolicy {
    fn clone(&self) -> (r: TierPolicy)
        ensures
            r@ == self@,
    {
        TierPolicy {
            mcp_whitelist: self.mcp_whitelist,
            import: owned_all(&self.import),
            deny: owned_all(&self.deny),
            model: owned_opt(&self.model),
            allow_model_override: self.allow_model_override,
        }
    }
}

/// A trusted script that makes a short-lived token.
#[derive(Debug)]
pub struct SecretsProviderConfig {
    pub name: String,
    pub command: Vec<String>,
    /// Paths and references for the script; never a secret value.
    pub env: StrMap<String>,
    /// The variables that the script is expected to emit.
    pub keys: Vec<String>,
    /// Trust of the data that this secret puts in play.
    pub trust: TrustTier,
}

/// What the tools of a server may do.
#[derive(Debug, Clone, Copy, PartialEq, Eq, Structural)]
pub enum CapabilityTier {
    /// Read-only.
    Read,
    /// A reversible outward effect.
    Post,
    /// Irreversible authority.
    Settle,
}

/// How a server is reached.
#[derive(Debug)]
pub enum McpTransport {
    Http { url: String },
    Stdio { command: String, args: Vec<String> },
}

/// How a server's token is handed to it, and to nobody else.
#[derive(Debug)]
pub struct McpAuth {
    /// The provider that makes the token.
    pub secret: String,
    /// Which variable of the provider is the token; else its first.
    pub key: Option<String>,
    pub header: Option<String>,
    pub scheme: Option<String>,
    /// The variable through which a spawned server gets the token.
    pub env: Option<String>,
}

/// A capability server that the operator registered.
#[derive(Debug)]
pub struct McpServerConfig {
    /// Its tools are named `mcp__<name>__<tool>`.
    pub name: String,
    pub transport: McpTransport,
    pub auth: Option<McpAuth>,
    pub tier: CapabilityTier,
    /// The only tools that are permitted; empty permits all.
    pub tools: Vec<String>,
    /// Trust of the data that this server puts in play.
    pub trust: TrustTier,
    /// The trust that a cycle must have for the server to be offered.
    pub min_trust: Option<TrustTier>,
    /// Variables that are filled from the payload of the waking stimulus.
    pub scope_env: StrMap<String>,
    /// Variables with fixed values.
    pub env: StrMap<String>,
}

/// A prefix of tool names, with the only tools that are permitted under it.
#[derive(Debug)]
pub struct CapabilityPrefix {
    pub prefix: String,
    pub tools: Vec<String>,
}

/// What a [`CapabilityPrefix`] holds.
#[verifier::ext_equal]
pub struct PrefixV {
    pub prefix: Seq<char>,
    pub tools: Seq<Seq<char>>,
}

impl DeepView for CapabilityPrefix {
    type V = PrefixV;

    open spec fn deep_view(&self) -> PrefixV {
        PrefixV { prefix: self.prefix@, tools: self.tools.deep_view() }
    }
}

impl CapabilityPrefix {
    /// A prefix under which every tool is permitted.
    pub fn open(prefix: &str) -> (r: CapabilityPrefix)
        ensures
            r.deep_view() == open_prefix(prefix@),
    {
        let r = CapabilityPrefix { prefix: owned(prefix), tools: Vec::new() };
        assert(r.tools.deep_view() =~= Seq::empty());
        r
    }
}

/// A prefix under which every tool is permitted.
pub open spec fn open_prefix(p: Seq<char>) -> PrefixV {
    PrefixV { prefix: p, tools: Seq::empty() }
}

/// The prefixes by which the wall classifies capability tools.
#[derive(Debug)]
pub struct CapabilityPrefixes {
    pub read: Vec<CapabilityPrefix>,
    pub post: Vec<CapabilityPrefix>,
    pub settle: Vec<CapabilityPrefix>,
}

/// The identity directories, one per role.
#[derive(Debug)]
pub struct IdentityDirs {
    pub soul: Option<String>,
    pub operator: Option<String>,
    pub builder: Option<String>,
}

// ── Runtime, channels, remotes ──────────────────────────────────────────────────────────

/// Which runtime drives the model.
#[derive(Debug)]
pub enum RuntimeEngine {
    Openclaude { bridge_dir: String },
}

/// How the engine reaches its models.
#[derive(Debug)]
pub enum Connector {
    /// A gateway that speaks the OpenAI protocol.
    Opengateway { api_url: Option<String>, api_key: Option<String> },
    /// The native catalog. Parses, but has no adapter.
    Anthropic { api_key: Option<String> },
}

/// Container isolation for workers.
#[derive(Debug)]
pub struct WorkerSandboxConfig {
    pub enabled: bool,
    pub image: String,
    pub memory: String,
    pub pids_limit: u32,
    /// Whether a missing container backend is fatal at boot.
    pub require: bool,
}

#[derive(Debug)]
pub struct RuntimeConfig {
    pub engine: RuntimeEngine,
    pub connector: Connector,
    pub model: Option<String>,
    /// Names of the variables that the bridge is given.
    pub env: Vec<String>,
    pub worker_sandbox: WorkerSandboxConfig,
}

/// A long-running side process that the harness keeps alive.
#[derive(Debug)]
pub struct ModuleConfig {
    pub name: String,
    pub command: Vec<String>,
    /// The providers whose variables are injected, afresh at every start.
    pub secrets: Vec<String>,
    pub env: StrMap<String>,
    pub cwd: Option<String>,
    pub enabled: bool,
}

#[derive(Debug, Clone, Copy, PartialEq, Eq, Structural)]
pub enum RemoteKind {
    Git,
    Gitlawb,
}

/// The access token of a plain push.
#[derive(Debug)]
pub struct RemoteAuth {
    /// The variable of the daemon that holds the token.
    pub token_env: String,
    pub username: String,
}

/// One place that the soul is pushed to.
#[derive(Debug)]
pub struct SoulRemote {
    pub url: String,
    /// The backend, where it is not told by the URL.
    pub kind: Option<RemoteKind>,
    pub required: bool,
    pub node: Option<String>,
    pub identity: String,
    pub auth: Option<RemoteAuth>,
}

/// The rehearsal switch.
#[derive(Debug)]
pub struct DryRun {
    pub enabled: bool,
    /// Prefixes of the tools that are composed and not executed.
    pub block: Vec<String>,
}

impl DryRun {
    /// The prefixes that are held back now.
    pub fn active_block(&self) -> (r: Vec<String>)
        ensures
            r.deep_view() == (if self.enabled {
                self.block.deep_view()
            } else {
                Seq::empty()
            }),
    {
        if self.enabled {
            owned_all(&self.block)
        } else {
            let v: Vec<String> = Vec::new();
            assert(v.deep_view() =~= Seq::empty());
            v
        }
    }
}

/// The whole configuration.
#[derive(Debug)]
pub struct DackConfig {
    /// The root of operator provenance.
    pub operator_did: String,
    pub trust_tiers: Vec<TrustTierDef>,
    /// `sha256(source)` in hexadecimal, and the tier at which the operator signed it.
    pub signed_scripts: StrMap<TrustTier>,
    /// A webhook path, and the tier of what arrives on it.
    pub webhooks: StrMap<TrustTier>,
    pub reflect_min_interval_secs: i64,
    pub default_entry: String,
    pub tier_policy: Vec<(ConsciousnessState, TierPolicy)>,
    pub forwarded_env: Vec<String>,
    /// References to secrets, never their values.
    pub secrets: StrMap<String>,
    pub secrets_providers: Vec<SecretsProviderConfig>,
    pub reflect_schedule: Option<String>,
    pub soul_repo: String,
    pub db_path: String,
    pub webhook_addr: String,
    pub runtime: RuntimeConfig,
    pub identities: IdentityDirs,
    /// The older form of a single remote.
    pub soul_remote: Option<String>,
    pub soul_remotes: Vec<SoulRemote>,
    pub gitlawb_node: String,
    pub invoke_timeout_secs: u64,
    pub post_tools: Vec<String>,
    pub settle_tools: Vec<String>,
    pub mcp_servers: Vec<McpServerConfig>,
    pub modules: Vec<ModuleConfig>,
    pub session_ttl_secs: u64,
    pub queue_max_depth: Option<u64>,
    pub baton_ttl_secs: Option<u64>,
    pub dry_run: DryRun,
}

/// The role under which something is signed.
#[derive(Debug, Clone, Copy, PartialEq, Eq, Hash, Structural)]
pub enum IdentityRole {
    /// The root authority.
    Operator,
    /// The actor's own self. Its key never leaves the harness.
    Soul,
    /// A recoverable identity for what the actor builds.
    Builder,
}

/// `a` and `b` overlap: one begins with the other.
pub open spec fn overlaps(a: Seq<char>, b: Seq<char>) -> bool {
    has_prefix(a, b) || has_prefix(b, a)
}

/// The prefixes of tools that a registered server's tools have.
pub open spec fn server_prefix(name: Seq<char>) -> Seq<char> {
    "mcp__"@ + name + "__"@
}

/// The prefixes that the registered servers of one tier contribute.
pub open spec fn registered(
    servers: Seq<McpServerConfig>,
    tier: CapabilityTier,
) -> Seq<PrefixV>
    decreases servers.len(),
{
    if servers.len() == 0 {
        Seq::empty()
    } else {
        let rest = registered(servers.drop_last(), tier);
        let s = servers.last();
        if s.tier == tier {
            rest.push(PrefixV { prefix: server_prefix(s.name@), tools: s.tools.deep_view() })
        } else {
            rest
        }
    }
}

/// The prefixes that a plain list contributes.
pub open spec fn listed(names: Seq<Seq<char>>) -> Seq<PrefixV> {
    names.map_values(|p: Seq<char>| open_prefix(p))
}

/// The read prefixes of a configuration.
pub open spec fn read_prefixes(c: DackConfig) -> Seq<PrefixV> {
    registered(c.mcp_servers@, CapabilityTier::Read)
}

/// The post prefixes of a configuration.
pub open spec fn post_prefixes(c: DackConfig) -> Seq<PrefixV> {
    listed(c.post_tools.deep_view()) + registered(c.mcp_servers@, CapabilityTier::Post)
}

/// The settle prefixes of a configuration.
pub open spec fn settle_prefixes(c: DackConfig) -> Seq<PrefixV> {
    listed(c.settle_tools.deep_view()) + registered(c.mcp_servers@, CapabilityTier::Settle)
}

/// No prefix of `settle` overlaps one of `other`.
pub open spec fn disjoint_prefixes(settle: Seq<PrefixV>, other: Seq<PrefixV>) -> bool {
    forall|i: int, j: int|
        0 <= i < settle.len() && 0 <= j < other.len() ==> !overlaps(
            (#[trigger] settle[i]).prefix,
            (#[trigger] other[j]).prefix,
        )
}

/// The first server named `name`.
pub open spec fn server_index(servers: Seq<McpServerConfig>, name: Seq<char>) -> Option<int>
    decreases servers.len(),
{
    if servers.len() == 0 {
        None
    } else if servers[0].name@ == name {
        Some(0)
    } else {
        match server_index(servers.skip(1), name) {
            Some(i) => Some(i + 1),
            None => None,
        }
    }
}

/// A server is found under its name, where no earlier one has it.
pub proof fn a_server_is_found_by_its_name(servers: Seq<McpServerConfig>, i: int)
    requires
        0 <= i < servers.len(),
        forall|j: int| 0 <= j < i ==> (#[trigger] servers[j]).name@ != servers[i].name@,
    ensures
        server_index(servers, servers[i].name@) == Some(i),
    decreases i,
{
    if i > 0 {
        assert(servers[0].name@ != servers[i].name@);
        let r = servers.skip(1);
        assert(r[i - 1] == servers[i]);
        assert forall|j: int| 0 <= j < i - 1 implies (#[trigger] r[j]).name@ != r[i - 1].name@ by {
            assert(r[j] == servers[j + 1]);
        }
        a_server_is_found_by_its_name(r, i - 1);
    }
}

/// No server is found under a name that none has.
pub proof fn a_server_that_is_not_there_is_not_found(
    servers: Seq<McpServerConfig>,
    name: Seq<char>,
)
    requires
        forall|j: int| 0 <= j < servers.len() ==> (#[trigger] servers[j]).name@ != name,
    ensures
        server_index(servers, name) is None,
    decreases servers.len(),
{
    if servers.len() > 0 {
        assert(servers[0].name@ != name);
        let r = servers.skip(1);
        assert forall|j: int| 0 <= j < r.len() implies (#[trigger] r[j]).name@ != name by {
            assert(r[j] == servers[j + 1]);
        }
        a_server_that_is_not_there_is_not_found(r, name);
    }
}

/// A server that is found has the name.
pub proof fn server_index_names_a_server(servers: Seq<McpServerConfig>, name: Seq<char>)
    ensures
        server_index(servers, name) matches Some(i) ==> 0 <= i < servers.len() && servers[i].name@
            == name,
    decreases servers.len(),
{
    if servers.len() > 0 && servers[0].name@ != name {
        server_index_names_a_server(servers.skip(1), name);
    }
}

/// The first provider named `name`.
pub open spec fn provider_index(p: Seq<SecretsProviderConfig>, name: Seq<char>) -> Option<int>
    decreases p.len(),
{
    if p.len() == 0 {
        None
    } else if p[0].name@ == name {
        Some(0)
    } else {
        match provider_index(p.skip(1), name) {
            Some(i) => Some(i + 1),
            None => None,
        }
    }
}

/// The trust of what a provider puts in play; the agent's own where there is no such
/// provider.
pub open spec fn provider_trust(p: Seq<SecretsProviderConfig>, name: Seq<char>) -> TrustTier {
    match provider_index(p, name) {
        Some(i) => p[i].trust,
        None => TrustTier::SelfTier,
    }
}

/// The policy of a state.
pub open spec fn policy_of(
    p: Seq<(ConsciousnessState, TierPolicy)>,
    s: ConsciousnessState,
) -> TierPolicyV
    decreases p.len(),
{
    if p.len() == 0 {
        locked_policy()
    } else if p[0].0 == s {
        p[0].1@
    } else {
        policy_of(p.skip(1), s)
    }
}

// ── What is trusted of sha2 ─────────────────────────────────────────────────────────────

/// The SHA-256 digest of some bytes.
pub uninterp spec fn sha256(bytes: Seq<u8>) -> Seq<u8>;

/// `sha2::Sha256::digest`: 32 bytes that depend on the input alone.
#[verifier::external_body]
fn sha256_digest(bytes: &[u8]) -> (r: Vec<u8>)
    ensures
        r@ == sha256(bytes@),
        r@.len() == 32,
{
    <sha2::Sha256 as sha2::Digest>::digest(bytes).to_vec()
}


/// The hexadecimal digit of a number below sixteen.
pub open spec fn hex_digit(d: int) -> char {
    if d < 10 {
        (d + 48) as char
    } else {
        (d + 87) as char
    }
}

/// Bytes in lower-case hexadecimal, two digits each.
pub open spec fn hex(b: Seq<u8>) -> Seq<char>
    decreases b.len(),
{
    if b.len() == 0 {
        Seq::empty()
    } else {
        hex(b.drop_last()).push(hex_digit(b.last() as int / 16)).push(
            hex_digit(b.last() as int % 16),
        )
    }
}

fn hex_char(d: u8) -> (r: char)
    requires
        d < 16,
    ensures
        r == hex_digit(d as int),
{
    if d < 10 {
        (d + 48) as char
    } else {
        (d + 87) as char
    }
}

/// Bytes in lower-case hexadecimal.
pub fn to_hex(b: &Vec<u8>) -> (r: String)
    ensures
        r@ == hex(b@),
{
    let mut out = String::new();
    let mut i: usize = 0;
    assert(b@.take(0) =~= Seq::empty());
    while i < b.len()
        invariant
            i <= b@.len(),
            out@ == hex(b@.take(i as int)),
        decreases b@.len() - i,
    {
        proof {
            assert(b@.take(i + 1).drop_last() =~= b@.take(i as int));
            assert(b@.take(i + 1).last() == b@[i as int]);
        }
        out.push(hex_char(b[i] / 16));
        out.push(hex_char(b[i] % 16));
        i += 1;
    }
    assert(b@.take(i as int) =~= b@);
    out
}

/// The key of a script in the table of signed scripts: the digest of its source.
pub fn sha256_hex(bytes: &[u8]) -> (r: String)
    ensures
        r@ == hex(sha256(bytes@)),
{
    let d = sha256_digest(bytes);
    to_hex(&d)
}

/// The tier of a key; the outside world's where the table has none.
pub open spec fn trust_or_public(m: Map<Seq<char>, TrustTier>, key: Seq<char>) -> TrustTier {
    if m.contains_key(key) {
        m[key]
    } else {
        TrustTier::Public
    }
}

/// The first overlap of a settle prefix with another one: no settle prefix before it overlaps
/// any, and it overlaps none before that one.
pub open spec fn first_overlap(settle: Seq<PrefixV>, other: Seq<PrefixV>, i: int, j: int) -> bool {
    &&& 0 <= i < settle.len()
    &&& 0 <= j < other.len()
    &&& overlaps(settle[i].prefix, other[j].prefix)
    &&& forall|a: int, b: int|
        0 <= a < i && 0 <= b < other.len() ==> !overlaps(
            (#[trigger] settle[a]).prefix,
            (#[trigger] other[b]).prefix,
        )
    &&& forall|b: int|
        0 <= b < j ==> !overlaps(settle[i].prefix, (#[trigger] other[b]).prefix)
}

fn first_of(prefix: &str, other: &Vec<CapabilityPrefix>) -> (r: usize)
    ensures
        r <= other@.len(),
        r < other@.len() ==> overlaps(prefix@, other.deep_view()[r as int].prefix),
        forall|b: int|
            0 <= b < r ==> !overlaps(prefix@, (#[trigger] other.deep_view()[b]).prefix),
{
    let ghost ov = other.deep_view();
    let mut j: usize = 0;
    while j < other.len()
        invariant
            j <= other@.len(),
            ov == other.deep_view(),
            forall|b: int| 0 <= b < j ==> !overlaps(prefix@, (#[trigger] ov[b]).prefix),
        decreases other@.len() - j,
    {
        let b = other[j].prefix.as_str();
        assert(ov[j as int].prefix == b@);
        if starts_with(prefix, b) || starts_with(b, prefix) {
            return j;
        }
        j += 1;
    }
    j
}

/// The message about two prefixes that overlap.
pub open spec fn overlap_fault(settle: Seq<char>, other: Seq<char>) -> Seq<char> {
    "capability prefixes overlap: settle `"@ + settle + "` vs `"@ + other
        + "` — must be disjoint (an irreversible tool must never classify as Post/Read and escape Settle)"@
}

/// The error names the first settle prefix that overlaps another one, and the first that it
/// overlaps.
pub open spec fn names_overlap(e: DackError, settle: Seq<PrefixV>, other: Seq<PrefixV>) -> bool {
    &&& e is Config
    &&& exists|i: int, j: int| #[trigger]
        first_overlap(settle, other, i, j) && (e->Config_0)@ == overlap_fault(
            settle[i].prefix,
            other[j].prefix,
        )
}

fn overlap_error(a: &str, b: &str) -> (r: DackError)
    ensures
        r is Config,
        (r->Config_0)@ == overlap_fault(a@, b@),
{
    let mut m = owned("capability prefixes overlap: settle `");
    m.append(a);
    m.append("` vs `");
    m.append(b);
    m.append(
        "` — must be disjoint (an irreversible tool must never classify as Post/Read and escape Settle)",
    );
    DackError::Config(m)
}

fn open_all(names: &Vec<String>) -> (r: Vec<CapabilityPrefix>)
    ensures
        r.deep_view() == listed(names.deep_view()),
{
    let mut out: Vec<CapabilityPrefix> = Vec::new();
    let mut i: usize = 0;
    while i < names.len()
        invariant
            i <= names@.len(),
            out@.len() == i,
            forall|j: int|
                0 <= j < i ==> (#[trigger] out@[j]).deep_view() == open_prefix(names@[j]@),
        decreases names@.len() - i,
    {
        out.push(CapabilityPrefix::open(names[i].as_str()));
        i += 1;
    }
    assert(out.deep_view() =~= listed(names.deep_view()));
    out
}

impl DackConfig {
    /// The first registered server named `name`.
    pub fn mcp_server(&self, name: &str) -> (r: Option<&McpServerConfig>)
        ensures
            match r {
                Some(s) => server_index(self.mcp_servers@, name@) is Some && *s
                    == self.mcp_servers@[server_index(self.mcp_servers@, name@)->0],
                None => server_index(self.mcp_servers@, name@) is None,
            },
    {
        let ghost l = self.mcp_servers@;
        let mut i: usize = 0;
        assert(l.skip(0) =~= l);
        while i < self.mcp_servers.len()
            invariant
                i <= self.mcp_servers@.len(),
                l == self.mcp_servers@,
                server_index(l, name@) == (match server_index(l.skip(i as int), name@) {
                    Some(k) => Some(k + i),
                    None => None,
                }),
            decreases self.mcp_servers@.len() - i,
        {
            assert(l.skip(i as int)[0] == l[i as int]);
            assert(l.skip(i as int).skip(1) =~= l.skip(i + 1));
            if same_text(self.mcp_servers[i].name.as_str(), name) {
                return Some(&self.mcp_servers[i]);
            }
            i += 1;
        }
        None
    }

    /// The configured trust lattice.
    pub fn lattice(&self) -> (r: TrustLattice)
        ensures
            r@ == self.trust_tiers.deep_view(),
    {
        let mut tiers: Vec<TrustTierDef> = Vec::new();
        let mut i: usize = 0;
        while i < self.trust_tiers.len()
            invariant
                i <= self.trust_tiers@.len(),
                tiers@.len() == i,
                forall|j: int|
                    0 <= j < i ==> (#[trigger] tiers@[j]).deep_view()
                        == self.trust_tiers@[j].deep_view(),
            decreases self.trust_tiers@.len() - i,
        {
            let t = &self.trust_tiers[i];
            tiers.push(TrustTierDef { name: t.name.clone(), reaches: t.reaches });
            i += 1;
        }
        assert(tiers.deep_view() =~= self.trust_tiers.deep_view());
        TrustLattice { tiers }
    }

    /// The tier at which the operator signed a script with this source; the outside world's
    /// where no signature covers these exact bytes.
    pub fn script_trust(&self, source: &[u8]) -> (r: TrustTier)
        ensures
            r == trust_or_public(self.signed_scripts@, hex(sha256(source@))),
    {
        let key = sha256_hex(source);
        match self.signed_scripts.get(key.as_str()) {
            Some(t) => t.clone(),
            None => TrustTier::public(),
        }
    }

    /// The tier of what arrives on a webhook path; the outside world's where the path is not
    /// listed.
    pub fn webhook_trust(&self, path: &str) -> (r: TrustTier)
        ensures
            r == trust_or_public(self.webhooks@, path@),
    {
        match self.webhooks.get(path) {
            Some(t) => t.clone(),
            None => TrustTier::public(),
        }
    }

    /// The tier of what a secrets provider puts in play.
    pub fn secret_trust(&self, name: &str) -> (r: TrustTier)
        ensures
            r == provider_trust(self.secrets_providers@, name@),
    {
        let ghost l = self.secrets_providers@;
        let mut i: usize = 0;
        assert(l.skip(0) =~= l);
        while i < self.secrets_providers.len()
            invariant
                i <= self.secrets_providers@.len(),
                l == self.secrets_providers@,
                provider_index(l, name@) == (match provider_index(l.skip(i as int), name@) {
                    Some(k) => Some(k + i),
                    None => None,
                }),
            decreases self.secrets_providers@.len() - i,
        {
            assert(l.skip(i as int)[0] == l[i as int]);
            assert(l.skip(i as int).skip(1) =~= l.skip(i + 1));
            if same_text(self.secrets_providers[i].name.as_str(), name) {
                return self.secrets_providers[i].trust.clone();
            }
            i += 1;
        }
        TrustTier::self_()
    }

    /// The prefixes by which the wall classifies: the plain lists and the registry's tiers.
    pub fn capability_prefixes(&self) -> (r: CapabilityPrefixes)
        ensures
            r.read.deep_view() == read_prefixes(*self),
            r.post.deep_view() == post_prefixes(*self),
            r.settle.deep_view() == settle_prefixes(*self),
    {
        let ghost l = self.mcp_servers@;
        let mut read: Vec<CapabilityPrefix> = Vec::new();
        let mut post = open_all(&self.post_tools);
        let mut settle = open_all(&self.settle_tools);
        let ghost post0 = listed(self.post_tools.deep_view());
        let ghost settle0 = listed(self.settle_tools.deep_view());
        let mut i: usize = 0;
        proof {
            assert(l.take(0) =~= Seq::empty());
            assert(read.deep_view() =~= Seq::empty());
            assert(post.deep_view() =~= post0 + Seq::<PrefixV>::empty());
            assert(settle.deep_view() =~= settle0 + Seq::<PrefixV>::empty());
        }
        while i < self.mcp_servers.len()
            invariant
                i <= self.mcp_servers@.len(),
                l == self.mcp_servers@,
                read.deep_view() == registered(l.take(i as int), CapabilityTier::Read),
                post.deep_view() == post0 + registered(l.take(i as int), CapabilityTier::Post),
                settle.deep_view() == settle0 + registered(
                    l.take(i as int),
                    CapabilityTier::Settle,
                ),
            decreases self.mcp_servers@.len() - i,
        {
            let s = &self.mcp_servers[i];
            proof {
                assert(l.take(i + 1).drop_last() =~= l.take(i as int));
                assert(l.take(i + 1).last() == l[i as int]);
            }
            let mut prefix = owned("mcp__");
            prefix.append(s.name.as_str());
            prefix.append("__");
            let cp = CapabilityPrefix { prefix, tools: owned_all(&s.tools) };
            let ghost cv = cp.deep_view();
            let ghost (rv, pv, sv) = (read.deep_view(), post.deep_view(), settle.deep_view());
            match s.tier {
                CapabilityTier::Read => {
                    read.push(cp);
                    assert(read.deep_view() =~= rv.push(cv));
                },
                CapabilityTier::Post => {
                    post.push(cp);
                    assert(post.deep_view() =~= pv.push(cv));
                },
                CapabilityTier::Settle => {
                    settle.push(cp);
                    assert(settle.deep_view() =~= sv.push(cv));
                },
            }
            proof {
                assert(post.deep_view() =~= post0 + registered(l.take(i + 1), CapabilityTier::Post));
                assert(settle.deep_view() =~= settle0 + registered(
                    l.take(i + 1),
                    CapabilityTier::Settle,
                ));
            }
            i += 1;
        }
        assert(l.take(i as int) =~= l);
        CapabilityPrefixes { read, post, settle }
    }

    /// Whether no settle prefix overlaps a reversible or read prefix.
    pub fn validate_capabilities(&self) -> (r: Result<(), DackError>)
        ensures
            r is Ok <==> disjoint_prefixes(settle_prefixes(*self), post_prefixes(*self))
                && disjoint_prefixes(settle_prefixes(*self), read_prefixes(*self)),
            r is Err ==> names_overlap(
                r->Err_0,
                settle_prefixes(*self),
                post_prefixes(*self) + read_prefixes(*self),
            ),
    {
        let p = self.capability_prefixes();
        let ghost settle = p.settle.deep_view();
        let ghost post = p.post.deep_view();
        let ghost read = p.read.deep_view();
        let ghost other = post + read;
        let mut i: usize = 0;
        while i < p.settle.len()
            invariant
                i <= p.settle@.len(),
                settle == p.settle.deep_view(),
                post == p.post.deep_view(),
                read == p.read.deep_view(),
                other == post + read,
                settle == settle_prefixes(*self),
                post == post_prefixes(*self),
                read == read_prefixes(*self),
                forall|a: int, b: int|
                    0 <= a < i && 0 <= b < other.len() ==> !overlaps(
                        (#[trigger] settle[a]).prefix,
                        (#[trigger] other[b]).prefix,
                    ),
            decreases p.settle@.len() - i,
        {
            let s = p.settle[i].prefix.as_str();
            assert(settle[i as int].prefix == s@);
            let j: usize = first_of(s, &p.post);
            assert forall|b: int| 0 <= b < j implies !overlaps(s@, (#[trigger] other[b]).prefix) by {
                assert(other[b] == post[b]);
            }
            if j < p.post.len() {
                proof {
                    assert(other[j as int] == post[j as int]);
                    assert(first_overlap(settle, other, i as int, j as int));
                }
                return Err(overlap_error(s, p.post[j].prefix.as_str()));
            }
            let k: usize = first_of(s, &p.read);
            let ghost m: int = post.len() + k;
            assert forall|b: int| 0 <= b < m implies !overlaps(s@, (#[trigger] other[b]).prefix) by {
                if b < post.len() {
                    assert(other[b] == post[b]);
                } else {
                    assert(other[b] == read[b - post.len()]);
                }
            }
            if k < p.read.len() {
                proof {
                    assert(other[m] == read[k as int]);
                    assert(first_overlap(settle, other, i as int, m));
                }
                return Err(overlap_error(s, p.read[k].prefix.as_str()));
            }
            i += 1;
        }
        proof {
            assert forall|a: int, b: int|
                0 <= a < settle.len() && 0 <= b < post.len() implies !overlaps(
                (#[trigger] settle[a]).prefix,
                (#[trigger] post[b]).prefix,
            ) by {
                assert(other[b] == post[b]);
            }
            assert forall|a: int, b: int|
                0 <= a < settle.len() && 0 <= b < read.len() implies !overlaps(
                (#[trigger] settle[a]).prefix,
                (#[trigger] read[b]).prefix,
            ) by {
                assert(other[post.len() + b] == read[b]);
            }
        }
        Ok(())
    }

    /// The capability policy of a state; one that grants nothing where none is configured.
    pub fn tier_policy_for(&self, state: ConsciousnessState) -> (r: TierPolicy)
        ensures
            r@ == policy_of(self.tier_policy@, state),
    {
        let ghost l = self.tier_policy@;
        let mut i: usize = 0;
        assert(l.skip(0) =~= l);
        while i < self.tier_policy.len()
            invariant
                i <= self.tier_policy@.len(),
                l == self.tier_policy@,
                policy_of(l, state) == policy_of(l.skip(i as int), state),
            decreases self.tier_policy@.len() - i,
        {
            assert(l.skip(i as int)[0] == l[i as int]);
            assert(l.skip(i as int).skip(1) =~= l.skip(i + 1));
            if self.tier_policy[i].0 == state {
                return self.tier_policy[i].1.clone();
            }
            i += 1;
        }
        TierPolicy::default()
    }

    /// The identity directories by role; a role without one is left out.
    pub fn identity_dirs(&self) -> (r: Vec<(IdentityRole, String)>)
        ensures
            forall|role: IdentityRole|
                #![trigger dir_of(self.identities, role)]
                match dir_of(self.identities, role) {
                    Some(d) => exists|i: int|
                        0 <= i < r@.len() && (#[trigger] r@[i]).0 == role && r@[i].1@ == d,
                    None => forall|i: int| 0 <= i < r@.len() ==> (#[trigger] r@[i]).0 != role,
                },
            forall|i: int, j: int|
                0 <= i < j < r@.len() ==> (#[trigger] r@[i]).0 != (#[trigger] r@[j]).0,
    {
        let mut out: Vec<(IdentityRole, String)> = Vec::new();
        if let Some(d) = &self.identities.soul {
            out.push((IdentityRole::Soul, d.clone()));
        }
        let ghost n1 = out@.len();
        if let Some(d) = &self.identities.operator {
            out.push((IdentityRole::Operator, d.clone()));
        }
        let ghost n2 = out@.len();
        if let Some(d) = &self.identities.builder {
            out.push((IdentityRole::Builder, d.clone()));
        }
        proof {
            if self.identities.soul is Some {
                assert(out@[0].0 == IdentityRole::Soul);
            }
            if self.identities.operator is Some {
                assert(out@[n1 as int].0 == IdentityRole::Operator);
            }
            if self.identities.builder is Some {
                assert(out@[n2 as int].0 == IdentityRole::Builder);
            }
        }
        out
    }
}

/// The identity directory of a role.
pub open spec fn dir_of(d: IdentityDirs, role: IdentityRole) -> Option<Seq<char>> {
    match role {
        IdentityRole::Soul => d.soul.deep_view(),
        IdentityRole::Operator => d.operator.deep_view(),
        IdentityRole::Builder => d.builder.deep_view(),
    }
}

/// Two prefixes of one text overlap.
pub proof fn prefixes_of_one_text_overlap(t: Seq<char>, a: Seq<char>, b: Seq<char>)
    requires
        has_prefix(t, a),
        has_prefix(t, b),
    ensures
        overlaps(a, b),
{
    if a.len() <= b.len() {
        assert(b.subrange(0, a.len() as int) =~= t.subrange(0, a.len() as int));
    } else {
        assert(a.subrange(0, b.len() as int) =~= t.subrange(0, b.len() as int));
    }
}

/// A configuration that passed the check keeps irreversible tools apart: a tool under a
/// settle prefix is under no post or read prefix.
pub proof fn a_settle_tool_is_never_reversible(c: DackConfig, tool: Seq<char>, i: int, j: int)
    requires
        disjoint_prefixes(settle_prefixes(c), post_prefixes(c)),
        disjoint_prefixes(settle_prefixes(c), read_prefixes(c)),
        0 <= i < settle_prefixes(c).len(),
        has_prefix(tool, settle_prefixes(c)[i].prefix),
    ensures
        0 <= j < post_prefixes(c).len() ==> !has_prefix(tool, post_prefixes(c)[j].prefix),
        0 <= j < read_prefixes(c).len() ==> !has_prefix(tool, read_prefixes(c)[j].prefix),
{
    if 0 <= j < post_prefixes(c).len() && has_prefix(tool, post_prefixes(c)[j].prefix) {
        prefixes_of_one_text_overlap(
            tool,
            settle_prefixes(c)[i].prefix,
            post_prefixes(c)[j].prefix,
        );
    }
    if 0 <= j < read_prefixes(c).len() && has_prefix(tool, read_prefixes(c)[j].prefix) {
        prefixes_of_one_text_overlap(
            tool,
            settle_prefixes(c)[i].prefix,
            read_prefixes(c)[j].prefix,
        );
    }
}

/// Every server registers a prefix of its own in its tier, with its tools, and in no other tier.
pub proof fn a_server_registers_in_its_tier(
    a: Seq<McpServerConfig>,
    b: Seq<McpServerConfig>,
    s: McpServerConfig,
    tier: CapabilityTier,
)
    ensures
        registered(a + b, tier) == registered(a, tier) + registered(b, tier),
        registered(Seq::empty(), tier).len() == 0,
        s.tier != tier ==> registered(seq![s], tier).len() == 0,
        s.tier == tier ==> {
            let r = registered(seq![s], tier);
            &&& r.len() == 1
            &&& r[0].prefix == "mcp__"@ + s.name@ + "__"@
            &&& r[0].tools == s.tools.deep_view()
        },
    decreases b.len(),
{
    assert(seq![s].drop_last() =~= Seq::<McpServerConfig>::empty());
    assert(registered(seq![s].drop_last(), tier) =~= Seq::<PrefixV>::empty());
    if b.len() == 0 {
        assert(a + b =~= a);
        assert(registered(b, tier) =~= Seq::<PrefixV>::empty());
        assert(registered(a, tier) + registered(b, tier) =~= registered(a, tier));
    } else {
        a_server_registers_in_its_tier(a, b.drop_last(), s, tier);
        assert((a + b).drop_last() =~= a + b.drop_last());
        assert((a + b).last() == b.last());
        assert(registered(a + b, tier) =~= registered(a, tier) + registered(b, tier));
    }
}

/// What is listed as posting or settling comes first, with every tool of its prefix, and then the
/// servers of that tier; what reads is registered by servers alone.
pub proof fn listed_tools_come_before_servers(c: DackConfig, i: int)
    ensures
        ({
            let post = c.post_tools.deep_view();
            let servers = registered(c.mcp_servers@, CapabilityTier::Post);
            &&& post_prefixes(c).len() == post.len() + servers.len()
            &&& 0 <= i < post.len() ==> post_prefixes(c)[i].prefix == post[i]
                && post_prefixes(c)[i].tools.len() == 0
            &&& 0 <= i < servers.len() ==> post_prefixes(c)[post.len() + i] == servers[i]
        }),
        ({
            let settle = c.settle_tools.deep_view();
            let servers = registered(c.mcp_servers@, CapabilityTier::Settle);
            &&& settle_prefixes(c).len() == settle.len() + servers.len()
            &&& 0 <= i < settle.len() ==> settle_prefixes(c)[i].prefix == settle[i]
                && settle_prefixes(c)[i].tools.len() == 0
            &&& 0 <= i < servers.len() ==> settle_prefixes(c)[settle.len() + i] == servers[i]
        }),
        read_prefixes(c) == registered(c.mcp_servers@, CapabilityTier::Read),
{
}

/// Two prefixes overlap where one text could begin with both.
pub proof fn overlapping_prefixes_share_a_text(a: Seq<char>, b: Seq<char>)
    ensures
        overlaps(a, b) <==> exists|t: Seq<char>| #[trigger] has_prefix(t, a) && has_prefix(t, b),
        overlaps(a, b) == overlaps(b, a),
{
    if overlaps(a, b) {
        assert(has_prefix(a, a)) by {
            assert(a.subrange(0, a.len() as int) =~= a);
        }
        assert(has_prefix(b, b)) by {
            assert(b.subrange(0, b.len() as int) =~= b);
        }
    }
    if exists|t: Seq<char>| #[trigger] has_prefix(t, a) && has_prefix(t, b) {
        let t = choose|t: Seq<char>| #[trigger] has_prefix(t, a) && has_prefix(t, b);
        prefixes_of_one_text_overlap(t, a, b);
    }
}

/// A provider of secrets is as trusted as its entry says: the first of its name. One that is not
/// there is the soul's own.
pub proof fn a_provider_has_its_own_trust(p: Seq<SecretsProviderConfig>, name: Seq<char>, i: int)
    ensures
        0 <= i < p.len() && p[i].name@ == name && (forall|j: int|
            0 <= j < i ==> (#[trigger] p[j]).name@ != name) ==> provider_index(p, name) == Some(i)
            && provider_trust(p, name) == p[i].trust,
        (forall|j: int| 0 <= j < p.len() ==> (#[trigger] p[j]).name@ != name) ==> provider_index(
            p,
            name,
        ) is None && provider_trust(p, name) == TrustTier::SelfTier,
    decreases p.len(),
{
    if p.len() > 0 {
        let rest = p.skip(1);
        a_provider_has_its_own_trust(rest, name, i - 1);
        assert(forall|j: int| #![trigger rest[j]] 0 <= j < rest.len() ==> rest[j] == p[j + 1]);
        if i > 0 {
            assert(i < p.len() ==> rest[i - 1] == p[i]);
        }
    }
}

/// A state has the policy that is set for it, the first where there are two. Where none is set,
/// only what is on the list may be used, nothing is on it, and the model stays as it is.
pub proof fn a_state_has_its_own_policy(
    p: Seq<(ConsciousnessState, TierPolicy)>,
    s: ConsciousnessState,
    i: int,
)
    ensures
        0 <= i < p.len() && p[i].0 == s && (forall|j: int|
            0 <= j < i ==> (#[trigger] p[j]).0 != s) ==> policy_of(p, s) == p[i].1@,
        (forall|j: int| 0 <= j < p.len() ==> (#[trigger] p[j]).0 != s) ==> {
            let q = policy_of(p, s);
            &&& q.mcp_whitelist
            &&& q.import.len() == 0 && q.deny.len() == 0
            &&& q.model is None && !q.allow_model_override
        },
    decreases p.len(),
{
    if p.len() > 0 {
        let rest = p.skip(1);
        a_state_has_its_own_policy(rest, s, i - 1);
        assert(forall|j: int| #![trigger rest[j]] 0 <= j < rest.len() ==> rest[j] == p[j + 1]);
        if i > 0 {
            assert(i < p.len() ==> rest[i - 1] == p[i]);
        }
    }
}

/// A byte is written as two digits, the higher first, from 0 to 9 and a to f.
pub proof fn a_byte_is_two_digits(a: Seq<u8>, b: Seq<u8>, x: u8)
    ensures
        hex(a + b) == hex(a) + hex(b),
        hex(a).len() == 2 * a.len(),
        ({
            let t = hex(seq![x]);
            let high = x as int / 16;
            let low = x as int % 16;
            &&& t.len() == 2
            &&& high < 10 ==> t[0] as int == high + '0' as int
            &&& high >= 10 ==> t[0] as int == high - 10 + 'a' as int
            &&& low < 10 ==> t[1] as int == low + '0' as int
            &&& low >= 10 ==> t[1] as int == low - 10 + 'a' as int
        }),
    decreases a.len() + b.len(),
{
    assert(seq![x].drop_last() =~= Seq::<u8>::empty());
    assert(hex(seq![x].drop_last()) =~= Seq::<char>::empty());
    if a.len() > 0 {
        a_byte_is_two_digits(a.drop_last(), Seq::empty(), x);
    }
    if b.len() == 0 {
        assert(a + b =~= a);
        assert(hex(b) =~= Seq::<char>::empty());
        assert(hex(a) + hex(b) =~= hex(a));
    } else {
        a_byte_is_two_digits(a, b.drop_last(), x);
        assert((a + b).drop_last() =~= a + b.drop_last());
        assert((a + b).last() == b.last());
        assert(hex(a + b) =~= hex(a) + hex(b));
    }
}

/// What nobody vouches for is public, and each role has the directory that is set for it.
pub proof fn what_is_not_vouched_for_is_public(
    m: Map<Seq<char>, TrustTier>,
    key: Seq<char>,
    d: IdentityDirs,
)
    ensures
        !m.contains_key(key) ==> trust_or_public(m, key) == TrustTier::Public,
        m.contains_key(key) ==> trust_or_public(m, key) == m[key],
        dir_of(d, IdentityRole::Soul) == d.soul.deep_view(),
        dir_of(d, IdentityRole::Operator) == d.operator.deep_view(),
        dir_of(d, IdentityRole::Builder) == d.builder.deep_view(),
{
}

} // verus!
