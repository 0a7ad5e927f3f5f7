//! What a cycle may be trusted with: what it was seeded with, and what it touched since.

use vstd::prelude::*;
use vstd::utf8::encode_utf8;

use crate::config::{
    a_server_is_found_by_its_name, a_server_that_is_not_there_is_not_found, server_index, tier_meet, tier_rank, DackConfig, McpServerConfig, TierV, TrustLattice,
};
use crate::identity::{did_signed, verify_ed25519_did, Did, Signature};
use crate::model::runlog::{ToolCallRecord, ToolCallV};
use crate::model::stimulus::{Stimulus, StimulusV, TrustTier};
use crate::text::{
    after_prefix, first_at, first_at_unique, has_part, has_prefix, occurs_at, parse_i64,
    parts_around, read_int, same_text, split_once, starts_with, strip_prefix,
};

verus! {

// ── Taint by actual access ──────────────────────────────────────────────────────────────

/// The server whose tool this is: `mcp__<server>__<tool>`. A built-in tool has none.
pub open spec fn server_of(tool: Seq<char>) -> Option<Seq<char>> {
    match after_prefix(tool, "mcp__"@) {
        Some(rest) => match parts_around(rest, "__"@) {
            Some((server, _)) => Some(server),
            None => None,
        },
        None => None,
    }
}

/// The server whose tool this is.
pub fn mcp_server_of(tool: &str) -> (r: Option<String>)
    ensures
        r.deep_view() == server_of(tool@),
{
    proof {
        reveal_strlit("__");
    }
    match strip_prefix(tool, "mcp__") {
        Some(rest) => match split_once(rest.as_str(), "__") {
            Some((server, _)) => Some(server),
            None => None,
        },
        None => None,
    }
}

/// The trust of what a server puts in play: its own label where the operator registered it,
/// else that of the outside world.
pub open spec fn server_trust(servers: Seq<McpServerConfig>, name: Seq<char>) -> Seq<char> {
    match server_index(servers, name) {
        Some(i) => servers[i].trust@,
        None => "public"@,
    }
}

/// The trust of what one tool call put in play. A call that was denied, or a built-in tool,
/// put nothing in play.
pub open spec fn call_trust(servers: Seq<McpServerConfig>, c: ToolCallV) -> Option<Seq<char>> {
    if !has_prefix(c.decision, "allow"@) {
        None
    } else {
        match server_of(c.tool) {
            Some(s) => Some(server_trust(servers, s)),
            None => None,
        }
    }
}

/// The lowest trust of what some tool calls put in play.
pub open spec fn accessed(
    l: Seq<TierV>,
    servers: Seq<McpServerConfig>,
    calls: Seq<ToolCallV>,
) -> Option<Seq<char>>
    decreases calls.len(),
{
    if calls.len() == 0 {
        None
    } else {
        match (accessed(l, servers, calls.drop_last()), call_trust(servers, calls.last())) {
            (Some(a), Some(t)) => Some(tier_meet(l, a, t)),
            (None, t) => t,
            (a, None) => a,
        }
    }
}

/// The lowest trust of what a step's tool calls put in play.
pub fn accessed_trust(config: &DackConfig, tool_calls: &Vec<ToolCallRecord>) -> (r: Option<
    TrustTier,
>)
    ensures
        r.deep_view() == accessed(
            config.trust_tiers.deep_view(),
            config.mcp_servers@,
            tool_calls.deep_view(),
        ),
{
    let lattice = config.lattice();
    let ghost calls = tool_calls.deep_view();
    let mut acc: Option<TrustTier> = None;
    let mut i: usize = 0;
    assert(calls.take(0) =~= Seq::empty());
    while i < tool_calls.len()
        invariant
            i <= tool_calls@.len(),
            calls == tool_calls.deep_view(),
            lattice@ == config.trust_tiers.deep_view(),
            acc.deep_view() == accessed(lattice@, config.mcp_servers@, calls.take(i as int)),
        decreases tool_calls@.len() - i,
    {
        proof {
            assert(calls.take(i + 1).drop_last() =~= calls.take(i as int));
            assert(calls.take(i + 1).last() == tool_calls@[i as int]@);
        }
        let c = &tool_calls[i];
        if starts_with(c.decision.as_str(), "allow") {
            match mcp_server_of(c.tool.as_str()) {
                Some(server) => {
                    let trust = match config.mcp_server(server.as_str()) {
                        Some(s) => s.trust.clone(),
                        None => TrustTier::public(),
                    };
                    acc = match acc {
                        Some(a) => Some(lattice.meet(&a, &trust)),
                        None => Some(trust),
                    };
                },
                None => {},
            }
        }
        i += 1;
    }
    assert(calls.take(i as int) =~= calls);
    acc
}

/// The trust of a step once it has touched what it touched.
pub open spec fn tainted(l: Seq<TierV>, trust: Seq<char>, touched: Option<Seq<char>>) -> Seq<char> {
    match touched {
        Some(a) => tier_meet(l, trust, a),
        None => trust,
    }
}

/// The trust of a step once it has touched what it touched.
pub fn tainted_trust(
    lattice: &TrustLattice,
    trust: &TrustTier,
    touched: &Option<TrustTier>,
) -> (r: TrustTier)
    ensures
        r@ == tainted(lattice@, trust@, touched.deep_view()),
{
    match touched {
        Some(a) => lattice.meet(trust, a),
        None => trust.clone(),
    }
}

/// What a cycle has touched only lowers its trust: the accessed tier ranks no higher than
/// the tier of any call.
pub proof fn every_call_taints(
    l: Seq<TierV>,
    servers: Seq<McpServerConfig>,
    calls: Seq<ToolCallV>,
    i: int,
)
    requires
        0 <= i < calls.len(),
        call_trust(servers, calls[i]) is Some,
    ensures
        accessed(l, servers, calls) is Some,
        tier_rank(l, accessed(l, servers, calls)->0) <= tier_rank(
            l,
            call_trust(servers, calls[i])->0,
        ),
    decreases calls.len(),
{
    if i < calls.len() - 1 {
        every_call_taints(l, servers, calls.drop_last(), i);
    }
}

/// A denied call and a built-in tool put nothing in play.
pub proof fn nothing_touched_nothing_lost(
    l: Seq<TierV>,
    servers: Seq<McpServerConfig>,
    calls: Seq<ToolCallV>,
)
    requires
        forall|i: int|
            0 <= i < calls.len() ==> !has_prefix((#[trigger] calls[i]).decision, "allow"@)
                || server_of(calls[i].tool) is None,
    ensures
        accessed(l, servers, calls) is None,
    decreases calls.len(),
{
    if calls.len() > 0 {
        assert forall|i: int| 0 <= i < calls.drop_last().len() implies !has_prefix(
            (#[trigger] calls.drop_last()[i]).decision,
            "allow"@,
        ) || server_of(calls.drop_last()[i].tool) is None by {
            assert(calls.drop_last()[i] == calls[i]);
        }
        nothing_touched_nothing_lost(l, servers, calls.drop_last());
    }
}

// ── The seed ────────────────────────────────────────────────────────────────────────────

/// The signature that a stimulus carries for its directive.
pub open spec fn carried_signature(s: StimulusV) -> Option<Seq<char>> {
    match s.provenance {
        Some(p) => after_prefix(p, "operator_sig:"@),
        None => None,
    }
}

/// The tier of a stimulus's directive. That of the operator is honored only where a
/// signature over the directive holds under the configured operator's DID; everything short
/// of that is the outside world. Other tiers were seeded by provenance and stand.
pub open spec fn proven_tier(operator_did: Seq<char>, s: StimulusV) -> Seq<char> {
    if s.directive_tier != "operator_signed"@ {
        s.directive_tier
    } else {
        match carried_signature(s) {
            Some(sig) => if did_signed(
                operator_did,
                encode_utf8(s.directive_body),
                encode_utf8(sig),
            ) == Ok::<bool, Seq<char>>(true) {
                "operator_signed"@
            } else {
                "public"@
            },
            None => "public"@,
        }
    }
}

/// The tier of a stimulus's directive.
pub fn verified_directive_tier(config: &DackConfig, stimulus: &Stimulus) -> (r: TrustTier)
    ensures
        r@ == proven_tier(config.operator_did@, stimulus@),
{
    if !stimulus.directive_tier.same(&TrustTier::operator()) {
        return stimulus.directive_tier.clone();
    }
    let sig = match &stimulus.provenance {
        Some(p) => strip_prefix(p.as_str(), "operator_sig:"),
        None => None,
    };
    match sig {
        None => TrustTier::public(),
        Some(s) => {
            let did = Did(config.operator_did.clone());
            let bytes = vstd::slice::slice_to_vec(s.as_str().as_bytes());
            match verify_ed25519_did(
                &did,
                stimulus.directive_body.as_str().as_bytes(),
                &Signature(bytes),
            ) {
                Ok(true) => TrustTier::operator(),
                _ => TrustTier::public(),
            }
        },
    }
}

/// The operator's tier is never self-asserted: without a signature that holds, a directive
/// that claims it is one of the outside world.
pub proof fn the_operator_tier_is_proven(operator_did: Seq<char>, s: StimulusV)
    ensures
        proven_tier(operator_did, s) == "operator_signed"@ ==> carried_signature(s) is Some
            && did_signed(
            operator_did,
            encode_utf8(s.directive_body),
            encode_utf8(carried_signature(s)->0),
        ) == Ok::<bool, Seq<char>>(true),
{
    crate::model::stimulus::tier_names_differ();
}

// ── Cadence ─────────────────────────────────────────────────────────────────────────────

/// Whether the agent may change itself at `now`. Without an interval, and where it never did,
/// it may; a record that cannot be read does not lock it out.
pub open spec fn may_reflect(interval: i64, last: Option<Seq<char>>, now: i64) -> bool {
    if interval <= 0 {
        true
    } else {
        match last {
            Some(t) => match read_int(t) {
                Some(n) => i64::MIN <= n <= i64::MAX ==> now - n >= interval,
                None => true,
            },
            None => true,
        }
    }
}

/// Whether the agent may change itself at `now`.
pub fn reflect_rate_limit_ok(interval: i64, last: &Option<String>, now: i64) -> (r: bool)
    ensures
        r == may_reflect(interval, last.deep_view(), now),
{
    if interval <= 0 {
        return true;
    }
    match last {
        Some(t) => match parse_i64(t.as_str()) {
            Some(n) => now as i128 - n as i128 >= interval as i128,
            None => true,
        },
        None => true,
    }
}

/// Two changes of itself are at least an interval apart.
pub proof fn reflections_keep_their_distance(interval: i64, last: Seq<char>, at: i64, now: i64)
    requires
        interval > 0,
        read_int(last) == Some(at as int),
        may_reflect(interval, Some(last), now),
    ensures
        now - at >= interval,
{
}

/// The pause cursor says that dispatch is paused.
pub open spec fn paused(cursor: Option<Seq<char>>) -> bool {
    cursor == Some("1"@)
}

/// Whether the text of the pause cursor says that dispatch is paused.
pub fn is_paused(cursor: &Option<String>) -> (r: bool)
    ensures
        r == paused(cursor.deep_view()),
{
    match cursor {
        Some(v) => same_text(v.as_str(), "1"),
        None => false,
    }
}

/// A call of a tool `mcp__<server>__<tool>` is one of that server; a tool of another shape is
/// one of no server.
pub proof fn a_tool_names_its_server(server: Seq<char>, tool: Seq<char>, other: Seq<char>)
    requires
        !has_part(server + "_"@, "__"@),
        !has_prefix(other, "mcp__"@),
    ensures
        server_of("mcp__"@ + server + "__"@ + tool) == Some(server),
        server_of(other) is None,
{
    reveal_strlit("mcp__");
    reveal_strlit("__");
    reveal_strlit("_");
    let t = "mcp__"@ + server + "__"@ + tool;
    let rest = server + "__"@ + tool;
    assert(t.subrange(0, 5) =~= "mcp__"@);
    assert(t.skip(5) =~= rest);
    let n = server.len() as int;
    assert(rest.subrange(n, n + 2) =~= "__"@);
    assert(occurs_at(rest, "__"@, n));
    assert forall|j: int| 0 <= j < n implies !occurs_at(rest, "__"@, j) by {
        if occurs_at(rest, "__"@, j) {
            let u = server + "_"@;
            assert(rest.subrange(j, j + 2)[0] == rest[j] && rest.subrange(j, j + 2)[1] == rest[j
                + 1]);
            assert(u.subrange(j, j + 2) =~= "__"@);
            assert(occurs_at(u, "__"@, j));
        }
    }
    assert(first_at(rest, "__"@, n));
    let i = choose|i: int| first_at(rest, "__"@, i);
    first_at_unique(rest, "__"@, i, n);
    assert(rest.take(n) =~= server);
}

/// What a step put in play is the trust of one of its calls that was allowed: of the label that
/// the operator gave the server, or of the outside world where the server is not registered.
pub proof fn what_was_put_in_play_was_called(
    l: Seq<TierV>,
    servers: Seq<McpServerConfig>,
    calls: Seq<ToolCallV>,
)
    requires
        accessed(l, servers, calls) is Some,
    ensures
        exists|i: int|
            {
                &&& 0 <= i < calls.len()
                &&& has_prefix((#[trigger] calls[i]).decision, "allow"@)
                &&& server_of(calls[i].tool) is Some
                &&& server_trust(servers, server_of(calls[i].tool)->0) == accessed(
                    l,
                    servers,
                    calls,
                )->0
            },
    decreases calls.len(),
{
    let init = calls.drop_last();
    let k = calls.len() - 1;
    assert(calls[k] == calls.last());
    if accessed(l, servers, calls) == call_trust(servers, calls.last()) {
        assert(has_prefix(calls[k].decision, "allow"@));
    } else {
        what_was_put_in_play_was_called(l, servers, init);
        let i = choose|i: int|
            {
                &&& 0 <= i < init.len()
                &&& has_prefix((#[trigger] init[i]).decision, "allow"@)
                &&& server_of(init[i].tool) is Some
                &&& server_trust(servers, server_of(init[i].tool)->0) == accessed(
                    l,
                    servers,
                    init,
                )->0
            };
        assert(calls[i] == init[i]);
    }
}

/// Every call of a server's tool that was allowed puts that server's trust in play.
pub proof fn every_allowed_call_counts(
    l: Seq<TierV>,
    servers: Seq<McpServerConfig>,
    calls: Seq<ToolCallV>,
    i: int,
)
    requires
        0 <= i < calls.len(),
        has_prefix(calls[i].decision, "allow"@),
        server_of(calls[i].tool) is Some,
    ensures
        accessed(l, servers, calls) is Some,
        tier_rank(l, accessed(l, servers, calls)->0) <= tier_rank(
            l,
            server_trust(servers, server_of(calls[i].tool)->0),
        ),
{
    every_call_taints(l, servers, calls, i);
}

/// A registered server has the trust of its first registration, another one that of the outside
/// world.
pub proof fn a_server_has_its_own_trust(servers: Seq<McpServerConfig>, i: int, name: Seq<char>)
    requires
        0 <= i < servers.len(),
        forall|j: int| 0 <= j < i ==> (#[trigger] servers[j]).name@ != servers[i].name@,
        forall|j: int| 0 <= j < servers.len() ==> (#[trigger] servers[j]).name@ != name,
    ensures
        server_trust(servers, servers[i].name@) == servers[i].trust@,
        server_trust(servers, name) == "public"@,
{
    a_server_is_found_by_its_name(servers, i);
    a_server_that_is_not_there_is_not_found(servers, name);
}

/// A step keeps its trust unless it touched something less trusted, and then has that one's.
pub proof fn only_what_is_less_trusted_taints(l: Seq<TierV>, trust: Seq<char>, touched: Seq<char>)
    ensures
        tainted(l, trust, None) == trust,
        tier_rank(l, touched) < tier_rank(l, trust) ==> tainted(l, trust, Some(touched)) == touched,
        tier_rank(l, touched) >= tier_rank(l, trust) ==> tainted(l, trust, Some(touched)) == trust,
{
}

/// The operator's signature counts: a directive of the operator's tier that carries a signature
/// which holds under the operator's DID keeps that tier, and one of another tier keeps its own,
/// signed or not. What falls short is of the outside world.
pub proof fn a_signed_directive_is_the_operators(operator_did: Seq<char>, s: StimulusV, sig: Seq<char>)
    ensures
        s.directive_tier != "operator_signed"@ ==> proven_tier(operator_did, s)
            == s.directive_tier,
        s.directive_tier == "operator_signed"@ && s.provenance == Some("operator_sig:"@ + sig)
            ==> proven_tier(operator_did, s) == if did_signed(
            operator_did,
            encode_utf8(s.directive_body),
            encode_utf8(sig),
        ) == Ok::<bool, Seq<char>>(true) {
            "operator_signed"@
        } else {
            "public"@
        },
        s.directive_tier == "operator_signed"@ && s.provenance is None ==> proven_tier(
            operator_did,
            s,
        ) == "public"@,
{
    let p = "operator_sig:"@;
    let t = p + sig;
    assert(t.subrange(0, p.len() as int) =~= p);
    assert(t.skip(p.len() as int) =~= sig);
}

/// The agent may change itself once the interval is over, at any time where there is none, and
/// where there is no record of the last time that can be read; before that it may not.
pub proof fn a_reflection_waits_for_the_interval(interval: i64, last: Seq<char>, now: i64, at: i64)
    ensures
        may_reflect(interval, None, now),
        interval <= 0 ==> may_reflect(interval, Some(last), now),
        read_int(last) is None ==> may_reflect(interval, Some(last), now),
        interval > 0 && read_int(last) == Some(at as int) ==> (may_reflect(
            interval,
            Some(last),
            now,
        ) <==> now >= at + interval),
{
}

/// The agent is paused by one mark alone.
pub proof fn one_mark_pauses(mark: Seq<char>)
    ensures
        paused(Some("1"@)),
        !paused(None),
        mark != "1"@ ==> !paused(Some(mark)),
{
}

} // verus!
