use dack::state::ConsciousnessState::{Express, Perceive, Reflect, Settle};
use dack::state::{
    allowed_transition, default_spec, reach_rank, state_from_tag, state_label, state_tag, within_ceiling,
    worker_spec, ModelTier, ToolClass,
};

#[test]
fn perceive_is_read_only() {
    let spec = default_spec(Perceive);
    assert!(spec.tool_scope.allows(ToolClass::Read));
    // A file-write in Perceive is impossible by construction.
    assert!(!spec.tool_scope.allows(ToolClass::FileWrite));
    assert!(!spec.tool_scope.allows(ToolClass::Post));
    // Bash is never in scope anywhere: it would bypass path-gating.
    assert!(!spec.tool_scope.allows(ToolClass::Shell));
    assert!(spec.writable_dirs.is_empty());
}

#[test]
fn only_reflect_writes_soul_dirs() {
    for dir in ["skills/", "stimuli/", "prompts/", "SOUL.md"] {
        assert!(default_spec(Reflect).writable_dirs.contains(&dir), "Reflect must be able to write {dir}");
        for s in [Perceive, Express, Settle] {
            assert!(!default_spec(s).writable_dirs.contains(&dir), "{s:?} must not be able to write {dir}");
        }
    }
}

#[test]
fn bash_is_denied_in_every_state() {
    for s in [Perceive, Express, Settle, Reflect] {
        assert!(
            !default_spec(s).tool_scope.allows(ToolClass::Shell),
            "{s:?} must not have raw Shell in scope (it bypasses writable_dirs)"
        );
    }
}

#[test]
fn no_state_may_write_runlogs() {
    for s in [Perceive, Express, Settle, Reflect] {
        assert!(
            !default_spec(s).writable_dirs.iter().any(|d| d.starts_with("runlogs")),
            "{s:?} must not be able to write runlogs/"
        );
    }
}

#[test]
fn transition_invariants() {
    // Reflect exits to nothing (the one structural ban).
    for s in [Perceive, Express, Settle, Reflect] {
        assert!(!allowed_transition(Reflect, s), "Reflect → {s:?} must be forbidden");
    }
    // Reflect is reachable by a transition, gated by the ceiling and the rate limit.
    assert!(allowed_transition(Perceive, Reflect));
    assert!(allowed_transition(Perceive, Express));
    assert!(allowed_transition(Express, Settle));
    assert!(allowed_transition(Express, Express));
}

#[test]
fn ceiling_clamps_how_far_a_chain_walks() {
    // An Express ceiling admits Perceive + Express, never the irreversible Settle.
    assert!(within_ceiling(Perceive, Express));
    assert!(within_ceiling(Express, Express));
    assert!(!within_ceiling(Settle, Express));
    // A Settle ceiling admits the whole reversibility ladder up to Settle.
    for s in [Perceive, Express, Settle] {
        assert!(within_ceiling(s, Settle), "{s:?} must be within a Settle ceiling");
    }
}

#[test]
fn the_reversibility_ladder_has_four_rungs() {
    assert_eq!([Perceive, Express, Settle, Reflect].map(reach_rank), [0, 1, 2, 3]);
}

#[test]
fn a_state_is_named_by_its_tag() {
    for s in [Perceive, Express, Settle, Reflect] {
        assert_eq!(state_from_tag(state_tag(s)), Some(s));
    }
    assert_eq!(state_tag(Settle), "settle");
    assert_eq!(state_label(Settle), "Settle");
    assert_eq!(state_from_tag("Settle"), None);
}

#[test]
fn a_worker_may_run_a_shell() {
    let spec = worker_spec();
    assert!(spec.tool_scope.allows(ToolClass::Shell));
    assert!(spec.tool_scope.allows(ToolClass::FileWrite));
    assert!(!spec.tool_scope.allows(ToolClass::SettleTx));
    assert_eq!(spec.model, ModelTier::Mixed);
}
