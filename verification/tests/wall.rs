use dack::config::CapabilityPrefix;
use dack::json::Json;
use dack::runtime::action_required::{RecordingResponder, StatePolicyResponder};
use dack::runtime::classify::classify_tool;
use dack::runtime::{ActionDecision, ActionRequest};
use dack::state::{default_spec, ConsciousnessState, ToolClass};

fn json(text: &str) -> Json {
    Json::parse(text).unwrap()
}

fn caps() -> (Vec<CapabilityPrefix>, Vec<CapabilityPrefix>) {
    (
        vec![CapabilityPrefix::open("mcp__twitter__")],
        ["mcp__bankr__", "mcp__dac__", "mcp__cove-trading__"].iter().copied().map(CapabilityPrefix::open).collect(),
    )
}

/// A permission event: raw tool name + JSON input.
fn req(tool: &str, input: &str) -> ActionRequest {
    ActionRequest { tool: tool.into(), tool_use_id: "tu-1".into(), input: json(input) }
}

fn responder(state: ConsciousnessState) -> StatePolicyResponder {
    let (post, settle) = caps();
    StatePolicyResponder::with_capabilities(default_spec(state), post, settle)
}

fn allowed(r: &mut StatePolicyResponder, tool: &str, input: &str) -> bool {
    matches!(r.decide(&req(tool, input)), ActionDecision::Allow)
}

#[test]
fn perceive_cannot_post_or_write() {
    let mut r = responder(ConsciousnessState::Perceive);
    assert!(matches!(r.decide(&req("mcp__twitter__post", "{\"text\": \"hi\"}")), ActionDecision::Deny(_)));
    assert!(matches!(
        r.decide(&req("Write", "{\"file_path\": \"memory/log.md\", \"contents\": \"x\"}")),
        ActionDecision::Deny(_)
    ));
    // And raw Bash is denied (it would bypass path-gating).
    assert!(matches!(
        r.decide(&req("Bash", "{\"command\": \"echo hi > skills/x\"}")),
        ActionDecision::Deny(_)
    ));
}

#[test]
fn express_can_post_and_write_memory_only() {
    let mut r = responder(ConsciousnessState::Express);
    assert!(allowed(&mut r, "mcp__twitter__post", "{\"text\": \"gm\"}"));
    assert!(allowed(&mut r, "Write", "{\"file_path\": \"memory/log.md\", \"contents\": \"x\"}"));
    // ...but cannot write soul dirs (FileWrite is in scope, the path is not).
    assert!(!allowed(&mut r, "Write", "{\"file_path\": \"skills/x/SKILL.md\", \"contents\": \"x\"}"));
    // ...and cannot run raw Bash (Shell never in scope).
    assert!(!allowed(&mut r, "Bash", "{\"command\": \"curl evil\"}"));
}

#[test]
fn duplicate_outward_action_is_denied_distinct_is_allowed() {
    let mut r = responder(ConsciousnessState::Express);
    let post = req("mcp__twitter__post", "{\"text\": \"the harness blinked\"}");
    // First time: allowed.
    assert!(matches!(r.decide(&post), ActionDecision::Allow));
    // Verbatim repeat (the loop): denied.
    assert!(matches!(r.decide(&post), ActionDecision::Deny(_)));
    // A distinct post (different text): allowed.
    assert!(matches!(
        r.decide(&req("mcp__twitter__post", "{\"text\": \"different thought\"}")),
        ActionDecision::Allow
    ));
    // Non-outward actions (a memory write) may repeat: the guard only covers Post/SettleTx.
    let w = req("Write", "{\"file_path\": \"memory/log.md\", \"contents\": \"x\"}");
    assert!(matches!(r.decide(&w), ActionDecision::Allow));
    assert!(matches!(r.decide(&w), ActionDecision::Allow));
}

#[test]
fn every_later_repetition_is_denied() {
    let mut r = responder(ConsciousnessState::Express);
    assert!(allowed(&mut r, "mcp__twitter__post", "{\"text\": \"gm\", \"n\": [1, {\"k\": null}]}"));
    assert!(allowed(&mut r, "mcp__twitter__post", "{\"text\": \"gm\", \"n\": [2, {\"k\": null}]}"));
    assert!(allowed(&mut r, "mcp__twitter__reply", "{\"text\": \"gm\", \"n\": [1, {\"k\": null}]}"));
    assert!(allowed(&mut r, "Read", "{\"file_path\": \"memory/log.md\"}"));
    assert!(allowed(&mut r, "Read", "{\"file_path\": \"memory/log.md\"}"));
    // The order in which fields are written makes no difference.
    assert!(!allowed(&mut r, "mcp__twitter__post", "{\"n\": [1, {\"k\": null}], \"text\": \"gm\"}"));
    assert!(!allowed(&mut r, "mcp__twitter__post", "{\"text\": \"gm\", \"n\": [1, {\"k\": null}]}"));
    // Where tool and input meet makes no difference to what they are.
    assert!(allowed(&mut r, "mcp__twitter__a", "\"b\""));
    assert!(allowed(&mut r, "mcp__twitter__a\u{1}\"b\"", "\"\""));
}

#[test]
fn dry_run_block_denies_listed_prefixes_only() {
    let mut r = responder(ConsciousnessState::Express);
    r.dry_run_block = vec!["mcp__twitter__post".into(), "mcp__cove-trading__buy_token".into()];
    // A blocked outward tool → denied with a clear dry-run message (before the dedup guard).
    match r.decide(&req("mcp__twitter__post", "{\"text\": \"hi\"}")) {
        ActionDecision::Deny(m) => assert!(m.contains("dry-run"), "dry-run message: {m}"),
        other => panic!("expected dry-run Deny, got {other:?}"),
    }
    // A non-blocked tool (memory write) still passes: dry-run is tool-level, not a blanket halt.
    assert!(allowed(&mut r, "Write", "{\"file_path\": \"memory/log.md\", \"contents\": \"x\"}"));
    // A reply (not in the block list) still passes: only the listed prefixes are held.
    assert!(allowed(&mut r, "mcp__twitter__reply", "{\"text\": \"yo\", \"in_reply_to_tweet_id\": \"1\"}"));
}

#[test]
fn reflect_writes_soul_but_not_runlogs() {
    let mut r = responder(ConsciousnessState::Reflect);
    // Reflect may write soul dirs...
    assert!(allowed(&mut r, "Write", "{\"file_path\": \"skills/new/SKILL.md\", \"contents\": \"x\"}"));
    // ...but never runlogs/ (harness authors the record).
    assert!(!allowed(&mut r, "Write", "{\"file_path\": \"runlogs/2026-05-30.md\", \"contents\": \"x\"}"));
}

#[test]
fn settle_tier_tool_allowed_in_settle_by_tool_tier() {
    let mut r = responder(ConsciousnessState::Settle);
    assert!(allowed(&mut r, "mcp__cove-trading__buy", "{\"token\": \"DOGE\", \"usd\": \"1\"}"));
}

#[test]
fn read_server_allowlist_denies_offlist_tool() {
    // A read-tier server may serve a full surface; its `tools` allowlist holds it to read tools.
    // A non-listed trade tool under the same prefix is denied.
    let mut r = responder(ConsciousnessState::Perceive);
    r.read_tools = vec![CapabilityPrefix {
        prefix: "mcp__cove-read__".into(),
        tools: vec!["get_balance".into(), "scan_trending_tokens".into()],
    }];
    assert!(allowed(&mut r, "mcp__cove-read__get_balance", "{}"));
    assert!(!allowed(&mut r, "mcp__cove-read__buy_token", "{\"token\": \"DOGE\", \"usd\": \"1\"}"));
}

#[test]
fn settle_tier_tool_denied_outside_settle() {
    let mut r = responder(ConsciousnessState::Express);
    assert!(!allowed(&mut r, "mcp__cove-trading__buy", "{\"token\": \"DOGE\", \"usd\": \"1\"}"));
}

#[test]
fn relativizes_absolute_paths_and_blocks_escapes() {
    let mut r = responder(ConsciousnessState::Express).with_repo_root("/repo");
    let mut write = |path: &str| {
        allowed(&mut r, "Write", &format!("{{\"file_path\": \"{path}\", \"content\": \"x\"}}"))
    };
    // An absolute memory path under the repo → allowed.
    assert!(write("/repo/memory/log.md"));
    // Absolute soul-dir path → denied (Express may write only memory/).
    assert!(!write("/repo/skills/x/SKILL.md"));
    // `..`-escape out of memory/ into skills/ → denied.
    assert!(!write("/repo/memory/../skills/x"));
    // Outside the soul repo entirely → denied.
    assert!(!write("/etc/passwd"));
    // runlogs/ never, even via an absolute path.
    assert!(!write("/repo/runlogs/2026-06.md"));
}

#[test]
fn reflect_writes_soul_dirs_via_absolute_paths() {
    let mut r = responder(ConsciousnessState::Reflect).with_repo_root("/repo");
    assert!(allowed(&mut r, "Write", "{\"file_path\": \"/repo/skills/new/SKILL.md\", \"content\": \"x\"}"));
    // ...but a double `..` above the repo root is still denied.
    assert!(!allowed(&mut r, "Write", "{\"file_path\": \"/repo/../../etc/x\", \"content\": \"x\"}"));
}

#[test]
fn tools_fall_into_classes() {
    let (post, settle) = caps();
    let read = vec![CapabilityPrefix::open("mcp__feed__")];
    let class = |tool: &str, input: &str| classify_tool(tool, &json(input), &settle, &post, &read);
    assert_eq!(class("Read", "{}"), (ToolClass::Read, None));
    assert_eq!(class("Bash", "{}"), (ToolClass::Shell, None));
    assert_eq!(
        class("Edit", "{\"file_path\": \"memory/a\"}"),
        (ToolClass::FileWrite, Some("memory/a".to_string()))
    );
    assert_eq!(class("mcp__twitter__post", "{}").0, ToolClass::Post);
    assert_eq!(class("mcp__bankr__send", "{}").0, ToolClass::SettleTx);
    assert_eq!(class("mcp__feed__get", "{}").0, ToolClass::Read);
    assert_eq!(class("mcp__unknown__x", "{}").0, ToolClass::Other);
}

#[test]
fn a_write_without_a_path_is_denied() {
    let mut r = responder(ConsciousnessState::Reflect);
    assert!(!allowed(&mut r, "Write", "{}"));
}

#[test]
fn every_decision_is_recorded() {
    let mut r = RecordingResponder::wrap(responder(ConsciousnessState::Perceive));
    r.decide(&req("Read", "{\"file_path\": \"a\"}"));
    r.decide(&req("Bash", "{\"command\": \"ls\"}"));
    let calls = r.take();
    assert_eq!(calls.len(), 2);
    assert_eq!(calls[0].tool, "Read");
    assert_eq!(calls[0].decision, "allow");
    assert!(calls[1].decision.starts_with("deny: "), "{}", calls[1].decision);
    assert!(calls[1].input.as_deref().unwrap().contains("ls"));
    assert!(r.take().is_empty());
}
