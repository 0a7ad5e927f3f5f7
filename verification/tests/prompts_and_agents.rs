use dack::agent_def::AgentDef;
use dack::error::DackError;
use dack::json::Json;
use dack::state::ConsciousnessState;
use dack::state_prompt::{split_resume, McpRef, StatePrompt};

fn json(text: &str) -> Json {
    Json::parse(text).unwrap()
}

#[test]
fn parses_state_tier_mcp_and_transitions() {
    let text = "---\nstate: perceive\nmcp:\n  - cove-read\n  - { name: rootai, url: https://mcp.rootai.xyz }\ntransitions: [twitter/feed_reply, twitter/express_market_insights]\n---\nRead the room.\n";
    let sp = StatePrompt::parse("twitter/perceive_feed", text).unwrap();
    assert_eq!(sp.state, ConsciousnessState::Perceive);
    assert_eq!(sp.mcp.len(), 2);
    assert_eq!(sp.mcp[0], McpRef::Import("cove-read".into()));
    assert_eq!(sp.mcp[1], McpRef::Inline { name: "rootai".into(), url: "https://mcp.rootai.xyz".into() });
    assert!(sp.permits_transition_to("twitter/feed_reply"));
    assert!(!sp.permits_transition_to("settle/cove"));
    assert_eq!(sp.body, "Read the room.");
    assert_eq!(StatePrompt::repo_path("twitter/perceive_feed"), "prompts/twitter/perceive_feed.md");
}

#[test]
fn minimal_prompt_has_no_mcp_or_transitions() {
    let sp = StatePrompt::parse("settle", "---\nstate: settle\n---\nAct.").unwrap();
    assert_eq!(sp.state, ConsciousnessState::Settle);
    assert!(sp.mcp.is_empty());
    assert!(sp.transitions.is_empty());
}

#[test]
fn context_config_parses_tag_key_and_runlog_views() {
    // Absent → defaults: memory on, no tag_key, environment 10, conversation 0.
    let sp = StatePrompt::parse("p", "---\nstate: perceive\n---\nx").unwrap();
    assert!(sp.context.is_none());
    let c = sp.context();
    assert!(c.memory && !c.tag_key);
    assert_eq!((c.runlog.environment, c.runlog.conversation), (10, 0));
    // Declared → tag_key on + two-view runlog; unset fields keep their defaults.
    let sp = StatePrompt::parse(
        "p",
        "---\nstate: perceive\ncontext: { tag_key: true, runlog: { environment: 40, conversation: 40 } }\n---\nx",
    )
    .unwrap();
    let c = sp.context();
    assert!(c.memory && c.tag_key);
    assert_eq!((c.runlog.environment, c.runlog.conversation), (40, 40));
    // Partial runlog → named field overrides, the other defaults.
    let sp = StatePrompt::parse("p", "---\nstate: perceive\ncontext: { runlog: { conversation: 20 } }\n---\nx").unwrap();
    let c = sp.context();
    assert_eq!((c.runlog.environment, c.runlog.conversation), (10, 20));
}

#[test]
fn resume_marker_splits_body_into_fresh_and_lean() {
    // With a `---resume---` line: before = fresh body, after = lean resume body.
    let sp = StatePrompt::parse(
        "telegram/perceive",
        "---\nstate: perceive\n---\nFull teaching here.\n\n---resume---\nYou're resuming. Only new stuff.",
    )
    .unwrap();
    assert_eq!(sp.body, "Full teaching here.");
    assert_eq!(sp.resume_body.as_deref(), Some("You're resuming. Only new stuff."));

    // No marker: body is the whole thing, resume_body None.
    let sp = StatePrompt::parse("settle", "---\nstate: settle\n---\nAct.").unwrap();
    assert_eq!(sp.body, "Act.");
    assert_eq!(sp.resume_body, None);
}

#[test]
fn reply_key_fields_default_and_declared() {
    // Declared → that one field; the model's `reply_to` is matched against it.
    let sp = StatePrompt::parse(
        "telegram/perceive",
        "---\nstate: perceive\nreply_key: message_id\ntransitions: [telegram/express]\n---\nRead.",
    )
    .unwrap();
    assert_eq!(sp.reply_key_fields(), vec!["message_id"]);
    // Unset → the platform-agnostic default (message_id, then id).
    let sp = StatePrompt::parse("settle", "---\nstate: settle\n---\nAct.").unwrap();
    assert_eq!(sp.reply_key_fields(), vec!["message_id", "id"]);
}

#[test]
fn a_prompt_that_cannot_be_read_is_refused() {
    assert!(matches!(StatePrompt::parse("p", "no fence"), Err(DackError::Stimulus(_))));
    assert!(matches!(StatePrompt::parse("p", "---\nstate: dreaming\n---\nx"), Err(DackError::Stimulus(_))));
    assert!(matches!(StatePrompt::parse("p", "---\nstate: [\n---\nx"), Err(DackError::Stimulus(_))));
}

#[test]
fn an_absent_prompt_does_not_resolve() {
    assert_eq!(
        StatePrompt::resolve("ghost", "").unwrap_err().text(),
        "stimulus: state-prompt `ghost` not found at prompts/ghost.md"
    );
    let why = |text: &str| StatePrompt::parse("p", text).unwrap_err().text();
    assert_eq!(why("no fence"), "stimulus: missing leading `---` frontmatter fence");
    assert_eq!(why("---\nstate: perceive\n"), "stimulus: unterminated frontmatter fence");
    assert_eq!(why("---\nmodel: m\n---\nx"), "stimulus: state-prompt `p` frontmatter: missing field `state`");
    assert!(why("---\nstate: [\n---\nx").starts_with("stimulus: state-prompt `p` frontmatter: "));
    assert!(StatePrompt::resolve("ghost", "  \n").is_err());
    let sp = StatePrompt::resolve("p", "---\nstate: express\nmodel: m\nsession: { sticky: true, key: [chat.id] }\n---\nx").unwrap();
    assert_eq!(sp.model.as_deref(), Some("m"));
    let session = sp.session.unwrap();
    assert!(session.sticky);
    assert_eq!(session.key, vec!["chat.id"]);
}

#[test]
fn only_a_line_of_its_own_marks_the_resume_body() {
    assert_eq!(split_resume("a\n  ---resume---  \nb"), ("a".to_string(), Some("b".to_string())));
    assert_eq!(split_resume("a ---resume--- b"), ("a ---resume--- b".to_string(), None));
}

#[test]
fn parses_agent_def_and_renders_options_value() {
    let text = "---\ndescription: a coder\ntools: [Read, Write, Bash, Task]\nmodel: inherit\nmaxTurns: 40\nisolation: worktree\n---\nYou are a coding worker. Build to the brief.\n";
    let a = AgentDef::parse("coder", text).unwrap();
    assert_eq!(a.id, "coder");
    assert_eq!(a.fm.isolation.as_deref(), Some("worktree"));
    assert_eq!(a.prompt, "You are a coding worker. Build to the brief.");
    let v = a.to_options_value();
    assert_eq!(v.get("description"), Some(&json("\"a coder\"")));
    assert_eq!(v.get("prompt"), Some(&json("\"You are a coding worker. Build to the brief.\"")));
    assert_eq!(v.get("tools"), Some(&json("[\"Read\", \"Write\", \"Bash\", \"Task\"]")));
    assert_eq!(v.get("maxTurns"), Some(&json("40")));
    // `inherit` model + harness-only isolation are not sent to the SDK.
    assert!(v.get("model").is_none());
    assert!(v.get("isolation").is_none());
}

#[test]
fn an_agent_names_its_model_tools_and_volumes() {
    let text = "---\ndescription: d\ndisallowedTools: [Bash]\nmodel: m1\nvolumes:\n  - { source: memory, target: /mnt/m }\n---\nBody.";
    let a = AgentDef::parse("x/y", text).unwrap();
    let v = a.to_options_value();
    assert_eq!(v.get("model"), Some(&json("\"m1\"")));
    assert_eq!(v.get("disallowedTools"), Some(&json("[\"Bash\"]")));
    assert!(v.get("tools").is_none());
    assert!(v.get("maxTurns").is_none());
    assert_eq!(a.fm.volumes[0].source, "memory");
    assert_eq!(a.fm.volumes[0].target.as_deref(), Some("/mnt/m"));
    assert_eq!(AgentDef::repo_path("x/y"), "agents/x/y.md");
    assert!(matches!(AgentDef::parse("x", "plain"), Err(DackError::Stimulus(_))));
    let why = AgentDef::parse("x", "---\ntools: [Read]\n---\nno description").unwrap_err().text();
    assert_eq!(why, "stimulus: agent `x` frontmatter: missing field `description`");
}
