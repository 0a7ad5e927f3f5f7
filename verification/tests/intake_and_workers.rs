use dack::agent_def::{AgentDef, Volume};
use dack::bus::Bus;
use dack::cli::{
    build_runtime, kill_error, legacy_target, may_say, push_targets, reconcile_commit, remote_target,
    status_report,
};
use dack::config::{Connector, DackConfig, IdentityRole, ModuleConfig, WorkerSandboxConfig};
use dack::error::DackError;
use dack::harness::ingest::{
    cursor_gt, direct_candidates, plan, seed_trust, sense_env, take_in, watermark, IngestPlan,
};
use dack::harness::modules::{
    after_run, module_names, module_process, RunOutcome, Supervision, BACKOFF_START,
};
use dack::harness::workers::{
    honored_spawn, runs_in_container, worker_completion, worker_mounts, worker_policy,
};
use dack::identity::Did;
use dack::json::Json;
use dack::model::proposal::{AgentOutput, SpawnRequest};
use dack::model::stimulus::{StimulusId, StimulusType, TrustTier};
use dack::queue::InMemoryQueue;
use dack::repo::gitcore::GitCore;
use dack::repo::multi::PushTarget;
use dack::sandbox::NetworkPolicy;
use dack::sensor::{parse_candidates, SensorCandidate};
use dack::state::ConsciousnessState;
use dack::stimuli::{Found, Registry};
use dack::strmap::StrMap;

const NOW: i64 = 1_780_000_000;

fn json(text: &str) -> Json {
    Json::parse(text).unwrap()
}

fn map(pairs: &[(&str, &str)]) -> StrMap<String> {
    let mut m = StrMap::new();
    for (k, v) in pairs {
        m.insert(k.to_string(), v.to_string());
    }
    m
}

fn config(yaml: &str) -> DackConfig {
    match DackConfig::from_yaml(yaml) {
        Ok(c) => c,
        Err(e) => panic!("{}", e.text()),
    }
}

fn registry(id: &str, text: &str) -> Registry {
    Registry::load(&vec![Found::File {
        path: format!("stimuli/{id}/STIMULUS.md"),
        text: Ok(text.to_string()),
    }])
}

const POLLER: &str = "---\nid: poller\ntrigger: { type: cron, schedule: \"* * * * *\" }\n\
     sensor: ./scripts/emit.sh\ndirective_tier: self\n\
     emits:\n  type: poll_item\n  default_payload_tier: public\n\
     coalesce: { mode: batch, window_sec: 600, dedup_key: thread }\n\
     entry: perceive\n---\nPoll directive.\n";

/// What a fire does, with a sensor that is a function of its environment.
fn process(
    cfg: &DackConfig,
    reg: &Registry,
    bus: &mut Bus,
    def_id: &str,
    now: i64,
    sensor: &dyn Fn(&StrMap<String>) -> String,
) -> Vec<StimulusId> {
    match plan(reg, def_id, "/soul") {
        IngestPlan::Drop => vec![],
        IngestPlan::Direct => panic!("the duty has a sensor"),
        IngestPlan::Sense { cursor, .. } => {
            let (key, variable) = match cursor {
                Some((k, v)) => (Some(k), Some(v)),
                None => (None, None),
            };
            let since = key.as_ref().and_then(|k| bus.queue.get_cursor(k));
            let env = sense_env(StrMap::new(), &StrMap::new(), &variable, &since);
            let found = parse_candidates(&sensor(&env)).unwrap();
            let def = reg.get(def_id).unwrap();
            let seed = seed_trust(cfg, def, Some(b"script"));
            take_in(bus, def, &found, now, &seed)
        }
    }
}

#[test]
fn cron_fire_runs_a_script_and_registers_a_deduped_row() {
    let cfg = config("operator_did: \"did:key:zOp\"");
    let reg = registry("poller", POLLER);
    let mut bus = Bus::new(&cfg, InMemoryQueue::new());
    let ids = process(&cfg, &reg, &mut bus, "poller", 1000, &|_| {
        "{\"type\":\"poll_item\",\"payload\":{\"n\":1},\"dedup_key\":\"t1\"}\n\
         {\"type\":\"poll_item\",\"payload\":{\"n\":2},\"dedup_key\":\"t1\"}\n"
            .to_string()
    });
    assert_eq!(ids.len(), 1, "two candidates coalesced into one wake");
    assert_eq!(bus.queue.depth(), 1, "exactly one deduped row queued");
    let row = bus.queue.next(NOW).unwrap();
    let items = row.payload.get("items").and_then(|v| v.as_array()).unwrap();
    assert_eq!(items.len(), 2, "both polled items folded into the row");
}

fn found(id: &str) -> SensorCandidate {
    SensorCandidate {
        type_: StimulusType::named("m"),
        payload: json(&format!("{{\"id\": \"{id}\"}}")),
        dedup_key: None,
        payload_tier: None,
    }
}

#[test]
fn watermark_is_numeric_then_lexical() {
    // Numeric max (a snowflake id), not lexical.
    assert_eq!(watermark(&vec![found("99"), found("100"), found("250")], "id").as_deref(), Some("250"));
    // Lexical fallback for non-integer values.
    assert_eq!(watermark(&vec![found("abc"), found("abd")], "id").as_deref(), Some("abd"));
    // Missing field → no watermark.
    assert_eq!(watermark(&vec![found("1")], "nope"), None);
    assert!(cursor_gt("100", "99") && !cursor_gt("99", "100"));
    assert!(cursor_gt("b", "a") && !cursor_gt("a", "a"));
}

#[test]
fn cursor_dedup_injects_and_advances_watermark() {
    let cfg = config("operator_did: \"did:key:zOp\"");
    let reg = registry(
        "mtest",
        "---\nid: mtest\ntrigger: { type: cron, schedule: \"* * * * *\" }\n\
         sensor: ./scripts/emit.sh\ndirective_tier: self\n\
         emits:\n  type: mention\n  default_payload_tier: public\n\
         cursor: { field: id, env: DACK_SINCE_ID }\nentry: perceive\n---\nPoll.\n",
    );
    let sensor = |env: &StrMap<String>| {
        let since = env.get("DACK_SINCE_ID").map(String::as_str).unwrap_or("none");
        format!("{{\"type\":\"mention\",\"payload\":{{\"id\":\"500\",\"saw_since\":\"{since}\"}}}}\n")
    };
    let mut bus = Bus::new(&cfg, InMemoryQueue::new());

    // First poll: no watermark yet → sensor sees none; cursor advances to 500.
    process(&cfg, &reg, &mut bus, "mtest", 1000, &sensor);
    assert_eq!(bus.queue.get_cursor("mtest").as_deref(), Some("500"));
    let row1 = bus.queue.next(NOW).unwrap();
    assert_eq!(row1.payload.get_str("saw_since").unwrap(), "none", "first poll injects no watermark");

    // Second poll: the harness fetches the stored 500 and injects it into the sensor env.
    process(&cfg, &reg, &mut bus, "mtest", 1001, &sensor);
    let row2 = bus.queue.next(NOW).unwrap();
    assert_eq!(row2.payload.get_str("saw_since").unwrap(), "500", "stored watermark was injected");
}

#[test]
fn unknown_duty_is_dropped_quietly() {
    let cfg = config("operator_did: \"did:key:zOp\"");
    let reg = Registry { defs: vec![], errors: vec![] };
    let mut bus = Bus::new(&cfg, InMemoryQueue::new());
    let ids = process(&cfg, &reg, &mut bus, "ghost", 1, &|_| String::new());
    assert!(ids.is_empty());
}

#[test]
fn a_request_without_a_sensor_is_its_own_stimulus() {
    let reg = registry(
        "inbox",
        "---\nid: inbox\ntrigger: { type: webhook, path: /in }\ndirective_tier: self\n\
         emits: { type: msg }\ncoalesce: { mode: latest, dedup_key: thread }\nentry: perceive\n---\nx",
    );
    assert!(matches!(plan(&reg, "inbox", "/soul"), IngestPlan::Direct));
    let def = reg.get("inbox").unwrap();
    let c = direct_candidates(def, "{\"thread\": \"t7\", \"text\": \"hi\"}");
    assert_eq!(c.len(), 1);
    assert_eq!(c[0].type_, StimulusType::named("msg"));
    assert_eq!(c[0].dedup_key.as_deref(), Some("t7"));
    // A chat is keyed by its number too.
    let c = direct_candidates(def, "{\"thread\": 7}");
    assert_eq!(c[0].dedup_key.as_deref(), Some("7"));
    let c = direct_candidates(def, "plain words");
    assert_eq!(c[0].payload, json("\"plain words\""));
}

#[test]
fn trust_is_seeded_by_where_a_stimulus_came_from() {
    let cfg = config("operator_did: x\nwebhooks: { /in: self }\n");
    let hook = |path: &str| {
        registry(
            "inbox",
            &format!(
                "---\nid: inbox\ntrigger: {{ type: webhook, path: {path} }}\ndirective_tier: self\nemits: {{ type: m }}\nentry: p\n---\nx"
            ),
        )
    };
    assert_eq!(seed_trust(&cfg, hook("/in").get("inbox").unwrap(), None), TrustTier::self_());
    assert_eq!(seed_trust(&cfg, hook("/other").get("inbox").unwrap(), None), TrustTier::public());
    let reg = registry("poller", POLLER);
    assert_eq!(seed_trust(&cfg, reg.get("poller").unwrap(), Some(b"unsigned")), TrustTier::public());
}

fn module(name: &str, enabled: bool) -> ModuleConfig {
    ModuleConfig {
        name: name.into(),
        command: vec!["run".into(), name.into()],
        secrets: vec![],
        env: map(&[("A", "own")]),
        cwd: None,
        enabled,
    }
}

#[test]
fn disabled_modules_are_not_started() {
    let all = vec![module("noop", false), module("live", true)];
    assert_eq!(module_names(&all, true), vec!["live"]);
    assert_eq!(module_names(&all, false), vec!["noop"]);
    assert!(module_names(&vec![module("noop", false)], true).is_empty());
}

#[test]
fn exited_module_is_restarted_then_stops_on_shutdown() {
    let quick = RunOutcome::Exited { uptime_ms: 5 };
    // The first restart waits a second; the next ones wait longer, up to the cap.
    let mut backoff = BACKOFF_START;
    let mut waits = vec![];
    for _ in 0..7 {
        match after_run(backoff, quick, false) {
            Supervision::Restart { wait_secs, backoff: b } => {
                waits.push(wait_secs);
                backoff = b;
            }
            Supervision::Stop => panic!("it is restarted"),
        }
    }
    assert_eq!(waits, vec![1, 2, 4, 8, 16, 30, 30]);
    // A healthy run starts the curve anew.
    assert!(matches!(
        after_run(30, RunOutcome::Exited { uptime_ms: 60_000 }, false),
        Supervision::Restart { wait_secs: 1, .. }
    ));
    assert!(matches!(after_run(1, RunOutcome::SpawnFailed, false), Supervision::Restart { .. }));
    assert!(matches!(after_run(1, quick, true), Supervision::Stop));
    assert!(matches!(after_run(1, RunOutcome::Shutdown, false), Supervision::Stop));
}

#[test]
fn a_module_runs_with_its_own_environment() {
    let m = module("live", true);
    let spec = module_process(&m, Some(&map(&[("TOKEN", "t"), ("A", "secret")])), "/soul");
    assert_eq!(spec.command, vec!["run", "live"]);
    assert_eq!(spec.cwd, "/soul");
    assert_eq!(spec.env.get("TOKEN").map(String::as_str), Some("t"));
    assert_eq!(spec.env.get("A").map(String::as_str), Some("secret"));
}

#[test]
fn only_express_delegates() {
    let mut out = AgentOutput::default();
    assert!(honored_spawn(ConsciousnessState::Express, &out).is_none());
    out.spawn = Some(SpawnRequest { agent: "coder".into(), brief: "b".into() });
    assert_eq!(honored_spawn(ConsciousnessState::Express, &out).unwrap().agent, "coder");
    assert!(honored_spawn(ConsciousnessState::Perceive, &out).is_none());
}

#[test]
fn a_worker_is_held_in_its_workspace() {
    let sandbox = WorkerSandboxConfig {
        enabled: true,
        image: "img".into(),
        memory: "2g".into(),
        pids_limit: 64,
        require: false,
    };
    let def = AgentDef::parse("coder", "---\ndescription: d\nisolation: docker\n---\nx").unwrap();
    assert!(runs_in_container(&def, &sandbox));
    let plain = AgentDef::parse("coder", "---\ndescription: d\n---\nx").unwrap();
    assert!(!runs_in_container(&plain, &sandbox));
    let policy = worker_policy(&sandbox);
    assert!(matches!(policy.network, NetworkPolicy::Full));
    assert_eq!((policy.pids_limit, policy.memory.as_deref(), policy.image.as_str()), (Some(64), Some("2g"), "img"));
    let mounts = worker_mounts(
        "/soul",
        "/soul/workspaces/r1",
        &vec![Volume { source: "memory".into(), target: None }],
    );
    assert_eq!(mounts.len(), 2);
    assert!(mounts[0].writable && mounts[0].host == "/soul/workspaces/r1");
    assert!(!mounts[1].writable && mounts[1].host == "/soul/memory" && mounts[1].guest == "/mnt/memory");
    let s = worker_completion(&config("operator_did: x"), "coder", "done", NOW);
    assert_eq!(s.payload_tier, TrustTier::public());
    assert_eq!(s.entry, "perceive");
    assert!(s.payload.to_text().contains("done"));
}

#[test]
fn the_command_line_reports_and_refuses() {
    let report = status_report(3, 2, &vec![("stimuli/x.md".to_string(), "bad".to_string())]);
    assert_eq!(
        report,
        "queue:  3 pending\nduties: 2 registered, 1 malformed\n  ! stimuli/x.md: bad\n"
    );
    assert!(matches!(kill_error(), DackError::NotImplemented(_)));
    assert!(may_say(Some(&Did("d".into()))).is_ok());
    assert!(matches!(may_say(None), Err(DackError::Config(_))));
    let (paths, meta) = reconcile_commit(&GitCore::parse_status(" M a\n?? b\n"), "did:op");
    assert_eq!(paths.len(), 2);
    assert_eq!(meta.author_did, "did:op");
    assert!(meta.message.contains("2 external"));
}

#[test]
fn a_runtime_is_built_from_the_config() {
    let cfg = config(
        "operator_did: x\nruntime:\n  engine: { type: openclaude, bridge_dir: /b }\n  \
         connector: { type: opengateway, api_url: 'https://g', api_key: k }\n  model: m\n  env: [LANGUAGE]\n\
         invoke_timeout_secs: 7\n",
    );
    let c = build_runtime(&cfg, &map(&[("PATH", "/bin"), ("LANGUAGE", "en"), ("LEAK", "x")])).unwrap();
    assert_eq!(c.cwd.as_deref(), Some("/b"));
    assert_eq!(c.timeout_ms, 7_000);
    assert!(c.model_via_env);
    assert_eq!(c.env.get("LANGUAGE").map(String::as_str), Some("en"));
    assert!(c.env.get("LEAK").is_none());
    assert_eq!(c.env.get("OPENAI_API_KEY").map(String::as_str), Some("k"));
    assert_eq!(c.env.get("OPENAI_BASE_URL").map(String::as_str), Some("https://g"));
    let anthropic = Connector::Anthropic { api_key: None };
    assert!(!anthropic.model_via_openai_env());
    let cfg = config("operator_did: x\nruntime: { connector: { type: anthropic } }\n");
    assert!(matches!(build_runtime(&cfg, &StrMap::new()), Err(DackError::NotImplemented(_))));
}

#[test]
fn remotes_become_targets() {
    let dirs = vec![(IdentityRole::Soul, "/ids/soul".to_string())];
    let cfg = config(
        "operator_did: x\nsoul_remotes:\n  - { url: 'https://hub/x.git', required: true, auth: { token_env: T, username: bot } }\n  \
         - { url: 'gitlawb://n/x' }\n",
    );
    let targets = push_targets(&cfg, &dirs);
    assert_eq!(targets.len(), 2);
    assert_eq!(targets[0].token_env().as_deref(), Some("T"));
    assert!(targets[0].required());
    assert!(matches!(&targets[1], PushTarget::Gitlawb { key_path, .. } if key_path.starts_with("/ids/soul")));
    // Without the identity there is nothing to sign with.
    assert!(remote_target(&cfg.soul_remotes[1], "node", &vec![]).is_none());
    let legacy = config("operator_did: x\nsoul_remote: 'https://old/x.git'\n");
    assert_eq!(push_targets(&legacy, &dirs)[0].name(), "https://old/x.git");
    assert!(legacy_target("gitlawb://n/x", "node", &vec![]).is_none());
}
