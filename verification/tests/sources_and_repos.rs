use chrono::{TimeZone, Utc};
use dack::error::DackError;
use dack::harness::soul::reconcile_soul;
use dack::repo::git::PlainGitRepo;
use dack::repo::gitcore::{
    commit_id, git_answer, is_porcelain, nothing_staged, DirEntry, GitCore, Restore, Walk,
};
use dack::repo::gitlawb::{is_transient_push_error, signed_push_env, GitlawbRepo};
use dack::repo::multi::{after_push, MultiRemoteRepo, PushStep, PushTarget};
use dack::repo::{CommitMeta, RepoChange, RepoPath};
use dack::sensor::{parse_candidates, scripts_honored, SensorRun, SubprocessSensor};
use dack::sources::cron::{next_fire, normalize_cron, parse_cron, CronWheel, PARKED_MS};
use dack::state::ConsciousnessState;
use dack::strmap::StrMap;
use dack::webserver::{fire, handed_on, Route, Routes};
use dack::model::stimulus::TrustTier;

#[test]
fn normalizes_five_field_cron() {
    assert_eq!(normalize_cron("0 * * * *"), "0 0 * * * *");
    assert_eq!(normalize_cron("* * * * * *"), "* * * * * *"); // 6-field untouched
}

#[test]
fn next_fire_is_deterministic() {
    // Hourly at minute 0. From 09:30:00Z the next fire is 10:00:00Z.
    let sched = parse_cron("0 * * * *").unwrap();
    let after = Utc.with_ymd_and_hms(2026, 6, 5, 9, 30, 0).unwrap();
    let next = next_fire(&sched, after.timestamp()).unwrap();
    assert_eq!(next, Utc.with_ymd_and_hms(2026, 6, 5, 10, 0, 0).unwrap().timestamp());
}

#[test]
fn rejects_garbage_cron() {
    assert!(parse_cron("not a cron").is_err());
}

#[test]
fn fires_a_trigger_on_a_fast_schedule() {
    let mut wheel = CronWheel::new();
    let refused = wheel.reschedule(&vec![("tick".to_string(), "* * * * * *".to_string())]); // every second
    assert!(refused.is_empty());
    let now = 1_780_000_000;
    assert_eq!(wheel.soonest(now), Some(now + 1));
    let fired = wheel.due(now, now + 2);
    assert_eq!(fired[0].def_id, "tick");
    assert!(fired[0].payload.is_empty());
}

#[test]
fn a_wheel_waits_for_its_soonest_duty() {
    let mut wheel = CronWheel::new();
    assert_eq!(wheel.wait_ms(0, 0), PARKED_MS);
    let refused = wheel.reschedule(&vec![
        ("hourly".to_string(), "0 * * * *".to_string()),
        ("broken".to_string(), "nonsense".to_string()),
        ("minutely".to_string(), "* * * * *".to_string()),
    ]);
    assert_eq!(refused.len(), 1);
    assert_eq!(refused[0].0, "broken");
    assert_eq!(
        refused[0].1.text(),
        "stimulus: bad cron `nonsense`: Invalid expression: Invalid cron expression."
    );
    assert_eq!(wheel.soonest(30), Some(60));
    assert_eq!(wheel.wait_ms(30, 30_250), 29_750);
    let ids = |since: i64, now: i64| -> Vec<String> {
        wheel.due(since, now).into_iter().map(|f| f.def_id).collect()
    };
    assert!(ids(30, 59).is_empty());
    assert_eq!(ids(30, 60), vec!["minutely"]);
    assert_eq!(ids(3_590, 3_600), vec!["hourly", "minutely"]);
}

fn routes(pairs: &[(&str, &str)]) -> Vec<(String, String)> {
    pairs.iter().map(|(a, b)| (a.to_string(), b.to_string())).collect()
}

#[test]
fn matched_post_emits_a_fired_trigger() {
    let mut l = Routes::new();
    l.set_routes(&routes(&[("/hooks/inbox", "inbox")]));
    let Route::Wake(def_id) = l.route(true, "/hooks/inbox") else { panic!("the path is routed") };
    let fired = fire(def_id, Some(b"ping".to_vec())).unwrap();
    assert_eq!(fired.def_id, "inbox");
    assert_eq!(fired.payload, b"ping");
    assert_eq!(handed_on(true), 202);
}

#[test]
fn unknown_path_is_404_and_emits_nothing() {
    let mut l = Routes::new();
    l.set_routes(&routes(&[("/hooks/inbox", "inbox")]));
    assert!(matches!(l.route(true, "/nope"), Route::Refuse(404)));
}

#[test]
fn non_post_is_rejected() {
    let mut l = Routes::new();
    l.set_routes(&routes(&[("/hooks/inbox", "inbox")]));
    assert!(matches!(l.route(false, "/hooks/inbox"), Route::Refuse(405)));
}

#[test]
fn routes_hot_reload() {
    let mut l = Routes::new();
    l.set_routes(&routes(&[("/old", "d")]));
    l.set_routes(&routes(&[("/new", "d")])); // replaces, not merges
    assert!(matches!(l.route(true, "/old"), Route::Refuse(404)));
    assert!(matches!(l.route(true, "/new"), Route::Wake(d) if d == "d"));
}

#[test]
fn a_request_that_cannot_be_taken_is_answered() {
    assert_eq!(fire("d".to_string(), None).unwrap_err(), 400);
    assert_eq!(handed_on(false), 503);
}

#[test]
fn classifies_transient_vs_permanent_push_errors() {
    assert!(is_transient_push_error(
        "repo: git push gitlawb://…/dack-soul HEAD:refs/heads/main: Error: POST \
         /git-receive-pack returned 500 Internal Server Error\nsend-pack: unexpected \
         disconnect while reading sideband packet\nfatal: the remote end hung up unexpectedly"
    ));
    assert!(is_transient_push_error("fatal: unable to access: Connection reset by peer"));
    assert!(is_transient_push_error("error: RPC failed; HTTP 503 Service Unavailable"));
    // Permanent rejections → fail fast (retrying can't fix them).
    assert!(!is_transient_push_error("remote: 403 Forbidden — not authorized to push"));
    assert!(!is_transient_push_error(
        "! [rejected] main -> main (non-fast-forward)\nUpdates were rejected"
    ));
    assert!(!is_transient_push_error("fatal: could not read Username: terminal prompts disabled"));
}

fn target(name: &str, required: bool) -> PushTarget {
    PushTarget::Git { name: name.into(), url: format!("/{name}.git"), token: None, required }
}

fn fault() -> Result<(), DackError> {
    Err(DackError::Repo("does not appear to be a git repository".into()))
}

#[test]
fn fans_out_to_multiple_remotes_and_tolerates_a_down_best_effort_one() {
    let targets = vec![target("primary", true), target("mirror", false), target("dead-mirror", false)];
    let mut repo = MultiRemoteRepo::new("/work".into(), "did:key:zSoul".into(), targets);
    repo.committed();
    assert!(repo.needs_push());
    assert_eq!(repo.target_names(), vec!["primary", "mirror", "dead-mirror"]);
    // Both reachable remotes get the ref; the dead best-effort one is swallowed → Ok.
    assert!(repo.pushed(vec![Ok(()), Ok(()), fault()]).is_ok());
    assert!(!repo.needs_push());
}

#[test]
fn a_required_target_failure_propagates() {
    let mut repo = MultiRemoteRepo::new("/work".into(), "did:key:zSoul".into(), vec![target("primary", true)]);
    repo.committed();
    assert!(repo.pushed(vec![fault()]).is_err(), "a required target failure must surface");
    assert!(repo.needs_push(), "and is tried again");
}

#[test]
fn a_transient_failure_is_tried_again_a_few_times() {
    let transient = || Err(DackError::Repo("returned 503".to_string()));
    let mut waits = vec![];
    let mut attempt = 1;
    loop {
        match after_push(attempt, transient()) {
            PushStep::Retry { wait_ms } => waits.push(wait_ms),
            PushStep::Failed(_) => break,
            PushStep::Done => panic!("it failed"),
        }
        attempt += 1;
    }
    assert_eq!(attempt, 4);
    assert_eq!(waits.len(), 3);
    assert!(waits.windows(2).all(|w| w[0] < w[1]));
    assert!(matches!(after_push(1, Ok(())), PushStep::Done));
    assert!(matches!(after_push(1, Err(DackError::Repo("403".to_string()))), PushStep::Failed(_)));
}

#[test]
fn a_token_goes_by_the_environment() {
    let t = PushTarget::Git {
        name: "hub".into(),
        url: "https://hub/x.git".into(),
        token: Some(("bot".into(), "HUB_TOKEN".into())),
        required: true,
    };
    assert_eq!(t.token_env().as_deref(), Some("HUB_TOKEN"));
    let plan = t.plan(&Some("SECRETVAL".to_string())).unwrap();
    assert_eq!(plan.url, "https://hub/x.git");
    assert!(plan.config.iter().all(|a| !a.contains("SECRETVAL")));
    assert!(plan.env.iter().any(|(_, v)| v == "SECRETVAL"));
    assert!(t.plan(&None).is_err(), "a missing token is an error");
    assert!(target("plain", false).plan(&None).unwrap().env.is_empty());
}

#[test]
fn a_node_is_pushed_to_with_the_soul_key() {
    let env = signed_push_env("/ids/soul/key", "https://node");
    assert!(env.iter().any(|(_, v)| v == "/ids/soul/key"));
    assert!(env.iter().any(|(_, v)| v == "https://node"));
    let repo = GitlawbRepo::new(
        "/w".into(),
        "did".into(),
        "gitlawb://x".into(),
        "/ids/soul".into(),
        "https://node".into(),
    );
    assert!(repo.push_env().iter().any(|(_, v)| v.starts_with("/ids/soul")));
    assert!(PlainGitRepo::new("/w".into(), "did".into()).remote.is_none());
}

fn meta(m: &str) -> CommitMeta {
    CommitMeta { message: m.into(), author_did: "did:key:zSoul".into() }
}

#[test]
fn write_read_list_and_revert_round_trip() {
    let core = GitCore::new("/repo".into(), "did:key:zSoul".into());
    let path = RepoPath("memory/log.md".into());
    assert_eq!(core.file(&path), "/repo/memory/log.md");
    assert_eq!(core.argv(&GitCore::add_args(&path)), vec!["-C", "/repo", "add", "--", "memory/log.md"]);

    // Unchanged content must not create a new commit.
    assert!(nothing_staged(""));
    assert!(!nothing_staged("memory/log.md\n"));
    let args = GitCore::commit_args(&path, &meta("second"));
    assert!(args.contains(&"second".to_string()));
    assert!(args.iter().any(|a| a.contains("did:key:zSoul")));
    assert_eq!(commit_id("abc123\n").0, "abc123");

    // Listing sees the file, two levels deep.
    let mut walk = Walk::new(&RepoPath("memory".into()), 2);
    let (dir, depth) = walk.next().unwrap();
    assert_eq!(dir, "memory");
    walk.visit(
        &dir,
        depth,
        &vec![
            DirEntry { name: "log.md".into(), is_dir: false },
            DirEntry { name: ".git".into(), is_dir: true },
        ],
    );
    assert!(walk.next().is_none(), "the repository itself is not walked");
    let listed = walk.finish();
    assert!(listed.iter().any(|p| p.0 == "memory/log.md"));

    // With a version before the last, a revert checks that version out.
    let args = GitCore::revert_args(&path, "new111\nold222\n");
    assert!(args.contains(&"checkout".to_string()) && args.contains(&"old222".to_string()));
    // With none, it removes the file.
    assert!(GitCore::revert_args(&path, "new111\n").contains(&"rm".to_string()));
    assert!(core.revert_commit(&path).message.contains("memory/log.md"));
}

#[test]
fn status_sweep_and_tripwire_revert() {
    let core = GitCore::new("/repo".into(), "did:key:zSoul".into());
    let out = " M memory/log.md\n?? skills/evil/SKILL.md\n";
    assert!(is_porcelain(out));
    // status sees both (one modified, one untracked).
    let changes = GitCore::parse_status(out);
    assert!(changes.iter().any(|c| c.path.0 == "memory/log.md" && !c.is_untracked()));
    let evil = changes.iter().find(|c| c.path.0 == "skills/evil/SKILL.md").unwrap();
    assert!(evil.is_untracked(), "new skill file is untracked");

    // Tripwire: a forbidden untracked write is removed, a tracked one checked out.
    assert!(matches!(core.restore_plan(evil), Restore::Remove(p) if p == "/repo/skills/evil/SKILL.md"));
    assert!(matches!(core.restore_plan(&changes[0]), Restore::Checkout(a) if a.contains(&"memory/log.md".to_string())));

    // Sweep: only the allowlisted memory path is committed.
    let sweep = reconcile_soul(ConsciousnessState::Express, GitCore::parse_status(out));
    assert_eq!(sweep.allowed, vec![RepoPath("memory/log.md".into())]);
    assert_eq!(sweep.reverted.len(), 1);
    let args = GitCore::commit_paths_args(&sweep.allowed, &meta("run-x express: sweep"));
    assert!(args.contains(&"memory/log.md".to_string()));
}

#[test]
fn push_to_local_bare_remote_offline() {
    assert_eq!(
        GitCore::push_args("origin", "main\n", &vec![]),
        vec!["push", "origin", "HEAD:refs/heads/main"]
    );
    let config = vec!["credential.helper=x".to_string()];
    let args = GitCore::push_args("origin", "main\n", &config);
    assert_eq!(args[..2], ["-c", "credential.helper=x"]);
    let ok = git_answer(&args, true, "out".to_string(), "err");
    assert_eq!(ok.unwrap(), "out");
    let failed = git_answer(&args, false, String::new(), "fatal: nope\n");
    assert!(matches!(failed, Err(DackError::Repo(m)) if m.contains("fatal: nope") && m.contains("push")));
}

#[test]
fn a_rename_names_where_the_file_went() {
    let changes = GitCore::parse_status("R  old.md -> memory/new.md\n");
    assert_eq!(changes, vec![RepoChange { code: "R ".into(), path: RepoPath("memory/new.md".into()) }]);
    assert!(is_porcelain("x"), "a short line is passed over");
    assert!(!is_porcelain("é  memory/x\n"));
}

#[test]
fn parses_ndjson_from_a_trivial_shell_sensor() {
    let sensor = SubprocessSensor::new();
    let mut env = StrMap::new();
    env.insert("PATH".to_string(), "/bin:/usr/bin".to_string());
    let spec = sensor.process("/bin/sh", env);
    assert_eq!(spec.command, vec!["/bin/sh"]);
    assert!(spec.clear_env);
    // No output and a clean exit: no candidates.
    let run = SensorRun { code: Some(0), success: true, stdout: String::new(), stderr: String::new() };
    assert!(sensor.outcome(&run).expect("trivial sensor runs").is_empty());
}

#[test]
fn a_sensor_speaks_in_lines() {
    let out = "{\"type\":\"mention\",\"payload\":{\"id\":1},\"dedup_key\":\"1\"}\n\n{\"type\":\"mention\",\"payload\":2,\"payload_tier\":\"public\"}\n";
    let rows = parse_candidates(out).unwrap();
    assert_eq!(rows.len(), 2);
    assert_eq!(rows[0].dedup_key.as_deref(), Some("1"));
    assert_eq!(rows[1].payload_tier, Some(TrustTier::public()));
    assert!(matches!(parse_candidates("not json\n"), Err(DackError::Sensor(_))));
    match parse_candidates("\n{\"type\": \"a\", \"payload\": 1}\nnot json\n") {
        Err(DackError::Sensor(m)) => assert_eq!(m, "line 3: expected ident at line 1 column 2"),
        other => panic!("not a sensor error: {other:?}"),
    }
    for (line, why) in [
        ("{\"payload\": 1}", "line 1: missing field `type`"),
        ("{\"type\": \"a\"}", "line 1: missing field `payload`"),
        ("{\"type\": \"a\", \"payload\": 1, \"dedup_key\": 2}", "line 1: field `dedup_key`: expected a string"),
    ] {
        assert_eq!(parse_candidates(line).unwrap_err().text(), format!("sensor: {why}"));
    }
    let sensor = SubprocessSensor::default();
    let failed = SensorRun { code: Some(2), success: false, stdout: String::new(), stderr: "boom".into() };
    assert!(matches!(sensor.outcome(&failed), Err(DackError::Sensor(m)) if m.contains("boom")));
    assert!(SubprocessSensor::timeout_error(30_000).text().contains("30s"));
    assert!(scripts_honored(&TrustTier::self_()) && scripts_honored(&TrustTier::operator()));
    assert!(!scripts_honored(&TrustTier::public()));
}
