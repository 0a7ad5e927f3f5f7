use dack::config::CoalesceMode;
use dack::model::stimulus::{Priority, StimulusType, TrustTier};
use dack::stimuli::{is_duty_path, DispatchWindow, Found, Registry, StimulusDef, Trigger};
use std::path::Path;

#[test]
fn dispatch_window_parse_contains_and_next_open() {
    // 02:00–05:00 UTC (a normal, non-wrapping window).
    let w = DispatchWindow::parse("02:00-05:00").unwrap();
    assert!(w.contains(3 * 60) && !w.contains(1 * 60) && !w.contains(6 * 60));
    assert_eq!(w.next_open(0), 7_200, "midnight → held until 02:00 today");
    assert_eq!(w.next_open(10_000), 10_000, "inside the window → open now");
    assert_eq!(w.next_open(43_200), 86_400 + 7_200, "noon → 02:00 tomorrow");

    // 22:00–05:00 UTC (wraps midnight).
    let w = DispatchWindow::parse("22:00-05:00").unwrap();
    assert!(w.contains(23 * 60) && w.contains(3 * 60) && !w.contains(12 * 60));
    assert_eq!(w.next_open(43_200), 22 * 3_600, "noon → 22:00 today");
    assert_eq!(w.next_open(23 * 3_600), 23 * 3_600, "23:00 is inside → now");

    // Malformed / degenerate → None.
    assert!(DispatchWindow::parse("nope").is_none());
    assert!(DispatchWindow::parse("25:00-05:00").is_none());
    assert!(DispatchWindow::parse("02:00-02:00").is_none());
}

#[test]
fn a_window_opens_no_earlier_and_within_a_day() {
    let w = DispatchWindow::parse("02:00-05:00").unwrap();
    for at in [-86_401, -1, 0, 7_199, 7_200, 17_999, 18_000, 86_399, 1_700_000_000, i64::MAX - 86_400] {
        let open = w.next_open(at);
        assert!(open >= at && open < at + 86_400, "{at} → {open}");
        assert!(w.contains((open.rem_euclid(86_400) / 60) as u32));
    }
}

const CLARITY: &str = r#"---
id: clarity-reply-guy
trigger: { type: cron, schedule: "0 * * * *" }
sensor: ./scripts/fetch_clarity_posts.sh
directive_tier: self
emits:
  type: clarity_post
  default_payload_tier: public
coalesce: { mode: batch, window_sec: 600, dedup_key: tweet_id }
entry: perceive
priority: low
---
Standing directive (trusted): survey new posts discussing the CLARITY act and engage
as a reply-guy, framing DAC's ministerial-management model as the timely fit. Be
selective; skip low-quality bait.
"#;

#[test]
fn parses_the_clarity_reply_guy_duty() {
    let def = StimulusDef::parse(CLARITY, "stimuli/clarity-reply-guy/STIMULUS.md").unwrap();
    assert_eq!(def.frontmatter.id, "clarity-reply-guy");
    assert_eq!(def.frontmatter.directive_tier, TrustTier::self_());
    assert_eq!(def.frontmatter.emits.type_, StimulusType::named("clarity_post"));
    assert!(matches!(def.frontmatter.trigger, Trigger::Cron { .. }));
    assert!(def.frontmatter.sensor.is_some());
    // self-tier directive → sensor honored.
    assert!(def.sensor_honored());
    // Directive body is the trusted briefing, carried separately from payload.
    assert!(def.directive_body.starts_with("Standing directive (trusted):"));
}

#[test]
fn a_duty_carries_its_policy() {
    let def = StimulusDef::parse(CLARITY, "stimuli/clarity-reply-guy/STIMULUS.md").unwrap();
    assert_eq!(def.frontmatter.entry, "perceive");
    assert_eq!(def.frontmatter.priority, Some(Priority::Low));
    let c = def.frontmatter.coalesce.unwrap();
    assert_eq!(c.mode, CoalesceMode::Batch);
    assert_eq!(c.window_sec, Some(600));
    assert_eq!(c.dedup_key.as_deref(), Some("tweet_id"));
    assert!(def.frontmatter.secrets.is_empty());
    assert!(def.frontmatter.cursor.is_none());
}

#[test]
fn a_cursor_is_kept_under_the_duty_or_its_own_key() {
    let duty = |cursor: &str| {
        let text = format!(
            "---\nid: d\ntrigger: {{ type: cron, schedule: \"0 * * * *\" }}\ndirective_tier: self\nemits: {{ type: t }}\nentry: perceive\ncursor: {cursor}\n---\nx"
        );
        StimulusDef::parse(&text, "stimuli/d/STIMULUS.md").unwrap().frontmatter.cursor.unwrap()
    };
    let plain = duty("{ field: id, env: SINCE }");
    assert_eq!((plain.field.as_str(), plain.env.as_str()), ("id", "SINCE"));
    assert_eq!(plain.key_for("d"), "d");
    assert_eq!(duty("{ field: id, env: SINCE, key: shared }").key_for("d"), "shared");
}

#[test]
fn rejects_missing_frontmatter() {
    assert!(StimulusDef::parse("no frontmatter here", "x.md").is_err());
}

#[test]
fn a_duty_that_cannot_be_read_says_why() {
    let why = |text: &str| StimulusDef::parse(text, "x.md").unwrap_err().text();
    assert_eq!(why("---\nentry: perceive\n---\nx"), "yaml: missing field `id`");
    assert_eq!(why("---\nid: a\ntrigger: { type: tide }\n---\nx"), "yaml: field `trigger`: field `type`: expected cron or webhook");
}

fn cron_duty(id: &str, sensor: Option<&str>) -> String {
    let sensor_line = sensor.map(|s| format!("sensor: {s}\n")).unwrap_or_default();
    format!(
        "---\nid: {id}\ntrigger: {{ type: cron, schedule: \"0 * * * *\" }}\n{sensor_line}\
         directive_tier: self\nemits:\n  type: t_{id}\n  default_payload_tier: public\n\
         entry: perceive\n---\nDirective for {id}.\n"
    )
}

fn file(path: &str, body: &str) -> Found {
    Found::File { path: path.to_string(), text: Ok(body.to_string()) }
}

#[test]
fn walks_duties_skips_malformed_and_resolves_sensor() {
    let found = vec![
        file("stimuli/a/b/DEEP.md", &cron_duty("deep", None)),
        file("stimuli/broken/STIMULUS.md", "no frontmatter at all"),
        file("stimuli/clarity/STIMULUS.md", &cron_duty("clarity", Some("./scripts/fetch.sh"))),
        file("stimuli/heartbeat/STIMULUS.md", &cron_duty("heartbeat", None)),
    ];
    let reg = Registry::load(&found);
    assert_eq!(reg.defs.len(), 2, "two valid duties");
    assert_eq!(reg.errors.len(), 1, "broken one skipped + recorded");
    assert!(reg.errors[0].0.contains("broken"));
    assert!(reg.get("deep").is_none(), "depth>2 excluded");

    // Sensor resolves into the duty's sibling scripts/.
    let clarity = reg.get("clarity").unwrap();
    let sensor = clarity.resolved_sensor("/soul").unwrap();
    assert!(Path::new(&sensor).ends_with("stimuli/clarity/scripts/fetch.sh"), "{sensor:?}");
    // Pure-cron duty has no sensor.
    assert!(reg.get("heartbeat").unwrap().resolved_sensor("/soul").is_none());
}

#[test]
fn derives_cron_and_webhook_routes() {
    let found = vec![
        file(
            "stimuli/inbox/STIMULUS.md",
            "---\nid: inbox\ntrigger: { type: webhook, path: /hooks/inbox }\n\
             directive_tier: self\nemits:\n  type: msg\n  default_payload_tier: public\n\
             entry: perceive\n---\nInbound webhook duty.\n",
        ),
        file("stimuli/poller/STIMULUS.md", &cron_duty("poller", None)),
    ];
    let reg = Registry::load(&found);

    let crons = reg.cron_routes();
    assert_eq!(crons, vec![("poller".to_string(), "0 * * * *".to_string())]);
    let hooks = reg.webhook_routes();
    assert_eq!(hooks, vec![("/hooks/inbox".to_string(), "inbox".to_string())]);
}

#[test]
fn missing_stimuli_dir_is_empty_not_error() {
    let reg = Registry::load(&vec![]);
    assert!(reg.defs.is_empty() && reg.errors.is_empty());
}

#[test]
fn what_could_not_be_listed_is_recorded() {
    let reg = Registry::load(&vec![
        Found::Unlisted { path: "stimuli/x".to_string(), error: "denied".to_string() },
        Found::File { path: "stimuli/y.md".to_string(), text: Err("not utf-8".to_string()) },
        Found::File { path: "stimuli/z.md".to_string(), text: Ok("no fence".to_string()) },
        Found::File { path: "notes.md".to_string(), text: Ok("no duty".to_string()) },
    ]);
    assert!(reg.defs.is_empty());
    assert_eq!(reg.errors.len(), 3);
    assert_eq!(reg.errors[2].1, "stimulus: missing leading `---` frontmatter fence");
    assert!(reg.errors[0].1.contains("denied"));
    assert!(reg.errors[1].1.contains("not utf-8"));
}

#[test]
fn duties_lie_two_levels_deep_at_most() {
    assert!(is_duty_path("stimuli/x.md"));
    assert!(is_duty_path("stimuli/x/STIMULUS.md"));
    assert!(!is_duty_path("stimuli/a/b/DEEP.md"));
    assert!(!is_duty_path("stimuli/x/fetch.sh"));
}
