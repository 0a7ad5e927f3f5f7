use dack::bus::{can_reckon, merge_batch, Bus};
use dack::config::DackConfig;
use dack::json::Json;
use dack::model::baton::Baton;
use dack::model::stimulus::{Priority, Stimulus, StimulusId, StimulusStatus, StimulusType, TrustTier};
use dack::queue::InMemoryQueue;
use dack::rows::RawRow;
use dack::sensor::SensorCandidate;
use dack::stimuli::StimulusDef;
use dack::strmap::StrMap;

const NOW: i64 = 1_800_000_000;

fn json(text: &str) -> Json {
    Json::parse(text).unwrap()
}

fn bus() -> Bus {
    let config = DackConfig::from_yaml("operator_did: \"did:key:zOp\"").unwrap();
    Bus::new(&config, InMemoryQueue::new())
}

/// A duty whose frontmatter carries the given coalesce policy line (or none).
fn duty(coalesce_line: &str) -> StimulusDef {
    let text = format!(
        "---\nid: mentions\ntrigger: {{ type: cron, schedule: \"0 * * * *\" }}\n\
         directive_tier: self\nemits:\n  type: mention\n  default_payload_tier: public\n\
         {coalesce_line}entry: perceive\n---\nReply-guy duty.\n"
    );
    StimulusDef::parse(&text, "stimuli/mentions/STIMULUS.md").unwrap()
}

fn cand(text: &str, key: &str) -> SensorCandidate {
    SensorCandidate {
        type_: StimulusType::named("mention"),
        payload: json(&format!("{{\"text\": \"{text}\"}}")),
        dedup_key: Some(key.into()),
        payload_tier: None,
    }
}

/// A chat-shaped candidate: a per-chat thread key + chat_id/message_id fields.
fn chat_cand(chat: i64, msg: i64, text: &str) -> SensorCandidate {
    SensorCandidate {
        type_: StimulusType::named("telegram_message"),
        payload: json(&format!("{{\"chat_id\": {chat}, \"message_id\": {msg}, \"text\": \"{text}\"}}")),
        dedup_key: Some(chat.to_string()),
        payload_tier: None,
    }
}

#[test]
fn dispatch_window_defers_a_stimulus_until_the_window_opens() {
    let def = StimulusDef::parse(
        "---\nid: pubgroup\ntrigger: { type: webhook, path: /telegram/pub }\n\
         directive_tier: self\nemits:\n  type: telegram_message\n  default_payload_tier: public\n\
         dispatch_window: \"02:00-05:00\"\nentry: telegram/perceive\n---\nNoisy public group.\n",
        "stimuli/pubgroup/STIMULUS.md",
    )
    .unwrap();

    // Arrives at 00:00 UTC, outside the window → held until 02:00 (7200s).
    let mut b = bus();
    b.ingest(&def, &vec![chat_cand(9, 1, "gm at midnight")], 0, &TrustTier::public());
    let row = b.queue.next(NOW).unwrap();
    assert_eq!(row.pop_after, Some(7_200), "held until the window opens at 02:00 UTC");

    // Arrives at 03:00 UTC, inside the window → no gate.
    let mut b2 = bus();
    b2.ingest(&def, &vec![chat_cand(9, 2, "gm at 3am")], 10_800, &TrustTier::public());
    let row2 = b2.queue.next(NOW).unwrap();
    assert_eq!(row2.pop_after, None, "inside the window → immediately poppable");
}

#[test]
fn batch_hoists_latest_fields_and_sets_pop_after() {
    let mut b = bus();
    let def = StimulusDef::parse(
        "---\nid: tg\ntrigger: { type: webhook, path: /telegram/pub }\n\
         directive_tier: self\nemits:\n  type: telegram_message\n\
         coalesce: { mode: batch, window_sec: 90 }\nentry: telegram/perceive\n---\nGroup.\n",
        "stimuli/tg/STIMULUS.md",
    )
    .unwrap();
    // Three messages in the same chat (thread key = chat_id) at received_at=1000.
    b.ingest(
        &def,
        &vec![chat_cand(7, 1, "gm"), chat_cand(7, 2, "wen"), chat_cand(7, 3, "ser")],
        1000,
        &TrustTier::public(),
    );
    assert_eq!(b.queue.depth(), 1, "the chat folds into one wake");
    assert!(b.queue.next(1089).is_none(), "held while the window runs");
    let row = b.queue.next(NOW).unwrap();
    assert_eq!(row.pop_after, Some(1090), "debounce gate = received_at + window_sec");
    assert_eq!(row.payload.get("chat_id"), Some(&json("7")), "chat hoisted");
    assert_eq!(
        row.payload.get("message_id"),
        Some(&json("3")),
        "the LATEST message_id is hoisted (reply targets the newest)"
    );
    let items = row.payload.get("items").and_then(|v| v.as_array()).unwrap();
    assert_eq!(items.len(), 3, "every message kept in items for context");
    assert_eq!(row.payload.get("_coalesced"), Some(&Json::Bool(true)));
}

#[test]
fn none_keeps_every_candidate() {
    let mut b = bus();
    let def = duty("coalesce: { mode: none }\n");
    let ids = b.ingest(
        &def,
        &vec![cand("a", "t1"), cand("b", "t1"), cand("c", "t1")],
        1000,
        &TrustTier::self_(),
    );
    assert_eq!(ids.len(), 3);
    assert_eq!(b.queue.depth(), 3);
}

#[test]
fn latest_supersedes_prior_pending() {
    let mut b = bus();
    let def = duty("coalesce: { mode: latest, dedup_key: thread_id }\n");
    b.ingest(&def, &vec![cand("old", "t1")], 1000, &TrustTier::self_());
    b.ingest(&def, &vec![cand("new", "t1")], 1001, &TrustTier::self_());
    // Only the newest stays pending; the older is coalesced away.
    assert_eq!(b.queue.depth(), 1);
    let popped = b.queue.next(NOW).unwrap();
    assert_eq!(popped.payload, json("{ \"text\": \"new\" }"));
}

#[test]
fn batch_folds_many_into_one_wake() {
    let mut b = bus();
    let def = duty("coalesce: { mode: batch, window_sec: 600, dedup_key: thread_id }\n");
    let ids = b.ingest(
        &def,
        &vec![cand("m1", "t1"), cand("m2", "t1"), cand("m3", "t1")],
        1000,
        &TrustTier::self_(),
    );
    assert_eq!(ids.len(), 1, "only the first candidate mints a wake");
    assert_eq!(b.queue.depth(), 1);
    let row = b.queue.next(NOW).unwrap();
    let items = row.payload.get("items").and_then(|v| v.as_array()).unwrap();
    assert_eq!(items.len(), 3, "all three folded into the accumulator");
}

#[test]
fn a_fold_takes_its_trust_with_it() {
    let mut b = bus();
    let def = duty("coalesce: { mode: batch, window_sec: 600, dedup_key: thread_id }\n");
    b.ingest(&def, &vec![cand("mine", "t1")], 1000, &TrustTier::self_());
    assert_eq!(b.queue.rows[0].payload_tier, TrustTier::self_());
    // A public item folds in: the row is public from then on.
    let mut public = cand("theirs", "t1");
    public.payload_tier = Some(TrustTier::public());
    b.ingest(&def, &vec![public], 1001, &TrustTier::self_());
    assert_eq!(b.queue.depth(), 1);
    assert_eq!(b.queue.rows[0].payload_tier, TrustTier::public());
    // What is trusted more does not raise it again.
    b.ingest(&def, &vec![cand("mine again", "t1")], 1002, &TrustTier::self_());
    assert_eq!(b.queue.rows[0].payload_tier, TrustTier::public());
    assert_eq!(b.queue.rows[0].payload.get("items").and_then(|v| v.as_array()).unwrap().len(), 3);
    // The tier of where the items come from counts as well.
    let mut b = bus();
    b.ingest(&def, &vec![cand("mine", "t1")], 1000, &TrustTier::self_());
    b.ingest(&def, &vec![cand("theirs", "t1")], 1001, &TrustTier::public());
    assert_eq!(b.queue.rows[0].payload_tier, TrustTier::public());
}

#[test]
fn a_gathered_row_reads_back() {
    let mut b = bus();
    let def = duty("coalesce: { mode: batch, window_sec: 600, dedup_key: thread_id }\n");
    b.ingest(
        &def,
        &vec![cand("m1", "t1"), cand("m2", "t1"), cand("m3", "t1")],
        1000,
        &TrustTier::self_(),
    );
    let row = &b.queue.rows[0];
    assert_eq!(
        row.payload.to_text(),
        "{\"_coalesced\":true,\"items\":[{\"text\":\"m1\"},{\"text\":\"m2\"},{\"text\":\"m3\"}],\"text\":\"m3\"}"
    );
    assert_eq!(RawRow::write(row).read().unwrap().payload, row.payload);
}

#[test]
fn no_field_name_is_special_to_the_reader() {
    let odd = json("{\"a\":1,\"$serde_json::private::RawValue\":\"1\",\"$serde_json::private::Number\":\"2\"}");
    assert_eq!(Json::parse(&odd.to_text()).unwrap(), odd);
    let first = json("{\"$serde_json::private::RawValue\":\"x\"}");
    assert!(first.get("$serde_json::private::RawValue").is_some());
    assert_eq!(Json::parse(&first.to_text()).unwrap(), first);
}

#[test]
fn batch_outside_window_starts_a_new_row() {
    let mut b = bus();
    let def = duty("coalesce: { mode: batch, window_sec: 600, dedup_key: thread_id }\n");
    b.ingest(&def, &vec![cand("early", "t1")], 1000, &TrustTier::self_());
    // 700s later: outside the 600s window → a fresh accumulator, not a fold.
    b.ingest(&def, &vec![cand("late", "t1")], 1700, &TrustTier::self_());
    assert_eq!(b.queue.depth(), 2);
}

#[test]
fn sensor_cannot_raise_tier_above_the_seed() {
    let mut b = bus();
    let def = duty("coalesce: { mode: none }\n");
    // A sensor claims operator_signed to try to escalate above the source-derived seed.
    let candidate = SensorCandidate {
        type_: StimulusType::named("mention"),
        payload: json("{ \"text\": \"trust me\" }"),
        dedup_key: None,
        payload_tier: Some(TrustTier::operator()),
    };
    // Seed = self; the candidate's operator claim is clamped down to the seed (the meet).
    b.ingest(&def, &vec![candidate], 1000, &TrustTier::self_());
    let row = b.queue.next(NOW).unwrap();
    assert_eq!(row.payload_tier, TrustTier::self_(), "a sensor may only LOWER trust, never raise it");
}

#[test]
fn different_keys_do_not_coalesce() {
    let mut b = bus();
    let def = duty("coalesce: { mode: batch, window_sec: 600, dedup_key: thread_id }\n");
    b.ingest(&def, &vec![cand("a", "t1"), cand("b", "t2")], 1000, &TrustTier::self_());
    assert_eq!(b.queue.depth(), 2);
}

#[test]
fn a_sensor_may_lower_the_tier() {
    let mut b = bus();
    let mut c = cand("x", "t1");
    c.payload_tier = Some(TrustTier::public());
    b.ingest(&duty(""), &vec![c], 1000, &TrustTier::self_());
    let row = b.queue.next(NOW).unwrap();
    assert_eq!(row.payload_tier, TrustTier::public());
    assert_eq!(row.directive_tier, TrustTier::self_());
    assert_eq!(row.directive_body, "Reply-guy duty.\n");
    assert_eq!(row.source, "mentions");
    assert_eq!(row.received_at, 1000);
    assert_eq!(row.priority, Priority::Low);
}

#[test]
fn a_third_item_joins_the_first_two() {
    let one = merge_batch(&json("{\"a\":1}"), &json("{\"a\":2}"));
    assert_eq!(one.get("items"), Some(&json("[{\"a\":1},{\"a\":2}]")));
    let two = merge_batch(&one, &json("{\"a\":3}"));
    assert_eq!(two.get("items"), Some(&json("[{\"a\":1},{\"a\":2},{\"a\":3}]")));
    assert_eq!(two.get("a"), Some(&json("3")));
    assert_eq!(two.get("_coalesced"), Some(&Json::Bool(true)));
}

#[test]
fn a_gate_past_the_last_second_cannot_be_reckoned() {
    let def = duty("coalesce: { mode: batch, window_sec: 600 }\n");
    assert!(can_reckon(&def, NOW));
    assert!(!can_reckon(&def, i64::MAX));
    let wide = duty("coalesce: { mode: batch, window_sec: 9223372036854775807 }\n");
    assert!(!can_reckon(&wide, NOW));
}

fn mk(id: &str, prio: Priority, received_at: i64, type_: &str, dedup: Option<&str>) -> Stimulus {
    Stimulus {
        id: StimulusId(id.into()),
        source: "twitter-mentions".into(),
        type_: StimulusType(type_.into()),
        directive_tier: TrustTier::self_(),
        payload_tier: TrustTier::public(),
        payload: json(&format!("{{\"text\": \"{id}\"}}")),
        provenance: None,
        received_at,
        dedup_key: dedup.map(|s| s.into()),
        pop_after: None,
        priority: prio,
        status: StimulusStatus::Pending,
        directive_body: "duty".into(),
        entry: "perceive".into(),
        baton: None,
    }
}

fn pop(q: &mut InMemoryQueue) -> String {
    q.next(NOW).unwrap().id.0
}

#[test]
fn pops_highest_priority_then_oldest() {
    let mut q = InMemoryQueue::new();
    q.enqueue(mk("low", Priority::Low, 100, "mention", None));
    q.enqueue(mk("urgent", Priority::Urgent, 200, "mention", None));
    q.enqueue(mk("normal-old", Priority::Normal, 50, "mention", None));
    q.enqueue(mk("normal-new", Priority::Normal, 90, "mention", None));

    // Urgent first regardless of age.
    assert_eq!(pop(&mut q), "urgent");
    // Then the older of the two Normals (received_at tiebreak), before Low.
    assert_eq!(pop(&mut q), "normal-old");
    assert_eq!(pop(&mut q), "normal-new");
    assert_eq!(pop(&mut q), "low");
    assert!(q.next(NOW).is_none());
}

#[test]
fn next_marks_dispatched_and_depth_counts_pending() {
    let mut q = InMemoryQueue::new();
    q.enqueue(mk("a", Priority::Normal, 1, "mention", None));
    q.enqueue(mk("b", Priority::Normal, 2, "mention", None));
    assert_eq!(q.depth(), 2);
    let popped = q.next(NOW).unwrap();
    assert_eq!(popped.status, StimulusStatus::Dispatched);
    assert_eq!(q.depth(), 1); // dispatched no longer pending
}

#[test]
fn find_coalescable_matches_pending_same_type_and_key() {
    let mut q = InMemoryQueue::new();
    q.enqueue(mk("m1", Priority::Low, 1, "mention", Some("thread-7")));
    q.enqueue(mk("m2", Priority::Low, 2, "mention", Some("thread-7")));
    q.enqueue(mk("other", Priority::Low, 3, "mention", Some("thread-9")));
    let hits = q.find_coalescable("mention", "thread-7");
    assert_eq!(hits.len(), 2);
    assert_eq!(hits[0].id.0, "m1"); // ordered by received_at
}

#[test]
fn set_payload_replaces_the_stored_json() {
    let mut q = InMemoryQueue::new();
    q.enqueue(mk("p", Priority::Low, 1, "mention", None));
    q.set_payload(&StimulusId("p".into()), json("{\"items\": [1, 2, 3]}"));
    assert!(q.find_coalescable("mention", "nope").is_empty());
    let s = q.next(NOW).unwrap();
    assert_eq!(s.payload, json("{\"items\": [1, 2, 3]}"));
}

#[test]
fn reclaim_requeues_orphaned_dispatched_rows() {
    let mut q = InMemoryQueue::new();
    q.enqueue(mk("a", Priority::Normal, 1, "mention", None));
    q.enqueue(mk("b", Priority::Normal, 2, "mention", None));
    // Two rows leased (→ dispatched), then a "crash" leaves them stuck.
    let a = q.next(NOW).unwrap();
    let _b = q.next(NOW).unwrap();
    assert_eq!(a.status, StimulusStatus::Dispatched);
    assert_eq!(q.depth(), 0, "nothing pending mid-flight");

    // One reached a terminal state; the other is an orphan.
    q.update_status(&StimulusId("a".into()), StimulusStatus::Done);
    let reclaimed = q.reclaim_orphans();
    assert_eq!(reclaimed, 1, "only the still-dispatched orphan is requeued");
    assert_eq!(q.depth(), 1, "the orphan is pending again");
    // The reclaimed row is `b` (Done `a` is terminal, never reconsidered).
    assert_eq!(pop(&mut q), "b");
}

/// What a store keeps of a queue: its rows, written as columns.
#[test]
fn survives_reopen_persistence() {
    let mut q = InMemoryQueue::new();
    q.enqueue(mk("persisted", Priority::High, 1, "mention", None));
    assert_eq!(q.depth(), 1);
    let kept: Vec<RawRow> = q.rows.iter().map(RawRow::write).collect();

    let mut again = InMemoryQueue::new();
    for row in kept {
        again.enqueue(row.read().unwrap());
    }
    assert_eq!(again.depth(), 1);
    assert_eq!(pop(&mut again), "persisted");
}

#[test]
fn a_gated_row_waits_for_its_second() {
    let mut q = InMemoryQueue::new();
    let mut s = mk("later", Priority::Urgent, 1, "mention", None);
    s.pop_after = Some(500);
    q.enqueue(s);
    q.enqueue(mk("now", Priority::Low, 2, "mention", None));
    assert_eq!(q.next(499).unwrap().id.0, "now");
    assert!(q.next(499).is_none());
    assert_eq!(q.next(500).unwrap().id.0, "later");
}

#[test]
fn an_id_is_enqueued_once() {
    let mut q = InMemoryQueue::new();
    assert!(q.enqueue_once(mk("x", Priority::Low, 1, "mention", None)));
    assert!(!q.enqueue_once(mk("x", Priority::High, 2, "mention", None)));
    assert_eq!(q.rows.len(), 1);
    assert_eq!(q.rows[0].priority, Priority::Low);
}

#[test]
fn a_full_queue_sheds_the_oldest_low_rows() {
    let mut q = InMemoryQueue::new();
    q.enqueue(mk("l1", Priority::Low, 1, "mention", None));
    q.enqueue(mk("h1", Priority::High, 2, "mention", None));
    q.enqueue(mk("l2", Priority::Low, 3, "mention", None));
    q.enqueue(mk("h2", Priority::High, 4, "mention", None));
    let gone: Vec<String> = q.shed(3).into_iter().map(|i| i.0).collect();
    assert_eq!(gone, vec!["l1"]);
    assert_eq!(q.depth(), 3);
    assert!(q.shed(3).is_empty());
    // Nothing but low rows is shed.
    let gone: Vec<String> = q.shed(0).into_iter().map(|i| i.0).collect();
    assert_eq!(gone, vec!["l2"]);
    assert_eq!(q.depth(), 2);
}

#[test]
fn a_cursor_reads_back_what_was_set() {
    let mut q = InMemoryQueue::new();
    assert_eq!(q.get_cursor("k"), None);
    q.set_cursor("k", "1");
    q.set_cursor("k", "2");
    assert_eq!(q.get_cursor("k").as_deref(), Some("2"));
}

#[test]
fn a_row_with_a_baton_reads_back() {
    let mut refs = StrMap::new();
    refs.insert("chat_id".to_string(), "7".to_string());
    let mut s = mk("b", Priority::Urgent, -5, "mention", Some("k"));
    s.pop_after = Some(9);
    s.provenance = Some("sig".into());
    s.status = StimulusStatus::Coalesced;
    s.payload_tier = TrustTier::named("org");
    s.baton = Some(Baton {
        gist: "g".into(),
        refs,
        directive_tier: TrustTier::self_(),
        payload_tier: TrustTier::public(),
        runlog_ref: "runlogs/x#y".into(),
        thoughts: "t".into(),
    });
    let back = RawRow::write(&s).read().unwrap();
    assert_eq!(format!("{:?}", back), format!("{:?}", s));
    assert_eq!(RawRow::write(&s).priority, "urgent");
    assert_eq!(RawRow::write(&s).status, "coalesced");
}

#[test]
fn a_row_that_holds_nonsense_is_refused() {
    let fresh = || RawRow::write(&mk("x", Priority::Low, 1, "mention", None));
    let mut row = fresh();
    row.payload = "{".into();
    assert_eq!(row.read().unwrap_err().text(), "json: EOF while parsing an object at line 1 column 1");
    let mut row = fresh();
    row.priority = "soon".into();
    assert_eq!(row.read().unwrap_err().text(), "json: unknown priority");
    let mut row = fresh();
    row.status = "asleep".into();
    assert_eq!(row.read().unwrap_err().text(), "json: unknown status");
    let mut row = fresh();
    row.baton = Some("[]".into());
    assert_eq!(row.read().unwrap_err().text(), "json: missing field `gist`");
    assert_eq!(StimulusStatus::from_label("dispatched"), Some(StimulusStatus::Dispatched));
    assert_eq!(StimulusStatus::from_label("asleep"), None);
}
