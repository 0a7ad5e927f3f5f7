//! What is done to the soul after a run, and what is recorded of the run.

use vstd::prelude::*;

use crate::error::{error_text, DackError};
use crate::json::json_text;
use crate::model::proposal::{AgentOutput, AgentOutputV, BatonIntentV};
use crate::model::runlog::{Outcome, RunLogEntry, ToolCallRecord};
use crate::model::stimulus::{tier_label, Stimulus, StimulusV};
use crate::repo::gitcore::paths_of;
use crate::repo::{ChangeV, CommitMeta, MetaV, RepoChange, RepoPath};
use crate::state::{
    default_spec, dirs_view, state_label, state_name, state_tag, state_tag_of, writable_of,
    ConsciousnessState,
};
use crate::text::{
    every_part_is_in_the_joined_text, has_part, has_prefix, join, joined, nat_text, occurs_at,
    owned, parts_nest, push_from, push_one, starts_with, trim, trimmed, u64_text,
    what_stands_between_is_a_part,
};

verus! {

// ── Reconciling ─────────────────────────────────────────────────────────────────────────

/// A state may leave a change at a path: the path lies in a directory that the state writes.
pub open spec fn permitted(state: ConsciousnessState, path: Seq<char>) -> bool {
    exists|i: int|
        0 <= i < writable_of(state).len() && has_prefix(path, #[trigger] writable_of(state)[i])
}

/// The changes that stay.
pub open spec fn staying(state: ConsciousnessState, c: Seq<ChangeV>) -> Seq<Seq<char>>
    decreases c.len(),
{
    if c.len() == 0 {
        Seq::empty()
    } else if permitted(state, c.last().path) {
        staying(state, c.drop_last()).push(c.last().path)
    } else {
        staying(state, c.drop_last())
    }
}

/// The changes that are undone.
pub open spec fn undone(state: ConsciousnessState, c: Seq<ChangeV>) -> Seq<ChangeV>
    decreases c.len(),
{
    if c.len() == 0 {
        Seq::empty()
    } else if permitted(state, c.last().path) {
        undone(state, c.drop_last())
    } else {
        undone(state, c.drop_last()).push(c.last())
    }
}

/// What is done with the changes of a run.
#[derive(Debug)]
pub struct Sweep {
    /// The paths that are committed.
    pub allowed: Vec<RepoPath>,
    /// The changes that are taken back.
    pub reverted: Vec<RepoChange>,
}

fn is_permitted(dirs: &Vec<&'static str>, path: &str) -> (r: bool)
    ensures
        r == exists|i: int|
            0 <= i < dirs@.len() && has_prefix(path@, #[trigger] dirs_view(dirs@)[i]),
{
    let ghost d = dirs_view(dirs@);
    let mut i: usize = 0;
    while i < dirs.len()
        invariant
            i <= dirs@.len(),
            d == dirs_view(dirs@),
            forall|k: int| 0 <= k < i ==> !has_prefix(path@, #[trigger] d[k]),
        decreases dirs@.len() - i,
    {
        assert(d[i as int] == dirs@[i as int]@);
        if starts_with(path, dirs[i]) {
            return true;
        }
        i += 1;
    }
    false
}

/// Sorts what a run changed: what its state may write is kept and committed, everything else
/// is taken back. These are the directories that the wall guards too.
pub fn reconcile_soul(state: ConsciousnessState, changes: Vec<RepoChange>) -> (r: Sweep)
    ensures
        paths_of(r.allowed@) == staying(state, changes.deep_view()),
        r.reverted.deep_view() == undone(state, changes.deep_view()),
{
    let spec = default_spec(state);
    let ghost all = changes.deep_view();
    let mut allowed: Vec<RepoPath> = Vec::new();
    let mut reverted: Vec<RepoChange> = Vec::new();
    let mut rest = changes;
    let ghost total = rest@;
    let ghost mut i: int = 0;
    proof {
        assert(total.skip(0) =~= total);
        assert(all.take(0) =~= Seq::empty());
        assert(paths_of(allowed@) =~= Seq::empty());
        assert(reverted.deep_view() =~= Seq::empty());
    }
    while rest.len() > 0
        invariant
            0 <= i <= total.len(),
            rest@ == total.skip(i),
            all.len() == total.len(),
            forall|k: int| 0 <= k < total.len() ==> (#[trigger] total[k])@ == all[k],
            dirs_view(spec.writable_dirs@) == writable_of(state),
            paths_of(allowed@) == staying(state, all.take(i)),
            reverted.deep_view() == undone(state, all.take(i)),
        decreases rest@.len(),
    {
        let change = rest.remove(0);
        proof {
            assert(change == total[i]);
            assert(rest@ =~= total.skip(i + 1));
            assert(all.take(i + 1).drop_last() =~= all.take(i));
            assert(all.take(i + 1).last() == change@);
            assert(dirs_view(spec.writable_dirs@).len() == spec.writable_dirs@.len());
        }
        let ghost a = paths_of(allowed@);
        let ghost u = reverted.deep_view();
        let keep = is_permitted(&spec.writable_dirs, change.path.0.as_str());
        assert(keep == permitted(state, change@.path));
        if keep {
            allowed.push(change.path);
            assert(paths_of(allowed@) =~= a.push(change@.path));
        } else {
            reverted.push(change);
            assert(reverted.deep_view() =~= u.push(change@));
        }
        proof {
            i = i + 1;
        }
    }
    assert(all.take(i) =~= all);
    Sweep { allowed, reverted }
}

/// The commit of what a run left.
pub open spec fn sweep_meta(
    state: ConsciousnessState,
    run: Seq<char>,
    n: nat,
    did: Seq<char>,
) -> MetaV {
    MetaV {
        message: "run "@ + run + " "@ + state_name(state) + ": sweep "@ + nat_text(n)
            + " path(s)"@,
        author_did: did,
    }
}

/// The commit of what a run left.
pub fn sweep_commit(state: ConsciousnessState, run_id: &str, paths: usize, did: &str) -> (r: CommitMeta)
    ensures
        r@ == sweep_meta(state, run_id@, paths as nat, did@),
{
    let mut message = owned("run ");
    message.append(run_id);
    message.append(" ");
    message.append(state_label(state));
    message.append(": sweep ");
    message.append(u64_text(paths as u64).as_str());
    message.append(" path(s)");
    CommitMeta { message, author_did: owned(did) }
}

/// Whom the soul's commits are attributed to.
pub fn soul_did(did: Option<&crate::identity::Did>) -> (r: String)
    ensures
        r@ == (match did {
            Some(d) => d.0@,
            None => "did:dack:soul"@,
        }),
{
    match did {
        Some(d) => d.0.clone(),
        None => owned("did:dack:soul"),
    }
}

// ── Memory ──────────────────────────────────────────────────────────────────────────────

/// The line that a run adds to memory: only a state that may write memory adds one, and an
/// empty one is dropped.
pub open spec fn memory_line(state: ConsciousnessState, out: AgentOutputV) -> Option<Seq<char>> {
    match out.memory_append {
        Some(l) => if trimmed(l).len() > 0 && (state == ConsciousnessState::Express || state
            == ConsciousnessState::Reflect) {
            Some(trimmed(l))
        } else {
            None
        },
        None => None,
    }
}

/// A text with a line added, which stands on a line of its own.
pub open spec fn with_line(content: Seq<char>, line: Seq<char>) -> Seq<char> {
    (if content.len() > 0 && content.last() != '\n' {
        content.push('\n')
    } else {
        content
    }) + line + "\n"@
}

/// The line that a run adds to memory.
pub fn honored_memory_line(state: ConsciousnessState, out: &AgentOutput) -> (r: Option<String>)
    ensures
        r.deep_view() == memory_line(state, out@),
{
    let line = match &out.memory_append {
        Some(l) => trim(l.as_str()),
        None => return None,
    };
    if line.as_str().is_empty() {
        return None;
    }
    match state {
        ConsciousnessState::Express => Some(line),
        ConsciousnessState::Reflect => Some(line),
        _ => None,
    }
}

/// Adds a line to the memory: the new text of `memory/log.md`, and its commit.
pub fn append_memory(content: &str, line: &str, did: &str) -> (r: (String, CommitMeta))
    ensures
        r.0@ == with_line(content@, line@),
        r.1@ == (MetaV { message: "memory: "@ + line@, author_did: did@ }),
{
    let chars = crate::text::chars_of(content);
    let mut out = owned(content);
    if chars.len() > 0 && chars[chars.len() - 1] != '\n' {
        out.push('\n');
    }
    out.append(line);
    out.append("\n");
    let mut message = owned("memory: ");
    message.append(line);
    (out, CommitMeta { message, author_did: owned(did) })
}

// ── The record ──────────────────────────────────────────────────────────────────────────

/// What the alarm says of writes that were taken back.
pub open spec fn alarm(reverted: Seq<Seq<char>>) -> Seq<char> {
    "soul-integrity tripwire reverted out-of-allowlist write(s): "@ + joined(reverted, ", "@)
}

/// What a run was assembled from.
pub open spec fn summary(s: StimulusV) -> Seq<char> {
    "source="@ + s.source + " type="@ + s.type_ + " directive_tier="@ + tier_label(
        s.directive_tier,
    ) + " payload_tier="@ + tier_label(s.payload_tier)
}

/// The labels of branches.
pub open spec fn branch_tags(b: Seq<BatonIntentV>) -> Seq<Seq<char>>
    decreases b.len(),
{
    if b.len() == 0 {
        Seq::empty()
    } else {
        branch_tags(b.drop_last()) + b.last().tags
    }
}

/// The labels of an entry: the conversation, where the prompt wants it, and what the branches
/// are labelled with.
pub open spec fn entry_tags(tag_key: bool, key: Option<Seq<char>>, b: Seq<BatonIntentV>) -> Seq<
    Seq<char>,
> {
    (if tag_key && key is Some {
        seq![key->0]
    } else {
        Seq::empty()
    }) + branch_tags(b)
}

fn make_tags(tag_key: bool, key: &Option<String>, out: &AgentOutput) -> (r: Vec<String>)
    ensures
        r.deep_view() == entry_tags(tag_key, key.deep_view(), out@.batons),
{
    let mut tags: Vec<String> = Vec::new();
    assert(tags.deep_view() =~= Seq::empty());
    if tag_key {
        match key {
            Some(k) => push_one(&mut tags, k.as_str()),
            None => {},
        }
    }
    let ghost head = tags.deep_view();
    let ghost b = out@.batons;
    assert(b.len() == out.batons@.len());
    assert(head =~= if tag_key && key.deep_view() is Some {
        seq![key.deep_view()->0]
    } else {
        Seq::empty()
    });
    let mut i: usize = 0;
    assert(b.take(0) =~= Seq::empty());
    assert(tags.deep_view() =~= head + branch_tags(b.take(0)));
    while i < out.batons.len()
        invariant
            i <= out.batons@.len(),
            b == out.batons.deep_view(),
            tags.deep_view() == head + branch_tags(b.take(i as int)),
        decreases out.batons@.len() - i,
    {
        proof {
            assert(b.take(i + 1).drop_last() =~= b.take(i as int));
            assert(b.take(i + 1).last() == out.batons@[i as int]@);
        }
        let more = &out.batons[i].tags;
        push_from(&mut tags, more, 0);
        assert(more.deep_view().skip(0) =~= more.deep_view());
        assert(tags.deep_view() =~= head + branch_tags(b.take(i + 1)));
        i += 1;
    }
    assert(b.take(i as int) =~= b);
    tags
}

/// The record of one step. A write that was taken back makes it an error.
pub fn run_entry(
    state: ConsciousnessState,
    stimulus: &Stimulus,
    out: AgentOutput,
    tool_calls: Vec<ToolCallRecord>,
    reverted: &Vec<String>,
    tag_key: bool,
) -> (r: RunLogEntry)
    ensures
        r.run_id@ == "run-"@ + stimulus@.id + "-"@ + state_tag_of(state),
        r.stimulus_id@ == stimulus@.id,
        r.state == state,
        r.context_summary@ == summary(stimulus@),
        r.baton is None,
        r.raw_stimulus@ == json_text(stimulus@.payload),
        r.tool_calls == tool_calls,
        r.output == Some(out),
        reverted@.len() == 0 ==> r.outcome is Success,
        reverted@.len() > 0 ==> r.outcome is Error && r.outcome->Error_0@ == alarm(
            reverted.deep_view(),
        ),
        r.timestamp == stimulus@.received_at,
        r.tags.deep_view() == entry_tags(tag_key, stimulus@.dedup_key, out@.batons),
{
    let outcome = if reverted.len() == 0 {
        Outcome::Success
    } else {
        let mut text = owned("soul-integrity tripwire reverted out-of-allowlist write(s): ");
        text.append(join(reverted, ", ").as_str());
        Outcome::Error(text)
    };
    let mut run_id = owned("run-");
    run_id.append(stimulus.id.0.as_str());
    run_id.append("-");
    run_id.append(state_tag(state));
    let mut context_summary = owned("source=");
    context_summary.append(stimulus.source.as_str());
    context_summary.append(" type=");
    context_summary.append(stimulus.type_.0.as_str());
    context_summary.append(" directive_tier=");
    context_summary.append(stimulus.directive_tier.label());
    context_summary.append(" payload_tier=");
    context_summary.append(stimulus.payload_tier.label());
    let tags = make_tags(tag_key, &stimulus.dedup_key, &out);
    RunLogEntry {
        run_id,
        stimulus_id: stimulus.id.clone(),
        state,
        context_summary,
        baton: None,
        raw_stimulus: stimulus.payload.to_text(),
        tool_calls,
        output: Some(out),
        outcome,
        timestamp: stimulus.received_at,
        tags,
    }
}

/// The record of a cycle that failed before a step could record itself.
pub fn failure_entry(stimulus: &Stimulus, err: &DackError) -> (r: RunLogEntry)
    ensures
        r.run_id@ == "run-"@ + stimulus@.id + "-error"@,
        r.stimulus_id@ == stimulus@.id,
        r.state == ConsciousnessState::Perceive,
        r.context_summary@ == "dispatch failed before completion: "@ + error_text(*err),
        r.baton is None,
        r.raw_stimulus@ == json_text(stimulus@.payload),
        r.tool_calls@.len() == 0,
        r.output is None,
        r.outcome is Error && r.outcome->Error_0@ == error_text(*err),
        r.timestamp == stimulus@.received_at,
        r.tags@.len() == 0,
{
    let mut run_id = owned("run-");
    run_id.append(stimulus.id.0.as_str());
    run_id.append("-error");
    let text = err.text();
    let mut context_summary = owned("dispatch failed before completion: ");
    context_summary.append(text.as_str());
    RunLogEntry {
        run_id,
        stimulus_id: stimulus.id.clone(),
        state: ConsciousnessState::Perceive,
        context_summary,
        baton: None,
        raw_stimulus: stimulus.payload.to_text(),
        tool_calls: Vec::new(),
        output: None,
        outcome: Outcome::Error(text),
        timestamp: stimulus.received_at,
        tags: Vec::new(),
    }
}

// ── Laws ────────────────────────────────────────────────────────────────────────────────

/// Every change of a run is either kept or taken back, never both: what is kept lies where the
/// state may write, and what is taken back does not.
pub proof fn every_change_is_settled(state: ConsciousnessState, c: Seq<ChangeV>)
    ensures
        staying(state, c).len() + undone(state, c).len() == c.len(),
        forall|i: int|
            0 <= i < staying(state, c).len() ==> permitted(state, #[trigger] staying(state, c)[i]),
        forall|i: int|
            0 <= i < undone(state, c).len() ==> !permitted(
                state,
                (#[trigger] undone(state, c)[i]).path,
            ),
    decreases c.len(),
{
    if c.len() > 0 {
        every_change_is_settled(state, c.drop_last());
    }
}

/// A state that only reads leaves nothing behind.
pub proof fn perceiving_leaves_no_trace(c: Seq<ChangeV>)
    ensures
        staying(ConsciousnessState::Perceive, c) == Seq::<Seq<char>>::empty(),
        undone(ConsciousnessState::Perceive, c) == c,
    decreases c.len(),
{
    if c.len() > 0 {
        perceiving_leaves_no_trace(c.drop_last());
        assert(c.drop_last().push(c.last()) =~= c);
    }
}

/// Memory only grows, and the line is its last.
pub proof fn memory_only_grows(content: Seq<char>, line: Seq<char>)
    ensures
        has_prefix(with_line(content, line), content),
        with_line(content, line).len() >= line.len() + 1,
        with_line(content, line).skip(with_line(content, line).len() - line.len() - 1) == line
            + "\n"@,
{
    reveal_strlit("\n");
    let w = with_line(content, line);
    assert(w.subrange(0, content.len() as int) =~= content);
    assert(w.skip(w.len() - line.len() - 1) =~= line + "\n"@);
}

/// A change stays where the state may write its path, and is undone where it may not; in each case
/// in the order of the changes, each once.
pub proof fn a_change_stays_where_the_state_may_write(
    state: ConsciousnessState,
    a: Seq<ChangeV>,
    b: Seq<ChangeV>,
    x: ChangeV,
    dir: Seq<char>,
)
    ensures
        staying(state, a + b) == staying(state, a) + staying(state, b),
        undone(state, a + b) == undone(state, a) + undone(state, b),
        writable_of(state).contains(dir) && has_prefix(x.path, dir) ==> staying(state, seq![x])
            == seq![x.path] && undone(state, seq![x]).len() == 0,
        (forall|d: Seq<char>| #[trigger] writable_of(state).contains(d) ==> !has_prefix(x.path, d))
            ==> undone(state, seq![x]) == seq![x] && staying(state, seq![x]).len() == 0,
    decreases b.len(),
{
    let one = seq![x];
    assert(one.drop_last() =~= Seq::empty());
    assert(one.last() == x);
    assert(staying(state, one.drop_last()) =~= Seq::empty());
    assert(undone(state, one.drop_last()) =~= Seq::empty());
    let w = writable_of(state);
    if w.contains(dir) && has_prefix(x.path, dir) {
        let i = choose|i: int| 0 <= i < w.len() && w[i] == dir;
        assert(has_prefix(x.path, w[i]));
        assert(staying(state, one) =~= seq![x.path]);
    }
    if forall|d: Seq<char>| #[trigger] w.contains(d) ==> !has_prefix(x.path, d) {
        if permitted(state, x.path) {
            let i = choose|i: int| 0 <= i < w.len() && has_prefix(x.path, #[trigger] w[i]);
            assert(w.contains(w[i]));
        }
        assert(undone(state, one) =~= seq![x]);
    }
    if b.len() == 0 {
        assert(a + b =~= a);
        assert(staying(state, a) + staying(state, b) =~= staying(state, a));
        assert(undone(state, a) + undone(state, b) =~= undone(state, a));
    } else {
        a_change_stays_where_the_state_may_write(state, a, b.drop_last(), x, dir);
        assert((a + b).drop_last() =~= a + b.drop_last());
        assert((a + b).last() == b.last());
        assert(staying(state, a + b) =~= staying(state, a) + staying(state, b));
        assert(undone(state, a + b) =~= undone(state, a) + undone(state, b));
    }
}

/// What a run wants remembered is, trimmed and unless it is blank, where the run expressed or
/// reflected; a run that perceived or settled leaves no line.
pub proof fn an_acting_run_may_be_remembered(
    state: ConsciousnessState,
    out: AgentOutputV,
    line: Seq<char>,
)
    requires
        out.memory_append == Some(line),
    ensures
        (state == ConsciousnessState::Express || state == ConsciousnessState::Reflect) && trimmed(
            line,
        ).len() > 0 ==> memory_line(state, out) == Some(trimmed(line)),
        state == ConsciousnessState::Perceive || state == ConsciousnessState::Settle || trimmed(
            line,
        ).len() == 0 ==> memory_line(state, out) is None,
{
}

/// A line is added to the memory on a line of its own: what was there before is kept and ended,
/// and nothing else is added.
pub proof fn a_memory_is_a_line_of_its_own(content: Seq<char>, line: Seq<char>)
    ensures
        content.len() == 0 || content.last() == '\n' ==> with_line(content, line) == content + line
            + seq!['\n'],
        content.len() > 0 && content.last() != '\n' ==> with_line(content, line) == content + seq![
            '\n',
        ] + line + seq!['\n'],
{
    reveal_strlit("\n");
    assert("\n"@ =~= seq!['\n']);
    assert(content.push('\n') =~= content + seq!['\n']);
}

/// A run is tagged by its conversation, where its prompt wants that and it has one, and by what
/// its branches are tagged with, in their order.
pub proof fn a_run_is_tagged_by_its_conversation(
    key: Seq<char>,
    a: Seq<BatonIntentV>,
    b: Seq<BatonIntentV>,
    x: BatonIntentV,
)
    ensures
        entry_tags(true, Some(key), a) == seq![key] + entry_tags(false, None, a),
        entry_tags(true, None, a) == entry_tags(false, None, a),
        entry_tags(false, Some(key), a) == entry_tags(false, None, a),
        entry_tags(false, None, a + b) == entry_tags(false, None, a) + entry_tags(false, None, b),
        entry_tags(false, None, seq![x]) == x.tags,
        entry_tags(false, None, Seq::empty()).len() == 0,
    decreases b.len(),
{
    let none = Seq::<Seq<char>>::empty();
    assert(none + branch_tags(a) =~= branch_tags(a));
    assert(none + branch_tags(b) =~= branch_tags(b));
    assert(none + branch_tags(a + b) =~= branch_tags(a + b));
    let one = seq![x];
    assert(one.drop_last() =~= Seq::empty());
    assert(branch_tags(one.drop_last()) =~= none);
    assert(none + branch_tags(one) =~= x.tags);
    if b.len() == 0 {
        assert(a + b =~= a);
        assert(branch_tags(a) + branch_tags(b) =~= branch_tags(a));
    } else {
        a_run_is_tagged_by_its_conversation(key, a, b.drop_last(), x);
        let i = b.drop_last();
        assert(none + branch_tags(i) =~= branch_tags(i));
        assert(none + branch_tags(a + i) =~= branch_tags(a + i));
        assert((a + b).drop_last() =~= a + i);
        assert((a + b).last() == b.last());
        assert(branch_tags(a + b) =~= branch_tags(a) + branch_tags(b));
    }
}

/// The alarm names every write that was undone, and a run's summary tells where its stimulus came
/// from, of which type it was and how far it was trusted.
pub proof fn an_alarm_names_what_was_undone(reverted: Seq<Seq<char>>, i: int, s: StimulusV)
    ensures
        0 <= i < reverted.len() ==> has_part(alarm(reverted), reverted[i]),
        has_prefix(summary(s), "source="@ + s.source),
        has_part(summary(s), "type="@ + s.type_),
        has_part(summary(s), "directive_tier="@ + tier_label(s.directive_tier)),
        has_part(summary(s), "payload_tier="@ + tier_label(s.payload_tier)),
{
    if 0 <= i < reverted.len() {
        let h = "soul-integrity tripwire reverted out-of-allowlist write(s): "@;
        let all = joined(reverted, ", "@);
        every_part_is_in_the_joined_text(reverted, ", "@, i);
        assert(alarm(reverted) =~= h + all + Seq::<char>::empty());
        what_stands_between_is_a_part(h, all, Seq::empty());
        parts_nest(alarm(reverted), all, reverted[i]);
    }
    reveal_strlit("source=");
    reveal_strlit(" type=");
    reveal_strlit("type=");
    reveal_strlit(" directive_tier=");
    reveal_strlit("directive_tier=");
    reveal_strlit(" payload_tier=");
    reveal_strlit("payload_tier=");
    let t = summary(s);
    let a = "source="@ + s.source;
    let b = "type="@ + s.type_;
    let c = "directive_tier="@ + tier_label(s.directive_tier);
    let d = "payload_tier="@ + tier_label(s.payload_tier);
    let n = a.len() as int;
    let m = n + 1 + b.len();
    let k = m + 1 + c.len();
    assert(t.subrange(0, n) =~= a);
    assert(t.subrange(n + 1, m) =~= b);
    assert(occurs_at(t, b, n + 1));
    assert(t.subrange(m + 1, k) =~= c);
    assert(occurs_at(t, c, m + 1));
    assert(t.subrange(k + 1, k + 1 + d.len()) =~= d);
    assert(occurs_at(t, d, k + 1));
}

/// A sweep says which run it was of, in which state, and how many paths it took.
pub proof fn a_sweep_tells_its_run(state: ConsciousnessState, run: Seq<char>, n: nat, did: Seq<char>)
    ensures
        sweep_meta(state, run, n, did).author_did == did,
        has_prefix(sweep_meta(state, run, n, did).message, "run "@ + run),
        has_part(sweep_meta(state, run, n, did).message, state_name(state)),
        has_part(sweep_meta(state, run, n, did).message, "sweep "@ + nat_text(n) + " path(s)"@),
{
    reveal_strlit("run ");
    reveal_strlit(" ");
    reveal_strlit(": sweep ");
    reveal_strlit("sweep ");
    reveal_strlit(" path(s)");
    let t = sweep_meta(state, run, n, did).message;
    let a = "run "@ + run;
    let b = state_name(state);
    let c = "sweep "@ + nat_text(n) + " path(s)"@;
    assert(t.subrange(0, a.len() as int) =~= a);
    let i = a.len() + 1;
    assert(t.subrange(i as int, (i + b.len()) as int) =~= b);
    assert(occurs_at(t, b, i as int));
    let j = i + b.len() + 2;
    assert(t.subrange(j as int, (j + c.len()) as int) =~= c);
    assert(occurs_at(t, c, j as int));
}

} // verus!
