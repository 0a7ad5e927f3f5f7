//! The wall: what decides, outside the model's reach, whether a tool call may run.
//!
//! The checks, in order: is the tool's class one of the state's; is the tool held back for a
//! rehearsal; does a write land in a directory that the state may write; and was the very same
//! outward action done before in this run.

use vstd::prelude::*;

use crate::config::{CapabilityPrefix, PrefixV};
use crate::json::{alike, alike_itself, fields_view, json_text, text_field, Json, JsonV};
use crate::model::runlog::{ToolCallRecord, ToolCallV};
use crate::runtime::classify::{
    class_of, classify_tool, covered, is_read_tool, is_write_tool, permits, permitted, target_of,
};
use crate::runtime::{ActionDecision, ActionRequest, DecisionV};
use crate::state::{
    class_label, class_name, dirs_view, each_state_writes_its_own_places,
    every_state_reads_and_none_runs_a_shell, outward_classes_belong_to_one_state, scope_of,
    state_label, state_name, writable_of, ConsciousnessState, StateSpec, ToolClass,
};
use crate::text::{
    any_same, byte_len, fit, fitting, has_part, has_prefix, join, joined,
    joined_parts_are_its_pieces, occurs_at, owned, pieces, pieces_around, replace, replaced,
    replacing_changes_the_part_alone, same_text, split, starts_with, the_longest_front_fits,
};

verus! {

// ── Paths ───────────────────────────────────────────────────────────────────────────────

/// A part of a path that says where something is.
pub open spec fn counts(part: Seq<char>) -> bool {
    part != ""@ && part != "."@
}

/// The parts of a path, without those that say nothing.
pub open spec fn path_parts(p: Seq<char>) -> Seq<Seq<char>> {
    pieces(p, '/').filter(|s: Seq<char>| counts(s))
}

/// Where one more part leads.
pub open spec fn stepped(at: Seq<Seq<char>>, part: Seq<char>) -> Seq<Seq<char>> {
    if part == ".."@ {
        if at.len() == 0 {
            at
        } else {
            at.drop_last()
        }
    } else {
        at.push(part)
    }
}

/// Where some parts lead from a place. Nothing leads above the top.
pub open spec fn walked(at: Seq<Seq<char>>, parts: Seq<Seq<char>>) -> Seq<Seq<char>>
    decreases parts.len(),
{
    if parts.len() == 0 {
        at
    } else {
        stepped(walked(at, parts.drop_last()), parts.last())
    }
}

/// A path from the top.
pub open spec fn is_absolute(p: Seq<char>) -> bool {
    has_prefix(p, "/"@)
}

/// The place that a path names, read off the text alone.
pub open spec fn normalized(p: Seq<char>) -> (bool, Seq<Seq<char>>) {
    (is_absolute(p), walked(Seq::empty(), path_parts(p)))
}

/// The place that a path names when it is used at `root`.
pub open spec fn placed(root: Seq<char>, p: Seq<char>) -> (bool, Seq<Seq<char>>) {
    if is_absolute(p) {
        normalized(p)
    } else {
        (is_absolute(root), walked(normalized(root).1, path_parts(p)))
    }
}

/// A path seen from `root`; nothing where it lies outside. Without a root the path is taken as
/// it is, and may not go up.
pub open spec fn relative(root: Option<Seq<char>>, p: Seq<char>) -> Option<Seq<char>> {
    match root {
        Some(root) => {
            let (abs, at) = placed(root, p);
            let (root_abs, top) = normalized(root);
            if abs == root_abs && top.is_prefix_of(at) {
                Some(replaced(joined(at.skip(top.len() as int), "/"@), "\\"@, "/"@))
            } else {
                None
            }
        },
        None => if path_parts(p).contains(".."@) {
            None
        } else {
            let text = joined(normalized(p).1, "/"@);
            Some(
                replaced(
                    if is_absolute(p) {
                        "/"@ + text
                    } else {
                        text
                    },
                    "\\"@,
                    "/"@,
                ),
            )
        },
    }
}

/// A path may be written: it lies within the repository, under a directory of the state, and
/// is no part of the record.
pub open spec fn may_write(dirs: Seq<Seq<char>>, root: Option<Seq<char>>, target: Seq<char>) -> bool {
    match relative(root, target) {
        None => false,
        Some(rel) => !has_prefix(rel, "runlogs/"@) && exists|i: int|
            0 <= i < dirs.len() && has_prefix(rel, #[trigger] dirs[i]),
    }
}

fn list_parts(p: &str) -> (r: Vec<String>)
    ensures
        r.deep_view() == path_parts(p@),
{
    let all = split(p, '/');
    let ghost av = pieces(p@, '/');
    let ghost f = |s: Seq<char>| counts(s);
    let mut out: Vec<String> = Vec::new();
    let mut i: usize = 0;
    assert(av.take(0) =~= Seq::empty());
    assert(out.deep_view() =~= av.take(0).filter(f)) by {
        reveal(Seq::filter);
    }
    proof {
        reveal_strlit("");
    }
    while i < all.len()
        invariant
            i <= all@.len(),
            all.deep_view() == av,
            f == (|s: Seq<char>| counts(s)),
            out.deep_view() == av.take(i as int).filter(f),
            ""@.len() == 0,
        decreases all@.len() - i,
    {
        proof {
            assert(av.take(i + 1).drop_last() =~= av.take(i as int));
            assert(av.take(i + 1).last() == all@[i as int]@);
            reveal(Seq::filter);
            if all@[i as int]@.len() == 0 {
                assert(all@[i as int]@ =~= ""@);
            }
        }
        let ghost o = out.deep_view();
        let part = all[i].as_str();
        if !part.is_empty() && !same_text(part, ".") {
            out.push(all[i].clone());
            assert(out.deep_view() =~= o.push(all@[i as int]@));
        }
        i += 1;
    }
    assert(av.take(i as int) =~= av);
    out
}

fn walk(at: Vec<String>, parts: &Vec<String>) -> (r: Vec<String>)
    ensures
        r.deep_view() == walked(at.deep_view(), parts.deep_view()),
{
    let ghost start = at.deep_view();
    let ghost pv = parts.deep_view();
    let mut out = at;
    let mut i: usize = 0;
    assert(pv.take(0) =~= Seq::empty());
    while i < parts.len()
        invariant
            i <= parts@.len(),
            pv == parts.deep_view(),
            out.deep_view() == walked(start, pv.take(i as int)),
        decreases parts@.len() - i,
    {
        proof {
            assert(pv.take(i + 1).drop_last() =~= pv.take(i as int));
            assert(pv.take(i + 1).last() == parts@[i as int]@);
        }
        let ghost o = out.deep_view();
        assert(o.len() == out@.len());
        if same_text(parts[i].as_str(), "..") {
            if out.len() > 0 {
                let _gone = out.pop();
                assert(out.deep_view() =~= o.drop_last());
            }
        } else {
            out.push(parts[i].clone());
            assert(out.deep_view() =~= o.push(parts@[i as int]@));
        }
        i += 1;
    }
    assert(pv.take(i as int) =~= pv);
    out
}

fn normalize_lexical(p: &str) -> (r: (bool, Vec<String>))
    ensures
        (r.0, r.1.deep_view()) == normalized(p@),
{
    let parts = list_parts(p);
    let none: Vec<String> = Vec::new();
    assert(none.deep_view() =~= Seq::empty());
    (starts_with(p, "/"), walk(none, &parts))
}

fn begins_with(at: &Vec<String>, top: &Vec<String>) -> (r: bool)
    ensures
        r == top.deep_view().is_prefix_of(at.deep_view()),
{
    let ghost av = at.deep_view();
    let ghost tv = top.deep_view();
    assert(av.len() == at@.len() && tv.len() == top@.len());
    if top.len() > at.len() {
        return false;
    }
    let mut i: usize = 0;
    while i < top.len()
        invariant
            i <= top@.len() <= at@.len(),
            av == at.deep_view(),
            tv == top.deep_view(),
            forall|k: int| 0 <= k < i ==> tv[k] == av[k],
        decreases top@.len() - i,
    {
        assert(tv[i as int] == top@[i as int]@ && av[i as int] == at@[i as int]@);
        if !same_text(top[i].as_str(), at[i].as_str()) {
            assert(tv[i as int] != av.subrange(0, tv.len() as int)[i as int]);
            return false;
        }
        i += 1;
    }
    assert(tv =~= av.subrange(0, tv.len() as int));
    true
}

fn relativize(root: &Option<String>, target: &str) -> (r: Option<String>)
    ensures
        r.deep_view() == relative(root.deep_view(), target@),
{
    proof {
        reveal_strlit("\\");
    }
    match root {
        Some(root) => {
            let (root_abs, top) = normalize_lexical(root.as_str());
            let parts = list_parts(target);
            let (abs, at) = if starts_with(target, "/") {
                normalize_lexical(target)
            } else {
                let (a, start) = normalize_lexical(root.as_str());
                (a, walk(start, &parts))
            };
            assert((abs, at.deep_view()) == placed(root@, target@));
            if abs != root_abs || !begins_with(&at, &top) {
                return None;
            }
            assert(top.deep_view().len() == top@.len());
            assert(at.deep_view().len() == at@.len());
            let rel = crate::text::join_from(&at, top.len(), "/");
            Some(replace(rel.as_str(), "\\", "/"))
        },
        None => {
            let parts = list_parts(target);
            if any_same(&parts, "..") {
                return None;
            }
            let (abs, at) = normalize_lexical(target);
            let text = join(&at, "/");
            let mut out = String::new();
            if abs {
                out.append("/");
            }
            out.append(text.as_str());
            proof {
                if abs {
                    assert(out@ =~= "/"@ + text@);
                } else {
                    assert(out@ =~= text@);
                }
            }
            Some(replace(out.as_str(), "\\", "/"))
        },
    }
}

// ── The wall ────────────────────────────────────────────────────────────────────────────

/// The wall of one invocation.
#[derive(Debug)]
pub struct StatePolicyResponder {
    pub spec: StateSpec,
    pub post_tools: Vec<CapabilityPrefix>,
    pub settle_tools: Vec<CapabilityPrefix>,
    pub read_tools: Vec<CapabilityPrefix>,
    /// Where the soul stands.
    pub repo_root: Option<String>,
    /// Prefixes of the tools that are held back.
    pub dry_run_block: Vec<String>,
    /// The outward actions that were allowed in this run: the tool, and what it was given.
    pub outward_seen: Vec<(String, Json)>,
}

/// What a [`StatePolicyResponder`] holds.
#[verifier::ext_equal]
pub struct WallV {
    pub state: ConsciousnessState,
    pub scope: Seq<ToolClass>,
    pub dirs: Seq<Seq<char>>,
    pub post: Seq<PrefixV>,
    pub settle: Seq<PrefixV>,
    pub read: Seq<PrefixV>,
    pub root: Option<Seq<char>>,
    pub held: Seq<Seq<char>>,
    pub seen: Seq<(Seq<char>, JsonV)>,
}

impl View for StatePolicyResponder {
    type V = WallV;

    open spec fn view(&self) -> WallV {
        WallV {
            state: self.spec.state,
            scope: self.spec.tool_scope.allowed@,
            dirs: dirs_view(self.spec.writable_dirs@),
            post: self.post_tools.deep_view(),
            settle: self.settle_tools.deep_view(),
            read: self.read_tools.deep_view(),
            root: self.repo_root.deep_view(),
            held: self.dry_run_block.deep_view(),
            seen: fields_view(self.outward_seen@),
        }
    }
}

/// The class that the wall sees in a tool.
pub open spec fn seen_class(w: WallV, tool: Seq<char>) -> ToolClass {
    class_of(tool, w.settle, w.post, w.read)
}

/// The same tool was given the same before.
pub open spec fn done_already(seen: Seq<(Seq<char>, JsonV)>, tool: Seq<char>, input: JsonV) -> bool {
    exists|i: int|
        0 <= i < seen.len() && (#[trigger] seen[i]).0 == tool && alike(seen[i].1, input)
}

/// An outward action.
pub open spec fn is_outward(c: ToolClass) -> bool {
    c == ToolClass::Post || c == ToolClass::SettleTx
}

/// A tool is held back for a rehearsal.
pub open spec fn is_held(held: Seq<Seq<char>>, tool: Seq<char>) -> bool {
    exists|i: int| 0 <= i < held.len() && has_prefix(tool, #[trigger] held[i])
}

pub open spec fn out_of_scope(w: WallV, tool: Seq<char>) -> Seq<char> {
    "tool `"@ + tool + "` (class "@ + class_name(seen_class(w, tool)) + ") not in "@ + state_name(
        w.state,
    ) + " scope"@
}

pub open spec fn held_back(tool: Seq<char>) -> Seq<char> {
    "dry-run test mode: `"@ + tool
        + "` was recorded but intentionally NOT executed. This is expected — it is NOT a failure and NOT a permissions problem. Do not retry it; treat the action as already done and continue (or stop)."@
}

pub open spec fn no_such_write(w: WallV, path: Seq<char>) -> Seq<char> {
    state_name(w.state) + " may not write `"@ + path + "`"@
}

pub open spec fn done_before(tool: Seq<char>) -> Seq<char> {
    "duplicate outward action — `"@ + tool
        + "` with identical input already done this cycle (one outward action per run)"@
}

/// What the wall answers to a tool call.
pub open spec fn verdict(w: WallV, tool: Seq<char>, input: JsonV) -> DecisionV {
    let class = seen_class(w, tool);
    if !w.scope.contains(class) {
        Some(out_of_scope(w, tool))
    } else if is_held(w.held, tool) {
        Some(held_back(tool))
    } else if class == ToolClass::FileWrite && target_of(input) is None {
        Some("write with no target path"@)
    } else if class == ToolClass::FileWrite && !may_write(w.dirs, w.root, target_of(input)->0) {
        Some(no_such_write(w, target_of(input)->0))
    } else if is_outward(class) && done_already(w.seen, tool, input) {
        Some(done_before(tool))
    } else {
        None
    }
}

/// The wall after a tool call: an outward action that was allowed is remembered.
pub open spec fn remembered(w: WallV, tool: Seq<char>, input: JsonV) -> WallV {
    if verdict(w, tool, input) is None && is_outward(seen_class(w, tool)) {
        WallV { seen: w.seen.push((tool, input)), ..w }
    } else {
        w
    }
}

fn was_done(seen: &Vec<(String, Json)>, tool: &str, input: &Json) -> (r: bool)
    ensures
        r == done_already(fields_view(seen@), tool@, input@),
{
    let ghost sv = fields_view(seen@);
    let mut i: usize = 0;
    while i < seen.len()
        invariant
            i <= seen@.len(),
            sv == fields_view(seen@),
            forall|k: int|
                0 <= k < i ==> !((#[trigger] sv[k]).0 == tool@ && alike(sv[k].1, input@)),
        decreases seen@.len() - i,
    {
        assert(sv[i as int] == (seen@[i as int].0@, seen@[i as int].1@));
        if same_text(seen[i].0.as_str(), tool) && seen[i].1.same(input) {
            return true;
        }
        i += 1;
    }
    false
}

fn starts_with_any(tool: &str, held: &Vec<String>) -> (r: bool)
    ensures
        r == is_held(held.deep_view(), tool@),
{
    let ghost hv = held.deep_view();
    let mut i: usize = 0;
    while i < held.len()
        invariant
            i <= held@.len(),
            hv == held.deep_view(),
            forall|k: int| 0 <= k < i ==> !has_prefix(tool@, #[trigger] hv[k]),
        decreases held@.len() - i,
    {
        assert(hv[i as int] == held@[i as int]@);
        if starts_with(tool, held[i].as_str()) {
            return true;
        }
        i += 1;
    }
    false
}

impl StatePolicyResponder {
    /// A wall without capability tools.
    pub fn new(spec: StateSpec) -> (r: StatePolicyResponder)
        ensures
            r.spec == spec,
            r@ == (WallV {
                state: spec.state,
                scope: spec.tool_scope.allowed@,
                dirs: dirs_view(spec.writable_dirs@),
                post: Seq::empty(),
                settle: Seq::empty(),
                read: Seq::empty(),
                root: None,
                held: Seq::empty(),
                seen: Seq::empty(),
            }),
    {
        StatePolicyResponder::with_capabilities(spec, Vec::new(), Vec::new())
    }

    /// A wall that knows the deployment's capability tools.
    pub fn with_capabilities(
        spec: StateSpec,
        post_tools: Vec<CapabilityPrefix>,
        settle_tools: Vec<CapabilityPrefix>,
    ) -> (r: StatePolicyResponder)
        ensures
            r.spec == spec,
            r@ == (WallV {
                state: spec.state,
                scope: spec.tool_scope.allowed@,
                dirs: dirs_view(spec.writable_dirs@),
                post: post_tools.deep_view(),
                settle: settle_tools.deep_view(),
                read: Seq::empty(),
                root: None,
                held: Seq::empty(),
                seen: Seq::empty(),
            }),
    {
        let r = StatePolicyResponder {
            spec,
            post_tools,
            settle_tools,
            read_tools: Vec::new(),
            repo_root: None,
            dry_run_block: Vec::new(),
            outward_seen: Vec::new(),
        };
        assert(r@.read =~= Seq::empty());
        assert(r@.held =~= Seq::empty());
        assert(r@.seen =~= Seq::empty());
        r
    }

    /// Binds the wall to the place of the soul.
    pub fn with_repo_root(self, root: &str) -> (r: StatePolicyResponder)
        ensures
            r@ == (WallV { root: Some(root@), ..self@ }),
            r.spec == self.spec,
    {
        StatePolicyResponder { repo_root: Some(owned(root)), ..self }
    }

    /// Whether a path may be written.
    pub fn write_target_allowed(&self, target: &str) -> (r: bool)
        ensures
            r == may_write(self@.dirs, self@.root, target@),
    {
        let rel = match relativize(&self.repo_root, target) {
            Some(x) => x,
            None => return false,
        };
        if starts_with(rel.as_str(), "runlogs/") {
            return false;
        }
        let ghost dv = dirs_view(self.spec.writable_dirs@);
        let mut i: usize = 0;
        while i < self.spec.writable_dirs.len()
            invariant
                i <= self.spec.writable_dirs@.len(),
                dv == dirs_view(self.spec.writable_dirs@),
                relative(self.repo_root.deep_view(), target@) == Some(rel@),
                !has_prefix(rel@, "runlogs/"@),
                forall|k: int| 0 <= k < i ==> !has_prefix(rel@, #[trigger] dv[k]),
            decreases self.spec.writable_dirs@.len() - i,
        {
            assert(dv[i as int] == self.spec.writable_dirs@[i as int]@);
            if starts_with(rel.as_str(), self.spec.writable_dirs[i]) {
                return true;
            }
            i += 1;
        }
        false
    }

    /// Decides on a tool call.
    pub fn decide(&mut self, req: &ActionRequest) -> (r: ActionDecision)
        ensures
            r@ == verdict(old(self)@, req.tool@, req.input@),
            final(self)@ == remembered(old(self)@, req.tool@, req.input@),
            final(self).spec == old(self).spec,
    {
        let tool = req.tool.as_str();
        let (class, target) = classify_tool(
            tool,
            &req.input,
            &self.settle_tools,
            &self.post_tools,
            &self.read_tools,
        );
        if !self.spec.tool_scope.allows(class) {
            let mut m = owned("tool `");
            m.append(tool);
            m.append("` (class ");
            m.append(class_label(class));
            m.append(") not in ");
            m.append(state_label(self.spec.state));
            m.append(" scope");
            return ActionDecision::Deny(m);
        }
        if starts_with_any(tool, &self.dry_run_block) {
            let mut m = owned("dry-run test mode: `");
            m.append(tool);
            m.append(
                "` was recorded but intentionally NOT executed. This is expected — it is NOT a failure and NOT a permissions problem. Do not retry it; treat the action as already done and continue (or stop).",
            );
            return ActionDecision::Deny(m);
        }
        if class == ToolClass::FileWrite {
            match &target {
                Some(path) => if !self.write_target_allowed(path.as_str()) {
                    let mut m = owned(state_label(self.spec.state));
                    m.append(" may not write `");
                    m.append(path.as_str());
                    m.append("`");
                    return ActionDecision::Deny(m);
                },
                None => return ActionDecision::Deny(owned("write with no target path")),
            }
        }
        if class == ToolClass::Post || class == ToolClass::SettleTx {
            if was_done(&self.outward_seen, tool, &req.input) {
                let mut m = owned("duplicate outward action — `");
                m.append(tool);
                m.append(
                    "` with identical input already done this cycle (one outward action per run)",
                );
                return ActionDecision::Deny(m);
            }
            let ghost o = self.outward_seen@;
            self.outward_seen.push((owned(tool), req.input.clone()));
            assert(fields_view(self.outward_seen@) =~= fields_view(o).push(
                (req.tool@, req.input@),
            ));
        }
        ActionDecision::Allow
    }
}

// ── The record ──────────────────────────────────────────────────────────────────────────

/// A text cut to 240 bytes, with a mark where something was cut off.
pub open spec fn clipped(s: Seq<char>) -> Seq<char> {
    if byte_len(s) > 240 {
        s.take(fitting(s, 240)).push('…')
    } else {
        s
    }
}

fn clip(s: &str) -> (r: String)
    ensures
        r@ == clipped(s@),
{
    match fit(s, 240) {
        Some(head) => {
            let mut out = head;
            out.push('…');
            out
        },
        None => owned(s),
    }
}

/// A wall that keeps a record of every call that it was asked about.
#[derive(Debug)]
pub struct RecordingResponder {
    pub inner: StatePolicyResponder,
    pub calls: Vec<ToolCallRecord>,
}

/// The record of a call.
pub open spec fn record_of(w: WallV, tool: Seq<char>, input: JsonV) -> ToolCallV {
    ToolCallV {
        tool,
        decision: match verdict(w, tool, input) {
            None => "allow"@,
            Some(why) => "deny: "@ + why,
        },
        input: Some(clipped(json_text(input))),
    }
}

impl RecordingResponder {
    /// A wall with an empty record.
    pub fn wrap(inner: StatePolicyResponder) -> (r: RecordingResponder)
        ensures
            r.inner == inner,
            r.calls.deep_view() == Seq::<ToolCallV>::empty(),
    {
        let r = RecordingResponder { inner, calls: Vec::new() };
        assert(r.calls.deep_view() =~= Seq::empty());
        r
    }

    /// Decides as the wall does, and records the call and the answer.
    pub fn decide(&mut self, req: &ActionRequest) -> (r: ActionDecision)
        ensures
            r@ == verdict(old(self).inner@, req.tool@, req.input@),
            final(self).inner@ == remembered(old(self).inner@, req.tool@, req.input@),
            final(self).inner.spec == old(self).inner.spec,
            final(self).calls.deep_view() == old(self).calls.deep_view().push(
                record_of(old(self).inner@, req.tool@, req.input@),
            ),
    {
        let ghost w = self.inner@;
        let ghost o = self.calls.deep_view();
        let decision = self.inner.decide(req);
        let rendered = match &decision {
            ActionDecision::Allow => owned("allow"),
            ActionDecision::Deny(why) => {
                let mut m = owned("deny: ");
                m.append(why.as_str());
                m
            },
        };
        let input = clip(req.input.to_text().as_str());
        let record = ToolCallRecord {
            tool: req.tool.clone(),
            decision: rendered,
            input: Some(input),
        };
        let ghost rv = record@;
        self.calls.push(record);
        assert(rv == record_of(w, req.tool@, req.input@));
        assert(self.calls.deep_view() =~= o.push(rv));
        decision
    }

    /// Takes the record out.
    pub fn take(&mut self) -> (r: Vec<ToolCallRecord>)
        ensures
            r == old(self).calls,
            final(self).calls@ == Seq::<ToolCallRecord>::empty(),
            final(self).inner == old(self).inner,
    {
        let mut out: Vec<ToolCallRecord> = Vec::new();
        std::mem::swap(&mut out, &mut self.calls);
        out
    }
}

// ── Laws ────────────────────────────────────────────────────────────────────────────────

/// A wall of one of the four states.
pub open spec fn is_wall_of(w: WallV, s: ConsciousnessState) -> bool {
    w.state == s && w.scope == scope_of(s) && w.dirs == writable_of(s)
}

/// In Perceive nothing passes but reading. Nothing ever passes a shell or a tool that is not
/// known; a post passes in Express only, and an irreversible action in Settle only.
pub proof fn the_wall_holds_the_states_apart(
    w: WallV,
    s: ConsciousnessState,
    tool: Seq<char>,
    input: JsonV,
)
    requires
        is_wall_of(w, s),
        verdict(w, tool, input) is None,
    ensures
        s == ConsciousnessState::Perceive ==> seen_class(w, tool) == ToolClass::Read,
        seen_class(w, tool) != ToolClass::Shell,
        seen_class(w, tool) != ToolClass::Other,
        seen_class(w, tool) == ToolClass::Post ==> s == ConsciousnessState::Express,
        seen_class(w, tool) == ToolClass::SettleTx ==> s == ConsciousnessState::Settle,
{
}

/// A write that passes lands in a directory of the state, within the repository, and never in
/// the record; outside Reflect that directory is the memory.
pub proof fn a_write_lands_where_the_state_may_write(
    w: WallV,
    s: ConsciousnessState,
    tool: Seq<char>,
    input: JsonV,
)
    requires
        is_wall_of(w, s),
        seen_class(w, tool) == ToolClass::FileWrite,
        verdict(w, tool, input) is None,
    ensures
        target_of(input) is Some,
        relative(w.root, target_of(input)->0) is Some,
        !has_prefix(relative(w.root, target_of(input)->0)->0, "runlogs/"@),
        s != ConsciousnessState::Perceive,
        s != ConsciousnessState::Reflect ==> has_prefix(
            relative(w.root, target_of(input)->0)->0,
            "memory/"@,
        ),
{
    let rel = relative(w.root, target_of(input)->0)->0;
    let i = choose|i: int| 0 <= i < w.dirs.len() && has_prefix(rel, #[trigger] w.dirs[i]);
    if s == ConsciousnessState::Express || s == ConsciousnessState::Settle {
        assert(w.dirs[i] == "memory/"@);
    }
}

/// The place that a path names has no step up left in it, so what lies under a directory by
/// its text lies under it in truth.
pub proof fn no_step_up_is_left(at: Seq<Seq<char>>, parts: Seq<Seq<char>>)
    requires
        !at.contains(".."@),
    ensures
        !walked(at, parts).contains(".."@),
    decreases parts.len(),
{
    if parts.len() > 0 {
        no_step_up_is_left(at, parts.drop_last());
        let before = walked(at, parts.drop_last());
        let now = walked(at, parts);
        if now.contains(".."@) {
            let i = choose|i: int| 0 <= i < now.len() && now[i] == ".."@;
            if parts.last() == ".."@ {
                assert(before[i] == ".."@);
            } else if i < before.len() {
                assert(before[i] == ".."@);
            }
        }
    }
}

/// The wall after it was asked about some calls.
pub open spec fn asked(w: WallV, calls: Seq<(Seq<char>, JsonV)>) -> WallV
    decreases calls.len(),
{
    if calls.len() == 0 {
        w
    } else {
        let before = asked(w, calls.drop_last());
        remembered(before, calls.last().0, calls.last().1)
    }
}

proof fn asking_only_adds(w: WallV, calls: Seq<(Seq<char>, JsonV)>)
    ensures
        asked(w, calls) == (WallV { seen: asked(w, calls).seen, ..w }),
        w.seen.is_prefix_of(asked(w, calls).seen),
    decreases calls.len(),
{
    if calls.len() > 0 {
        asking_only_adds(w, calls.drop_last());
        let s = asked(w, calls.drop_last()).seen;
        let t = asked(w, calls).seen;
        assert(t.subrange(0, w.seen.len() as int) =~= s.subrange(0, w.seen.len() as int));
    } else {
        assert(w.seen.subrange(0, w.seen.len() as int) =~= w.seen);
    }
}

/// The same outward action does not pass twice in one run: once it was allowed, every later call
/// of the tool with an input that says the same is denied, whatever was asked in between.
pub proof fn an_outward_action_passes_once(
    w: WallV,
    tool: Seq<char>,
    input: JsonV,
    between: Seq<(Seq<char>, JsonV)>,
    again: JsonV,
)
    requires
        verdict(w, tool, input) is None,
        is_outward(seen_class(w, tool)),
        again == input || alike(input, again),
    ensures
        verdict(asked(remembered(w, tool, input), between), tool, again) == Some(
            done_before(tool),
        ),
{
    alike_itself(input);
    let n = remembered(w, tool, input);
    let later = asked(n, between);
    let k = w.seen.len() as int;
    assert(n.seen[k] == (tool, input));
    asking_only_adds(n, between);
    assert(later.seen.subrange(0, n.seen.len() as int)[k] == later.seen[k]);
    assert(later.seen[k] == (tool, input));
}

/// A different action is not held back by what passed before: a call of another tool, or with an
/// input that says something else, is decided as if the earlier one had not been. What is not
/// outward may be repeated.
pub proof fn a_different_action_is_not_held_back(
    w: WallV,
    tool: Seq<char>,
    input: JsonV,
    other: Seq<char>,
    other_input: JsonV,
)
    requires
        other != tool || !alike(input, other_input) || !is_outward(seen_class(w, other)),
    ensures
        verdict(remembered(w, tool, input), other, other_input) == verdict(w, other, other_input),
{
    let n = remembered(w, tool, input);
    if n.seen != w.seen {
        if done_already(w.seen, other, other_input) {
            let i = choose|i: int|
                0 <= i < w.seen.len() && (#[trigger] w.seen[i]).0 == other && alike(
                    w.seen[i].1,
                    other_input,
                );
            assert(n.seen[i] == w.seen[i]);
        }
        if done_already(n.seen, other, other_input) {
            let i = choose|i: int|
                0 <= i < n.seen.len() && (#[trigger] n.seen[i]).0 == other && alike(
                    n.seen[i].1,
                    other_input,
                );
            if i < w.seen.len() {
                assert(n.seen[i] == w.seen[i]);
            } else {
                assert(n.seen[i] == (tool, input));
            }
        }
    }
}

/// Nothing but the same action holds an action back: after any run of other calls it is decided
/// as at the start.
pub proof fn only_a_repetition_is_held_back(
    w: WallV,
    calls: Seq<(Seq<char>, JsonV)>,
    tool: Seq<char>,
    input: JsonV,
)
    requires
        (forall|i: int|
            0 <= i < calls.len() ==> (#[trigger] calls[i]).0 != tool || !alike(calls[i].1, input))
            || !is_outward(seen_class(w, tool)),
    ensures
        verdict(asked(w, calls), tool, input) == verdict(w, tool, input),
    decreases calls.len(),
{
    if calls.len() > 0 {
        let init = calls.drop_last();
        assert forall|i: int| 0 <= i < init.len() implies #[trigger] init[i] == calls[i] by {}
        assert(calls.last() == calls[calls.len() - 1]);
        only_a_repetition_is_held_back(w, init, tool, input);
        asking_only_adds(w, init);
        a_different_action_is_not_held_back(
            asked(w, init),
            calls.last().0,
            calls.last().1,
            tool,
            input,
        );
    }
}

/// A tool that is held back never passes.
pub proof fn a_rehearsed_tool_does_not_run(w: WallV, tool: Seq<char>, input: JsonV)
    requires
        is_held(w.held, tool),
    ensures
        verdict(w, tool, input) is Some,
{
}

/// A tool that no prefix of the list is one of.
pub open spec fn outside_of(l: Seq<PrefixV>, tool: Seq<char>) -> bool {
    forall|i: int| 0 <= i < l.len() ==> !has_prefix(tool, (#[trigger] l[i]).prefix)
}

/// A tool under some prefix of the list, which every one of its prefixes lets through: with an
/// open list of tools, or one that names it.
pub open spec fn let_through(l: Seq<PrefixV>, tool: Seq<char>) -> bool {
    &&& !outside_of(l, tool)
    &&& forall|i: int|
        0 <= i < l.len() && has_prefix(tool, (#[trigger] l[i]).prefix) ==> l[i].tools.len() == 0
            || l[i].tools.contains(tool.skip(l[i].prefix.len() as int))
}

/// The built-in tools that only read.
pub open spec fn reading_tools() -> Seq<Seq<char>> {
    seq![
        "Read"@,
        "FileRead"@,
        "Grep"@,
        "Glob"@,
        "LSP"@,
        "WebFetch"@,
        "WebSearch"@,
        "ListMcpResources"@,
        "ListMcpResourcesTool"@,
        "ReadMcpResource"@,
        "ReadMcpResourceTool"@,
        "ToolSearch"@,
        "TaskGet"@,
        "TaskList"@,
        "TaskOutput"@,
    ]
}

/// The built-in tools that write a file.
pub open spec fn writing_tools() -> Seq<Seq<char>> {
    seq!["Write"@, "Edit"@, "NotebookEdit"@]
}

/// A call names, by the field of a file or else of a notebook, a path that lies in one of these
/// places and is no part of the record.
pub open spec fn lands_in(
    places: Seq<Seq<char>>,
    root: Option<Seq<char>>,
    input: JsonV,
) -> bool {
    exists|path: Seq<char>, dir: Seq<char>|
        {
            &&& text_field(input, "file_path"@) == Some(path) || text_field(input, "file_path"@) is None
                && text_field(input, "notebook_path"@) == Some(path)
            &&& relative(root, path) is Some
            &&& !has_prefix(relative(root, path)->0, "runlogs/"@)
            &&& #[trigger] places.contains(dir) && #[trigger] has_prefix(
                relative(root, path)->0,
                dir,
            )
        }
}

/// What the wall of a state lets through, and nothing besides, of the tools that are not held
/// back. Under a settle prefix: in Settle, what it lists, once. Under a post prefix: in Express,
/// what it lists, once. Under a read prefix: what it lists. Of the built-in tools: those that
/// read, in every state and whatever they are given; and those that write, in the states that
/// act, where the path lies in a place of the state.
pub proof fn the_wall_lets_through_what_the_state_is_for(
    w: WallV,
    s: ConsciousnessState,
    tool: Seq<char>,
    input: JsonV,
)
    requires
        is_wall_of(w, s),
        forall|i: int| 0 <= i < w.held.len() ==> !has_prefix(tool, #[trigger] w.held[i]),
    ensures
        verdict(w, tool, input) is None <==> {
            let again = exists|i: int|
                0 <= i < w.seen.len() && (#[trigger] w.seen[i]).0 == tool && alike(
                    w.seen[i].1,
                    input,
                );
            if !outside_of(w.settle, tool) {
                s == ConsciousnessState::Settle && let_through(w.settle, tool) && !again
            } else if !outside_of(w.post, tool) {
                s == ConsciousnessState::Express && let_through(w.post, tool) && !again
            } else if !outside_of(w.read, tool) {
                let_through(w.read, tool)
            } else {
                ||| reading_tools().contains(tool)
                ||| writing_tools().contains(tool) && s != ConsciousnessState::Perceive && lands_in(
                    writable_of(s),
                    w.root,
                    input,
                )
            }
        },
{
    assert(covered(w.settle, tool) == !outside_of(w.settle, tool));
    assert(covered(w.post, tool) == !outside_of(w.post, tool));
    assert(covered(w.read, tool) == !outside_of(w.read, tool));
    prefixes_let_through(w.settle, tool);
    prefixes_let_through(w.post, tool);
    prefixes_let_through(w.read, tool);
    each_state_writes_its_own_places(s, Seq::empty());
    every_state_reads_and_none_runs_a_shell(s);
    outward_classes_belong_to_one_state(s);
    builtin_tools_have_their_class(tool);
    assert(is_held(w.held, tool) == false);
    if lands_in(w.dirs, w.root, input) {
        let (path, dir) = choose|path: Seq<char>, dir: Seq<char>|
            {
                &&& text_field(input, "file_path"@) == Some(path) || text_field(
                    input,
                    "file_path"@,
                ) is None && text_field(input, "notebook_path"@) == Some(path)
                &&& relative(w.root, path) is Some
                &&& !has_prefix(relative(w.root, path)->0, "runlogs/"@)
                &&& #[trigger] w.dirs.contains(dir) && #[trigger] has_prefix(
                    relative(w.root, path)->0,
                    dir,
                )
            };
        let k = choose|k: int| 0 <= k < w.dirs.len() && w.dirs[k] == dir;
        assert(has_prefix(relative(w.root, path)->0, w.dirs[k]));
        assert(target_of(input) == Some(path));
        assert(may_write(w.dirs, w.root, path));
    }
    if target_of(input) is Some && may_write(w.dirs, w.root, target_of(input)->0) {
        let path = target_of(input)->0;
        let rel = relative(w.root, path)->0;
        let k = choose|k: int| 0 <= k < w.dirs.len() && has_prefix(rel, #[trigger] w.dirs[k]);
        assert(w.dirs.contains(w.dirs[k]));
        assert(has_prefix(rel, w.dirs[k]));
        assert(lands_in(w.dirs, w.root, input));
    }
}

proof fn prefixes_let_through(l: Seq<PrefixV>, tool: Seq<char>)
    ensures
        let_through(l, tool) <==> covered(l, tool) && permitted(l, tool),
{
    if let_through(l, tool) {
        assert forall|i: int|
            0 <= i < l.len() && has_prefix(tool, (#[trigger] l[i]).prefix) implies permits(
            l[i],
            tool,
        ) by {}
    }
    if permitted(l, tool) {
        assert forall|i: int|
            0 <= i < l.len() && has_prefix(tool, (#[trigger] l[i]).prefix) implies l[i].tools.len()
            == 0 || l[i].tools.contains(tool.skip(l[i].prefix.len() as int)) by {
            assert(permits(l[i], tool));
        }
    }
}

proof fn builtin_tools_have_their_class(tool: Seq<char>)
    ensures
        reading_tools().contains(tool) <==> is_read_tool(tool),
        writing_tools().contains(tool) <==> is_write_tool(tool),
        is_write_tool(tool) ==> !is_read_tool(tool),
{
    let r = reading_tools();
    assert(r[0] == "Read"@ && r[1] == "FileRead"@ && r[2] == "Grep"@ && r[3] == "Glob"@);
    assert(r[4] == "LSP"@ && r[5] == "WebFetch"@ && r[6] == "WebSearch"@);
    assert(r[7] == "ListMcpResources"@ && r[8] == "ListMcpResourcesTool"@);
    assert(r[9] == "ReadMcpResource"@ && r[10] == "ReadMcpResourceTool"@);
    assert(r[11] == "ToolSearch"@ && r[12] == "TaskGet"@ && r[13] == "TaskList"@);
    assert(r[14] == "TaskOutput"@);
    let w = writing_tools();
    assert(w[0] == "Write"@ && w[1] == "Edit"@ && w[2] == "NotebookEdit"@);
    reveal_strlit("Read");
    reveal_strlit("FileRead");
    reveal_strlit("Grep");
    reveal_strlit("Glob");
    reveal_strlit("LSP");
    reveal_strlit("WebFetch");
    reveal_strlit("WebSearch");
    reveal_strlit("ListMcpResources");
    reveal_strlit("ListMcpResourcesTool");
    reveal_strlit("ReadMcpResource");
    reveal_strlit("ReadMcpResourceTool");
    reveal_strlit("ToolSearch");
    reveal_strlit("TaskGet");
    reveal_strlit("TaskList");
    reveal_strlit("TaskOutput");
    reveal_strlit("Write");
    reveal_strlit("Edit");
    reveal_strlit("NotebookEdit");
    if is_write_tool(tool) && is_read_tool(tool) {
        assert(tool.len() == 5 || tool.len() == 4 || tool.len() == 12);
        assert(tool[0] == 'W' || tool[0] == 'E' || tool[0] == 'N');
        assert(false);
    }
}

/// What is held back never passes, and is told that this is meant so; a write without a path, one
/// that lands elsewhere, and an outward action that is repeated are each told why.
pub proof fn a_denial_says_why(w: WallV, s: ConsciousnessState, tool: Seq<char>, input: JsonV)
    requires
        is_wall_of(w, s),
        verdict(w, tool, input) is Some,
    ensures
        ({
            let m = verdict(w, tool, input)->0;
            let held = exists|i: int|
                0 <= i < w.held.len() && has_prefix(tool, #[trigger] w.held[i]);
            let file = outside_of(w.settle, tool) && outside_of(w.post, tool) && outside_of(
                w.read,
                tool,
            ) && writing_tools().contains(tool) && s != ConsciousnessState::Perceive;
            let path = match text_field(input, "file_path"@) {
                Some(p) => Some(p),
                None => text_field(input, "notebook_path"@),
            };
            &&& w.scope.contains(seen_class(w, tool)) && held ==> has_prefix(
                m,
                "dry-run test mode: `"@ + tool + "`"@,
            )
            &&& !w.scope.contains(seen_class(w, tool)) ==> m == "tool `"@ + tool + "` (class "@
                + class_name(seen_class(w, tool)) + ") not in "@ + state_name(s) + " scope"@
            &&& file && !held && path is None ==> m == "write with no target path"@
            &&& file && !held && path is Some ==> m == state_name(s) + " may not write `"@ + path->0
                + "`"@
            &&& w.scope.contains(seen_class(w, tool)) && !held && !file ==> has_prefix(
                m,
                "duplicate outward action — `"@ + tool + "`"@,
            )
        }),
{
    each_state_writes_its_own_places(s, Seq::empty());
    builtin_tools_have_their_class(tool);
    assert(covered(w.settle, tool) == !outside_of(w.settle, tool));
    assert(covered(w.post, tool) == !outside_of(w.post, tool));
    assert(covered(w.read, tool) == !outside_of(w.read, tool));
    let m = verdict(w, tool, input)->0;
    reveal_strlit("dry-run test mode: `");
    reveal_strlit("duplicate outward action — `");
    reveal_strlit("`");
    reveal_strlit(
        "` was recorded but intentionally NOT executed. This is expected — it is NOT a failure and NOT a permissions problem. Do not retry it; treat the action as already done and continue (or stop).",
    );
    reveal_strlit("` with identical input already done this cycle (one outward action per run)");
    let a = "dry-run test mode: `"@ + tool + "`"@;
    let b = "duplicate outward action — `"@ + tool + "`"@;
    assert(held_back(tool).subrange(0, a.len() as int) =~= a);
    assert(done_before(tool).subrange(0, b.len() as int) =~= b);
}

/// The record tells of a call whether it was let through, and if not why; it keeps the whole
/// input where that is short, and otherwise a front of it, of no more than 240 bytes.
pub proof fn the_record_tells_what_was_decided(w: WallV, tool: Seq<char>, input: JsonV)
    ensures
        ({
            let r = record_of(w, tool, input);
            let text = json_text(input);
            &&& r.tool == tool
            &&& has_prefix(r.decision, "allow"@) <==> verdict(w, tool, input) is None
            &&& verdict(w, tool, input) matches Some(m) ==> r.decision == "deny: "@ + m
            &&& r.input is Some
            &&& byte_len(text) <= 240 ==> r.input == Some(text)
            &&& byte_len(text) > 240 ==> exists|n: int|
                {
                    &&& 0 <= n < text.len()
                    &&& r.input == Some((#[trigger] text.take(n)).push('…'))
                    &&& byte_len(text.take(n)) <= 240
                    &&& byte_len(text.take(n + 1)) > 240
                }
        }),
{
    reveal_strlit("allow");
    reveal_strlit("deny: ");
    let r = record_of(w, tool, input);
    let text = json_text(input);
    if verdict(w, tool, input) is None {
        assert(r.decision.subrange(0, 5) =~= "allow"@);
    } else {
        if has_prefix(r.decision, "allow"@) {
            assert(r.decision.subrange(0, 5)[0] == r.decision[0]);
        }
    }
    the_longest_front_fits(text, 240);
    assert(text.take(text.len() as int) =~= text);
    let n = fitting(text, 240);
    assert(text.take(n) == text.take(n));
}

/// What was let through outward is remembered with its input, and nothing else is.
pub proof fn outward_actions_are_remembered(w: WallV, tool: Seq<char>, input: JsonV)
    ensures
        ({
            let n = remembered(w, tool, input);
            let outward = !outside_of(w.settle, tool) || !outside_of(w.post, tool);
            &&& n == (WallV { seen: n.seen, ..w })
            &&& verdict(w, tool, input) is None && outward && let_through(
                if !outside_of(w.settle, tool) {
                    w.settle
                } else {
                    w.post
                },
                tool,
            ) ==> n.seen == w.seen.push((tool, input))
            &&& verdict(w, tool, input) is Some || !outward ==> n.seen == w.seen
        }),
{
    assert(covered(w.settle, tool) == !outside_of(w.settle, tool));
    assert(covered(w.post, tool) == !outside_of(w.post, tool));
    prefixes_let_through(w.settle, tool);
    prefixes_let_through(w.post, tool);
}

// ── Laws of paths ───────────────────────────────────────────────────────────────────────

/// Parts of a path that say where something is and lead nowhere up.
pub open spec fn plain_parts(parts: Seq<Seq<char>>) -> bool {
    forall|i: int|
        0 <= i < parts.len() ==> {
            &&& (#[trigger] parts[i]).len() > 0
            &&& parts[i] != "."@
            &&& parts[i] != ".."@
            &&& forall|j: int|
                0 <= j < parts[i].len() ==> #[trigger] parts[i][j] != '/' && parts[i][j] != '\\'
        }
}

proof fn all_parts_count(parts: Seq<Seq<char>>)
    requires
        forall|i: int| 0 <= i < parts.len() ==> counts(#[trigger] parts[i]),
    ensures
        parts.filter(|s: Seq<char>| counts(s)) == parts,
    decreases parts.len(),
{
    reveal(Seq::filter);
    if parts.len() > 0 {
        let init = parts.drop_last();
        assert forall|i: int| 0 <= i < init.len() implies counts(#[trigger] init[i]) by {
            assert(init[i] == parts[i]);
        }
        all_parts_count(init);
        assert(parts.last() == parts[parts.len() - 1]);
        assert(parts =~= init.push(parts.last()));
    }
}

proof fn plain_parts_are_walked(at: Seq<Seq<char>>, parts: Seq<Seq<char>>)
    requires
        plain_parts(parts),
    ensures
        walked(at, parts) == at + parts,
    decreases parts.len(),
{
    if parts.len() == 0 {
        assert(at + parts =~= at);
    } else {
        let init = parts.drop_last();
        assert forall|i: int| 0 <= i < init.len() implies #[trigger] init[i] == parts[i] by {}
        plain_parts_are_walked(at, init);
        assert(parts.last() == parts[parts.len() - 1]);
        assert((at + init).push(parts.last()) =~= at + parts);
    }
}

proof fn plain_paths_are_their_parts(parts: Seq<Seq<char>>)
    requires
        parts.len() > 0,
        plain_parts(parts),
    ensures
        path_parts(joined(parts, "/"@)) == parts,
        !is_absolute(joined(parts, "/"@)),
        replaced(joined(parts, "/"@), "\\"@, "/"@) == joined(parts, "/"@),
        forall|i: int|
            0 <= i < joined(parts, "/"@).len() ==> #[trigger] joined(parts, "/"@)[i] != '\\',
{
    reveal_strlit("/");
    reveal_strlit("");
    reveal_strlit("\\");
    assert("/"@ =~= seq!['/']);
    let t = joined(parts, "/"@);
    joined_parts_are_its_pieces(parts, '/');
    assert forall|i: int| 0 <= i < parts.len() implies counts(#[trigger] parts[i]) by {}
    all_parts_count(parts);
    no_backslash_is_joined(parts);
    if is_absolute(t) {
        assert(t.subrange(0, 1)[0] == t[0]);
        the_front_is_the_first_part(parts);
        assert(t[0] == parts[0][0]);
        assert(parts[0][0] != '/');
    }
    if has_part(t, "\\"@) {
        let i = choose|i: int| occurs_at(t, "\\"@, i);
        assert(t.subrange(i, i + 1)[0] == t[i]);
        assert(false);
    }
    replacing_changes_the_part_alone(t, "\\"@, "/"@, Seq::empty());
}

proof fn no_backslash_is_joined(parts: Seq<Seq<char>>)
    requires
        plain_parts(parts),
    ensures
        forall|i: int|
            0 <= i < joined(parts, "/"@).len() ==> #[trigger] joined(parts, "/"@)[i] != '\\',
    decreases parts.len(),
{
    reveal_strlit("/");
    let t = joined(parts, "/"@);
    if parts.len() > 0 {
        let init = parts.drop_last();
        assert forall|i: int| 0 <= i < init.len() implies #[trigger] init[i] == parts[i] by {}
        no_backslash_is_joined(init);
        let a = joined(init, "/"@);
        let last = parts.last();
        assert(last == parts[parts.len() - 1]);
        assert forall|i: int| 0 <= i < t.len() implies #[trigger] t[i] != '\\' by {
            if parts.len() == 1 {
                assert(parts[0][i] != '\\');
            } else if i < a.len() {
                assert(t[i] == a[i]);
            } else if i > a.len() {
                assert(t[i] == last[i - a.len() - 1]);
                assert(parts[parts.len() - 1][i - a.len() - 1] != '\\');
            } else {
                assert(t[i] == '/');
            }
        }
    }
}

proof fn the_front_is_the_first_part(parts: Seq<Seq<char>>)
    requires
        parts.len() > 0,
        parts[0].len() > 0,
    ensures
        joined(parts, "/"@).len() > 0,
        joined(parts, "/"@)[0] == parts[0][0],
    decreases parts.len(),
{
    if parts.len() > 1 {
        the_front_is_the_first_part(parts.drop_last());
        assert(parts.drop_last()[0] == parts[0]);
    }
}

/// A plain relative path is taken at the soul as it stands, and so is the absolute one that names
/// the same place.
pub proof fn a_path_under_the_soul_is_seen_from_it(top: Seq<Seq<char>>, parts: Seq<Seq<char>>)
    requires
        top.len() > 0,
        parts.len() > 0,
        plain_parts(top),
        plain_parts(parts),
    ensures
        ({
            let root = "/"@ + joined(top, "/"@);
            let rel = joined(parts, "/"@);
            &&& relative(Some(root), rel) == Some(rel)
            &&& relative(Some(root), root + "/"@ + rel) == Some(rel)
            &&& relative(None, rel) == Some(rel)
        }),
{
    reveal_strlit("/");
    reveal_strlit("");
    assert("/"@ =~= seq!['/']);
    let root = "/"@ + joined(top, "/"@);
    let rel = joined(parts, "/"@);
    let all = top + parts;
    plain_paths_are_their_parts(top);
    plain_paths_are_their_parts(parts);
    an_absolute_path_is_its_parts(top);
    assert forall|i: int| 0 <= i < all.len() implies {
        &&& (#[trigger] all[i]).len() > 0
        &&& all[i] != "."@
        &&& all[i] != ".."@
        &&& forall|j: int|
            0 <= j < all[i].len() ==> #[trigger] all[i][j] != '/' && all[i][j] != '\\'
    } by {
        if i < top.len() {
            assert(all[i] == top[i]);
        } else {
            assert(all[i] == parts[i - top.len()]);
        }
    }
    an_absolute_path_is_its_parts(all);
    joining_adds_up(top, parts);
    assert(root + "/"@ + rel =~= "/"@ + joined(all, "/"@));
    plain_parts_are_walked(Seq::empty(), top);
    plain_parts_are_walked(Seq::empty(), parts);
    plain_parts_are_walked(top, parts);
    plain_parts_are_walked(Seq::empty(), all);
    assert(Seq::<Seq<char>>::empty() + top =~= top);
    assert(Seq::<Seq<char>>::empty() + parts =~= parts);
    assert(Seq::<Seq<char>>::empty() + all =~= all);
    assert(all.subrange(0, top.len() as int) =~= top);
    assert(all.skip(top.len() as int) =~= parts);
    assert(is_absolute(root)) by {
        assert(root.subrange(0, 1) =~= "/"@);
    }
    if parts.contains(".."@) {
        let i = choose|i: int| 0 <= i < parts.len() && parts[i] == ".."@;
        assert(false);
    }
}

proof fn joining_adds_up(a: Seq<Seq<char>>, b: Seq<Seq<char>>)
    requires
        a.len() > 0,
        b.len() > 0,
    ensures
        joined(a + b, "/"@) == joined(a, "/"@) + "/"@ + joined(b, "/"@),
    decreases b.len(),
{
    let c = a + b;
    if b.len() == 1 {
        assert(c.drop_last() =~= a);
        assert(c.last() == b[0]);
    } else {
        joining_adds_up(a, b.drop_last());
        assert(c.drop_last() =~= a + b.drop_last());
        assert(c.last() == b.last());
        assert(joined(c, "/"@) =~= joined(a, "/"@) + "/"@ + joined(b, "/"@));
    }
}

proof fn an_absolute_path_is_its_parts(parts: Seq<Seq<char>>)
    requires
        parts.len() > 0,
        plain_parts(parts),
    ensures
        path_parts("/"@ + joined(parts, "/"@)) == parts,
        is_absolute("/"@ + joined(parts, "/"@)),
{
    reveal_strlit("/");
    reveal_strlit("");
    assert("/"@ =~= seq!['/']);
    let t = joined(parts, "/"@);
    let none = Seq::<char>::empty();
    plain_paths_are_their_parts(parts);
    joined_parts_are_its_pieces(parts, '/');
    assert("/"@ + t =~= none.push('/') + t);
    pieces_around(none, '/', t);
    assert(pieces(none, '/') =~= seq![none]);
    let p = seq![none] + parts;
    assert(pieces("/"@ + t, '/') == p);
    filter_drops_an_empty_front(parts);
    assert(("/"@ + t).subrange(0, 1) =~= "/"@);
}

proof fn filter_drops_an_empty_front(parts: Seq<Seq<char>>)
    ensures
        (seq![Seq::<char>::empty()] + parts).filter(|s: Seq<char>| counts(s)) == parts.filter(
            |s: Seq<char>| counts(s),
        ),
    decreases parts.len(),
{
    reveal(Seq::filter);
    reveal_strlit("");
    let none = Seq::<char>::empty();
    assert(none =~= ""@);
    let p = seq![none] + parts;
    let f = |s: Seq<char>| counts(s);
    if parts.len() == 0 {
        assert(p.drop_last() =~= Seq::empty());
        assert(p.last() == none);
        assert(!f(none));
        assert(p.drop_last().filter(f) =~= Seq::empty());
        assert(p.filter(f) == p.drop_last().filter(f));
        assert(parts.filter(f) =~= Seq::empty());
    } else {
        filter_drops_an_empty_front(parts.drop_last());
        assert(p.drop_last() =~= seq![none] + parts.drop_last());
        assert(p.last() == parts.last());
    }
}

/// A step up takes the last part off, and at the top it leads nowhere: so one step up more than
/// there are parts leaves the soul, and such a path is not seen from it.
pub proof fn a_path_that_leaves_the_soul_is_not_seen(top: Seq<Seq<char>>, name: Seq<char>)
    requires
        top.len() > 0,
        plain_parts(top),
        plain_parts(seq![name]),
        name != top.last(),
    ensures
        relative(Some("/"@ + joined(top, "/"@)), "../"@ + name) is None,
        relative(None, "../"@ + name) is None,
{
    reveal_strlit("/");
    reveal_strlit("..");
    reveal_strlit(".");
    reveal_strlit("");
    reveal_strlit("../");
    assert("/"@ =~= seq!['/']);
    let root = "/"@ + joined(top, "/"@);
    let p = "../"@ + name;
    let parts = seq![".."@, name];
    an_absolute_path_is_its_parts(top);
    plain_parts_are_walked(Seq::empty(), top);
    assert(Seq::<Seq<char>>::empty() + top =~= top);
    assert(seq![name][0] == name);
    assert forall|i: int, j: int|
        0 <= i < parts.len() && 0 <= j < parts[i].len() implies #[trigger] parts[i][j] != '/' by {
        if i == 1 {
            assert(seq![name][0][j] != '/');
        }
    }
    assert(parts.drop_last() =~= seq![".."@]);
    assert(joined(parts.drop_last(), seq!['/']) == ".."@);
    assert(joined(parts, seq!['/']) =~= ".."@ + seq!['/'] + name);
    assert(p =~= ".."@ + seq!['/'] + name);
    joined_parts_are_its_pieces(parts, '/');
    assert(".."@.len() == 2 && "."@.len() == 1);
    assert forall|i: int| 0 <= i < parts.len() implies counts(#[trigger] parts[i]) by {
        if i == 1 {
            assert(seq![name][0].len() > 0);
        }
    }
    all_parts_count(parts);
    assert(path_parts(p) == parts);
    assert(parts[0] == ".."@);
    if is_absolute(p) {
        assert(p.subrange(0, 1)[0] == p[0]);
    }
    assert(walked(top, parts.drop_last()) == top.drop_last()) by {
        let q = seq![".."@];
        assert(q.drop_last() =~= Seq::empty());
        assert(walked(top, q.drop_last()) == top);
        assert(q.last() == ".."@);
    }
    let at = top.drop_last().push(name);
    assert(walked(top, parts) == at);
    if top.is_prefix_of(at) {
        assert(at.subrange(0, top.len() as int)[top.len() - 1] == at[top.len() - 1]);
        assert(false);
    }
}

} // verus!
