//! Consciousness states: the security model, as a fixed table.
//!
//! A state is a prompt, a set of tool classes, a model tier and a list of writable
//! directories. The table is closed: nothing an agent returns can widen it. The states are
//! cut by reversibility: Perceive reads, Express acts reversibly, Settle acts irreversibly,
//! Reflect changes the soul itself.

use vstd::prelude::*;

use crate::text::{has_prefix, same_text};

verus! {

#[derive(Debug, Clone, Copy, PartialEq, Eq, PartialOrd, Ord, Hash, Structural)]
pub enum ConsciousnessState {
    Perceive,
    Express,
    Settle,
    Reflect,
}

/// Which kind of model a state runs on.
#[derive(Debug, Clone, Copy, PartialEq, Eq, Structural)]
pub enum ModelTier {
    /// Cheap and local, for quiet runs.
    CheapLocal,
    /// Local and frontier mixed.
    Mixed,
    /// The frontier model, for hard runs.
    Frontier,
}

/// The capability buckets that the wall gates on.
#[derive(Debug, Clone, Copy, PartialEq, Eq, Hash, Structural)]
pub enum ToolClass {
    /// Pure reads. Safe in every state.
    Read,
    /// A file write; the path decides what it may touch.
    FileWrite,
    /// A reversible outward effect.
    Post,
    /// Irreversible authority.
    SettleTx,
    /// Arbitrary execution. In no state's scope.
    Shell,
    /// Anything else. Denied unless a scope lists it.
    Other,
}

/// The tool classes that a state may use.
#[derive(Debug, Clone)]
pub struct ToolScope {
    pub allowed: Vec<ToolClass>,
}

impl ToolScope {
    /// Whether `class` is in the scope.
    pub fn allows(&self, class: ToolClass) -> (r: bool)
        ensures
            r == self.allowed@.contains(class),
    {
        let mut i: usize = 0;
        while i < self.allowed.len()
            invariant
                i <= self.allowed@.len(),
                forall|j: int| 0 <= j < i ==> self.allowed@[j] != class,
            decreases self.allowed@.len() - i,
        {
            if self.allowed[i] == class {
                return true;
            }
            i += 1;
        }
        false
    }
}

/// Everything a state is bound to.
#[derive(Debug, Clone)]
pub struct StateSpec {
    pub state: ConsciousnessState,
    /// Path of the state's own prompt in the soul repository.
    pub prompt_path: &'static str,
    pub model: ModelTier,
    pub tool_scope: ToolScope,
    /// The path prefixes this state may write. Empty means read-only.
    pub writable_dirs: Vec<&'static str>,
}

/// The prompt file of a state.
pub open spec fn prompt_path_of(s: ConsciousnessState) -> Seq<char> {
    match s {
        ConsciousnessState::Perceive => "prompts/perceive.md"@,
        ConsciousnessState::Express => "prompts/express.md"@,
        ConsciousnessState::Settle => "prompts/settle.md"@,
        ConsciousnessState::Reflect => "prompts/reflect.md"@,
    }
}

/// The model tier of a state.
pub open spec fn model_of(s: ConsciousnessState) -> ModelTier {
    match s {
        ConsciousnessState::Perceive => ModelTier::CheapLocal,
        ConsciousnessState::Express => ModelTier::Mixed,
        ConsciousnessState::Settle => ModelTier::Frontier,
        ConsciousnessState::Reflect => ModelTier::Frontier,
    }
}

/// The tool classes of a state.
pub open spec fn scope_of(s: ConsciousnessState) -> Seq<ToolClass> {
    match s {
        ConsciousnessState::Perceive => seq![ToolClass::Read],
        ConsciousnessState::Express => seq![ToolClass::Read, ToolClass::FileWrite, ToolClass::Post],
        ConsciousnessState::Settle => seq![
            ToolClass::Read,
            ToolClass::FileWrite,
            ToolClass::SettleTx,
        ],
        ConsciousnessState::Reflect => seq![ToolClass::Read, ToolClass::FileWrite],
    }
}

/// The path prefixes that a state may write.
pub open spec fn writable_of(s: ConsciousnessState) -> Seq<Seq<char>> {
    match s {
        ConsciousnessState::Perceive => seq![],
        ConsciousnessState::Express => seq!["memory/"@],
        ConsciousnessState::Settle => seq!["memory/"@],
        ConsciousnessState::Reflect => seq![
            "skills/"@,
            "stimuli/"@,
            "prompts/"@,
            "SOUL.md"@,
            "memory/"@,
            "agents/"@,
        ],
    }
}

/// The prefixes that a spec may write, as character sequences.
pub open spec fn dirs_view(v: Seq<&'static str>) -> Seq<Seq<char>> {
    Seq::new(v.len(), |i: int| v[i]@)
}

/// The table of states.
pub fn default_spec(state: ConsciousnessState) -> (r: StateSpec)
    ensures
        r.state == state,
        r.prompt_path@ == prompt_path_of(state),
        r.model == model_of(state),
        r.tool_scope.allowed@ == scope_of(state),
        dirs_view(r.writable_dirs@) == writable_of(state),
{
    let r = match state {
        ConsciousnessState::Perceive => StateSpec {
            state,
            prompt_path: "prompts/perceive.md",
            model: ModelTier::CheapLocal,
            // No write tool at all: digesting untrusted input cannot change anything.
            tool_scope: ToolScope { allowed: vec![ToolClass::Read] },
            writable_dirs: vec![],
        },
        ConsciousnessState::Express => StateSpec {
            state,
            prompt_path: "prompts/express.md",
            model: ModelTier::Mixed,
            tool_scope: ToolScope {
                allowed: vec![ToolClass::Read, ToolClass::FileWrite, ToolClass::Post],
            },
            writable_dirs: vec!["memory/"],
        },
        ConsciousnessState::Settle => StateSpec {
            state,
            prompt_path: "prompts/settle.md",
            model: ModelTier::Frontier,
            tool_scope: ToolScope {
                allowed: vec![ToolClass::Read, ToolClass::FileWrite, ToolClass::SettleTx],
            },
            writable_dirs: vec!["memory/"],
        },
        ConsciousnessState::Reflect => StateSpec {
            state,
            prompt_path: "prompts/reflect.md",
            model: ModelTier::Frontier,
            // The only state whose writable prefixes hold the soul's own directories.
            tool_scope: ToolScope { allowed: vec![ToolClass::Read, ToolClass::FileWrite] },
            writable_dirs: vec![
                "skills/",
                "stimuli/",
                "prompts/",
                "SOUL.md",
                "memory/",
                "agents/",
            ],
        },
    };
    assert(r.tool_scope.allowed@ =~= scope_of(state));
    assert(dirs_view(r.writable_dirs@) =~= writable_of(state));
    r
}

/// The spec of a worker: keyless compute in its own workspace. It may read, write, run a
/// shell and spawn helpers there; it holds no outward authority.
pub fn worker_spec() -> (r: StateSpec)
    ensures
        r.state == ConsciousnessState::Express,
        r.prompt_path@ == Seq::<char>::empty(),
        r.model == ModelTier::Mixed,
        r.tool_scope.allowed@ == seq![
            ToolClass::Read,
            ToolClass::FileWrite,
            ToolClass::Shell,
            ToolClass::Other,
        ],
        dirs_view(r.writable_dirs@) == seq![Seq::<char>::empty()],
{
    let r = StateSpec {
        // A worker is no state of its own; the field has no bearing on what it may do.
        state: ConsciousnessState::Express,
        prompt_path: "",
        model: ModelTier::Mixed,
        tool_scope: ToolScope {
            allowed: vec![
                ToolClass::Read,
                ToolClass::FileWrite,
                ToolClass::Shell,
                ToolClass::Other,
            ],
        },
        // The empty prefix: anything under the workspace.
        writable_dirs: vec![""],
    };
    proof {
        reveal_strlit("");
        assert(""@ =~= Seq::<char>::empty());
        assert(dirs_view(r.writable_dirs@) =~= seq![Seq::<char>::empty()]);
    }
    r
}

/// Whether the harness may open `to` from `from`. Reflect leads nowhere; every other edge
/// is structurally open, and how far a chain walks is bounded by its trust ceiling.
pub fn allowed_transition(from: ConsciousnessState, to: ConsciousnessState) -> (r: bool)
    ensures
        r == (from != ConsciousnessState::Reflect),
{
    from != ConsciousnessState::Reflect
}

/// The position of a state on the ladder.
pub open spec fn rank_of(s: ConsciousnessState) -> int {
    match s {
        ConsciousnessState::Perceive => 0,
        ConsciousnessState::Express => 1,
        ConsciousnessState::Settle => 2,
        ConsciousnessState::Reflect => 3,
    }
}

/// The position of a state on the ladder Perceive, Express, Settle, Reflect.
pub fn reach_rank(s: ConsciousnessState) -> (r: u8)
    ensures
        r == rank_of(s),
{
    match s {
        ConsciousnessState::Perceive => 0,
        ConsciousnessState::Express => 1,
        ConsciousnessState::Settle => 2,
        ConsciousnessState::Reflect => 3,
    }
}

/// Whether `state` is at or below `ceiling`.
pub fn within_ceiling(state: ConsciousnessState, ceiling: ConsciousnessState) -> (r: bool)
    ensures
        r == (rank_of(state) <= rank_of(ceiling)),
{
    reach_rank(state) <= reach_rank(ceiling)
}

/// The name of a state as it is shown in records.
pub open spec fn state_name(s: ConsciousnessState) -> Seq<char> {
    match s {
        ConsciousnessState::Perceive => "Perceive"@,
        ConsciousnessState::Express => "Express"@,
        ConsciousnessState::Settle => "Settle"@,
        ConsciousnessState::Reflect => "Reflect"@,
    }
}

/// The name of a state as it is shown in records.
pub fn state_label(s: ConsciousnessState) -> (r: &'static str)
    ensures
        r@ == state_name(s),
{
    match s {
        ConsciousnessState::Perceive => "Perceive",
        ConsciousnessState::Express => "Express",
        ConsciousnessState::Settle => "Settle",
        ConsciousnessState::Reflect => "Reflect",
    }
}

/// The label of a state in configuration and in the names of runs.
pub open spec fn state_tag_of(s: ConsciousnessState) -> Seq<char> {
    match s {
        ConsciousnessState::Perceive => "perceive"@,
        ConsciousnessState::Express => "express"@,
        ConsciousnessState::Settle => "settle"@,
        ConsciousnessState::Reflect => "reflect"@,
    }
}

/// The label of a state in configuration and in the names of runs.
pub fn state_tag(s: ConsciousnessState) -> (r: &'static str)
    ensures
        r@ == state_tag_of(s),
{
    match s {
        ConsciousnessState::Perceive => "perceive",
        ConsciousnessState::Express => "express",
        ConsciousnessState::Settle => "settle",
        ConsciousnessState::Reflect => "reflect",
    }
}

/// The state that a label names.
pub open spec fn state_of_tag(s: Seq<char>) -> Option<ConsciousnessState> {
    if s == "perceive"@ {
        Some(ConsciousnessState::Perceive)
    } else if s == "express"@ {
        Some(ConsciousnessState::Express)
    } else if s == "settle"@ {
        Some(ConsciousnessState::Settle)
    } else if s == "reflect"@ {
        Some(ConsciousnessState::Reflect)
    } else {
        None
    }
}

/// The state that a label names.
pub fn state_from_tag(s: &str) -> (r: Option<ConsciousnessState>)
    ensures
        r == state_of_tag(s@),
{
    if same_text(s, "perceive") {
        Some(ConsciousnessState::Perceive)
    } else if same_text(s, "express") {
        Some(ConsciousnessState::Express)
    } else if same_text(s, "settle") {
        Some(ConsciousnessState::Settle)
    } else if same_text(s, "reflect") {
        Some(ConsciousnessState::Reflect)
    } else {
        None
    }
}

/// The name of a tool class as it is shown in records.
pub open spec fn class_name(c: ToolClass) -> Seq<char> {
    match c {
        ToolClass::Read => "Read"@,
        ToolClass::FileWrite => "FileWrite"@,
        ToolClass::Post => "Post"@,
        ToolClass::SettleTx => "SettleTx"@,
        ToolClass::Shell => "Shell"@,
        ToolClass::Other => "Other"@,
    }
}

/// The name of a tool class as it is shown in records.
pub fn class_label(c: ToolClass) -> (r: &'static str)
    ensures
        r@ == class_name(c),
{
    match c {
        ToolClass::Read => "Read",
        ToolClass::FileWrite => "FileWrite",
        ToolClass::Post => "Post",
        ToolClass::SettleTx => "SettleTx",
        ToolClass::Shell => "Shell",
        ToolClass::Other => "Other",
    }
}

// ── Laws of the table ───────────────────────────────────────────────────────────────────

/// Every state may read, and no state may run a shell or an unclassified tool.
pub proof fn every_state_reads_and_none_runs_a_shell(s: ConsciousnessState)
    ensures
        scope_of(s).contains(ToolClass::Read),
        !scope_of(s).contains(ToolClass::Shell),
        !scope_of(s).contains(ToolClass::Other),
{
    assert(scope_of(s)[0] == ToolClass::Read);
}

/// Perceive holds no class but reads and has nothing to write.
pub proof fn perceive_only_reads(c: ToolClass)
    ensures
        scope_of(ConsciousnessState::Perceive).contains(c) <==> c == ToolClass::Read,
        writable_of(ConsciousnessState::Perceive).len() == 0,
{
    assert(scope_of(ConsciousnessState::Perceive)[0] == ToolClass::Read);
}

/// A reversible outward effect needs Express, an irreversible one needs Settle.
pub proof fn outward_classes_belong_to_one_state(s: ConsciousnessState)
    ensures
        scope_of(s).contains(ToolClass::Post) <==> s == ConsciousnessState::Express,
        scope_of(s).contains(ToolClass::SettleTx) <==> s == ConsciousnessState::Settle,
{
    assert(scope_of(ConsciousnessState::Express)[2] == ToolClass::Post);
    assert(scope_of(ConsciousnessState::Settle)[2] == ToolClass::SettleTx);
}

/// A path that a state other than Reflect may write lies under `memory/`.
pub proof fn only_reflect_writes_the_soul(s: ConsciousnessState, i: int, path: Seq<char>)
    requires
        s != ConsciousnessState::Reflect,
        0 <= i < writable_of(s).len(),
        has_prefix(path, writable_of(s)[i]),
    ensures
        has_prefix(path, "memory/"@),
{
}

/// No writable prefix of any state lets a path of the run log through.
pub proof fn no_state_writes_the_run_log(s: ConsciousnessState, i: int, path: Seq<char>)
    requires
        0 <= i < writable_of(s).len(),
        has_prefix(path, "runlogs/"@),
    ensures
        !has_prefix(path, writable_of(s)[i]),
{
    reveal_strlit("runlogs/");
    reveal_strlit("memory/");
    reveal_strlit("skills/");
    reveal_strlit("stimuli/");
    reveal_strlit("prompts/");
    reveal_strlit("SOUL.md");
    reveal_strlit("agents/");
    let p = "runlogs/"@;
    assert(path.subrange(0, p.len() as int)[0] == path[0]);
    assert(path[0] == 'r');
    let w = writable_of(s)[i];
    if has_prefix(path, w) {
        assert(path.subrange(0, w.len() as int)[0] == path[0]);
        assert(w[0] != 'r');
    }
}

/// The ladder runs Perceive, Express, Settle, Reflect: a state lies at or below another exactly
/// where it comes no later in that order.
pub proof fn the_ladder_runs_from_perceive_to_reflect(a: ConsciousnessState, b: ConsciousnessState)
    ensures
        rank_of(a) <= rank_of(b) <==> (a == b || a == ConsciousnessState::Perceive || b
            == ConsciousnessState::Reflect || (a == ConsciousnessState::Express && b
            == ConsciousnessState::Settle)),
{
}

/// Every state that acts may write a file, and keeps a memory to write it to; Reflect also
/// writes the soul's own places, and nothing besides.
pub proof fn each_state_writes_its_own_places(s: ConsciousnessState, dir: Seq<char>)
    ensures
        scope_of(s).contains(ToolClass::FileWrite) <==> s != ConsciousnessState::Perceive,
        writable_of(s).contains("memory/"@) <==> s != ConsciousnessState::Perceive,
        s == ConsciousnessState::Reflect ==> (writable_of(s).contains(dir) <==> {
            ||| dir == "memory/"@
            ||| dir == "skills/"@
            ||| dir == "stimuli/"@
            ||| dir == "prompts/"@
            ||| dir == "agents/"@
            ||| dir == "SOUL.md"@
        }),
        s != ConsciousnessState::Reflect && writable_of(s).contains(dir) ==> dir == "memory/"@,
{
    let w = writable_of(s);
    if s != ConsciousnessState::Perceive {
        assert(scope_of(s)[1] == ToolClass::FileWrite);
    }
    if s == ConsciousnessState::Reflect {
        assert(w[0] == "skills/"@ && w[1] == "stimuli/"@ && w[2] == "prompts/"@);
        assert(w[3] == "SOUL.md"@ && w[4] == "memory/"@ && w[5] == "agents/"@);
    } else if s != ConsciousnessState::Perceive {
        assert(w[0] == "memory/"@);
    }
}

/// A state is read back from its label; no other text names a state; and its own prompt is the
/// file of that label.
pub proof fn a_state_is_named_by_one_label(s: ConsciousnessState, t: Seq<char>)
    ensures
        state_of_tag(t) == Some(s) <==> t == state_tag_of(s),
        prompt_path_of(s) == "prompts/"@ + state_tag_of(s) + ".md"@,
        state_of_tag("perceive"@) == Some(ConsciousnessState::Perceive),
        state_of_tag("express"@) == Some(ConsciousnessState::Express),
        state_of_tag("settle"@) == Some(ConsciousnessState::Settle),
        state_of_tag("reflect"@) == Some(ConsciousnessState::Reflect),
{
    reveal_strlit("perceive");
    reveal_strlit("express");
    reveal_strlit("settle");
    reveal_strlit("reflect");
    reveal_strlit("prompts/");
    reveal_strlit(".md");
    reveal_strlit("prompts/perceive.md");
    reveal_strlit("prompts/express.md");
    reveal_strlit("prompts/settle.md");
    reveal_strlit("prompts/reflect.md");
    assert("perceive"@[0] == 'p' && "express"@[0] == 'e' && "settle"@[0] == 's' && "reflect"@[0]
        == 'r');
    assert(prompt_path_of(s) =~= "prompts/"@ + state_tag_of(s) + ".md"@);
}

/// A state and a tool class are shown by their own names, and no two by the same one.
pub proof fn names_tell_apart(
    s: ConsciousnessState,
    t: ConsciousnessState,
    c: ToolClass,
    d: ToolClass,
)
    ensures
        state_name(s) == state_name(t) ==> s == t,
        class_name(c) == class_name(d) ==> c == d,
        state_name(s).skip(1) == state_tag_of(s).skip(1),
{
    reveal_strlit("perceive");
    reveal_strlit("express");
    reveal_strlit("settle");
    reveal_strlit("reflect");
    reveal_strlit("Perceive");
    reveal_strlit("Express");
    reveal_strlit("Settle");
    reveal_strlit("Reflect");
    reveal_strlit("Read");
    reveal_strlit("FileWrite");
    reveal_strlit("Post");
    reveal_strlit("SettleTx");
    reveal_strlit("Shell");
    reveal_strlit("Other");
    assert(state_name(s)[0] == state_name(t)[0] ==> s == t);
    assert(state_name(s).skip(1) =~= state_tag_of(s).skip(1));
    if c != d {
        assert(class_name(c).len() != class_name(d).len() || class_name(c)[0] != class_name(d)[0]);
    }
}

/// The cheap model digests; where something irreversible may happen, the frontier model thinks.
pub proof fn authority_runs_on_the_frontier_model(s: ConsciousnessState)
    ensures
        model_of(s) == ModelTier::Frontier <==> rank_of(s) >= rank_of(ConsciousnessState::Settle),
        model_of(s) == ModelTier::CheapLocal <==> s == ConsciousnessState::Perceive,
{
}

} // verus!
