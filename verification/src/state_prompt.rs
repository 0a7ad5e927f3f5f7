//! State-prompts: the named steps of a cycle.
//!
//! A state-prompt stands at `prompts/<id>.md`. Its front matter says in which state it
//! runs, what capabilities it asks for and where it may go next; its body is the
//! instruction. Front matter can only ask: the operator's policy and the wall decide.

use vstd::prelude::*;

use crate::decode::{
    bool_fault, bool_or_at, fault_unless, get_bool_or, get_list, get_opt_text, get_opt_value,
    get_text, get_usize_or, get_value, get_value_or, list_at, list_fault, models, opt_model,
    opt_text_at, opt_text_fault, opt_value_at, opt_value_fault, or_fault, text_at, text_fault,
    usize_fault, usize_or_at, value_at, value_fault, value_or_at, value_or_fault, FromTree,
};
use crate::error::{error_detail, DackError};
use crate::json::{field, value_tree, yaml_read, Json, JsonV};
use crate::state::ConsciousnessState;
use crate::stimuli::{front_and_body, front_fault, labelled, split_frontmatter};
use crate::text::{
    any_same, join_from, join_range, joined, line_seq, lines, owned, same_text, trim, trimmed,
};

verus! {

// ── Front matter ────────────────────────────────────────────────────────────────────────

/// A capability that a prompt asks for.
#[derive(Debug, PartialEq, Eq)]
pub enum McpRef {
    /// A server that the operator registered.
    Import(String),
    /// A public server without a secret, which can only ever be read from.
    Inline { name: String, url: String },
}

/// What an [`McpRef`] holds.
pub enum McpRefV {
    Import(Seq<char>),
    Inline(Seq<char>, Seq<char>),
}

/// The name of the server that is asked for.
pub open spec fn ref_name(r: McpRefV) -> Seq<char> {
    match r {
        McpRefV::Import(n) => n,
        McpRefV::Inline(n, _) => n,
    }
}

impl McpRef {
    /// The name of the server that is asked for.
    pub fn name(&self) -> (r: &str)
        ensures
            r@ == ref_name(self.model()),
    {
        match self {
            McpRef::Import(n) => n.as_str(),
            McpRef::Inline { name, .. } => name.as_str(),
        }
    }
}

impl FromTree for McpRef {
    type Model = McpRefV;

    open spec fn model(&self) -> McpRefV {
        match self {
            McpRef::Import(n) => McpRefV::Import(n@),
            McpRef::Inline { name, url } => McpRefV::Inline(name@, url@),
        }
    }

    open spec fn read(t: JsonV) -> Option<McpRefV> {
        match t {
            JsonV::Str(s) => Some(McpRefV::Import(s)),
            _ => match (text_at(t, "name"@, false), text_at(t, "url"@, false)) {
                (Some(n), Some(u)) => Some(McpRefV::Inline(n, u)),
                _ => None,
            },
        }
    }

    open spec fn fault(t: JsonV) -> Option<Seq<char>> {
        match t {
            JsonV::Str(_) => None,
            _ => or_fault(text_fault(t, "name"@, false), text_fault(t, "url"@, false)),
        }
    }

    fn from_tree(j: &Json) -> (r: Result<McpRef, String>) {
        match j {
            Json::Str(s) => Ok(McpRef::Import(s.clone())),
            _ => {
                let name = match get_text(j, "name", false) {
                    Ok(x) => x,
                    Err(e) => return Err(e),
                };
                match get_text(j, "url", false) {
                    Ok(url) => Ok(McpRef::Inline { name, url }),
                    Err(e) => Err(e),
                }
            },
        }
    }
}

/// A session that is kept across wakes that share a key.
#[derive(Debug)]
pub struct SessionConfig {
    pub sticky: bool,
    /// The dimensions of the key beyond the prompt and the cycle's trust.
    pub key: Vec<String>,
}

/// What a [`SessionConfig`] holds.
pub type SessionV = (bool, Seq<Seq<char>>);

impl FromTree for SessionConfig {
    type Model = SessionV;

    open spec fn model(&self) -> SessionV {
        (self.sticky, models(self.key@))
    }

    open spec fn read(t: JsonV) -> Option<SessionV> {
        match (bool_or_at(t, "sticky"@, false), list_at::<String>(t, "key"@)) {
            (Some(sticky), Some(key)) => if t is Object {
                Some((sticky, key))
            } else {
                None
            },
            _ => None,
        }
    }

    open spec fn fault(t: JsonV) -> Option<Seq<char>> {
        let f = fault_unless(t is Object, "expected a map"@);
        let f = or_fault(f, bool_fault(t, "sticky"@));
        or_fault(f, list_fault::<String>(t, "key"@))
    }

    fn from_tree(j: &Json) -> (r: Result<SessionConfig, String>) {
        match j {
            Json::Object(_) => {},
            _ => return Err(owned("expected a map")),
        }
        let sticky = match get_bool_or(j, "sticky", false) {
            Ok(x) => x,
            Err(e) => return Err(e),
        };
        match get_list::<String>(j, "key") {
            Ok(key) => Ok(SessionConfig { sticky, key }),
            Err(e) => Err(e),
        }
    }
}

/// How much of the run log a prompt is shown.
#[derive(Debug, Clone, Copy, PartialEq, Eq, Structural)]
pub struct RunlogContext {
    /// The newest entries of all activity, on a fresh wake.
    pub environment: usize,
    /// The entries of this conversation.
    pub conversation: usize,
}

impl Default for RunlogContext {
    fn default() -> (r: RunlogContext)
        ensures
            r == (RunlogContext { environment: 10, conversation: 0 }),
    {
        RunlogContext { environment: 10, conversation: 0 }
    }
}

impl FromTree for RunlogContext {
    type Model = RunlogContext;

    open spec fn model(&self) -> RunlogContext {
        *self
    }

    open spec fn read(t: JsonV) -> Option<RunlogContext> {
        match (usize_or_at(t, "environment"@, 10), usize_or_at(t, "conversation"@, 0)) {
            (Some(environment), Some(conversation)) => if t is Object {
                Some(RunlogContext { environment, conversation })
            } else {
                None
            },
            _ => None,
        }
    }

    open spec fn fault(t: JsonV) -> Option<Seq<char>> {
        let f = fault_unless(t is Object, "expected a map"@);
        let f = or_fault(f, usize_fault(t, "environment"@));
        or_fault(f, usize_fault(t, "conversation"@))
    }

    fn from_tree(j: &Json) -> (r: Result<RunlogContext, String>) {
        match j {
            Json::Object(_) => {},
            _ => return Err(owned("expected a map")),
        }
        let environment: usize = match get_usize_or(j, "environment", 10) {
            Ok(x) => x,
            Err(e) => return Err(e),
        };
        match get_usize_or(j, "conversation", 0) {
            Ok(conversation) => Ok(RunlogContext { environment, conversation }),
            Err(e) => Err(e),
        }
    }
}

/// Which blocks of context a prompt is given.
#[derive(Debug, Clone, Copy, PartialEq, Eq, Structural)]
pub struct ContextConfig {
    /// The tail of memory, on a fresh wake.
    pub memory: bool,
    /// Whether the prompt's log entries are tagged with the conversation.
    pub tag_key: bool,
    pub runlog: RunlogContext,
}

/// What a prompt is given where it says nothing.
pub open spec fn default_context() -> ContextConfig {
    ContextConfig {
        memory: true,
        tag_key: false,
        runlog: RunlogContext { environment: 10, conversation: 0 },
    }
}

impl Default for ContextConfig {
    fn default() -> (r: ContextConfig)
        ensures
            r == default_context(),
    {
        ContextConfig { memory: true, tag_key: false, runlog: RunlogContext::default() }
    }
}

impl FromTree for ContextConfig {
    type Model = ContextConfig;

    open spec fn model(&self) -> ContextConfig {
        *self
    }

    open spec fn read(t: JsonV) -> Option<ContextConfig> {
        match (
            bool_or_at(t, "memory"@, true),
            bool_or_at(t, "tag_key"@, false),
            value_or_at::<RunlogContext>(t, "runlog"@, default_context().runlog),
        ) {
            (Some(memory), Some(tag_key), Some(runlog)) => if t is Object {
                Some(ContextConfig { memory, tag_key, runlog })
            } else {
                None
            },
            _ => None,
        }
    }

    open spec fn fault(t: JsonV) -> Option<Seq<char>> {
        let f = fault_unless(t is Object, "expected a map"@);
        let f = or_fault(f, bool_fault(t, "memory"@));
        let f = or_fault(f, bool_fault(t, "tag_key"@));
        or_fault(f, value_or_fault::<RunlogContext>(t, "runlog"@))
    }

    fn from_tree(j: &Json) -> (r: Result<ContextConfig, String>) {
        match j {
            Json::Object(_) => {},
            _ => return Err(owned("expected a map")),
        }
        let memory = match get_bool_or(j, "memory", true) {
            Ok(x) => x,
            Err(e) => return Err(e),
        };
        let tag_key = match get_bool_or(j, "tag_key", false) {
            Ok(x) => x,
            Err(e) => return Err(e),
        };
        match get_value_or::<RunlogContext>(j, "runlog", RunlogContext::default()) {
            Ok(runlog) => Ok(ContextConfig { memory, tag_key, runlog }),
            Err(e) => Err(e),
        }
    }
}

/// The front matter of a state-prompt.
#[derive(Debug)]
pub struct StatePromptFrontmatter {
    pub state: ConsciousnessState,
    /// What the prompt asks for.
    pub mcp: Vec<McpRef>,
    /// Where it may go next. Empty ends the cycle.
    pub transitions: Vec<String>,
    /// The model it asks for.
    pub model: Option<String>,
    pub session: Option<SessionConfig>,
    /// The field by which the item that a branch replies to is named.
    pub reply_key: Option<String>,
    pub context: Option<ContextConfig>,
}

/// What a [`StatePromptFrontmatter`] holds.
#[verifier::ext_equal]
pub struct PromptFrontV {
    pub state: ConsciousnessState,
    pub mcp: Seq<McpRefV>,
    pub transitions: Seq<Seq<char>>,
    pub model: Option<Seq<char>>,
    pub session: Option<SessionV>,
    pub reply_key: Option<Seq<char>>,
    pub context: Option<ContextConfig>,
}

impl FromTree for StatePromptFrontmatter {
    type Model = PromptFrontV;

    open spec fn model(&self) -> PromptFrontV {
        PromptFrontV {
            state: self.state,
            mcp: models(self.mcp@),
            transitions: models(self.transitions@),
            model: self.model.deep_view(),
            session: opt_model(self.session),
            reply_key: self.reply_key.deep_view(),
            context: opt_model(self.context),
        }
    }

    open spec fn read(t: JsonV) -> Option<PromptFrontV> {
        match (
            value_at::<ConsciousnessState>(t, "state"@),
            list_at::<McpRef>(t, "mcp"@),
            list_at::<String>(t, "transitions"@),
            opt_text_at(t, "model"@, true),
            opt_value_at::<SessionConfig>(t, "session"@),
            opt_text_at(t, "reply_key"@, true),
            opt_value_at::<ContextConfig>(t, "context"@),
        ) {
            (
                Some(state),
                Some(mcp),
                Some(transitions),
                Some(model),
                Some(session),
                Some(reply_key),
                Some(context),
            ) => Some(
                PromptFrontV { state, mcp, transitions, model, session, reply_key, context },
            ),
            _ => None,
        }
    }

    open spec fn fault(t: JsonV) -> Option<Seq<char>> {
        let f = value_fault::<ConsciousnessState>(t, "state"@);
        let f = or_fault(f, list_fault::<McpRef>(t, "mcp"@));
        let f = or_fault(f, list_fault::<String>(t, "transitions"@));
        let f = or_fault(f, opt_text_fault(t, "model"@, true));
        let f = or_fault(f, opt_value_fault::<SessionConfig>(t, "session"@));
        let f = or_fault(f, opt_text_fault(t, "reply_key"@, true));
        or_fault(f, opt_value_fault::<ContextConfig>(t, "context"@))
    }

    fn from_tree(j: &Json) -> (r: Result<StatePromptFrontmatter, String>) {
        let state = match get_value::<ConsciousnessState>(j, "state") {
            Ok(x) => x,
            Err(e) => return Err(e),
        };
        let mcp = match get_list::<McpRef>(j, "mcp") {
            Ok(x) => x,
            Err(e) => return Err(e),
        };
        let transitions = match get_list::<String>(j, "transitions") {
            Ok(x) => x,
            Err(e) => return Err(e),
        };
        let model = match get_opt_text(j, "model", true) {
            Ok(x) => x,
            Err(e) => return Err(e),
        };
        let session = match get_opt_value::<SessionConfig>(j, "session") {
            Ok(x) => x,
            Err(e) => return Err(e),
        };
        let reply_key = match get_opt_text(j, "reply_key", true) {
            Ok(x) => x,
            Err(e) => return Err(e),
        };
        let context = match get_opt_value::<ContextConfig>(j, "context") {
            Ok(x) => x,
            Err(e) => return Err(e),
        };
        Ok(
            StatePromptFrontmatter {
                state,
                mcp,
                transitions,
                model,
                session,
                reply_key,
                context,
            },
        )
    }
}

// ── Prompts ─────────────────────────────────────────────────────────────────────────────

/// A state-prompt.
#[derive(Debug)]
pub struct StatePrompt {
    /// Its path below `prompts/`, without the extension.
    pub id: String,
    pub state: ConsciousnessState,
    pub mcp: Vec<McpRef>,
    pub transitions: Vec<String>,
    pub model: Option<String>,
    pub session: Option<SessionConfig>,
    pub reply_key: Option<String>,
    pub context: Option<ContextConfig>,
    /// The instruction of a fresh session.
    pub body: String,
    /// The instruction of a resumed session, where it differs.
    pub resume_body: Option<String>,
}

/// What a [`StatePrompt`] holds.
#[verifier::ext_equal]
pub struct PromptV {
    pub id: Seq<char>,
    pub front: PromptFrontV,
    pub body: Seq<char>,
    pub resume_body: Option<Seq<char>>,
}

impl View for StatePrompt {
    type V = PromptV;

    open spec fn view(&self) -> PromptV {
        PromptV {
            id: self.id@,
            front: PromptFrontV {
                state: self.state,
                mcp: models(self.mcp@),
                transitions: models(self.transitions@),
                model: self.model.deep_view(),
                session: opt_model(self.session),
                reply_key: self.reply_key.deep_view(),
                context: opt_model(self.context),
            },
            body: self.body@,
            resume_body: self.resume_body.deep_view(),
        }
    }
}

/// The first line that is the marker of the resume body.
pub open spec fn marker_at(l: Seq<Seq<char>>) -> Option<int>
    decreases l.len(),
{
    if l.len() == 0 {
        None
    } else if trimmed(l[0]) == "---resume---"@ {
        Some(0)
    } else {
        match marker_at(l.skip(1)) {
            Some(i) => Some(i + 1),
            None => None,
        }
    }
}

/// The bodies for a fresh and for a resumed session.
pub open spec fn bodies(body: Seq<char>) -> (Seq<char>, Option<Seq<char>>) {
    let l = line_seq(body);
    match marker_at(l) {
        Some(i) => (
            trimmed(joined(l.take(i), "\n"@)),
            Some(trimmed(joined(l.skip(i + 1), "\n"@))),
        ),
        None => (trimmed(body), None),
    }
}

/// Splits a body at the line that marks where the resume body starts.
pub fn split_resume(body: &str) -> (r: (String, Option<String>))
    ensures
        (r.0@, r.1.deep_view()) == bodies(body@),
{
    let l = lines(body);
    let ghost lv = line_seq(body@);
    let mut i: usize = 0;
    assert(lv.skip(0) =~= lv);
    while i < l.len()
        invariant
            i <= l@.len(),
            l.deep_view() == lv,
            lv == line_seq(body@),
            marker_at(lv) == (match marker_at(lv.skip(i as int)) {
                Some(k) => Some(k + i),
                None => None,
            }),
        decreases l@.len() - i,
    {
        assert(lv.skip(i as int)[0] == l@[i as int]@);
        assert(lv.skip(i as int).skip(1) =~= lv.skip(i + 1));
        if same_text(trim(l[i].as_str()).as_str(), "---resume---") {
            assert(lv.take(i as int) =~= lv.subrange(0, i as int));
            let fresh = join_range(&l, 0, i, "\n");
            let resume = join_from(&l, i + 1, "\n");
            return (trim(fresh.as_str()), Some(trim(resume.as_str())));
        }
        i += 1;
    }
    (trim(body), None)
}

/// The front matter that a YAML text holds.
pub open spec fn prompt_front_in(yaml: Seq<char>) -> Option<PromptFrontV> {
    match yaml_read(yaml) {
        Ok(v) => StatePromptFrontmatter::read(value_tree(v)),
        Err(_) => None,
    }
}

/// The state-prompt in a document.
pub open spec fn prompt_in(id: Seq<char>, text: Seq<char>) -> Option<PromptV> {
    match front_and_body(text) {
        Some((yaml, body)) => match prompt_front_in(yaml) {
            Some(front) => Some(
                PromptV { id, front, body: bodies(body).0, resume_body: bodies(body).1 },
            ),
            None => None,
        },
        None => None,
    }
}

/// What errors about the front matter begin with.
pub open spec fn prompt_label(id: Seq<char>) -> Seq<char> {
    "state-prompt `"@ + id + "` frontmatter: "@
}

fn front_error(id: &str, e: String) -> (r: DackError)
    ensures
        r is Stimulus,
        (r->Stimulus_0)@ == labelled(prompt_label(id@), e@),
{
    let mut m = owned("state-prompt `");
    m.append(id);
    m.append("` frontmatter: ");
    m.append(e.as_str());
    DackError::Stimulus(m)
}

impl StatePrompt {
    /// Reads a state-prompt. Whatever is wrong with it is a `Stimulus` error.
    pub fn parse(id: &str, text: &str) -> (r: Result<StatePrompt, DackError>)
        ensures
            match prompt_in(id@, text@) {
                Some(p) => r is Ok && r->Ok_0@ == p,
                None => r is Err && front_fault::<StatePromptFrontmatter>(
                    r->Err_0,
                    prompt_label(id@),
                    text@,
                ),
            },
    {
        let (yaml, body) = match split_frontmatter(text) {
            Ok(x) => x,
            Err(e) => return Err(e),
        };
        let tree = match Json::parse_yaml(yaml.as_str()) {
            Ok(x) => x,
            Err(e) => return Err(front_error(id, e)),
        };
        let fm = match StatePromptFrontmatter::from_tree(&tree) {
            Ok(x) => x,
            Err(e) => return Err(front_error(id, e)),
        };
        let (fresh, resume_body) = split_resume(body.as_str());
        Ok(
            StatePrompt {
                id: owned(id),
                state: fm.state,
                mcp: fm.mcp,
                transitions: fm.transitions,
                model: fm.model,
                session: fm.session,
                reply_key: fm.reply_key,
                context: fm.context,
                body: fresh,
                resume_body,
            },
        )
    }

    /// Reads the file of a state-prompt. An empty file holds none.
    pub fn resolve(id: &str, content: &str) -> (r: Result<StatePrompt, DackError>)
        ensures
            if content@.len() == 0 {
                r is Err && r->Err_0 is Stimulus && error_detail(r->Err_0) == "state-prompt `"@
                    + id@ + "` not found at "@ + ("prompts/"@ + id@ + ".md"@)
            } else {
                match prompt_in(id@, content@) {
                    Some(p) => r is Ok && r->Ok_0@ == p,
                    None => r is Err && front_fault::<StatePromptFrontmatter>(
                        r->Err_0,
                        prompt_label(id@),
                        content@,
                    ),
                }
            },
    {
        if content.is_empty() {
            let mut out = owned("state-prompt `");
            out.append(id);
            out.append("` not found at ");
            out.append(StatePrompt::repo_path(id).as_str());
            return Err(DackError::Stimulus(out));
        }
        StatePrompt::parse(id, content)
    }

    /// Which blocks of context the prompt is given.
    pub fn context(&self) -> (r: ContextConfig)
        ensures
            r == (match self.context {
                Some(c) => c,
                None => default_context(),
            }),
    {
        match self.context {
            Some(c) => c,
            None => ContextConfig::default(),
        }
    }

    /// The fields, in order, by which the item that a branch replies to is named.
    pub fn reply_key_fields(&self) -> (r: Vec<String>)
        ensures
            r.deep_view() == reply_fields(self@.front.reply_key),
    {
        let mut v: Vec<String> = Vec::new();
        match &self.reply_key {
            Some(k) => {
                v.push(k.clone());
            },
            None => {
                v.push(owned("message_id"));
                v.push(owned("id"));
            },
        }
        assert(v.deep_view() =~= reply_fields(self@.front.reply_key));
        v
    }

    /// The file of a state-prompt, relative to the repository.
    pub fn repo_path(id: &str) -> (r: String)
        ensures
            r@ == "prompts/"@ + id@ + ".md"@,
    {
        let mut out = owned("prompts/");
        out.append(id);
        out.append(".md");
        out
    }

    /// Whether the prompt names `next` as a place to go.
    pub fn permits_transition_to(&self, next: &str) -> (r: bool)
        ensures
            r == self@.front.transitions.contains(next@),
    {
        assert(models(self.transitions@) =~= self.transitions.deep_view());
        any_same(&self.transitions, next)
    }
}

/// The fields by which the item that a branch replies to is named: the prompt's own, else
/// `message_id` and then `id`.
pub open spec fn reply_fields(key: Option<Seq<char>>) -> Seq<Seq<char>> {
    match key {
        Some(k) => seq![k],
        None => seq!["message_id"@, "id"@],
    }
}

/// A prompt is split at the first line that is the marker: what stands before is the prompt of a
/// fresh run, and what stands after is that of a resumed one. With no such line all of it is the
/// prompt of a fresh run.
pub proof fn a_prompt_is_split_at_its_marker(body: Seq<char>, i: int)
    ensures
        ({
            let l = line_seq(body);
            &&& 0 <= i < l.len() && trimmed(l[i]) == "---resume---"@ && (forall|j: int|
                0 <= j < i ==> trimmed(#[trigger] l[j]) != "---resume---"@) ==> bodies(body).0
                == trimmed(joined(l.take(i), "\n"@)) && bodies(body).1 == Some(
                trimmed(joined(l.skip(i + 1), "\n"@)),
            )
            &&& (forall|j: int| 0 <= j < l.len() ==> trimmed(#[trigger] l[j]) != "---resume---"@)
                ==> bodies(body).0 == trimmed(body) && bodies(body).1 is None
        }),
{
    the_first_marker_counts(line_seq(body), i);
}

proof fn the_first_marker_counts(l: Seq<Seq<char>>, i: int)
    ensures
        0 <= i < l.len() && trimmed(l[i]) == "---resume---"@ && (forall|j: int|
            0 <= j < i ==> trimmed(#[trigger] l[j]) != "---resume---"@) ==> marker_at(l) == Some(i),
        (forall|j: int| 0 <= j < l.len() ==> trimmed(#[trigger] l[j]) != "---resume---"@)
            ==> marker_at(l) is None,
    decreases l.len(),
{
    if l.len() > 0 {
        let rest = l.skip(1);
        the_first_marker_counts(rest, i - 1);
        assert(forall|j: int| #![trigger rest[j]] 0 <= j < rest.len() ==> rest[j] == l[j + 1]);
        if i > 0 {
            assert(i < l.len() ==> rest[i - 1] == l[i]);
        }
    }
}

/// A prompt is read from its front: the state must be there, and the rest may be missing.
pub proof fn a_prompt_is_read_from_its_front(t: JsonV)
    ensures
        StatePromptFrontmatter::read(t) matches Some(f) ==> {
            &&& value_at::<ConsciousnessState>(t, "state"@) == Some(f.state)
            &&& list_at::<McpRef>(t, "mcp"@) == Some(f.mcp)
            &&& list_at::<String>(t, "transitions"@) == Some(f.transitions)
            &&& opt_text_at(t, "model"@, true) == Some(f.model)
            &&& opt_value_at::<SessionConfig>(t, "session"@) == Some(f.session)
            &&& opt_text_at(t, "reply_key"@, true) == Some(f.reply_key)
            &&& opt_value_at::<ContextConfig>(t, "context"@) == Some(f.context)
        },
        StatePromptFrontmatter::read(t) is Some <==> {
            &&& value_at::<ConsciousnessState>(t, "state"@) is Some
            &&& list_at::<McpRef>(t, "mcp"@) is Some
            &&& list_at::<String>(t, "transitions"@) is Some
            &&& opt_text_at(t, "model"@, true) is Some
            &&& opt_value_at::<SessionConfig>(t, "session"@) is Some
            &&& opt_text_at(t, "reply_key"@, true) is Some
            &&& opt_value_at::<ContextConfig>(t, "context"@) is Some
        },
{
}

/// A tool server is named, or given with its name and address.
pub proof fn a_server_is_named_or_given(s: Seq<char>, t: JsonV)
    ensures
        McpRef::read(JsonV::Str(s)) == Some(McpRefV::Import(s)),
        !(t is Str) ==> match McpRef::read(t) {
            Some(McpRefV::Inline(n, u)) => field(t, "name"@) == Some(JsonV::Str(n)) && field(
                t,
                "url"@,
            ) == Some(JsonV::Str(u)),
            Some(_) => false,
            None => text_at(t, "name"@, false) is None || text_at(t, "url"@, false) is None,
        },
{
}

/// What a prompt does not say of its context: memory is shown, the key of the tag is not, ten
/// entries of the surroundings are, and none of the conversation.
pub proof fn a_context_has_its_defaults(t: JsonV)
    requires
        t is Object,
    ensures
        ContextConfig::read(t) matches Some(c) ==> {
            &&& c.memory <==> field(t, "memory"@) is None || field(t, "memory"@) == Some(
                JsonV::Bool(true),
            )
            &&& c.tag_key <==> field(t, "tag_key"@) == Some(JsonV::Bool(true))
            &&& field(t, "runlog"@) is None ==> c.runlog.environment == 10 && c.runlog.conversation
                == 0
            &&& field(t, "runlog"@) matches Some(x) ==> RunlogContext::read(x) == Some(c.runlog)
        },
        RunlogContext::read(t) matches Some(c) ==> {
            &&& usize_or_at(t, "environment"@, 10) == Some(c.environment)
            &&& usize_or_at(t, "conversation"@, 0) == Some(c.conversation)
        },
        SessionConfig::read(t) matches Some((sticky, key)) ==> {
            &&& sticky <==> field(t, "sticky"@) == Some(JsonV::Bool(true))
            &&& list_at::<String>(t, "key"@) == Some(key)
        },
        default_context().memory,
        !default_context().tag_key,
        default_context().runlog.environment == 10,
        default_context().runlog.conversation == 0,
{
}

/// An answer goes to the field that the prompt names, or else to the message or its id.
pub proof fn an_answer_goes_to_the_named_field(k: Seq<char>)
    ensures
        reply_fields(Some(k)) == seq![k],
        reply_fields(None) == seq!["message_id"@, "id"@],
{
}

} // verus!
