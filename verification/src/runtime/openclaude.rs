//! The bridge to the engine: one invocation goes out, permission events come in and are
//! answered by the wall, and a result ends the run.
//!
//! The bridge is a child process that is spoken to line by line. What is sent, and what a
//! line that was read means, is decided here; reading and writing are not.

use vstd::prelude::*;

use crate::decode::{
    get_opt_text, get_text, missing, missing_text, opt_text_at, opt_text_fault, or_fault, text_at,
    text_fault,
};
use crate::error::DackError;
use crate::harness::mcp::trees;
use crate::json::{
    a_field_is_found_by_its_name, field, fields_of, fields_view, json_error_text, json_read, json_text, texts_tree, value_tree,
    Json, JsonV,
};
use crate::model::proposal::{output_fault, output_in, AgentOutput, AgentOutputV};
use crate::runtime::action_required::{record_of, remembered, verdict, RecordingResponder};
use crate::runtime::{
    ActionDecision, ActionRequest, BlockV, ContextBlock, InvocationRequest, SessionId,
};
use crate::sandbox::{
    ExecKind, IsolationPolicy, Mount, MountV, NetworkPolicy, ProcessSpec, ProcessV,
};
use crate::strmap::{a_finite_set_has_an_order, in_order, orders, overlaid, texts, StrMap};
use crate::text::{
    every_part_is_in_the_joined_text, has_part, join, joined, owned, owned_all, owned_opt,
    parts_nest, same_text, show_span, span_text, text_lt, text_lt_irreflexive, trim, trimmed,
    what_stands_between_is_a_part,
};

verus! {

// ── Framing ─────────────────────────────────────────────────────────────────────────────

/// The tag under which a block is shown.
pub open spec fn frame_tag(trusted: bool) -> Seq<char> {
    if trusted {
        "TRUSTED-DIRECTIVE"@
    } else {
        "UNTRUSTED-WORLD-DATA"@
    }
}

/// A block in its frame.
pub open spec fn framed(b: BlockV) -> Seq<char> {
    "<"@ + frame_tag(b.trusted) + " label=\""@ + b.label + "\">\n"@ + b.body + "\n</"@ + frame_tag(
        b.trusted,
    ) + ">"@
}

/// All blocks in their frames.
pub open spec fn framed_all(b: Seq<BlockV>) -> Seq<char> {
    joined(b.map_values(|x: BlockV| framed(x)), "\n\n"@)
}

fn frame(b: &ContextBlock) -> (r: String)
    ensures
        r@ == framed(b.deep_view()),
{
    let tag = if b.trusted {
        "TRUSTED-DIRECTIVE"
    } else {
        "UNTRUSTED-WORLD-DATA"
    };
    let mut out = owned("<");
    out.append(tag);
    out.append(" label=\"");
    out.append(b.label.as_str());
    out.append("\">\n");
    out.append(b.body.as_str());
    out.append("\n</");
    out.append(tag);
    out.append(">");
    out
}

// ── The model's channel ─────────────────────────────────────────────────────────────────

/// The model that is asked for: the invocation's own, else the client's.
pub open spec fn effective_model(req: Option<Seq<char>>, own: Option<Seq<char>>) -> Option<
    Seq<char>,
> {
    match req {
        Some(m) => Some(m),
        None => own,
    }
}

/// By which channel the model goes: a gateway takes it from the environment, the catalog from
/// the options.
pub fn resolve_model_env(
    openai_mode: bool,
    req_model: &Option<String>,
    self_model: &Option<String>,
) -> (r: (Option<String>, Option<String>))
    ensures
        r.0.deep_view() == (if openai_mode {
            effective_model(req_model.deep_view(), self_model.deep_view())
        } else {
            None
        }),
        r.1.deep_view() == (if openai_mode {
            None
        } else {
            effective_model(req_model.deep_view(), self_model.deep_view())
        }),
{
    let effective = match req_model {
        Some(m) => Some(m.clone()),
        None => owned_opt(self_model),
    };
    if openai_mode {
        (effective, None)
    } else {
        (None, effective)
    }
}

// ── What goes out ───────────────────────────────────────────────────────────────────────

/// The client of the bridge.
#[derive(Debug)]
pub struct OpenClaudeClient {
    /// How the bridge is spawned.
    pub command: Vec<String>,
    pub cwd: Option<String>,
    /// Laid over the inherited environment.
    pub env: StrMap<String>,
    pub model: Option<String>,
    /// Whether the model goes through the environment.
    pub model_via_env: bool,
    pub policy: IsolationPolicy,
    /// The budget of a whole invocation, in milliseconds.
    pub timeout_ms: u64,
}

/// The tools that the engine itself is told not to offer.
pub open spec fn always_disallowed() -> Seq<Seq<char>> {
    seq!["Bash"@, "PowerShell"@, "REPL"@, "KillShell"@]
}

/// An optional text as a document.
pub open spec fn opt_tree(s: Option<Seq<char>>) -> JsonV {
    match s {
        Some(x) => JsonV::Str(x),
        None => JsonV::Null,
    }
}

/// Servers as a document, in the order of their names.
pub open spec fn servers_tree(m: Map<Seq<char>, JsonV>) -> JsonV {
    JsonV::Object(in_order(m.dom()).map_values(|k: Seq<char>| (k, m[k])))
}

/// The environment of the bridge.
pub open spec fn bridge_env(
    own: Map<Seq<char>, Seq<char>>,
    secret: Map<Seq<char>, Seq<char>>,
    model: Option<Seq<char>>,
) -> Map<Seq<char>, Seq<char>> {
    match model {
        Some(m) => overlaid(own, secret).insert("OPENAI_MODEL"@, m),
        None => overlaid(own, secret),
    }
}

/// The mounts of the bridge: the place where the agent works, writable.
pub open spec fn bridge_mounts(workdir: Option<Seq<char>>) -> Seq<MountV> {
    match workdir {
        Some(w) => seq![MountV { host: w, guest: w, writable: true }],
        None => Seq::empty(),
    }
}

/// The message that opens an invocation.
pub open spec fn invoke_tree(
    system_prompt: Seq<char>,
    blocks: Seq<BlockV>,
    model: Option<Seq<char>>,
    workdir: Option<Seq<char>>,
    resume: Option<Seq<char>>,
    servers: Map<Seq<char>, JsonV>,
) -> JsonV {
    JsonV::Object(
        seq![
            ("kind"@, JsonV::Str("invoke"@)),
            ("system_prompt"@, JsonV::Str(system_prompt)),
            ("user_prompt"@, JsonV::Str(framed_all(blocks))),
            ("disallowed_tools"@, texts_tree(always_disallowed())),
            ("allowed_tools"@, JsonV::Null),
            ("model"@, opt_tree(model)),
            ("cwd"@, opt_tree(workdir)),
            ("resume"@, opt_tree(resume)),
            ("mcp_servers"@, servers_tree(servers)),
        ],
    )
}

/// One field of a message as it is sent.
pub open spec fn field_text(p: (Seq<char>, JsonV)) -> Seq<char> {
    json_text(JsonV::Str(p.0)) + ":"@ + json_text(p.1)
}

/// A message as it is sent: on one line, its fields in the order in which they stand.
pub open spec fn message_line(t: JsonV) -> Seq<char> {
    ("{"@ + joined(
        fields_of(t).map_values(|p: (Seq<char>, JsonV)| field_text(p)),
        ","@,
    ) + "}"@).push('\n')
}

fn opt_text(s: &Option<String>) -> (r: Json)
    ensures
        r@ == opt_tree(s.deep_view()),
{
    match s {
        Some(x) => Json::Str(x.clone()),
        None => Json::Null,
    }
}

fn servers_object(m: &StrMap<Json>) -> (r: Json)
    ensures
        r@ == servers_tree(trees(*m)),
{
    let n: usize = m.len();
    assert(trees(*m).dom() =~= m@.dom());
    let mut f: Vec<(String, Json)> = Vec::new();
    let mut i: usize = 0;
    while i < n
        invariant
            i <= n,
            n == m.keys().len(),
            m.keys() == in_order(m@.dom()),
            trees(*m).dom() == m@.dom(),
            f@.len() == i,
            forall|k: int|
                0 <= k < i ==> (#[trigger] f@[k]).0@ == m.keys()[k] && f@[k].1@ == trees(
                    *m,
                )[m.keys()[k]],
        decreases n - i,
    {
        let (k, v) = m.at(i);
        f.push((k.clone(), v.clone()));
        i += 1;
    }
    let r = Json::object(f);
    assert(r@->Object_0 =~= servers_tree(trees(*m))->Object_0);
    r
}

impl IsolationPolicy {
    /// A copy of the policy.
    pub fn copy(&self) -> (r: IsolationPolicy)
        ensures
            r@ == self@,
    {
        IsolationPolicy {
            network: match &self.network {
                NetworkPolicy::Closed => NetworkPolicy::Closed,
                NetworkPolicy::Loopback => NetworkPolicy::Loopback,
                NetworkPolicy::Allowlist(v) => NetworkPolicy::Allowlist(owned_all(v)),
                NetworkPolicy::Full => NetworkPolicy::Full,
            },
            read_only_rootfs: self.read_only_rootfs,
            tmpfs: owned_all(&self.tmpfs),
            pids_limit: self.pids_limit,
            memory: owned_opt(&self.memory),
            drop_all_caps: self.drop_all_caps,
            no_new_privileges: self.no_new_privileges,
            user: owned_opt(&self.user),
            image: self.image.clone(),
        }
    }
}

impl OpenClaudeClient {
    /// The bridge that is shipped with the harness.
    pub fn bun_bridge(
        bridge_dir: &str,
        env: StrMap<String>,
        model: Option<String>,
        model_via_env: bool,
        timeout_ms: u64,
    ) -> (r: OpenClaudeClient)
        ensures
            r.command.deep_view() == seq!["bun"@, "run"@, "bridge.ts"@],
            r.cwd.deep_view() == Some(bridge_dir@),
            r.env == env,
            r.model == model,
            r.model_via_env == model_via_env,
            r.policy@ == crate::sandbox::passthrough(),
            r.timeout_ms == timeout_ms,
    {
        let command = vec![owned("bun"), owned("run"), owned("bridge.ts")];
        assert(command.deep_view() =~= seq!["bun"@, "run"@, "bridge.ts"@]);
        OpenClaudeClient {
            command,
            cwd: Some(owned(bridge_dir)),
            env,
            model,
            model_via_env,
            policy: IsolationPolicy::host_passthrough(),
            timeout_ms,
        }
    }

    /// The blocks as one turn, each in a frame that shows whether it is trusted.
    pub fn render_blocks(blocks: &Vec<ContextBlock>) -> (r: String)
        ensures
            r@ == framed_all(blocks.deep_view()),
    {
        let mut parts: Vec<String> = Vec::new();
        let mut i: usize = 0;
        while i < blocks.len()
            invariant
                i <= blocks@.len(),
                parts@.len() == i,
                forall|k: int|
                    0 <= k < i ==> (#[trigger] parts@[k])@ == framed(blocks@[k].deep_view()),
            decreases blocks@.len() - i,
        {
            parts.push(frame(&blocks[i]));
            i += 1;
        }
        assert(parts.deep_view() =~= blocks.deep_view().map_values(|x: BlockV| framed(x)));
        join(&parts, "\n\n")
    }

    /// The process of an invocation.
    pub fn process(&self, req: &InvocationRequest) -> (r: ProcessSpec)
        ensures
            r@ == (ProcessV {
                command: self.command.deep_view(),
                cwd: match self.cwd {
                    Some(d) => d@,
                    None => "."@,
                },
                env: bridge_env(
                    texts(self.env),
                    texts(req.secret_env),
                    if self.model_via_env {
                        effective_model(req.model.deep_view(), self.model.deep_view())
                    } else {
                        None
                    },
                ),
                clear_env: false,
                kind: ExecKind::Agent,
                mounts: bridge_mounts(req.workdir.deep_view()),
                policy: self.policy@,
                name: None,
            }),
    {
        let mut env = self.env.copy();
        env.overlay(&req.secret_env);
        let (via_env, _options) = resolve_model_env(self.model_via_env, &req.model, &self.model);
        let ghost base = texts(env);
        match &via_env {
            Some(m) => {
                env.insert(owned("OPENAI_MODEL"), m.clone());
                assert(texts(env) =~= base.insert("OPENAI_MODEL"@, m@));
            },
            None => {},
        }
        let mut mounts: Vec<Mount> = Vec::new();
        match &req.workdir {
            Some(w) => {
                mounts.push(Mount { host: w.clone(), guest: w.clone(), writable: true });
            },
            None => {},
        }
        assert(mounts.deep_view() =~= bridge_mounts(req.workdir.deep_view()));
        ProcessSpec {
            command: owned_all(&self.command),
            cwd: match &self.cwd {
                Some(d) => d.clone(),
                None => owned("."),
            },
            env,
            clear_env: false,
            kind: ExecKind::Agent,
            mounts,
            policy: self.policy.copy(),
            name: None,
        }
    }

    /// The line that opens an invocation.
    pub fn invoke_line(&self, req: &InvocationRequest) -> (r: String)
        ensures
            r@ == message_line(
                invoke_tree(
                    req.system_prompt@,
                    req.blocks.deep_view(),
                    if self.model_via_env {
                        None
                    } else {
                        effective_model(req.model.deep_view(), self.model.deep_view())
                    },
                    req.workdir.deep_view(),
                    req.session.deep_view(),
                    trees(req.mcp_servers),
                ),
            ),
    {
        let (_env, options) = resolve_model_env(self.model_via_env, &req.model, &self.model);
        let never = vec![
            owned("Bash"),
            owned("PowerShell"),
            owned("REPL"),
            owned("KillShell"),
        ];
        assert(never.deep_view() =~= always_disallowed());
        let resume = match &req.session {
            Some(s) => Json::Str(s.0.clone()),
            None => Json::Null,
        };
        let f = vec![
            (owned("kind"), Json::Str(owned("invoke"))),
            (owned("system_prompt"), Json::Str(req.system_prompt.clone())),
            (owned("user_prompt"), Json::Str(OpenClaudeClient::render_blocks(&req.blocks))),
            (owned("disallowed_tools"), Json::texts(&never)),
            (owned("allowed_tools"), Json::Null),
            (owned("model"), opt_text(&options)),
            (owned("cwd"), opt_text(&req.workdir)),
            (owned("resume"), resume),
            (owned("mcp_servers"), servers_object(&req.mcp_servers)),
        ];
        let ghost t = invoke_tree(
            req.system_prompt@,
            req.blocks.deep_view(),
            if self.model_via_env {
                None
            } else {
                effective_model(req.model.deep_view(), self.model.deep_view())
            },
            req.workdir.deep_view(),
            req.session.deep_view(),
            trees(req.mcp_servers),
        );
        assert(fields_view(f@) =~= t->Object_0);
        line_of(f)
    }

    /// The error of an invocation that ran out of its budget.
    pub fn budget_error(&self) -> (r: DackError)
        ensures
            r is Runtime,
            (r->Runtime_0)@ == "invoke exceeded its "@ + span_text(self.timeout_ms as nat)
                + " budget (LLM/bridge hung)"@,
    {
        let mut m = owned("invoke exceeded its ");
        m.append(show_span(self.timeout_ms).as_str());
        m.append(" budget (LLM/bridge hung)");
        DackError::Runtime(m)
    }
}

fn line_of(f: Vec<(String, Json)>) -> (r: String)
    ensures
        r@ == message_line(JsonV::Object(fields_view(f@))),
{
    let ghost fv = fields_view(f@);
    let mut parts: Vec<String> = Vec::new();
    let mut i: usize = 0;
    while i < f.len()
        invariant
            i <= f@.len(),
            fv == fields_view(f@),
            parts@.len() == i,
            forall|k: int| 0 <= k < i ==> (#[trigger] parts@[k])@ == field_text(fv[k]),
        decreases f@.len() - i,
    {
        let mut part = Json::Str(f[i].0.clone()).to_text();
        part.append(":");
        part.append(f[i].1.to_text().as_str());
        assert(part@ == field_text(fv[i as int]));
        parts.push(part);
        i += 1;
    }
    assert(parts.deep_view() =~= fv.map_values(|p: (Seq<char>, JsonV)| field_text(p)));
    let mut out = owned("{");
    out.append(join(&parts, ",").as_str());
    out.append("}");
    out.push('\n');
    out
}

// ── What comes in ───────────────────────────────────────────────────────────────────────

/// What the bridge says.
#[derive(Debug)]
pub enum BridgeEvent {
    /// A tool call asks for permission.
    Permission(ActionRequest),
    /// The run is over.
    Answer(AgentOutput, Option<String>),
    /// The run failed.
    Fault(String),
    /// A word for the log.
    Note(String),
}

/// What a [`BridgeEvent`] holds.
pub enum BridgeEventV {
    Permission(Seq<char>, Seq<char>, JsonV),
    Answer(AgentOutputV, Option<Seq<char>>),
    Fault(Seq<char>),
    Note(Seq<char>),
}

impl View for BridgeEvent {
    type V = BridgeEventV;

    open spec fn view(&self) -> BridgeEventV {
        match self {
            BridgeEvent::Permission(r) => BridgeEventV::Permission(
                r.tool@,
                r.tool_use_id@,
                r.input@,
            ),
            BridgeEvent::Answer(out, id) => BridgeEventV::Answer(out@, id.deep_view()),
            BridgeEvent::Fault(m) => BridgeEventV::Fault(m@),
            BridgeEvent::Note(m) => BridgeEventV::Note(m@),
        }
    }
}

/// The input of a tool call; null where it is absent.
pub open spec fn input_in(t: JsonV) -> JsonV {
    match field(t, "input"@) {
        Some(x) => x,
        None => JsonV::Null,
    }
}

/// The event in a document.
pub open spec fn event_in(t: JsonV) -> Option<BridgeEventV> {
    match text_at(t, "kind"@, false) {
        None => None,
        Some(k) => if k == "permission"@ {
            match (text_at(t, "tool"@, false), text_at(t, "tool_use_id"@, false)) {
                (Some(tool), Some(id)) => Some(BridgeEventV::Permission(tool, id, input_in(t))),
                _ => None,
            }
        } else if k == "result"@ {
            match (field(t, "output"@), opt_text_at(t, "session_id"@, false)) {
                (Some(o), Some(id)) => match output_in(o) {
                    Some(out) => Some(BridgeEventV::Answer(out, id)),
                    None => None,
                },
                _ => None,
            }
        } else if k == "error"@ {
            match text_at(t, "message"@, false) {
                Some(m) => Some(BridgeEventV::Fault(m)),
                None => None,
            }
        } else if k == "log"@ {
            match text_at(t, "message"@, false) {
                Some(m) => Some(BridgeEventV::Note(m)),
                None => None,
            }
        } else {
            None
        },
    }
}

/// The event on a line.
pub open spec fn event_on(line: Seq<char>) -> Option<BridgeEventV> {
    match json_read(line) {
        Ok(v) => event_in(value_tree(v)),
        Err(_) => None,
    }
}

/// What is wrong with a document that holds no event: of the parts that do not fit, the first
/// one read.
pub open spec fn event_fault(t: JsonV) -> Option<Seq<char>> {
    or_fault(
        text_fault(t, "kind"@, false),
        match text_at(t, "kind"@, false) {
            None => None,
            Some(k) => if k == "permission"@ {
                or_fault(text_fault(t, "tool"@, false), text_fault(t, "tool_use_id"@, false))
            } else if k == "result"@ {
                or_fault(
                    match field(t, "output"@) {
                        Some(o) => output_fault(o),
                        None => Some(missing_text("output"@)),
                    },
                    opt_text_fault(t, "session_id"@, false),
                )
            } else if k == "error"@ || k == "log"@ {
                text_fault(t, "message"@, false)
            } else {
                Some("unknown variant of `kind`"@)
            },
        },
    )
}

/// What is wrong with a line that holds no event: the reader's own reason where it is no
/// document.
pub open spec fn event_line_fault(line: Seq<char>) -> Option<Seq<char>> {
    match json_read(line) {
        Ok(v) => event_fault(value_tree(v)),
        Err(e) => Some(json_error_text(e)),
    }
}

fn read_event(j: &Json) -> (r: Result<BridgeEvent, String>)
    ensures
        match event_in(j@) {
            Some(e) => r is Ok && r->Ok_0@ == e,
            None => r is Err,
        },
        match r {
            Ok(_) => event_fault(j@) is None,
            Err(e) => event_fault(j@) == Some(e@),
        },
{
    let kind = match get_text(j, "kind", false) {
        Ok(k) => k,
        Err(e) => return Err(e),
    };
    proof {
        reveal_strlit("permission");
        reveal_strlit("result");
        reveal_strlit("error");
        reveal_strlit("log");
    }
    if same_text(kind.as_str(), "permission") {
        let tool = match get_text(j, "tool", false) {
            Ok(x) => x,
            Err(e) => return Err(e),
        };
        let tool_use_id = match get_text(j, "tool_use_id", false) {
            Ok(x) => x,
            Err(e) => return Err(e),
        };
        let input = match j.get("input") {
            Some(x) => x.clone(),
            None => Json::Null,
        };
        Ok(BridgeEvent::Permission(ActionRequest { tool, tool_use_id, input }))
    } else if same_text(kind.as_str(), "result") {
        let out = match j.get("output") {
            Some(o) => match AgentOutput::from_json(o) {
                Ok(x) => x,
                Err(e) => return Err(e),
            },
            None => return Err(missing("output")),
        };
        match get_opt_text(j, "session_id", false) {
            Ok(id) => Ok(BridgeEvent::Answer(out, id)),
            Err(e) => Err(e),
        }
    } else if same_text(kind.as_str(), "error") {
        match get_text(j, "message", false) {
            Ok(m) => Ok(BridgeEvent::Fault(m)),
            Err(e) => Err(e),
        }
    } else if same_text(kind.as_str(), "log") {
        match get_text(j, "message", false) {
            Ok(m) => Ok(BridgeEvent::Note(m)),
            Err(e) => Err(e),
        }
    } else {
        Err(owned("unknown variant of `kind`"))
    }
}

/// The message about a line that holds no event.
pub open spec fn unread_text(why: Seq<char>, line: Seq<char>) -> Seq<char> {
    "bridge event parse: "@ + why + " (line: "@ + line + ")"@
}

/// The error of a line without an event: it shows the line, and what is wrong with it.
pub open spec fn unread(e: DackError, line: Seq<char>) -> bool {
    &&& e is Runtime
    &&& match event_line_fault(line) {
        Some(why) => (e->Runtime_0)@ == unread_text(why, line),
        None => false,
    }
}

/// Reads the event on a line; what cannot be read is a `Runtime` error that shows the line.
pub fn parse_event(line: &str) -> (r: Result<BridgeEvent, DackError>)
    ensures
        match event_on(line@) {
            Some(e) => r is Ok && r->Ok_0@ == e,
            None => r is Err && unread(r->Err_0, line@),
        },
{
    let read = match Json::parse(line) {
        Ok(t) => read_event(&t),
        Err(e) => Err(e),
    };
    match read {
        Ok(e) => Ok(e),
        Err(e) => {
            let mut m = owned("bridge event parse: ");
            m.append(e.as_str());
            m.append(" (line: ");
            m.append(line);
            m.append(")");
            assert(m@ == unread_text(e@, line@));
            Err(DackError::Runtime(m))
        },
    }
}

/// What is to be done about a line.
#[derive(Debug)]
pub enum BridgeStep {
    /// Nothing: read on.
    Wait,
    /// Send this line.
    Send(String),
    /// Put this into the log.
    Log(String),
    /// The run is over.
    Done(AgentOutput, Option<SessionId>),
    Failed(DackError),
}

/// The answer to a tool call.
pub open spec fn decision_tree(tool_use_id: Seq<char>, why: Option<Seq<char>>) -> JsonV {
    JsonV::Object(
        seq![
            ("kind"@, JsonV::Str("decision"@)),
            ("tool_use_id"@, JsonV::Str(tool_use_id)),
            ("allow"@, JsonV::Bool(why is None)),
            ("message"@, opt_tree(why)),
        ],
    )
}

fn decision_line(tool_use_id: &str, decision: &ActionDecision) -> (r: String)
    ensures
        r@ == message_line(decision_tree(tool_use_id@, decision@)),
{
    let (allow, message) = match decision {
        ActionDecision::Allow => (true, Json::Null),
        ActionDecision::Deny(why) => (false, Json::Str(why.clone())),
    };
    let f = vec![
        (owned("kind"), Json::Str(owned("decision"))),
        (owned("tool_use_id"), Json::Str(owned(tool_use_id))),
        (owned("allow"), Json::Bool(allow)),
        (owned("message"), message),
    ];
    assert(fields_view(f@) =~= decision_tree(tool_use_id@, decision@)->Object_0);
    line_of(f)
}

/// Decides what is to be done about a line of the bridge. A tool call is put to the wall, which
/// records it; nothing else touches the wall.
pub fn on_line(wall: &mut RecordingResponder, line: &str) -> (r: BridgeStep)
    ensures
        trimmed(line@).len() == 0 ==> r is Wait,
        trimmed(line@).len() > 0 ==> match event_on(line@) {
            None => r is Failed && unread(r->Failed_0, line@),
            Some(BridgeEventV::Permission(tool, id, input)) => r is Send && (r->Send_0)@
                == message_line(decision_tree(id, verdict(old(wall).inner@, tool, input))),
            Some(BridgeEventV::Answer(out, id)) => r is Done && r->Done_0@ == out
                && r->Done_1.deep_view() == id,
            Some(BridgeEventV::Fault(m)) => r is Failed && r->Failed_0 is Runtime
                && (r->Failed_0->Runtime_0)@ == m,
            Some(BridgeEventV::Note(m)) => r is Log && (r->Log_0)@ == m,
        },
        match event_on(line@) {
            Some(BridgeEventV::Permission(tool, id, input)) if trimmed(line@).len() > 0 => {
                &&& final(wall).inner@ == remembered(old(wall).inner@, tool, input)
                &&& final(wall).inner.spec == old(wall).inner.spec
                &&& final(wall).calls.deep_view() == old(wall).calls.deep_view().push(
                    record_of(old(wall).inner@, tool, input),
                )
            },
            _ => *final(wall) == *old(wall),
        },
{
    if trim(line).as_str().is_empty() {
        return BridgeStep::Wait;
    }
    match parse_event(line) {
        Err(e) => BridgeStep::Failed(e),
        Ok(BridgeEvent::Permission(req)) => {
            let decision = wall.decide(&req);
            BridgeStep::Send(decision_line(req.tool_use_id.as_str(), &decision))
        },
        Ok(BridgeEvent::Answer(out, id)) => {
            let session = match id {
                Some(s) => Some(SessionId(s)),
                None => None,
            };
            BridgeStep::Done(out, session)
        },
        Ok(BridgeEvent::Fault(m)) => BridgeStep::Failed(DackError::Runtime(m)),
        Ok(BridgeEvent::Note(m)) => BridgeStep::Log(m),
    }
}

/// The error of a bridge that went away before it answered.
pub fn closed_early() -> (r: DackError)
    ensures
        r is Runtime,
        (r->Runtime_0)@ == "bridge closed before result"@,
{
    DackError::Runtime(owned("bridge closed before result"))
}

/// Every tool call is answered by the wall, and a denial is told its reason: what is sent back
/// allows the call exactly where the wall does.
pub proof fn a_denied_call_is_answered_denied(
    w: crate::runtime::action_required::WallV,
    id: Seq<char>,
    tool: Seq<char>,
    input: JsonV,
)
    ensures
        field(decision_tree(id, verdict(w, tool, input)), "allow"@) == Some(
            JsonV::Bool(verdict(w, tool, input) is None),
        ),
        field(decision_tree(id, verdict(w, tool, input)), "tool_use_id"@) == Some(JsonV::Str(id)),
{
    let f = decision_tree(id, verdict(w, tool, input))->Object_0;
    reveal_strlit("kind");
    reveal_strlit("tool_use_id");
    reveal_strlit("allow");
    assert("kind"@.len() == 4 && "tool_use_id"@.len() == 11 && "allow"@.len() == 5);
    reveal_with_fuel(crate::json::find_field, 4);
    assert(f.skip(1)[0] == f[1]);
    assert(f.skip(1).skip(1)[0] == f[2]);
}

/// Every block is framed by how far it may be trusted: between an opening and a closing line of
/// that frame, under its label, stands its whole body.
pub proof fn a_block_stands_in_its_frame(b: BlockV)
    ensures
        b.trusted ==> framed(b) == "<TRUSTED-DIRECTIVE label=\""@ + b.label + "\">\n"@ + b.body
            + "\n</TRUSTED-DIRECTIVE>"@,
        !b.trusted ==> framed(b) == "<UNTRUSTED-WORLD-DATA label=\""@ + b.label + "\">\n"@ + b.body
            + "\n</UNTRUSTED-WORLD-DATA>"@,
{
    reveal_strlit("<");
    reveal_strlit(">");
    reveal_strlit("\n</");
    reveal_strlit(" label=\"");
    reveal_strlit("TRUSTED-DIRECTIVE");
    reveal_strlit("UNTRUSTED-WORLD-DATA");
    reveal_strlit("<TRUSTED-DIRECTIVE label=\"");
    reveal_strlit("<UNTRUSTED-WORLD-DATA label=\"");
    reveal_strlit("\n</TRUSTED-DIRECTIVE>");
    reveal_strlit("\n</UNTRUSTED-WORLD-DATA>");
    if b.trusted {
        assert(framed(b) =~= "<TRUSTED-DIRECTIVE label=\""@ + b.label + "\">\n"@ + b.body
            + "\n</TRUSTED-DIRECTIVE>"@);
    } else {
        assert(framed(b) =~= "<UNTRUSTED-WORLD-DATA label=\""@ + b.label + "\">\n"@ + b.body
            + "\n</UNTRUSTED-WORLD-DATA>"@);
    }
}

/// The engine is shown every block, each in its frame, in their order.
pub proof fn every_block_is_shown(b: Seq<BlockV>, x: BlockV, i: int)
    ensures
        0 <= i < b.len() ==> has_part(framed_all(b), framed(b[i])),
        framed_all(seq![x]) == framed(x),
        b.len() > 0 ==> framed_all(b.push(x)) == framed_all(b) + "\n\n"@ + framed(x),
{
    let f = |y: BlockV| framed(y);
    let parts = b.map_values(f);
    if 0 <= i < b.len() {
        every_part_is_in_the_joined_text(parts, "\n\n"@, i);
        assert(parts[i] == framed(b[i]));
    }
    assert(seq![x].map_values(f) =~= seq![framed(x)]);
    assert(b.push(x).map_values(f) =~= parts.push(framed(x)));
    assert(parts.push(framed(x)).drop_last() =~= parts);
}

/// A step's own model comes before the client's.
pub proof fn the_steps_model_comes_first(req: Seq<char>, own: Option<Seq<char>>)
    ensures
        effective_model(Some(req), own) == Some(req),
        effective_model(None, own) == own,
{
}

/// An invocation hands the engine the system prompt, the framed blocks, the model, the directory,
/// the session and the servers of the step; and it takes every shell away.
pub proof fn an_invocation_hands_over_the_step(
    system_prompt: Seq<char>,
    blocks: Seq<BlockV>,
    model: Option<Seq<char>>,
    workdir: Option<Seq<char>>,
    resume: Option<Seq<char>>,
    servers: Map<Seq<char>, JsonV>,
)
    ensures
        ({
            let t = invoke_tree(system_prompt, blocks, model, workdir, resume, servers);
            let given = |x: Option<Seq<char>>|
                match x {
                    Some(s) => Some(JsonV::Str(s)),
                    None => Some(JsonV::Null),
                };
            &&& field(t, "kind"@) == Some(JsonV::Str("invoke"@))
            &&& field(t, "system_prompt"@) == Some(JsonV::Str(system_prompt))
            &&& field(t, "user_prompt"@) == Some(JsonV::Str(framed_all(blocks)))
            &&& field(t, "model"@) == given(model)
            &&& field(t, "cwd"@) == given(workdir)
            &&& field(t, "resume"@) == given(resume)
            &&& field(t, "allowed_tools"@) == Some(JsonV::Null)
            &&& field(t, "mcp_servers"@) == Some(servers_tree(servers))
            &&& field(t, "disallowed_tools"@) == Some(
                JsonV::Array(
                    seq![
                        JsonV::Str("Bash"@),
                        JsonV::Str("PowerShell"@),
                        JsonV::Str("REPL"@),
                        JsonV::Str("KillShell"@),
                    ],
                ),
            )
        }),
{
    reveal_strlit("kind");
    reveal_strlit("system_prompt");
    reveal_strlit("user_prompt");
    reveal_strlit("disallowed_tools");
    reveal_strlit("allowed_tools");
    reveal_strlit("model");
    reveal_strlit("cwd");
    reveal_strlit("resume");
    reveal_strlit("mcp_servers");
    assert("kind"@.len() == 4 && "system_prompt"@.len() == 13 && "user_prompt"@.len() == 11);
    assert("disallowed_tools"@.len() == 16 && "allowed_tools"@.len() == 13);
    assert("model"@.len() == 5 && "cwd"@.len() == 3 && "resume"@.len() == 6);
    assert("mcp_servers"@.len() == 11);
    assert("system_prompt"@[0] == 's' && "allowed_tools"@[0] == 'a');
    assert("user_prompt"@[0] == 'u' && "mcp_servers"@[0] == 'm');
    let f = invoke_tree(system_prompt, blocks, model, workdir, resume, servers)->Object_0;
    a_field_is_found_by_its_name(f, 0, "kind"@);
    a_field_is_found_by_its_name(f, 1, "system_prompt"@);
    a_field_is_found_by_its_name(f, 2, "user_prompt"@);
    a_field_is_found_by_its_name(f, 3, "disallowed_tools"@);
    a_field_is_found_by_its_name(f, 4, "allowed_tools"@);
    a_field_is_found_by_its_name(f, 5, "model"@);
    a_field_is_found_by_its_name(f, 6, "cwd"@);
    a_field_is_found_by_its_name(f, 7, "resume"@);
    a_field_is_found_by_its_name(f, 8, "mcp_servers"@);
    assert(texts_tree(always_disallowed())->Array_0 =~= seq![
        JsonV::Str("Bash"@),
        JsonV::Str("PowerShell"@),
        JsonV::Str("REPL"@),
        JsonV::Str("KillShell"@),
    ]);
}

/// Every server of the step is handed over under its name, as it was assembled, and no other.
pub proof fn every_server_is_handed_over(m: Map<Seq<char>, JsonV>, name: Seq<char>)
    requires
        m.dom().finite(),
    ensures
        m.contains_key(name) ==> field(servers_tree(m), name) == Some(m[name]),
        !m.contains_key(name) ==> field(servers_tree(m), name) is None,
{
    let o = in_order(m.dom());
    a_finite_set_has_an_order(m.dom());
    assert(orders(o, m.dom()));
    let f = servers_tree(m)->Object_0;
    if m.contains_key(name) {
        assert(m.dom().contains(name));
        assert(o.contains(name));
        let i = choose|i: int| 0 <= i < o.len() && o[i] == name;
        assert forall|j: int| 0 <= j < i implies (#[trigger] f[j]).0 != name by {
            assert(f[j].0 == o[j]);
            assert(text_lt(o[j], o[i]));
            text_lt_irreflexive(name);
        }
        a_field_is_found_by_its_name(f, i, name);
    } else {
        assert forall|j: int| 0 <= j < f.len() implies (#[trigger] f[j]).0 != name by {
            assert(f[j].0 == o[j]);
            assert(o.contains(o[j]));
            assert(m.dom().contains(o[j]));
        }
        a_field_is_found_by_its_name(f, 0, name);
    }
}

/// The bridge runs with its own variables and over them those of the step; where the model goes by
/// the environment, with that one over both.
pub proof fn the_bridge_gets_its_environment(
    own: Map<Seq<char>, Seq<char>>,
    secret: Map<Seq<char>, Seq<char>>,
    model: Option<Seq<char>>,
    v: Seq<char>,
    w: Seq<char>,
)
    ensures
        ({
            let m = bridge_env(own, secret, model);
            let named = v == "OPENAI_MODEL"@ && model is Some;
            &&& named ==> m.contains_key(v) && m[v] == model->0
            &&& !named && secret.contains_key(v) ==> m.contains_key(v) && m[v] == secret[v]
            &&& !named && !secret.contains_key(v) ==> (m.contains_key(v) <==> own.contains_key(v))
                && (own.contains_key(v) ==> m[v] == own[v])
        }),
        bridge_mounts(None).len() == 0,
        bridge_mounts(Some(w)) == seq![MountV { host: w, guest: w, writable: true }],
{
}

/// A message is one line: its fields in their order, each a name and a value, in one pair of
/// braces.
pub proof fn a_message_is_one_object(f: Seq<(Seq<char>, JsonV)>, i: int)
    ensures
        ({
            let t = message_line(JsonV::Object(f));
            &&& t.len() >= 3
            &&& t[0] == '{'
            &&& t[t.len() - 2] == '}'
            &&& t.last() == '\n'
            &&& 0 <= i < f.len() ==> has_part(
                t,
                json_text(JsonV::Str(f[i].0)) + ":"@ + json_text(f[i].1),
            )
        }),
        f.len() > 0 ==> message_line(JsonV::Object(f.take(1))) == ("{"@ + (json_text(
            JsonV::Str(f[0].0),
        ) + ":"@ + json_text(f[0].1)) + "}"@).push('\n'),
{
    reveal_strlit("{");
    reveal_strlit("}");
    let t = message_line(JsonV::Object(f));
    let g = |p: (Seq<char>, JsonV)| field_text(p);
    let parts = f.map_values(g);
    let all = joined(parts, ","@);
    if 0 <= i < f.len() {
        every_part_is_in_the_joined_text(parts, ","@, i);
        assert(t =~= "{"@ + all + ("}"@).push('\n'));
        what_stands_between_is_a_part("{"@, all, ("}"@).push('\n'));
        assert(parts[i] == field_text(f[i]));
        parts_nest(t, all, parts[i]);
    }
    if f.len() > 0 {
        assert(f.take(1).map_values(g) =~= seq![field_text(f[0])]);
    }
}

/// What the bridge says is told by its kind: a call that asks for leave, with its tool, its id and
/// its input; an answer, with the session that it belongs to; a fault and a note, with their
/// message. Another kind says nothing.
pub proof fn an_event_is_told_by_its_kind(
    t: JsonV,
    tool: Seq<char>,
    id: Seq<char>,
    m: Seq<char>,
    o: JsonV,
    k: Seq<char>,
)
    requires
        field(t, "kind"@) == Some(JsonV::Str(k)),
    ensures
        k == "permission"@ && field(t, "tool"@) == Some(JsonV::Str(tool)) && field(t, "tool_use_id"@)
            == Some(JsonV::Str(id)) ==> event_in(t) == Some(
            BridgeEventV::Permission(
                tool,
                id,
                match field(t, "input"@) {
                    Some(x) => x,
                    None => JsonV::Null,
                },
            ),
        ),
        k == "result"@ && field(t, "output"@) == Some(o) && output_in(o) is Some ==> {
            &&& field(t, "session_id"@) == Some(JsonV::Str(id)) ==> event_in(t) == Some(
                BridgeEventV::Answer(output_in(o)->0, Some(id)),
            )
            &&& field(t, "session_id"@) is None || field(t, "session_id"@) == Some(JsonV::Null)
                ==> event_in(t) == Some(BridgeEventV::Answer(output_in(o)->0, None))
        },
        k == "error"@ && field(t, "message"@) == Some(JsonV::Str(m)) ==> event_in(t) == Some(
            BridgeEventV::Fault(m),
        ),
        k == "log"@ && field(t, "message"@) == Some(JsonV::Str(m)) ==> event_in(t) == Some(
            BridgeEventV::Note(m),
        ),
        k != "permission"@ && k != "result"@ && k != "error"@ && k != "log"@ ==> event_in(t) is None,
{
    reveal_strlit("permission");
    reveal_strlit("result");
    reveal_strlit("error");
    reveal_strlit("log");
    assert("permission"@.len() == 10 && "result"@.len() == 6 && "error"@.len() == 5 && "log"@.len()
        == 3);
}

/// A decision names the call that it is of, and says why it was denied.
pub proof fn a_decision_names_its_call(id: Seq<char>, why: Seq<char>)
    ensures
        field(decision_tree(id, None), "kind"@) == Some(JsonV::Str("decision"@)),
        field(decision_tree(id, None), "allow"@) == Some(JsonV::Bool(true)),
        field(decision_tree(id, None), "message"@) == Some(JsonV::Null),
        field(decision_tree(id, None), "tool_use_id"@) == Some(JsonV::Str(id)),
        field(decision_tree(id, Some(why)), "kind"@) == Some(JsonV::Str("decision"@)),
        field(decision_tree(id, Some(why)), "allow"@) == Some(JsonV::Bool(false)),
        field(decision_tree(id, Some(why)), "message"@) == Some(JsonV::Str(why)),
        field(decision_tree(id, Some(why)), "tool_use_id"@) == Some(JsonV::Str(id)),
{
    reveal_strlit("kind");
    reveal_strlit("tool_use_id");
    reveal_strlit("allow");
    reveal_strlit("message");
    assert("kind"@.len() == 4 && "tool_use_id"@.len() == 11 && "allow"@.len() == 5
        && "message"@.len() == 7);
    let f = decision_tree(id, None)->Object_0;
    let g = decision_tree(id, Some(why))->Object_0;
    a_field_is_found_by_its_name(f, 0, "kind"@);
    a_field_is_found_by_its_name(f, 1, "tool_use_id"@);
    a_field_is_found_by_its_name(f, 2, "allow"@);
    a_field_is_found_by_its_name(f, 3, "message"@);
    a_field_is_found_by_its_name(g, 0, "kind"@);
    a_field_is_found_by_its_name(g, 1, "tool_use_id"@);
    a_field_is_found_by_its_name(g, 2, "allow"@);
    a_field_is_found_by_its_name(g, 3, "message"@);
}

} // verus!
