//! Definitions of workers, at `agents/<id>.md`: front matter is configuration, the body is
//! the worker's prompt.

use vstd::prelude::*;

use crate::decode::{
    fault_unless, get_list, get_opt_text, get_opt_u64, get_present, get_text, list_at, list_fault,
    misfit, models, opt_text_at, opt_text_fault, opt_u64_at, opt_u64_fault, or_fault, present,
    read_texts, scalar, text_at, text_fault, texts_are_read_item_by_item, texts_of, FromTree,
};
use crate::error::DackError;
use crate::json::{
    field, fields_view, find_field, number_i64, set_field, texts_tree, value_tree, with_field,
    with_field_reads_back, yaml_read, Json, JsonV,
};
use crate::stimuli::{front_and_body, front_fault, labelled, split_frontmatter};
use crate::text::{owned, same_text, trim, trimmed};

verus! {

/// A read-only mount of a part of the soul.
#[derive(Debug)]
pub struct Volume {
    /// Relative to the soul.
    pub source: String,
    /// Where the worker finds it.
    pub target: Option<String>,
}

/// What a [`Volume`] holds.
pub type VolumeV = (Seq<char>, Option<Seq<char>>);

impl FromTree for Volume {
    type Model = VolumeV;

    open spec fn model(&self) -> VolumeV {
        (self.source@, self.target.deep_view())
    }

    open spec fn read(t: JsonV) -> Option<VolumeV> {
        match (text_at(t, "source"@, true), opt_text_at(t, "target"@, true)) {
            (Some(source), Some(target)) => Some((source, target)),
            _ => None,
        }
    }

    open spec fn fault(t: JsonV) -> Option<Seq<char>> {
        or_fault(text_fault(t, "source"@, true), opt_text_fault(t, "target"@, true))
    }

    fn from_tree(j: &Json) -> (r: Result<Volume, String>) {
        let source = match get_text(j, "source", true) {
            Ok(x) => x,
            Err(e) => return Err(e),
        };
        match get_opt_text(j, "target", true) {
            Ok(target) => Ok(Volume { source, target }),
            Err(e) => Err(e),
        }
    }
}

/// The front matter of a worker.
#[derive(Debug)]
pub struct AgentFrontmatter {
    pub description: String,
    pub tools: Option<Vec<String>>,
    pub disallowed_tools: Option<Vec<String>>,
    pub model: Option<String>,
    pub max_turns: Option<u32>,
    /// How the worker is isolated. Not for the engine.
    pub isolation: Option<String>,
    pub volumes: Vec<Volume>,
}

/// What an [`AgentFrontmatter`] holds.
#[verifier::ext_equal]
pub struct AgentFrontV {
    pub description: Seq<char>,
    pub tools: Option<Seq<Seq<char>>>,
    pub disallowed_tools: Option<Seq<Seq<char>>>,
    pub model: Option<Seq<char>>,
    pub max_turns: Option<u32>,
    pub isolation: Option<Seq<char>>,
    pub volumes: Seq<VolumeV>,
}

/// An optional list of texts.
pub open spec fn opt_texts_at(t: JsonV, key: Seq<char>) -> Option<Option<Seq<Seq<char>>>> {
    match present(t, key) {
        None => Some(None),
        Some(x) => match texts_of(x, true) {
            Some(v) => Some(Some(v)),
            None => None,
        },
    }
}

/// What is wrong with an optional list of texts.
pub open spec fn opt_texts_fault(t: JsonV, key: Seq<char>) -> Option<Seq<char>> {
    fault_unless(opt_texts_at(t, key) is Some, misfit(key, "a list of strings"@))
}

fn get_opt_texts(j: &Json, key: &str) -> (r: Result<Option<Vec<String>>, String>)
    ensures
        match opt_texts_at(j@, key@) {
            Some(v) => r is Ok && r->Ok_0.deep_view() == v,
            None => r is Err,
        },
        match r {
            Ok(_) => opt_texts_fault(j@, key@) is None,
            Err(e) => opt_texts_fault(j@, key@) == Some(e@),
        },
{
    match get_present(j, key) {
        None => Ok(None),
        Some(x) => match read_texts(x, true) {
            Some(v) => Ok(Some(v)),
            None => Err(crate::decode::field_error(key, "a list of strings")),
        },
    }
}

/// A number of turns.
pub open spec fn turns_at(t: JsonV) -> Option<Option<u32>> {
    match opt_u64_at(t, "maxTurns"@) {
        Some(Some(n)) => if n <= u32::MAX {
            Some(Some(n as u32))
        } else {
            None
        },
        Some(None) => Some(None),
        None => None,
    }
}

/// What is wrong with a number of turns.
pub open spec fn turns_fault(t: JsonV) -> Option<Seq<char>> {
    or_fault(
        opt_u64_fault(t, "maxTurns"@),
        fault_unless(turns_at(t) is Some, misfit("maxTurns"@, "a smaller number"@)),
    )
}

impl FromTree for AgentFrontmatter {
    type Model = AgentFrontV;

    open spec fn model(&self) -> AgentFrontV {
        AgentFrontV {
            description: self.description@,
            tools: self.tools.deep_view(),
            disallowed_tools: self.disallowed_tools.deep_view(),
            model: self.model.deep_view(),
            max_turns: self.max_turns,
            isolation: self.isolation.deep_view(),
            volumes: models(self.volumes@),
        }
    }

    open spec fn read(t: JsonV) -> Option<AgentFrontV> {
        match (
            text_at(t, "description"@, true),
            opt_texts_at(t, "tools"@),
            opt_texts_at(t, "disallowedTools"@),
            opt_text_at(t, "model"@, true),
            turns_at(t),
            opt_text_at(t, "isolation"@, true),
            list_at::<Volume>(t, "volumes"@),
        ) {
            (
                Some(description),
                Some(tools),
                Some(disallowed_tools),
                Some(model),
                Some(max_turns),
                Some(isolation),
                Some(volumes),
            ) => Some(
                AgentFrontV {
                    description,
                    tools,
                    disallowed_tools,
                    model,
                    max_turns,
                    isolation,
                    volumes,
                },
            ),
            _ => None,
        }
    }

    open spec fn fault(t: JsonV) -> Option<Seq<char>> {
        let f = text_fault(t, "description"@, true);
        let f = or_fault(f, opt_texts_fault(t, "tools"@));
        let f = or_fault(f, opt_texts_fault(t, "disallowedTools"@));
        let f = or_fault(f, opt_text_fault(t, "model"@, true));
        let f = or_fault(f, turns_fault(t));
        let f = or_fault(f, opt_text_fault(t, "isolation"@, true));
        or_fault(f, list_fault::<Volume>(t, "volumes"@))
    }

    fn from_tree(j: &Json) -> (r: Result<AgentFrontmatter, String>) {
        let description = match get_text(j, "description", true) {
            Ok(x) => x,
            Err(e) => return Err(e),
        };
        let tools = match get_opt_texts(j, "tools") {
            Ok(x) => x,
            Err(e) => return Err(e),
        };
        let disallowed_tools = match get_opt_texts(j, "disallowedTools") {
            Ok(x) => x,
            Err(e) => return Err(e),
        };
        let model = match get_opt_text(j, "model", true) {
            Ok(x) => x,
            Err(e) => return Err(e),
        };
        let max_turns: Option<u32> = match get_opt_u64(j, "maxTurns") {
            Ok(Some(n)) => if n <= u32::MAX as u64 {
                Some(n as u32)
            } else {
                return Err(crate::decode::field_error("maxTurns", "a smaller number"));
            },
            Ok(None) => None,
            Err(e) => return Err(e),
        };
        let isolation = match get_opt_text(j, "isolation", true) {
            Ok(x) => x,
            Err(e) => return Err(e),
        };
        match get_list::<Volume>(j, "volumes") {
            Ok(volumes) => Ok(
                AgentFrontmatter {
                    description,
                    tools,
                    disallowed_tools,
                    model,
                    max_turns,
                    isolation,
                    volumes,
                },
            ),
            Err(e) => Err(e),
        }
    }
}

/// A worker that can be delegated to.
#[derive(Debug)]
pub struct AgentDef {
    /// Its path below `agents/`, without the extension.
    pub id: String,
    pub fm: AgentFrontmatter,
    pub prompt: String,
}

/// What an [`AgentDef`] holds.
#[verifier::ext_equal]
pub struct AgentV {
    pub id: Seq<char>,
    pub front: AgentFrontV,
    pub prompt: Seq<char>,
}

impl View for AgentDef {
    type V = AgentV;

    open spec fn view(&self) -> AgentV {
        AgentV { id: self.id@, front: self.fm.model(), prompt: self.prompt@ }
    }
}

/// The front matter that a YAML text holds.
pub open spec fn agent_front_in(yaml: Seq<char>) -> Option<AgentFrontV> {
    match yaml_read(yaml) {
        Ok(v) => AgentFrontmatter::read(value_tree(v)),
        Err(_) => None,
    }
}

/// The worker in a document.
pub open spec fn agent_in(id: Seq<char>, text: Seq<char>) -> Option<AgentV> {
    match front_and_body(text) {
        Some((yaml, body)) => match agent_front_in(yaml) {
            Some(front) => Some(AgentV { id, front, prompt: trimmed(body) }),
            None => None,
        },
        None => None,
    }
}

/// What errors about the front matter begin with.
pub open spec fn agent_label(id: Seq<char>) -> Seq<char> {
    "agent `"@ + id + "` frontmatter: "@
}

fn front_error(id: &str, e: String) -> (r: DackError)
    ensures
        r is Stimulus,
        (r->Stimulus_0)@ == labelled(agent_label(id@), e@),
{
    let mut m = owned("agent `");
    m.append(id);
    m.append("` frontmatter: ");
    m.append(e.as_str());
    DackError::Stimulus(m)
}

/// Fields with one more, where there is a value for it.
pub open spec fn with_opt(
    f: Seq<(Seq<char>, JsonV)>,
    key: Seq<char>,
    v: Option<JsonV>,
) -> Seq<(Seq<char>, JsonV)> {
    match v {
        Some(x) => with_field(f, key, x),
        None => f,
    }
}

/// An optional list of texts as a document.
pub open spec fn opt_texts_tree(v: Option<Seq<Seq<char>>>) -> Option<JsonV> {
    match v {
        Some(x) => Some(texts_tree(x)),
        None => None,
    }
}

/// The model that is pinned: `inherit` pins none.
pub open spec fn pinned_model(m: Option<Seq<char>>) -> Option<JsonV> {
    match m {
        Some(x) => if x == "inherit"@ {
            None
        } else {
            Some(JsonV::Str(x))
        },
        None => None,
    }
}

/// What the engine is told of a worker, but for the number of turns.
pub open spec fn option_fields(a: AgentV) -> Seq<(Seq<char>, JsonV)> {
    let f0 = with_field(Seq::empty(), "description"@, JsonV::Str(a.front.description));
    let f1 = with_field(f0, "prompt"@, JsonV::Str(a.prompt));
    let f2 = with_opt(f1, "tools"@, opt_texts_tree(a.front.tools));
    let f3 = with_opt(f2, "disallowedTools"@, opt_texts_tree(a.front.disallowed_tools));
    with_opt(f3, "model"@, pinned_model(a.front.model))
}

impl AgentDef {
    /// Reads a worker. Whatever is wrong with it is a `Stimulus` error.
    pub fn parse(id: &str, text: &str) -> (r: Result<AgentDef, DackError>)
        ensures
            match agent_in(id@, text@) {
                Some(a) => r is Ok && r->Ok_0@ == a,
                None => r is Err && front_fault::<AgentFrontmatter>(
                    r->Err_0,
                    agent_label(id@),
                    text@,
                ),
            },
    {
        let (yaml, body) = match split_frontmatter(text) {
            Ok(x) => x,
            Err(e) => return Err(e),
        };
        let tree = match Json::parse_yaml(yaml.as_str()) {
            Ok(x) => x,
            Err(e) => return Err(front_error(id, e)),
        };
        match AgentFrontmatter::from_tree(&tree) {
            Ok(fm) => Ok(AgentDef { id: owned(id), fm, prompt: trim(body.as_str()) }),
            Err(e) => Err(front_error(id, e)),
        }
    }

    /// The file of a worker, relative to the repository.
    pub fn repo_path(id: &str) -> (r: String)
        ensures
            r@ == "agents/"@ + id@ + ".md"@,
    {
        let mut out = owned("agents/");
        out.append(id);
        out.append(".md");
        out
    }

    /// What the engine is told of the worker. How it is isolated stays with the harness.
    pub fn to_options_value(&self) -> (r: Json)
        ensures
            match self.fm.max_turns {
                None => r@ == JsonV::Object(option_fields(self@)),
                Some(n) => exists|x: JsonV|
                    {
                        &&& x is Number
                        &&& number_i64(x->Number_0) == Some(n as i64)
                        &&& #[trigger] with_field(option_fields(self@), "maxTurns"@, x) == r@->Object_0
                        &&& r@ is Object
                    },
            },
    {
        let ghost a = self@;
        let mut f: Vec<(String, Json)> = Vec::new();
        assert(fields_view(f@) =~= Seq::empty());
        set_field(&mut f, "description", Json::Str(self.fm.description.clone()));
        assert(fields_view(f@) == with_field(
            Seq::empty(),
            "description"@,
            JsonV::Str(a.front.description),
        ));
        set_field(&mut f, "prompt", Json::Str(self.prompt.clone()));
        let ghost f1 = fields_view(f@);
        match &self.fm.tools {
            Some(t) => set_field(&mut f, "tools", Json::texts(t)),
            None => {},
        }
        let ghost f2 = fields_view(f@);
        assert(f2 == with_opt(f1, "tools"@, opt_texts_tree(a.front.tools)));
        match &self.fm.disallowed_tools {
            Some(t) => set_field(&mut f, "disallowedTools", Json::texts(t)),
            None => {},
        }
        let ghost f3 = fields_view(f@);
        assert(f3 == with_opt(f2, "disallowedTools"@, opt_texts_tree(a.front.disallowed_tools)));
        match &self.fm.model {
            Some(m) => if !same_text(m.as_str(), "inherit") {
                set_field(&mut f, "model", Json::Str(m.clone()));
            },
            None => {},
        }
        assert(fields_view(f@) == with_opt(f3, "model"@, pinned_model(a.front.model)));
        assert(fields_view(f@) == option_fields(a));
        match self.fm.max_turns {
            Some(n) => set_field(&mut f, "maxTurns", Json::integer(n as i64)),
            None => {},
        }
        Json::object(f)
    }
}

/// A worker is handed over with its description and its prompt, the tools that it may and may not
/// use where they are given, and its model unless that is the one of whoever calls it.
pub proof fn a_worker_is_handed_over_whole(a: AgentV)
    ensures
        ({
            let o = JsonV::Object(option_fields(a));
            &&& field(o, "description"@) == Some(JsonV::Str(a.front.description))
            &&& field(o, "prompt"@) == Some(JsonV::Str(a.prompt))
            &&& field(o, "tools"@) == match a.front.tools {
                Some(v) => Some(texts_tree(v)),
                None => None,
            }
            &&& field(o, "disallowedTools"@) == match a.front.disallowed_tools {
                Some(v) => Some(texts_tree(v)),
                None => None,
            }
            &&& field(o, "model"@) == match a.front.model {
                Some(m) => if m == "inherit"@ {
                    None
                } else {
                    Some(JsonV::Str(m))
                },
                None => None,
            }
        }),
{
    reveal_strlit("description");
    reveal_strlit("prompt");
    reveal_strlit("tools");
    reveal_strlit("disallowedTools");
    reveal_strlit("model");
    assert("description"@.len() == 11 && "prompt"@.len() == 6 && "tools"@.len() == 5);
    assert("disallowedTools"@.len() == 15 && "model"@.len() == 5);
    assert("tools"@[0] == 't' && "model"@[0] == 'm');
    let none = Seq::<(Seq<char>, JsonV)>::empty();
    let f0 = with_field(none, "description"@, JsonV::Str(a.front.description));
    let f1 = with_field(f0, "prompt"@, JsonV::Str(a.prompt));
    let f2 = with_opt(f1, "tools"@, opt_texts_tree(a.front.tools));
    let f3 = with_opt(f2, "disallowedTools"@, opt_texts_tree(a.front.disallowed_tools));
    let f4 = with_opt(f3, "model"@, pinned_model(a.front.model));
    assert(option_fields(a) == f4);
    assert forall|k: Seq<char>| #[trigger] find_field(f0, k) == if k == "description"@ {
        Some(JsonV::Str(a.front.description))
    } else {
        None
    } by {
        with_field_reads_back(none, "description"@, JsonV::Str(a.front.description), k);
    }
    assert forall|k: Seq<char>| #[trigger] find_field(f1, k) == if k == "prompt"@ {
        Some(JsonV::Str(a.prompt))
    } else {
        find_field(f0, k)
    } by {
        with_field_reads_back(f0, "prompt"@, JsonV::Str(a.prompt), k);
    }
    an_option_is_there_where_it_is_given(f1, "tools"@, opt_texts_tree(a.front.tools));
    an_option_is_there_where_it_is_given(
        f2,
        "disallowedTools"@,
        opt_texts_tree(a.front.disallowed_tools),
    );
    an_option_is_there_where_it_is_given(f3, "model"@, pinned_model(a.front.model));
}

proof fn an_option_is_there_where_it_is_given(
    f: Seq<(Seq<char>, JsonV)>,
    key: Seq<char>,
    v: Option<JsonV>,
)
    ensures
        forall|k: Seq<char>| #[trigger]
            find_field(with_opt(f, key, v), k) == if k == key && v is Some {
                v
            } else {
                find_field(f, k)
            },
{
    match v {
        Some(x) => {
            assert forall|k: Seq<char>| #[trigger] find_field(with_opt(f, key, v), k) == if k == key {
                v
            } else {
                find_field(f, k)
            } by {
                with_field_reads_back(f, key, x, k);
            }
        },
        None => {},
    }
}

/// A worker is read from its front: the description must be there, and the rest may be missing.
pub proof fn a_worker_is_read_from_its_front(t: JsonV)
    ensures
        AgentFrontmatter::read(t) matches Some(f) ==> {
            &&& text_at(t, "description"@, true) == Some(f.description)
            &&& opt_texts_at(t, "tools"@) == Some(f.tools)
            &&& opt_texts_at(t, "disallowedTools"@) == Some(f.disallowed_tools)
            &&& opt_text_at(t, "model"@, true) == Some(f.model)
            &&& f.max_turns matches Some(n) ==> opt_u64_at(t, "maxTurns"@) == Some(Some(n as u64))
            &&& f.max_turns is None ==> opt_u64_at(t, "maxTurns"@) == Some(None::<u64>)
            &&& opt_text_at(t, "isolation"@, true) == Some(f.isolation)
            &&& list_at::<Volume>(t, "volumes"@) == Some(f.volumes)
        },
        AgentFrontmatter::read(t) is Some <==> {
            &&& text_at(t, "description"@, true) is Some
            &&& opt_texts_at(t, "tools"@) is Some
            &&& opt_texts_at(t, "disallowedTools"@) is Some
            &&& opt_text_at(t, "model"@, true) is Some
            &&& (opt_u64_at(t, "maxTurns"@) matches Some(m) && (m is Some ==> m->0 <= u32::MAX))
            &&& opt_text_at(t, "isolation"@, true) is Some
            &&& list_at::<Volume>(t, "volumes"@) is Some
        },
        Volume::read(t) matches Some((source, target)) ==> text_at(t, "source"@, true) == Some(
            source,
        ) && opt_text_at(t, "target"@, true) == Some(target),
{
}

/// The tools of a worker are read as a list of texts where they are given.
pub proof fn tools_are_a_list_of_texts(t: JsonV, key: Seq<char>, items: Seq<JsonV>, i: int)
    ensures
        field(t, key) is None || field(t, key) == Some(JsonV::Null) ==> opt_texts_at(t, key) == Some(
            None::<Seq<Seq<char>>>,
        ),
        field(t, key) == Some(JsonV::Array(items)) ==> {
            &&& opt_texts_at(t, key) is Some <==> forall|j: int|
                0 <= j < items.len() ==> scalar(#[trigger] items[j], true) is Some
            &&& opt_texts_at(t, key) matches Some(Some(v)) ==> v.len() == items.len() && (0 <= i
                < items.len() ==> scalar(items[i], true) == Some(v[i]))
        },
{
    texts_are_read_item_by_item(items, true);
}

} // verus!
