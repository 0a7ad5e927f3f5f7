//! Where secrets come from. A provider fetches and rotates; what it hands out is short-lived,
//! and goes only to those who declared that they need it.

use vstd::prelude::*;
use vstd::utf8::{decode_utf8, valid_utf8};

use crate::config::{DackConfig, SecretsProviderConfig};
use crate::error::{error_detail, DackError};
use crate::identity::text_of_bytes;
use crate::json::{fields_view, json_error_text, json_read, value_tree, Json, JsonV};
use crate::sandbox::{CommandPlan, PlanV};
use crate::secrets::{pick_env, picked};
use crate::strmap::{overlaid, texts, StrMap};
use crate::text::{
    i64_text, int_text, owned, owned_all, push_from, push_one, same_text, trim,
    trimmed,
};

verus! {

/// Hands on variables of the harness's own environment.
#[derive(Debug)]
pub struct StaticEnvProvider {
    pub name: String,
    pub keys: Vec<String>,
}

impl StaticEnvProvider {
    pub fn new(name: String, keys: Vec<String>) -> (r: StaticEnvProvider)
        ensures
            r.name == name,
            r.keys == keys,
    {
        StaticEnvProvider { name, keys }
    }

    /// What is handed out: the listed variables that have a value.
    pub fn materialize(&self, host: &StrMap<String>) -> (r: StrMap<String>)
        ensures
            texts(r) == picked(texts(*host), self.keys.deep_view()),
    {
        pick_env(host, &self.keys)
    }
}

/// Hands out what a file holds.
#[derive(Debug)]
pub struct FileEnvProvider {
    pub name: String,
    pub key: String,
    pub path: String,
}

impl FileEnvProvider {
    pub fn new(name: String, key: String, path: String) -> (r: FileEnvProvider)
        ensures
            r.name == name,
            r.key == key,
            r.path == path,
    {
        FileEnvProvider { name, key, path }
    }

    /// What is handed out, given the content of the file.
    pub fn materialize(&self, content: &str) -> (r: StrMap<String>)
        ensures
            texts(r) == Map::<Seq<char>, Seq<char>>::empty().insert(self.key@, trimmed(content@)),
    {
        let mut out: StrMap<String> = StrMap::new();
        out.insert(self.key.clone(), trim(content));
        assert(texts(out) =~= Map::<Seq<char>, Seq<char>>::empty().insert(
            self.key@,
            trimmed(content@),
        ));
        out
    }
}

/// Runs a script of the operator's, which prints what it hands out.
#[derive(Debug)]
pub struct ScriptSecretsProvider {
    pub name: String,
    pub command: Vec<String>,
    /// Paths and references for the script; never a secret value.
    pub env: StrMap<String>,
    pub keys: Vec<String>,
}

/// What a script did.
#[derive(Debug)]
pub struct ScriptRun {
    /// The exit code; none where a signal ended it.
    pub code: Option<i32>,
    pub success: bool,
    pub stdout: Vec<u8>,
    pub stderr: String,
}

/// An exit code as it is shown.
pub open spec fn code_text(code: Option<i32>) -> Seq<char> {
    match code {
        Some(c) => "Some("@ + int_text(c as int) + ")"@,
        None => "None"@,
    }
}

/// An exit code as it is shown.
pub fn show_code(code: Option<i32>) -> (r: String)
    ensures
        r@ == code_text(code),
{
    match code {
        Some(c) => {
            let mut out = owned("Some(");
            out.append(i64_text(c as i64).as_str());
            out.append(")");
            out
        },
        None => owned("None"),
    }
}

/// Variables, where every field of an object is a text; the last of two fields of one name
/// holds.
pub open spec fn text_fields(f: Seq<(Seq<char>, JsonV)>) -> Option<Map<Seq<char>, Seq<char>>>
    decreases f.len(),
{
    if f.len() == 0 {
        Some(Map::empty())
    } else {
        match (text_fields(f.drop_last()), f.last().1) {
            (Some(m), JsonV::Str(s)) => Some(m.insert(f.last().0, s)),
            _ => None,
        }
    }
}

/// The variables that a document holds.
pub open spec fn env_in(t: JsonV) -> Option<Map<Seq<char>, Seq<char>>> {
    match t {
        JsonV::Object(f) => text_fields(f),
        _ => None,
    }
}

proof fn a_bad_field_spoils_all(f: Seq<(Seq<char>, JsonV)>, n: int)
    requires
        0 <= n <= f.len(),
        text_fields(f.take(n)) is None,
    ensures
        text_fields(f) is None,
    decreases f.len() - n,
{
    if n == f.len() {
        assert(f.take(n) =~= f);
    } else {
        assert(f.take(n + 1).drop_last() =~= f.take(n));
        a_bad_field_spoils_all(f, n + 1);
    }
}

/// The variables that a document holds.
pub fn read_env(j: &Json) -> (r: Option<StrMap<String>>)
    ensures
        match env_in(j@) {
            Some(m) => r is Some && texts(r->0) == m,
            None => r is None,
        },
{
    match j {
        Json::Object(fields) => {
            let ghost f = fields_view(fields@);
            assert(j@->Object_0 =~= f);
            let mut out: StrMap<String> = StrMap::new();
            let mut i: usize = 0;
            assert(f.take(0) =~= Seq::empty());
            assert(texts(out) =~= Map::empty());
            while i < fields.len()
                invariant
                    i <= fields@.len(),
                    f == fields_view(fields@),
                    j@ == JsonV::Object(f),
                    text_fields(f.take(i as int)) == Some(texts(out)),
                decreases fields@.len() - i,
            {
                proof {
                    assert(f.take(i + 1).drop_last() =~= f.take(i as int));
                    assert(f.take(i + 1).last() == (fields@[i as int].0@, fields@[i as int].1@));
                }
                let ghost before = texts(out);
                match &fields[i].1 {
                    Json::Str(s) => {
                        out.insert(fields[i].0.clone(), s.clone());
                        assert(texts(out) =~= before.insert(fields@[i as int].0@, s@));
                    },
                    _ => {
                        proof {
                            a_bad_field_spoils_all(f, i + 1);
                        }
                        return None;
                    },
                }
                i += 1;
            }
            assert(f.take(i as int) =~= f);
            Some(out)
        },
        _ => None,
    }
}

/// What is said of a provider.
pub open spec fn of_provider(name: Seq<char>, what: Seq<char>) -> Seq<char> {
    "secrets provider `"@ + name + "`"@ + what
}

fn provider_error(name: &str, what: &str) -> (r: DackError)
    ensures
        r is Config,
        error_detail(r) == of_provider(name@, what@),
{
    let mut out = owned("secrets provider `");
    out.append(name);
    out.append("`");
    out.append(what);
    DackError::Config(out)
}

/// What a script printed, as a document.
pub open spec fn printed(stdout: Seq<u8>) -> Option<JsonV> {
    if valid_utf8(stdout) {
        match json_read(decode_utf8(stdout)) {
            Ok(v) => Some(value_tree(v)),
            Err(_) => None,
        }
    } else {
        None
    }
}

/// What is wrong with what a script printed, where it is no document.
pub open spec fn unprinted(stdout: Seq<u8>) -> Seq<char> {
    if valid_utf8(stdout) {
        match json_read(decode_utf8(stdout)) {
            Ok(_) => Seq::empty(),
            Err(e) => json_error_text(e),
        }
    } else {
        "not UTF-8"@
    }
}

impl ScriptSecretsProvider {
    pub fn new(
        name: String,
        command: Vec<String>,
        env: StrMap<String>,
        keys: Vec<String>,
    ) -> (r: ScriptSecretsProvider)
        ensures
            r.name == name,
            r.command == command,
            r.env == env,
            r.keys == keys,
    {
        ScriptSecretsProvider { name, command, env, keys }
    }

    /// How the script is run: with where programs and the home are, and its own settings, and
    /// nothing else of the harness's environment.
    pub fn plan(&self, host: &StrMap<String>) -> (r: Result<CommandPlan, DackError>)
        ensures
            if self.command@.len() == 0 {
                r is Err && r->Err_0 is Config && error_detail(r->Err_0) == of_provider(
                    self.name@,
                    ": empty command"@,
                )
            } else {
                r is Ok && r->Ok_0@ == (PlanV {
                    program: self.command@[0]@,
                    args: self.command.deep_view().skip(1),
                    cwd: None,
                    clear_env: true,
                    env: overlaid(
                        picked(texts(*host), seq!["PATH"@, "HOME"@]),
                        texts(self.env),
                    ),
                })
            },
    {
        if self.command.len() == 0 {
            return Err(provider_error(self.name.as_str(), ": empty command"));
        }
        let mut names: Vec<String> = Vec::new();
        assert(names.deep_view() =~= Seq::empty());
        push_one(&mut names, "PATH");
        push_one(&mut names, "HOME");
        assert(names.deep_view() =~= seq!["PATH"@, "HOME"@]);
        let mut env = pick_env(host, &names);
        env.overlay(&self.env);
        let mut args: Vec<String> = Vec::new();
        assert(args.deep_view() =~= Seq::empty());
        push_from(&mut args, &self.command, 1);
        assert(args.deep_view() =~= self.command.deep_view().skip(1));
        Ok(
            CommandPlan {
                program: self.command[0].clone(),
                args,
                cwd: None,
                clear_env: true,
                env,
            },
        )
    }

    /// What the script handed out: a failure is an error, never an empty environment.
    pub fn outcome(&self, run: &ScriptRun) -> (r: Result<StrMap<String>, DackError>)
        ensures
            if !run.success {
                r is Err && r->Err_0 is Config && error_detail(r->Err_0) == of_provider(
                    self.name@,
                    " exited "@ + code_text(run.code) + ": "@ + trimmed(run.stderr@),
                )
            } else {
                match printed(run.stdout@) {
                    Some(t) => match env_in(t) {
                        Some(m) => r is Ok && texts(r->Ok_0) == m,
                        None => r is Err && r->Err_0 is Config && error_detail(r->Err_0)
                            == of_provider(
                            self.name@,
                            " output is not a JSON object: expected texts"@,
                        ),
                    },
                    None => r is Err && r->Err_0 is Config && error_detail(r->Err_0)
                        == of_provider(
                        self.name@,
                        " output is not a JSON object: "@ + unprinted(run.stdout@),
                    ),
                }
            },
    {
        if !run.success {
            let mut what = owned(" exited ");
            what.append(show_code(run.code).as_str());
            what.append(": ");
            what.append(trim(run.stderr.as_str()).as_str());
            return Err(provider_error(self.name.as_str(), what.as_str()));
        }
        let parsed = match text_of_bytes(run.stdout.as_slice()) {
            Some(s) => Json::parse(s.as_str()),
            None => Err(owned("not UTF-8")),
        };
        match parsed {
            Ok(j) => match read_env(&j) {
                Some(env) => Ok(env),
                None => Err(
                    provider_error(
                        self.name.as_str(),
                        " output is not a JSON object: expected texts",
                    ),
                ),
            },
            Err(e) => {
                let mut what = owned(" output is not a JSON object: ");
                what.append(e.as_str());
                Err(provider_error(self.name.as_str(), what.as_str()))
            },
        }
    }
}

// ── The broker ──────────────────────────────────────────────────────────────────────────

/// A provider.
#[derive(Debug)]
pub enum SecretsProvider {
    Static(StaticEnvProvider),
    File(FileEnvProvider),
    Script(ScriptSecretsProvider),
}

/// The name of a provider, by which it is asked for.
pub open spec fn provider_name(p: SecretsProvider) -> Seq<char> {
    match p {
        SecretsProvider::Static(p) => p.name@,
        SecretsProvider::File(p) => p.name@,
        SecretsProvider::Script(p) => p.name@,
    }
}

impl SecretsProvider {
    /// The name by which the provider is asked for.
    pub fn name(&self) -> (r: &str)
        ensures
            r@ == provider_name(*self),
    {
        match self {
            SecretsProvider::Static(p) => p.name.as_str(),
            SecretsProvider::File(p) => p.name.as_str(),
            SecretsProvider::Script(p) => p.name.as_str(),
        }
    }

    /// The variables that the provider is expected to hand out.
    pub fn keys(&self) -> (r: Vec<String>)
        ensures
            r.deep_view() == (match *self {
                SecretsProvider::Static(p) => p.keys.deep_view(),
                SecretsProvider::File(p) => seq![p.key@],
                SecretsProvider::Script(p) => p.keys.deep_view(),
            }),
    {
        match self {
            SecretsProvider::Static(p) => owned_all(&p.keys),
            SecretsProvider::File(p) => {
                let mut v: Vec<String> = Vec::new();
                assert(v.deep_view() =~= Seq::empty());
                push_one(&mut v, p.key.as_str());
                assert(v.deep_view() =~= seq![p.key@]);
                v
            },
            SecretsProvider::Script(p) => owned_all(&p.keys),
        }
    }
}

/// All providers.
#[derive(Debug)]
pub struct SecretsBroker {
    pub providers: Vec<SecretsProvider>,
}

/// What the broker makes of a list of names and of what was handed out so far.
#[derive(Debug)]
pub enum Gathered {
    /// Everything was handed out.
    Env(StrMap<String>),
    /// This provider is to hand out next.
    Needs(usize),
    /// A name that no provider has.
    Unknown(DackError),
}

/// What a [`Gathered`] holds.
pub enum GatheredV {
    Env(Map<Seq<char>, Seq<char>>),
    Needs(int),
    Unknown(Seq<char>),
}

/// The first provider of a name.
pub open spec fn provider_at(p: Seq<SecretsProvider>, name: Seq<char>) -> Option<int>
    decreases p.len(),
{
    if p.len() == 0 {
        None
    } else if provider_name(p[0]) == name {
        Some(0)
    } else {
        match provider_at(p.skip(1), name) {
            Some(i) => Some(i + 1),
            None => None,
        }
    }
}

/// What is gathered from position `i` on: the names are served in their order, and of two
/// values of one variable the later one holds. An unknown name is an error, so that nothing
/// runs without what it declared that it needs.
pub open spec fn gathered(
    p: Seq<SecretsProvider>,
    scopes: Seq<Seq<char>>,
    outs: Seq<Map<Seq<char>, Seq<char>>>,
    i: int,
    env: Map<Seq<char>, Seq<char>>,
) -> GatheredV
    decreases scopes.len() - i,
{
    if i >= scopes.len() {
        GatheredV::Env(env)
    } else {
        match provider_at(p, scopes[i]) {
            None => GatheredV::Unknown(scopes[i]),
            Some(k) => if 0 <= i < outs.len() {
                gathered(p, scopes, outs, i + 1, overlaid(env, outs[i]))
            } else {
                GatheredV::Needs(k)
            },
        }
    }
}

/// What was handed out.
pub open spec fn outs_view(v: Seq<StrMap<String>>) -> Seq<Map<Seq<char>, Seq<char>>> {
    v.map_values(|m: StrMap<String>| texts(m))
}

impl SecretsBroker {
    pub fn new(providers: Vec<SecretsProvider>) -> (r: SecretsBroker)
        ensures
            r.providers == providers,
    {
        SecretsBroker { providers }
    }

    fn find(&self, name: &str) -> (r: Option<usize>)
        ensures
            match r {
                Some(i) => provider_at(self.providers@, name@) == Some(i as int),
                None => provider_at(self.providers@, name@) is None,
            },
    {
        let ghost p = self.providers@;
        let mut i: usize = 0;
        assert(p.skip(0) =~= p);
        while i < self.providers.len()
            invariant
                i <= self.providers@.len(),
                p == self.providers@,
                provider_at(p, name@) == (match provider_at(p.skip(i as int), name@) {
                    Some(k) => Some(k + i),
                    None => None,
                }),
            decreases self.providers@.len() - i,
        {
            assert(p.skip(i as int)[0] == p[i as int]);
            assert(p.skip(i as int).skip(1) =~= p.skip(i + 1));
            if same_text(self.providers[i].name(), name) {
                return Some(i);
            }
            i += 1;
        }
        None
    }

    /// The environment of one who declared these names, given what the providers handed out so
    /// far: the `i`th of `outs` is what the provider of the `i`th name handed out.
    pub fn env_for(&self, scopes: &Vec<String>, outs: &Vec<StrMap<String>>) -> (r: Gathered)
        ensures
            match gathered(
                self.providers@,
                scopes.deep_view(),
                outs_view(outs@),
                0,
                Map::empty(),
            ) {
                GatheredV::Env(m) => r is Env && texts(r->Env_0) == m,
                GatheredV::Needs(k) => r is Needs && r->Needs_0 == k,
                GatheredV::Unknown(s) => r is Unknown && r->Unknown_0 is Config && error_detail(
                    r->Unknown_0,
                ) == "unknown secrets provider scope: "@ + s,
            },
    {
        let ghost p = self.providers@;
        let ghost s = scopes.deep_view();
        let ghost o = outs_view(outs@);
        let ghost whole = gathered(p, s, o, 0, Map::empty());
        let mut env: StrMap<String> = StrMap::new();
        let mut i: usize = 0;
        assert(texts(env) =~= Map::empty());
        assert(s.len() == scopes@.len());
        while i < scopes.len()
            invariant
                i <= scopes@.len(),
                p == self.providers@,
                s == scopes.deep_view(),
                o == outs_view(outs@),
                whole == gathered(p, s, o, 0, Map::empty()),
                whole == gathered(p, s, o, i as int, texts(env)),
            decreases scopes@.len() - i,
        {
            assert(s[i as int] == scopes@[i as int]@);
            match self.find(scopes[i].as_str()) {
                None => {
                    let mut out = owned("unknown secrets provider scope: ");
                    out.append(scopes[i].as_str());
                    return Gathered::Unknown(DackError::Config(out));
                },
                Some(k) => {
                    if i >= outs.len() {
                        return Gathered::Needs(k);
                    }
                    assert(o[i as int] == texts(outs@[i as int]));
                    env.overlay(&outs[i]);
                },
            }
            i += 1;
        }
        Gathered::Env(env)
    }
}

fn copy_provider(p: &SecretsProviderConfig) -> (r: ScriptSecretsProvider)
    ensures
        r.name@ == p.name@,
        r.command.deep_view() == p.command.deep_view(),
        texts(r.env) == texts(p.env),
        r.keys.deep_view() == p.keys.deep_view(),
{
    ScriptSecretsProvider::new(
        p.name.clone(),
        owned_all(&p.command),
        p.env.copy(),
        owned_all(&p.keys),
    )
}

/// A script provider does what its configuration says.
pub open spec fn matches(p: SecretsProvider, c: SecretsProviderConfig) -> bool {
    match p {
        SecretsProvider::Script(s) => s.name@ == c.name@ && s.command.deep_view()
            == c.command.deep_view() && texts(s.env) == texts(c.env) && s.keys.deep_view()
            == c.keys.deep_view(),
        _ => false,
    }
}

/// The broker of a configuration: one script for each provider that it names.
pub fn broker_from_config(config: &DackConfig) -> (r: SecretsBroker)
    ensures
        r.providers@.len() == config.secrets_providers@.len(),
        forall|i: int|
            0 <= i < r.providers@.len() ==> matches(
                #[trigger] r.providers@[i],
                config.secrets_providers@[i],
            ),
{
    let mut providers: Vec<SecretsProvider> = Vec::new();
    let mut i: usize = 0;
    while i < config.secrets_providers.len()
        invariant
            i <= config.secrets_providers@.len(),
            providers@.len() == i,
            forall|k: int|
                0 <= k < i ==> matches(#[trigger] providers@[k], config.secrets_providers@[k]),
        decreases config.secrets_providers@.len() - i,
    {
        providers.push(SecretsProvider::Script(copy_provider(&config.secrets_providers[i])));
        i += 1;
    }
    SecretsBroker::new(providers)
}

// ── Laws ────────────────────────────────────────────────────────────────────────────────

/// A name that no provider has never leads to an environment.
pub proof fn an_unknown_scope_fails_closed(
    p: Seq<SecretsProvider>,
    scopes: Seq<Seq<char>>,
    outs: Seq<Map<Seq<char>, Seq<char>>>,
    i: int,
    env: Map<Seq<char>, Seq<char>>,
    bad: int,
)
    requires
        0 <= i <= bad < scopes.len(),
        provider_at(p, scopes[bad]) is None,
    ensures
        !(gathered(p, scopes, outs, i, env) is Env),
    decreases scopes.len() - i,
{
    if i < bad && provider_at(p, scopes[i]) is Some && i < outs.len() {
        an_unknown_scope_fails_closed(
            p,
            scopes,
            outs,
            i + 1,
            overlaid(env, outs[i]),
            bad,
        );
    }
}

/// Nobody gets a variable that was not handed out for a name that they declared.
pub proof fn secrets_are_scoped(
    p: Seq<SecretsProvider>,
    scopes: Seq<Seq<char>>,
    outs: Seq<Map<Seq<char>, Seq<char>>>,
    i: int,
    env: Map<Seq<char>, Seq<char>>,
    key: Seq<char>,
)
    requires
        0 <= i,
        gathered(p, scopes, outs, i, env) is Env,
        gathered(p, scopes, outs, i, env)->Env_0.contains_key(key),
    ensures
        env.contains_key(key) || exists|k: int|
            i <= k < scopes.len() && k < outs.len() && (#[trigger] outs[k]).contains_key(key),
    decreases scopes.len() - i,
{
    if i < scopes.len() {
        secrets_are_scoped(p, scopes, outs, i + 1, overlaid(env, outs[i]), key);
        if !env.contains_key(key) && outs[i].contains_key(key) {
            assert(i <= i < scopes.len());
        }
    }
}

/// What a provider printed is read as its variables where it is an object of texts: each name has
/// its value, the last one where it is there twice; anything else is refused.
pub proof fn an_object_of_texts_is_an_environment(f: Seq<(Seq<char>, JsonV)>, i: int, t: JsonV)
    ensures
        !(t is Object) ==> env_in(t) is None,
        env_in(JsonV::Object(f)) is Some <==> forall|k: int|
            0 <= k < f.len() ==> (#[trigger] f[k]).1 is Str,
        env_in(JsonV::Object(f)) is Some && 0 <= i < f.len() && (forall|k: int|
            i < k < f.len() ==> (#[trigger] f[k]).0 != f[i].0) ==> env_in(
            JsonV::Object(f),
        )->0.contains_key(f[i].0) && JsonV::Str(env_in(JsonV::Object(f))->0[f[i].0]) == f[i].1,
    decreases f.len(),
{
    if f.len() > 0 {
        let init = f.drop_last();
        an_object_of_texts_is_an_environment(init, i, t);
        assert(f[f.len() - 1] == f.last());
        assert forall|k: int| 0 <= k < init.len() implies #[trigger] init[k] == f[k] by {}
        if env_in(JsonV::Object(f)) is Some {
            assert forall|k: int| 0 <= k < f.len() implies (#[trigger] f[k]).1 is Str by {
                if k < init.len() {
                    assert(init[k].1 is Str);
                }
            }
        }
        if forall|k: int| 0 <= k < f.len() ==> (#[trigger] f[k]).1 is Str {
            assert forall|k: int| 0 <= k < init.len() implies (#[trigger] init[k]).1 is Str by {
                assert(f[k].1 is Str);
            }
            assert(f[f.len() - 1].1 is Str);
        }
        if env_in(JsonV::Object(f)) is Some && 0 <= i < init.len() && (forall|k: int|
            i < k < f.len() ==> (#[trigger] f[k]).0 != f[i].0) {
            assert(f[f.len() - 1].0 != f[i].0);
            assert forall|k: int| i < k < init.len() implies (#[trigger] init[k]).0
                != init[i].0 by {
                assert(f[k].0 != f[i].0);
            }
        }
    }
}

/// A provider is found by its name, where no earlier one has it.
pub proof fn a_provider_is_found_by_its_name(p: Seq<SecretsProvider>, i: int, name: Seq<char>)
    ensures
        0 <= i < p.len() && provider_name(p[i]) == name && (forall|j: int|
            0 <= j < i ==> provider_name(#[trigger] p[j]) != name) ==> provider_at(p, name)
            == Some(i),
        (forall|j: int| 0 <= j < p.len() ==> provider_name(#[trigger] p[j]) != name)
            ==> provider_at(p, name) is None,
    decreases p.len(),
{
    if p.len() > 0 {
        let r = p.skip(1);
        a_provider_is_found_by_its_name(r, i - 1, name);
        if 0 < i < p.len() && (forall|j: int| 0 <= j < i ==> provider_name(#[trigger] p[j]) != name) {
            assert(provider_name(p[0]) != name);
            assert forall|j: int| 0 <= j < i - 1 implies provider_name(#[trigger] r[j]) != name by {
                assert(r[j] == p[j + 1]);
            }
            assert(r[i - 1] == p[i]);
        }
        if forall|j: int| 0 <= j < p.len() ==> provider_name(#[trigger] p[j]) != name {
            assert(provider_name(p[0]) != name);
            assert forall|j: int| 0 <= j < r.len() implies provider_name(#[trigger] r[j]) != name by {
                assert(r[j] == p[j + 1]);
            }
        }
    }
}

/// Once every provider of the scopes has answered, what they made is all there, the later ones over
/// the earlier; until then the next one is asked for.
pub proof fn every_scope_gets_its_secrets(
    p: Seq<SecretsProvider>,
    scopes: Seq<Seq<char>>,
    outs: Seq<Map<Seq<char>, Seq<char>>>,
    i: int,
    env: Map<Seq<char>, Seq<char>>,
    m: int,
    key: Seq<char>,
)
    requires
        0 <= i <= scopes.len(),
        i <= outs.len() <= scopes.len(),
        forall|k: int| i <= k < scopes.len() ==> provider_at(p, #[trigger] scopes[k]) is Some,
    ensures
        outs.len() < scopes.len() ==> gathered(p, scopes, outs, i, env) == GatheredV::Needs(
            provider_at(p, scopes[outs.len() as int])->0,
        ),
        outs.len() == scopes.len() ==> {
            let g = gathered(p, scopes, outs, i, env);
            &&& g is Env
            &&& i <= m < outs.len() && outs[m].contains_key(key) && (forall|k: int|
                m < k < outs.len() ==> !(#[trigger] outs[k]).contains_key(key))
                ==> g->Env_0.contains_key(key) && g->Env_0[key] == outs[m][key]
            &&& env.contains_key(key) && (forall|k: int|
                i <= k < outs.len() ==> !(#[trigger] outs[k]).contains_key(key))
                ==> g->Env_0.contains_key(key) && g->Env_0[key] == env[key]
        },
    decreases scopes.len() - i,
{
    if i < scopes.len() {
        assert(provider_at(p, scopes[i]) is Some);
        if i < outs.len() {
            let next = overlaid(env, outs[i]);
            every_scope_gets_its_secrets(p, scopes, outs, i + 1, next, m, key);
            if outs.len() == scopes.len() {
                if m == i && outs[m].contains_key(key) && (forall|k: int|
                    m < k < outs.len() ==> !(#[trigger] outs[k]).contains_key(key)) {
                    assert(next.contains_key(key) && next[key] == outs[m][key]);
                }
                if env.contains_key(key) && (forall|k: int|
                    i <= k < outs.len() ==> !(#[trigger] outs[k]).contains_key(key)) {
                    assert(!outs[i].contains_key(key));
                    assert(next.contains_key(key) && next[key] == env[key]);
                }
            }
        }
    }
}

} // verus!
