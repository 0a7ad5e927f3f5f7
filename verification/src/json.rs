//! JSON documents as plain trees.
//!
//! Reading and writing JSON and YAML text is left to `serde_json` and `serde_yaml`; what a
//! document means (which field is read, how two payloads fold together, what a missing
//! field defaults to) is decided on [`Json`] trees, in this crate.

use vstd::prelude::*;

use crate::text::{
    int_text, same_text, text_before, text_lt, text_lt_total, text_lt_transitive,
};

verus! {

// ── What is trusted of serde_json and serde_yaml ────────────────────────────────────────

/// A JSON number, as `serde_json` keeps it.
#[verifier::external_type_specification]
#[verifier::external_body]
pub struct ExNumber(serde_json::Number);

/// A JSON document, as `serde_json` keeps it.
#[verifier::external_type_specification]
#[verifier::external_body]
pub struct ExValue(serde_json::Value);

/// What `serde_json` reports of a text that is no JSON document.
#[verifier::external_type_specification]
#[verifier::external_body]
pub struct ExJsonError(serde_json::Error);

/// What `serde_yaml` reports of a text that is no YAML document.
#[verifier::external_type_specification]
#[verifier::external_body]
pub struct ExYamlError(serde_yaml::Error);

/// `serde_json::Number` derives `Clone`: a copy is the same number.
pub assume_specification[ <serde_json::Number as Clone>::clone ](
    n: &serde_json::Number,
) -> (r: serde_json::Number)
    ensures
        r == *n,
;

/// The text in which `serde_json` writes a number.
pub uninterp spec fn number_text(n: serde_json::Number) -> Seq<char>;

/// The value of a number that is an integer of 64 bits with a sign.
pub uninterp spec fn number_i64(n: serde_json::Number) -> Option<i64>;

/// The value of a number that is an integer of 64 bits without a sign.
pub uninterp spec fn number_u64(n: serde_json::Number) -> Option<u64>;

/// `serde_json::Number`'s `Display`. An integer is written in decimal; the digits that a
/// fraction is written with are not stated.
#[verifier::external_body]
pub(crate) fn write_number(n: &serde_json::Number) -> (r: String)
    ensures
        r@ == number_text(*n),
        number_i64(*n) is Some ==> r@ == int_text(number_i64(*n)->0 as int),
        number_u64(*n) is Some ==> r@ == int_text(number_u64(*n)->0 as int),
{
    n.to_string()
}

/// `serde_json::Number::as_i64`: the integer, where the number is one and fits.
#[verifier::external_body]
pub(crate) fn number_as_i64(n: &serde_json::Number) -> (r: Option<i64>)
    ensures
        r == number_i64(*n),
        r is Some && r->0 >= 0 ==> number_u64(*n) == Some(r->0 as u64),
{
    n.as_i64()
}

/// `serde_json::Number::as_u64`: the integer, where the number is one and is not negative.
#[verifier::external_body]
pub(crate) fn number_as_u64(n: &serde_json::Number) -> (r: Option<u64>)
    ensures
        r == number_u64(*n),
        r is Some && r->0 <= i64::MAX ==> number_i64(*n) == Some(r->0 as i64),
{
    n.as_u64()
}

/// `serde_json::Number::from` on an `i64`: the number with that value.
#[verifier::external_body]
pub(crate) fn number_from_i64(k: i64) -> (r: serde_json::Number)
    ensures
        number_i64(r) == Some(k),
        number_text(r) == int_text(k as int),
{
    serde_json::Number::from(k)
}

/// What `serde_json` reads in a text.
pub uninterp spec fn json_read(text: Seq<char>) -> Result<serde_json::Value, serde_json::Error>;

/// `serde_json::from_str` into its own document type.
#[verifier::external_body]
pub(crate) fn read_json(text: &str) -> (r: Result<serde_json::Value, serde_json::Error>)
    ensures
        r == json_read(text@),
{
    serde_json::from_str(text)
}

/// What `serde_yaml` reads in a text, as a JSON document.
pub uninterp spec fn yaml_read(text: Seq<char>) -> Result<serde_json::Value, serde_yaml::Error>;

/// `serde_yaml::from_str` into a JSON document.
#[verifier::external_body]
pub(crate) fn read_yaml(text: &str) -> (r: Result<serde_json::Value, serde_yaml::Error>)
    ensures
        r == yaml_read(text@),
{
    serde_yaml::from_str(text)
}

/// The message of a JSON error.
pub uninterp spec fn json_error_text(e: serde_json::Error) -> Seq<char>;

/// `serde_json::Error`'s `Display`.
#[verifier::external_body]
pub(crate) fn write_json_error(e: &serde_json::Error) -> (r: String)
    ensures
        r@ == json_error_text(*e),
{
    e.to_string()
}

/// The message of a YAML error.
pub uninterp spec fn yaml_error_text(e: serde_yaml::Error) -> Seq<char>;

/// `serde_yaml::Error`'s `Display`.
#[verifier::external_body]
pub(crate) fn write_yaml_error(e: &serde_yaml::Error) -> (r: String)
    ensures
        r@ == yaml_error_text(*e),
{
    e.to_string()
}

/// What a `serde_json` document holds.
pub uninterp spec fn value_tree(v: serde_json::Value) -> JsonV;

/// A `serde_json::Value` as a tree: each variant becomes the variant of the same meaning,
/// and an object the list of its fields in the order in which its map is walked.
#[verifier::external_body]
pub(crate) fn tree_of(v: serde_json::Value) -> (r: Json)
    ensures
        r@ == value_tree(v),
{
    match v {
        serde_json::Value::Null => Json::Null,
        serde_json::Value::Bool(b) => Json::Bool(b),
        serde_json::Value::Number(n) => Json::Number(n),
        serde_json::Value::String(s) => Json::Str(s),
        serde_json::Value::Array(a) => Json::Array(a.into_iter().map(tree_of).collect()),
        serde_json::Value::Object(m) => {
            Json::Object(m.into_iter().map(|(k, x)| (k, tree_of(x))).collect())
        },
    }
}

/// The `serde_json` document with the contents of a tree.
pub uninterp spec fn tree_value(t: JsonV) -> serde_json::Value;

/// A tree as a `serde_json::Value`: each variant becomes the variant of the same meaning.
/// Where a field occurs twice, `serde_json::Map` keeps the last, and it walks its fields in the
/// order of their names; so a plain tree comes back as it was.
#[verifier::external_body]
pub(crate) fn value_of(j: &Json) -> (r: serde_json::Value)
    ensures
        r == tree_value(j@),
        plain(j@, MAX_NESTING as nat) ==> value_tree(r) == j@,
{
    match j {
        Json::Null => serde_json::Value::Null,
        Json::Bool(b) => serde_json::Value::Bool(*b),
        Json::Number(n) => serde_json::Value::Number(n.clone()),
        Json::Str(s) => serde_json::Value::String(s.clone()),
        Json::Array(a) => serde_json::Value::Array(a.iter().map(value_of).collect()),
        Json::Object(m) => {
            serde_json::Value::Object(m.iter().map(|(k, x)| (k.clone(), value_of(x))).collect())
        },
    }
}

/// The text in which `serde_json` writes a document, without white space.
pub uninterp spec fn value_text(v: serde_json::Value) -> Seq<char>;

/// `serde_json::Value`'s `Display`. What it writes of a plain document, `serde_json::from_str`
/// reads back: with neither `raw_value` nor `arbitrary_precision` among the features that it is
/// built with, the reader gives no field name a meaning of its own. Of fractions, and of
/// documents that are nested more deeply than the reader goes, that is not stated.
#[verifier::external_body]
pub(crate) fn write_value(v: &serde_json::Value) -> (r: String)
    ensures
        r@ == value_text(*v),
        plain(value_tree(*v), MAX_NESTING as nat) ==> json_read(r@) is Ok && json_read(r@)->Ok_0
            == *v,
{
    v.to_string()
}

// ── Trees ───────────────────────────────────────────────────────────────────────────────

/// A JSON document.
#[derive(Debug, PartialEq)]
pub enum Json {
    Null,
    Bool(bool),
    Number(serde_json::Number),
    Str(String),
    Array(Vec<Json>),
    Object(Vec<(String, Json)>),
}

/// What a [`Json`] holds.
pub enum JsonV {
    Null,
    Bool(bool),
    Number(serde_json::Number),
    Str(Seq<char>),
    Array(Seq<JsonV>),
    Object(Seq<(Seq<char>, JsonV)>),
}

/// How deeply a plain document is nested at most.
pub const MAX_NESTING: u32 = 100;

/// Fields that stand in the order of their names, each once.
pub open spec fn in_name_order(f: Seq<(Seq<char>, JsonV)>) -> bool {
    forall|i: int, j: int|
        0 <= i < j < f.len() ==> text_lt((#[trigger] f[i]).0, (#[trigger] f[j]).0)
}

/// A document that survives being written and read: its numbers are integers, the fields of
/// its objects stand in the order of their names, each once, and it is not nested too deeply.
pub open spec fn plain(t: JsonV, depth: nat) -> bool
    decreases depth,
{
    match t {
        JsonV::Null => true,
        JsonV::Bool(_) => true,
        JsonV::Str(_) => true,
        JsonV::Number(n) => number_i64(n) is Some || number_u64(n) is Some,
        JsonV::Array(v) => depth > 0 && forall|i: int|
            0 <= i < v.len() ==> plain(#[trigger] v[i], (depth - 1) as nat),
        JsonV::Object(f) => depth > 0 && (forall|i: int|
            0 <= i < f.len() ==> plain((#[trigger] f[i]).1, (depth - 1) as nat)) && in_name_order(f),
    }
}

/// A document that is plain within some nesting is plain within more.
pub proof fn plain_within_more(t: JsonV, depth: nat, more: nat)
    requires
        plain(t, depth),
        depth <= more,
    ensures
        plain(t, more),
    decreases depth,
{
    match t {
        JsonV::Array(v) => {
            assert forall|i: int| 0 <= i < v.len() implies plain(
                #[trigger] v[i],
                (more - 1) as nat,
            ) by {
                plain_within_more(v[i], (depth - 1) as nat, (more - 1) as nat);
            }
        },
        JsonV::Object(f) => {
            assert forall|i: int| 0 <= i < f.len() implies plain(
                (#[trigger] f[i]).1,
                (more - 1) as nat,
            ) by {
                plain_within_more(f[i].1, (depth - 1) as nat, (more - 1) as nat);
            }
        },
        _ => {},
    }
}

/// Two documents that say the same: of one shape, with the same texts, and with numbers that are
/// written alike.
pub open spec fn alike(a: JsonV, b: JsonV) -> bool
    decreases a,
{
    match (a, b) {
        (JsonV::Null, JsonV::Null) => true,
        (JsonV::Bool(x), JsonV::Bool(y)) => x == y,
        (JsonV::Number(x), JsonV::Number(y)) => number_text(x) == number_text(y),
        (JsonV::Str(x), JsonV::Str(y)) => x == y,
        (JsonV::Array(v), JsonV::Array(w)) => v.len() == w.len() && forall|i: int|
            0 <= i < v.len() ==> alike(#[trigger] v[i], w[i]),
        (JsonV::Object(f), JsonV::Object(g)) => f.len() == g.len() && forall|i: int|
            0 <= i < f.len() ==> (#[trigger] f[i]).0 == g[i].0 && alike(f[i].1, g[i].1),
        _ => false,
    }
}

/// A document says the same as itself.
pub proof fn alike_itself(a: JsonV)
    ensures
        alike(a, a),
    decreases a,
{
    match a {
        JsonV::Array(v) => {
            assert forall|i: int| 0 <= i < v.len() implies alike(#[trigger] v[i], v[i]) by {
                alike_itself(v[i]);
            }
        },
        JsonV::Object(f) => {
            assert forall|i: int| 0 <= i < f.len() implies alike((#[trigger] f[i]).1, f[i].1) by {
                assert(decreases_to!(f => f[i]));
                assert(decreases_to!(f[i] => f[i].1));
                alike_itself(f[i].1);
            }
        },
        _ => {},
    }
}

/// The text of a tree, without white space.
pub open spec fn json_text(t: JsonV) -> Seq<char> {
    value_text(tree_value(t))
}

/// The value of the first field named `key`.
pub open spec fn find_field(fields: Seq<(Seq<char>, JsonV)>, key: Seq<char>) -> Option<JsonV>
    decreases fields.len(),
{
    if fields.len() == 0 {
        None
    } else if fields[0].0 == key {
        Some(fields[0].1)
    } else {
        find_field(fields.skip(1), key)
    }
}

/// The fields of an object; a document of another kind has none.
pub open spec fn fields_of(t: JsonV) -> Seq<(Seq<char>, JsonV)> {
    match t {
        JsonV::Object(f) => f,
        _ => Seq::empty(),
    }
}

/// The value of a document's field.
pub open spec fn field(t: JsonV, key: Seq<char>) -> Option<JsonV> {
    find_field(fields_of(t), key)
}

/// The text of a document that is one.
pub open spec fn text_in(t: Option<JsonV>) -> Option<Seq<char>> {
    match t {
        Some(JsonV::Str(s)) => Some(s),
        _ => None,
    }
}

/// The text of a document's field, where it is one.
pub open spec fn text_field(t: JsonV, key: Seq<char>) -> Option<Seq<char>> {
    text_in(field(t, key))
}

/// The fields with `key` set to `value`: in its place where the field was there, else before
/// the first field with a later name.
pub open spec fn with_field(
    fields: Seq<(Seq<char>, JsonV)>,
    key: Seq<char>,
    value: JsonV,
) -> Seq<(Seq<char>, JsonV)>
    decreases fields.len(),
{
    if fields.len() == 0 {
        seq![(key, value)]
    } else if fields[0].0 == key {
        seq![(key, value)] + fields.skip(1)
    } else if text_lt(key, fields[0].0) {
        seq![(key, value)] + fields
    } else {
        seq![fields[0]] + with_field(fields.skip(1), key, value)
    }
}

/// Setting a field keeps the fields in the order of their names, and adds nothing else.
pub proof fn with_field_keeps_order(
    fields: Seq<(Seq<char>, JsonV)>,
    key: Seq<char>,
    value: JsonV,
)
    requires
        in_name_order(fields),
    ensures
        in_name_order(with_field(fields, key, value)),
        forall|i: int|
            0 <= i < with_field(fields, key, value).len() ==> #[trigger] with_field(
                fields,
                key,
                value,
            )[i] == (key, value) || fields.contains(with_field(fields, key, value)[i]),
    decreases fields.len(),
{
    let w = with_field(fields, key, value);
    if fields.len() == 0 {
    } else if fields[0].0 == key {
        assert forall|i: int| 0 < i < w.len() implies fields.contains(#[trigger] w[i]) by {
            assert(w[i] == fields[i]);
        }
        assert forall|i: int, j: int| 0 <= i < j < w.len() implies text_lt(
            (#[trigger] w[i]).0,
            (#[trigger] w[j]).0,
        ) by {
            assert(w[i].0 == fields[i].0 && w[j].0 == fields[j].0);
        }
    } else if text_lt(key, fields[0].0) {
        assert forall|i: int| 0 < i < w.len() implies fields.contains(#[trigger] w[i]) by {
            assert(w[i] == fields[i - 1]);
        }
        assert forall|i: int, j: int| 0 <= i < j < w.len() implies text_lt(
            (#[trigger] w[i]).0,
            (#[trigger] w[j]).0,
        ) by {
            assert(w[j] == fields[j - 1]);
            if i == 0 {
                if j > 1 {
                    text_lt_transitive(key, fields[0].0, fields[j - 1].0);
                }
            } else {
                assert(w[i] == fields[i - 1]);
            }
        }
    } else {
        let rest = fields.skip(1);
        let v = with_field(rest, key, value);
        assert forall|i: int, j: int| 0 <= i < j < rest.len() implies text_lt(
            (#[trigger] rest[i]).0,
            (#[trigger] rest[j]).0,
        ) by {
            assert(rest[i] == fields[i + 1] && rest[j] == fields[j + 1]);
        }
        with_field_keeps_order(rest, key, value);
        text_lt_total(key, fields[0].0);
        assert forall|j: int| 0 <= j < v.len() implies text_lt(fields[0].0, (#[trigger] v[j]).0)
            && (v[j] == (key, value) || fields.contains(v[j])) by {
            if v[j] != (key, value) {
                assert(rest.contains(v[j]));
                let k = choose|k: int| 0 <= k < rest.len() && rest[k] == v[j];
                assert(fields[k + 1] == v[j]);
            }
        }
        assert forall|i: int| 0 <= i < w.len() implies #[trigger] w[i] == (key, value)
            || fields.contains(w[i]) by {
            if i == 0 {
                assert(w[0] == fields[0]);
            } else {
                assert(w[i] == v[i - 1]);
            }
        }
        assert forall|i: int, j: int| 0 <= i < j < w.len() implies text_lt(
            (#[trigger] w[i]).0,
            (#[trigger] w[j]).0,
        ) by {
            assert(w[j] == v[j - 1]);
            if i > 0 {
                assert(w[i] == v[i - 1]);
            }
        }
    }
}

/// A field that was set reads back as it was set, and no other field is touched.
pub proof fn with_field_reads_back(
    fields: Seq<(Seq<char>, JsonV)>,
    key: Seq<char>,
    value: JsonV,
    other: Seq<char>,
)
    ensures
        find_field(with_field(fields, key, value), key) == Some(value),
        other != key ==> find_field(with_field(fields, key, value), other) == find_field(
            fields,
            other,
        ),
    decreases fields.len(),
{
    reveal_with_fuel(find_field, 2);
    let w = with_field(fields, key, value);
    if fields.len() == 0 {
        assert(w.skip(1) =~= Seq::empty());
    } else if fields[0].0 == key {
        assert(w.skip(1) =~= fields.skip(1));
    } else if text_lt(key, fields[0].0) {
        assert(w.skip(1) =~= fields);
    } else {
        with_field_reads_back(fields.skip(1), key, value, other);
        assert(w.skip(1) =~= with_field(fields.skip(1), key, value));
    }
}

/// A list of texts as a document.
pub open spec fn texts_tree(v: Seq<Seq<char>>) -> JsonV {
    JsonV::Array(v.map_values(|s: Seq<char>| JsonV::Str(s)))
}

/// What a list of fields holds.
pub open spec fn fields_view(v: Seq<(String, Json)>) -> Seq<(Seq<char>, JsonV)> {
    Seq::new(v.len(), |i: int| (v[i].0@, v[i].1@))
}

impl Json {
    /// What the tree holds.
    pub open spec fn view(&self) -> JsonV
        decreases self,
    {
        match self {
            Json::Null => JsonV::Null,
            Json::Bool(b) => JsonV::Bool(*b),
            Json::Number(n) => JsonV::Number(*n),
            Json::Str(s) => JsonV::Str(s@),
            Json::Array(v) => JsonV::Array(
                Seq::new(
                    v@.len(),
                    |i: int|
                        if 0 <= i < v@.len() {
                            v@[i].view()
                        } else {
                            JsonV::Null
                        },
                ),
            ),
            Json::Object(v) => JsonV::Object(
                Seq::new(
                    v@.len(),
                    |i: int|
                        if 0 <= i < v@.len() {
                            (v@[i].0@, v@[i].1.view())
                        } else {
                            (Seq::empty(), JsonV::Null)
                        },
                ),
            ),
        }
    }

    /// The document in a JSON text, or what is wrong with the text.
    pub fn parse(text: &str) -> (r: Result<Json, String>)
        ensures
            match json_read(text@) {
                Ok(v) => r is Ok && r->Ok_0@ == value_tree(v),
                Err(e) => r is Err && r->Err_0@ == json_error_text(e),
            },
    {
        match read_json(text) {
            Ok(v) => Ok(tree_of(v)),
            Err(e) => Err(write_json_error(&e)),
        }
    }

    /// The document in a YAML text, or what is wrong with the text.
    pub fn parse_yaml(text: &str) -> (r: Result<Json, String>)
        ensures
            match yaml_read(text@) {
                Ok(v) => r is Ok && r->Ok_0@ == value_tree(v),
                Err(e) => r is Err && r->Err_0@ == yaml_error_text(e),
            },
    {
        match read_yaml(text) {
            Ok(v) => Ok(tree_of(v)),
            Err(e) => Err(write_yaml_error(&e)),
        }
    }

    /// The document as JSON text, without white space. A plain document can be read back from it.
    pub fn to_text(&self) -> (r: String)
        ensures
            r@ == json_text(self@),
            plain(self@, MAX_NESTING as nat) ==> json_read(r@) is Ok && value_tree(
                json_read(r@)->Ok_0,
            ) == self@,
    {
        let v = value_of(self);
        write_value(&v)
    }

    /// Whether two documents say the same.
    pub fn same(&self, other: &Json) -> (r: bool)
        ensures
            r == alike(self@, other@),
        decreases self,
    {
        match (self, other) {
            (Json::Null, Json::Null) => true,
            (Json::Bool(x), Json::Bool(y)) => *x == *y,
            (Json::Number(x), Json::Number(y)) => same_text(
                write_number(x).as_str(),
                write_number(y).as_str(),
            ),
            (Json::Str(x), Json::Str(y)) => same_text(x.as_str(), y.as_str()),
            (Json::Array(v), Json::Array(w)) => {
                if v.len() != w.len() {
                    return false;
                }
                let mut i: usize = 0;
                while i < v.len()
                    invariant
                        i <= v@.len(),
                        v@.len() == w@.len(),
                        self == Json::Array(*v),
                        other == Json::Array(*w),
                        forall|j: int|
                            0 <= j < i ==> alike(
                                #[trigger] self@->Array_0[j],
                                other@->Array_0[j],
                            ),
                    decreases v@.len() - i,
                {
                    assert(decreases_to!(self => self->Array_0));
                    assert(decreases_to!(v => v@));
                    assert(decreases_to!(v@ => v@[i as int]));
                    assert(self@->Array_0[i as int] == v@[i as int]@);
                    assert(other@->Array_0[i as int] == w@[i as int]@);
                    if !v[i].same(&w[i]) {
                        return false;
                    }
                    i += 1;
                }
                true
            },
            (Json::Object(v), Json::Object(w)) => {
                if v.len() != w.len() {
                    return false;
                }
                let mut i: usize = 0;
                while i < v.len()
                    invariant
                        i <= v@.len(),
                        v@.len() == w@.len(),
                        self == Json::Object(*v),
                        other == Json::Object(*w),
                        forall|j: int|
                            0 <= j < i ==> (#[trigger] self@->Object_0[j]).0
                                == other@->Object_0[j].0 && alike(
                                self@->Object_0[j].1,
                                other@->Object_0[j].1,
                            ),
                    decreases v@.len() - i,
                {
                    assert(decreases_to!(self => self->Object_0));
                    assert(decreases_to!(v => v@));
                    assert(decreases_to!(v@ => v@[i as int]));
                    assert(decreases_to!(v@[i as int] => v@[i as int].1));
                    assert(self@->Object_0[i as int] == (v@[i as int].0@, v@[i as int].1@));
                    assert(other@->Object_0[i as int] == (w@[i as int].0@, w@[i as int].1@));
                    if !same_text(v[i].0.as_str(), w[i].0.as_str()) || !v[i].1.same(&w[i].1) {
                        return false;
                    }
                    i += 1;
                }
                true
            },
            _ => false,
        }
    }

    /// A document that is one text.
    pub fn text(s: String) -> (r: Json)
        ensures
            r@ == JsonV::Str(s@),
    {
        Json::Str(s)
    }

    /// A document that is one integer.
    pub fn integer(k: i64) -> (r: Json)
        ensures
            r@ is Number,
            number_i64(r@->Number_0) == Some(k),
            number_text(r@->Number_0) == int_text(k as int),
    {
        Json::Number(number_from_i64(k))
    }

    /// A list of texts.
    pub fn texts(v: &Vec<String>) -> (r: Json)
        ensures
            r@ == texts_tree(v.deep_view()),
    {
        let mut out: Vec<Json> = Vec::new();
        let mut i: usize = 0;
        while i < v.len()
            invariant
                i <= v@.len(),
                out@.len() == i,
                forall|j: int| 0 <= j < i ==> (#[trigger] out@[j])@ == JsonV::Str(v@[j]@),
            decreases v@.len() - i,
        {
            out.push(Json::Str(v[i].clone()));
            i += 1;
        }
        let r = Json::Array(out);
        assert(r@->Array_0 =~= texts_tree(v.deep_view())->Array_0);
        r
    }

    /// The object with these fields.
    pub fn object(fields: Vec<(String, Json)>) -> (r: Json)
        ensures
            r@ == JsonV::Object(fields_view(fields@)),
    {
        let r = Json::Object(fields);
        assert(r@->Object_0 =~= fields_view(fields@));
        r
    }

    /// The value of the field `key`; a document that is no object has none.
    pub fn get(&self, key: &str) -> (r: Option<&Json>)
        ensures
            match r {
                Some(j) => field(self@, key@) == Some(j@),
                None => field(self@, key@) is None,
            },
    {
        match self {
            Json::Object(v) => {
                let ghost all = self@->Object_0;
                let mut i: usize = 0;
                assert(all.skip(0) =~= all);
                while i < v.len()
                    invariant
                        i <= v@.len(),
                        self@ == JsonV::Object(all),
                        all.len() == v@.len(),
                        forall|j: int|
                            0 <= j < v@.len() ==> #[trigger] all[j] == (v@[j].0@, v@[j].1@),
                        find_field(all, key@) == find_field(all.skip(i as int), key@),
                    decreases v@.len() - i,
                {
                    assert(all.skip(i as int)[0] == all[i as int]);
                    assert(all.skip(i as int).skip(1) =~= all.skip(i + 1));
                    if same_text(v[i].0.as_str(), key) {
                        return Some(&v[i].1);
                    }
                    i += 1;
                }
                None
            },
            _ => None,
        }
    }

    /// The text, where the document is one.
    pub fn as_str(&self) -> (r: Option<&String>)
        ensures
            match r {
                Some(s) => self@ == JsonV::Str(s@),
                None => !(self@ is Str),
            },
    {
        match self {
            Json::Str(s) => Some(s),
            _ => None,
        }
    }

    /// The text of the field `key`, where there is one and it is a text.
    pub fn get_str(&self, key: &str) -> (r: Option<&String>)
        ensures
            match r {
                Some(s) => text_field(self@, key@) == Some(s@),
                None => text_field(self@, key@) is None,
            },
    {
        match self.get(key) {
            Some(j) => j.as_str(),
            None => None,
        }
    }

    /// The items of a list, where the document is one.
    pub fn as_array(&self) -> (r: Option<&Vec<Json>>)
        ensures
            match r {
                Some(v) => self@ is Array && self@->Array_0.len() == v@.len() && (forall|i: int|
                    0 <= i < v@.len() ==> #[trigger] self@->Array_0[i] == v@[i]@),
                None => !(self@ is Array),
            },
    {
        match self {
            Json::Array(v) => Some(v),
            _ => None,
        }
    }
}

/// Sets the field `key`: in its place where it was there, else before the first field with a
/// later name.
pub fn set_field(fields: &mut Vec<(String, Json)>, key: &str, value: Json)
    ensures
        fields_view(final(fields)@) == with_field(fields_view(old(fields)@), key@, value@),
{
    let ghost all = fields_view(fields@);
    let mut i: usize = 0;
    assert(all.skip(0) =~= all);
    assert(all.take(0) + with_field(all, key@, value@) =~= with_field(all, key@, value@));
    while i < fields.len()
        invariant
            i <= fields@.len(),
            all == fields_view(fields@),
            fields@ == old(fields)@,
            with_field(all, key@, value@) == all.take(i as int) + with_field(
                all.skip(i as int),
                key@,
                value@,
            ),
        decreases fields@.len() - i,
    {
        assert(all.skip(i as int)[0] == all[i as int]);
        assert(all.skip(i as int).skip(1) =~= all.skip(i + 1));
        if same_text(fields[i].0.as_str(), key) {
            let k = fields[i].0.clone();
            fields.set(i, (k, value));
            assert(fields_view(fields@) =~= all.take(i as int) + (seq![(key@, value@)]
                + all.skip(i + 1)));
            return ;
        }
        if text_before(key, fields[i].0.as_str()) {
            fields.insert(i, (crate::text::owned(key), value));
            assert(fields_view(fields@) =~= all.take(i as int) + (seq![(key@, value@)]
                + all.skip(i as int)));
            return ;
        }
        assert(all.take(i as int) + (seq![all[i as int]] + with_field(
            all.skip(i + 1),
            key@,
            value@,
        )) =~= all.take(i + 1) + with_field(all.skip(i + 1), key@, value@));
        i += 1;
    }
    fields.push((crate::text::owned(key), value));
    assert(fields_view(fields@) =~= all.take(i as int) + seq![(key@, value@)]);
}

impl Clone for Json {
    fn clone(&self) -> (r: Json)
        ensures
            r@ == self@,
        decreases self,
    {
        match self {
            Json::Null => Json::Null,
            Json::Bool(b) => Json::Bool(*b),
            Json::Number(n) => Json::Number(n.clone()),
            Json::Str(s) => Json::Str(s.clone()),
            Json::Array(v) => {
                let mut out: Vec<Json> = Vec::new();
                let mut i: usize = 0;
                while i < v.len()
                    invariant
                        i <= v@.len(),
                        out@.len() == i,
                        self == Json::Array(*v),
                        forall|j: int| 0 <= j < i ==> (#[trigger] out@[j])@ == v@[j]@,
                    decreases v@.len() - i,
                {
                    assert(decreases_to!(self => self->Array_0));
                    assert(decreases_to!(v => v@));
                    assert(decreases_to!(v@ => v@[i as int]));
                    out.push(v[i].clone());
                    i += 1;
                }
                let r = Json::Array(out);
                assert(r@->Array_0 =~= self@->Array_0);
                r
            },
            Json::Object(v) => {
                let mut out: Vec<(String, Json)> = Vec::new();
                let mut i: usize = 0;
                while i < v.len()
                    invariant
                        i <= v@.len(),
                        out@.len() == i,
                        self == Json::Object(*v),
                        forall|j: int|
                            0 <= j < i ==> (#[trigger] out@[j]).0@ == v@[j].0@ && out@[j].1@
                                == v@[j].1@,
                    decreases v@.len() - i,
                {
                    assert(decreases_to!(self => self->Object_0));
                    assert(decreases_to!(v => v@));
                    assert(decreases_to!(v@ => v@[i as int]));
                    assert(decreases_to!(v@[i as int] => v@[i as int].1));
                    out.push((v[i].0.clone(), v[i].1.clone()));
                    i += 1;
                }
                let r = Json::Object(out);
                assert(r@->Object_0 =~= self@->Object_0);
                r
            },
        }
    }
}

/// A field is found under its name, where no earlier one has it; a name that no field has finds
/// nothing; and what is no object has no fields.
pub proof fn a_field_is_found_by_its_name(f: Seq<(Seq<char>, JsonV)>, i: int, key: Seq<char>)
    ensures
        0 <= i < f.len() && f[i].0 == key && (forall|j: int|
            0 <= j < i ==> (#[trigger] f[j]).0 != key) ==> field(JsonV::Object(f), key) == Some(
            f[i].1,
        ),
        (forall|j: int| 0 <= j < f.len() ==> (#[trigger] f[j]).0 != key) ==> field(
            JsonV::Object(f),
            key,
        ) is None,
    decreases f.len(),
{
    if f.len() > 0 {
        let r = f.skip(1);
        a_field_is_found_by_its_name(r, i - 1, key);
        if 0 < i < f.len() && (forall|j: int| 0 <= j < i ==> (#[trigger] f[j]).0 != key) {
            assert(f[0].0 != key);
            assert forall|j: int| 0 <= j < i - 1 implies (#[trigger] r[j]).0 != key by {
                assert(r[j] == f[j + 1]);
            }
            assert(r[i - 1] == f[i]);
        }
        if forall|j: int| 0 <= j < f.len() ==> (#[trigger] f[j]).0 != key {
            assert(f[0].0 != key);
            assert forall|j: int| 0 <= j < r.len() implies (#[trigger] r[j]).0 != key by {
                assert(r[j] == f[j + 1]);
            }
        }
    }
}

/// What is no object has no field, and a field is a text where it holds one.
pub proof fn only_objects_have_fields(t: JsonV, key: Seq<char>, s: Seq<char>)
    ensures
        !(t is Object) ==> field(t, key) is None,
        text_field(t, key) == Some(s) <==> field(t, key) == Some(JsonV::Str(s)),
{
}

} // verus!
