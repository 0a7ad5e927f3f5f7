//! Reading the fields of a document into typed values.
//!
//! A field is required, optional (absent or null is nothing) or has a default that stands
//! in where it is absent. `loose` is for YAML, where a scalar that is asked for as a text
//! is taken by its spelling: a number or a flag is a text there.

use vstd::prelude::*;

use crate::json::{
    field, json_error_text, json_read, number_as_i64, number_as_u64, number_i64, number_text,
    number_u64, value_tree, write_number, yaml_error_text, yaml_read, Json, JsonV,
};
use crate::model::stimulus::TrustTier;
use crate::state::{state_from_tag, state_of_tag, ConsciousnessState};
use crate::strmap::StrMap;
use crate::text::owned;

verus! {

/// The text of a scalar.
pub open spec fn scalar(t: JsonV, loose: bool) -> Option<Seq<char>> {
    match t {
        JsonV::Str(s) => Some(s),
        JsonV::Number(n) => if loose {
            Some(number_text(n))
        } else {
            None
        },
        JsonV::Bool(b) => if !loose {
            None
        } else if b {
            Some("true"@)
        } else {
            Some("false"@)
        },
        _ => None,
    }
}

/// The text of a required field.
pub open spec fn text_at(t: JsonV, key: Seq<char>, loose: bool) -> Option<Seq<char>> {
    match field(t, key) {
        Some(x) => scalar(x, loose),
        None => None,
    }
}

/// The text of an optional field.
pub open spec fn opt_text_at(t: JsonV, key: Seq<char>, loose: bool) -> Option<Option<Seq<char>>> {
    match field(t, key) {
        None => Some(None),
        Some(JsonV::Null) => Some(None),
        Some(x) => match scalar(x, loose) {
            Some(s) => Some(Some(s)),
            None => None,
        },
    }
}

/// The text of a field with a default.
pub open spec fn text_or_at(
    t: JsonV,
    key: Seq<char>,
    default: Seq<char>,
    loose: bool,
) -> Option<Seq<char>> {
    match field(t, key) {
        None => Some(default),
        Some(x) => scalar(x, loose),
    }
}

/// The texts of a list.
pub open spec fn scalars(items: Seq<JsonV>, loose: bool) -> Option<Seq<Seq<char>>>
    decreases items.len(),
{
    if items.len() == 0 {
        Some(Seq::empty())
    } else {
        match (scalars(items.drop_last(), loose), scalar(items.last(), loose)) {
            (Some(rest), Some(s)) => Some(rest.push(s)),
            _ => None,
        }
    }
}

/// The texts of a document that is a list of them. Where the reading is loose, nothing at all
/// is an empty list.
pub open spec fn texts_of(t: JsonV, loose: bool) -> Option<Seq<Seq<char>>> {
    match t {
        JsonV::Array(items) => scalars(items, loose),
        JsonV::Null => if loose {
            Some(Seq::empty())
        } else {
            None
        },
        _ => None,
    }
}

/// The texts of a field with a default.
pub open spec fn texts_or_at(
    t: JsonV,
    key: Seq<char>,
    default: Seq<Seq<char>>,
    loose: bool,
) -> Option<Seq<Seq<char>>> {
    match field(t, key) {
        None => Some(default),
        Some(x) => texts_of(x, loose),
    }
}

/// A flag with a default.
pub open spec fn bool_or_at(t: JsonV, key: Seq<char>, default: bool) -> Option<bool> {
    match field(t, key) {
        None => Some(default),
        Some(JsonV::Bool(b)) => Some(b),
        _ => None,
    }
}

/// A natural number of a field with a default.
pub open spec fn u64_or_at(t: JsonV, key: Seq<char>, default: u64) -> Option<u64> {
    match field(t, key) {
        None => Some(default),
        Some(JsonV::Number(n)) => number_u64(n),
        _ => None,
    }
}

/// A natural number of an optional field.
pub open spec fn opt_u64_at(t: JsonV, key: Seq<char>) -> Option<Option<u64>> {
    match field(t, key) {
        None => Some(None),
        Some(JsonV::Null) => Some(None),
        Some(JsonV::Number(n)) => match number_u64(n) {
            Some(k) => Some(Some(k)),
            None => None,
        },
        _ => None,
    }
}

/// A whole number of a field with a default.
pub open spec fn i64_or_at(t: JsonV, key: Seq<char>, default: i64) -> Option<i64> {
    match field(t, key) {
        None => Some(default),
        Some(JsonV::Number(n)) => number_i64(n),
        _ => None,
    }
}

/// A count of a field with a default.
pub open spec fn usize_or_at(t: JsonV, key: Seq<char>, default: usize) -> Option<usize> {
    match u64_or_at(t, key, default as u64) {
        Some(n) => if n <= usize::MAX {
            Some(n as usize)
        } else {
            None
        },
        None => None,
    }
}

// ── What is wrong with a field ──────────────────────────────────────────────────────────

/// The message about a field that does not hold what it must.
pub open spec fn misfit(key: Seq<char>, want: Seq<char>) -> Seq<char> {
    "field `"@ + key + "`: expected "@ + want
}

/// A message about a field, with the field's name in front.
pub open spec fn within(key: Seq<char>, e: Seq<char>) -> Seq<char> {
    "field `"@ + key + "`: "@ + e
}

/// The message about a required field that is not there.
pub open spec fn missing_text(key: Seq<char>) -> Seq<char> {
    "missing field `"@ + key + "`"@
}

/// The first fault of two.
pub open spec fn or_fault(a: Option<Seq<char>>, b: Option<Seq<char>>) -> Option<Seq<char>> {
    match a {
        Some(e) => Some(e),
        None => b,
    }
}

/// A fault, unless the field fits.
pub open spec fn fault_unless(fits: bool, e: Seq<char>) -> Option<Seq<char>> {
    if fits {
        None
    } else {
        Some(e)
    }
}

/// A required field is there.
pub open spec fn presence_fault(t: JsonV, key: Seq<char>) -> Option<Seq<char>> {
    fault_unless(field(t, key) is Some, missing_text(key))
}

/// What is wrong with a required text.
pub open spec fn text_fault(t: JsonV, key: Seq<char>, loose: bool) -> Option<Seq<char>> {
    or_fault(
        presence_fault(t, key),
        fault_unless(text_at(t, key, loose) is Some, misfit(key, "a string"@)),
    )
}

/// What is wrong with an optional text.
pub open spec fn opt_text_fault(t: JsonV, key: Seq<char>, loose: bool) -> Option<Seq<char>> {
    fault_unless(opt_text_at(t, key, loose) is Some, misfit(key, "a string"@))
}

/// What is wrong with a text that has a default.
pub open spec fn text_or_fault(t: JsonV, key: Seq<char>, loose: bool) -> Option<Seq<char>> {
    fault_unless(
        field(t, key) is None || text_at(t, key, loose) is Some,
        misfit(key, "a string"@),
    )
}

/// What is wrong with a list of texts.
pub open spec fn texts_fault(t: JsonV, key: Seq<char>, loose: bool) -> Option<Seq<char>> {
    fault_unless(
        texts_or_at(t, key, Seq::empty(), loose) is Some,
        misfit(key, "a list of strings"@),
    )
}

/// What is wrong with a flag.
pub open spec fn bool_fault(t: JsonV, key: Seq<char>) -> Option<Seq<char>> {
    fault_unless(bool_or_at(t, key, false) is Some, misfit(key, "true or false"@))
}

/// What is wrong with a natural number.
pub open spec fn u64_fault(t: JsonV, key: Seq<char>) -> Option<Seq<char>> {
    fault_unless(u64_or_at(t, key, 0) is Some, misfit(key, "a natural number"@))
}

/// What is wrong with an optional natural number.
pub open spec fn opt_u64_fault(t: JsonV, key: Seq<char>) -> Option<Seq<char>> {
    fault_unless(opt_u64_at(t, key) is Some, misfit(key, "a natural number"@))
}

/// What is wrong with a count.
pub open spec fn usize_fault(t: JsonV, key: Seq<char>) -> Option<Seq<char>> {
    or_fault(
        u64_fault(t, key),
        fault_unless(usize_or_at(t, key, 0) is Some, misfit(key, "a smaller number"@)),
    )
}

/// What is wrong with a whole number.
pub open spec fn i64_fault(t: JsonV, key: Seq<char>) -> Option<Seq<char>> {
    fault_unless(i64_or_at(t, key, 0) is Some, misfit(key, "a whole number"@))
}

/// The message for a field that does not hold what it must.
pub fn field_error(key: &str, want: &str) -> (r: String)
    ensures
        r@ == misfit(key@, want@),
{
    let mut out = owned("field `");
    out.append(key);
    out.append("`: expected ");
    out.append(want);
    out
}

/// The text of a scalar.
pub fn read_scalar(j: &Json, loose: bool) -> (r: Option<String>)
    ensures
        r.deep_view() == scalar(j@, loose),
{
    match j {
        Json::Str(s) => Some(s.clone()),
        Json::Number(n) => if loose {
            Some(write_number(n))
        } else {
            None
        },
        Json::Bool(b) => if !loose {
            None
        } else if *b {
            Some(owned("true"))
        } else {
            Some(owned("false"))
        },
        _ => None,
    }
}

/// The message for a required field that is not there.
pub fn missing(key: &str) -> (r: String)
    ensures
        r@ == missing_text(key@),
{
    let mut out = owned("missing field `");
    out.append(key);
    out.append("`");
    out
}

/// The text of a required field.
pub fn get_text(j: &Json, key: &str, loose: bool) -> (r: Result<String, String>)
    ensures
        match text_at(j@, key@, loose) {
            Some(s) => r is Ok && r->Ok_0@ == s,
            None => r is Err,
        },
        match r {
            Ok(_) => text_fault(j@, key@, loose) is None,
            Err(e) => text_fault(j@, key@, loose) == Some(e@),
        },
{
    match j.get(key) {
        Some(x) => match read_scalar(x, loose) {
            Some(s) => Ok(s),
            None => Err(field_error(key, "a string")),
        },
        None => Err(missing(key)),
    }
}

/// The text of an optional field.
pub fn get_opt_text(j: &Json, key: &str, loose: bool) -> (r: Result<Option<String>, String>)
    ensures
        match opt_text_at(j@, key@, loose) {
            Some(o) => r is Ok && r->Ok_0.deep_view() == o,
            None => r is Err,
        },
        match r {
            Ok(_) => opt_text_fault(j@, key@, loose) is None,
            Err(e) => opt_text_fault(j@, key@, loose) == Some(e@),
        },
{
    match j.get(key) {
        Some(x) => match x {
            Json::Null => Ok(None),
            _ => match read_scalar(x, loose) {
                Some(s) => Ok(Some(s)),
                None => Err(field_error(key, "a string")),
            },
        },
        None => Ok(None),
    }
}

/// The text of a field with a default.
pub fn get_text_or(j: &Json, key: &str, default: &str, loose: bool) -> (r: Result<String, String>)
    ensures
        match text_or_at(j@, key@, default@, loose) {
            Some(s) => r is Ok && r->Ok_0@ == s,
            None => r is Err,
        },
        match r {
            Ok(_) => text_or_fault(j@, key@, loose) is None,
            Err(e) => text_or_fault(j@, key@, loose) == Some(e@),
        },
{
    match j.get(key) {
        Some(x) => match read_scalar(x, loose) {
            Some(s) => Ok(s),
            None => Err(field_error(key, "a string")),
        },
        None => Ok(owned(default)),
    }
}

/// The texts of a document that is a list of them.
pub fn read_texts(j: &Json, loose: bool) -> (r: Option<Vec<String>>)
    ensures
        match texts_of(j@, loose) {
            Some(s) => r is Some && r->0.deep_view() == s,
            None => r is None,
        },
{
    match j.as_array() {
        Some(v) => {
            let ghost items = j@->Array_0;
            let mut out: Vec<String> = Vec::new();
            let mut i: usize = 0;
            assert(items.take(0) =~= Seq::empty());
            assert(out.deep_view() =~= Seq::empty());
            while i < v.len()
                invariant
                    i <= v@.len(),
                    items.len() == v@.len(),
                    forall|k: int| 0 <= k < v@.len() ==> #[trigger] items[k] == v@[k]@,
                    j@ == JsonV::Array(items),
                    scalars(items.take(i as int), loose) == Some(out.deep_view()),
                decreases v@.len() - i,
            {
                proof {
                    assert(items.take(i + 1).drop_last() =~= items.take(i as int));
                    assert(items.take(i + 1).last() == items[i as int]);
                }
                let ghost o = out.deep_view();
                match read_scalar(&v[i], loose) {
                    Some(s) => {
                        let ghost w = s@;
                        out.push(s);
                        assert(out.deep_view() =~= o.push(w));
                    },
                    None => {
                        proof {
                            scalars_prefix(items, loose, i + 1);
                        }
                        return None;
                    },
                }
                i += 1;
            }
            assert(items.take(i as int) =~= items);
            Some(out)
        },
        None => match j {
            Json::Null => if loose {
                let v: Vec<String> = Vec::new();
                assert(v.deep_view() =~= Seq::empty());
                Some(v)
            } else {
                None
            },
            _ => None,
        },
    }
}

/// A list that begins with what cannot be read cannot be read.
proof fn scalars_prefix(items: Seq<JsonV>, loose: bool, n: int)
    requires
        0 <= n <= items.len(),
        scalars(items.take(n), loose) is None,
    ensures
        scalars(items, loose) is None,
    decreases items.len() - n,
{
    if n < items.len() {
        assert(items.take(n + 1).drop_last() =~= items.take(n));
        scalars_prefix(items, loose, n + 1);
    } else {
        assert(items.take(n) =~= items);
    }
}

/// The texts of a field; none where it is absent.
pub fn get_texts(j: &Json, key: &str, loose: bool) -> (r: Result<Vec<String>, String>)
    ensures
        match texts_or_at(j@, key@, Seq::empty(), loose) {
            Some(s) => r is Ok && r->Ok_0.deep_view() == s,
            None => r is Err,
        },
        match r {
            Ok(_) => texts_fault(j@, key@, loose) is None,
            Err(e) => texts_fault(j@, key@, loose) == Some(e@),
        },
{
    match j.get(key) {
        Some(x) => match read_texts(x, loose) {
            Some(s) => Ok(s),
            None => Err(field_error(key, "a list of strings")),
        },
        None => {
            let v: Vec<String> = Vec::new();
            assert(v.deep_view() =~= Seq::empty());
            Ok(v)
        },
    }
}

/// The texts of a field with a default.
pub fn get_texts_or(j: &Json, key: &str, default: Vec<String>, loose: bool) -> (r: Result<
    Vec<String>,
    String,
>)
    ensures
        match texts_or_at(j@, key@, default.deep_view(), loose) {
            Some(s) => r is Ok && r->Ok_0.deep_view() == s,
            None => r is Err,
        },
        match r {
            Ok(_) => texts_fault(j@, key@, loose) is None,
            Err(e) => texts_fault(j@, key@, loose) == Some(e@),
        },
{
    match j.get(key) {
        Some(x) => match read_texts(x, loose) {
            Some(s) => Ok(s),
            None => Err(field_error(key, "a list of strings")),
        },
        None => Ok(default),
    }
}

/// A flag with a default.
pub fn get_bool_or(j: &Json, key: &str, default: bool) -> (r: Result<bool, String>)
    ensures
        match bool_or_at(j@, key@, default) {
            Some(b) => r is Ok && r->Ok_0 == b,
            None => r is Err,
        },
        match r {
            Ok(_) => bool_fault(j@, key@) is None,
            Err(e) => bool_fault(j@, key@) == Some(e@),
        },
{
    match j.get(key) {
        Some(x) => match x {
            Json::Bool(b) => Ok(*b),
            _ => Err(field_error(key, "true or false")),
        },
        None => Ok(default),
    }
}

/// A natural number of a field with a default.
pub fn get_u64_or(j: &Json, key: &str, default: u64) -> (r: Result<u64, String>)
    ensures
        match u64_or_at(j@, key@, default) {
            Some(n) => r is Ok && r->Ok_0 == n,
            None => r is Err,
        },
        match r {
            Ok(_) => u64_fault(j@, key@) is None,
            Err(e) => u64_fault(j@, key@) == Some(e@),
        },
{
    match j.get(key) {
        Some(x) => match x {
            Json::Number(n) => match number_as_u64(n) {
                Some(k) => Ok(k),
                None => Err(field_error(key, "a natural number")),
            },
            _ => Err(field_error(key, "a natural number")),
        },
        None => Ok(default),
    }
}

/// A natural number of an optional field.
pub fn get_opt_u64(j: &Json, key: &str) -> (r: Result<Option<u64>, String>)
    ensures
        match opt_u64_at(j@, key@) {
            Some(n) => r is Ok && r->Ok_0 == n,
            None => r is Err,
        },
        match r {
            Ok(_) => opt_u64_fault(j@, key@) is None,
            Err(e) => opt_u64_fault(j@, key@) == Some(e@),
        },
{
    match j.get(key) {
        Some(x) => match x {
            Json::Null => Ok(None),
            Json::Number(n) => match number_as_u64(n) {
                Some(k) => Ok(Some(k)),
                None => Err(field_error(key, "a natural number")),
            },
            _ => Err(field_error(key, "a natural number")),
        },
        None => Ok(None),
    }
}

/// A count of a field with a default.
pub fn get_usize_or(j: &Json, key: &str, default: usize) -> (r: Result<usize, String>)
    ensures
        match usize_or_at(j@, key@, default) {
            Some(n) => r is Ok && r->Ok_0 == n,
            None => r is Err,
        },
        match r {
            Ok(_) => usize_fault(j@, key@) is None,
            Err(e) => usize_fault(j@, key@) == Some(e@),
        },
{
    match get_u64_or(j, key, default as u64) {
        Ok(n) => if n <= usize::MAX as u64 {
            Ok(n as usize)
        } else {
            Err(field_error(key, "a smaller number"))
        },
        Err(e) => Err(e),
    }
}

/// A whole number of a field with a default.
pub fn get_i64_or(j: &Json, key: &str, default: i64) -> (r: Result<i64, String>)
    ensures
        match i64_or_at(j@, key@, default) {
            Some(n) => r is Ok && r->Ok_0 == n,
            None => r is Err,
        },
        match r {
            Ok(_) => i64_fault(j@, key@) is None,
            Err(e) => i64_fault(j@, key@) == Some(e@),
        },
{
    match j.get(key) {
        Some(x) => match x {
            Json::Number(n) => match number_as_i64(n) {
                Some(k) => Ok(k),
                None => Err(field_error(key, "a whole number")),
            },
            _ => Err(field_error(key, "a whole number")),
        },
        None => Ok(default),
    }
}

// ── Typed values ────────────────────────────────────────────────────────────────────────

/// A type that is read from a document.
pub trait FromTree: Sized {
    /// What a value of the type holds.
    type Model;

    spec fn model(&self) -> Self::Model;

    /// What is read in a document; nothing where the document does not hold such a value.
    spec fn read(t: JsonV) -> Option<Self::Model>;

    /// What is wrong with a document that does not hold such a value: the first field that
    /// does not fit.
    spec fn fault(t: JsonV) -> Option<Seq<char>>;

    fn from_tree(j: &Json) -> (r: Result<Self, String>)
        ensures
            match Self::read(j@) {
                Some(v) => r is Ok && r->Ok_0.model() == v,
                None => r is Err,
            },
            match r {
                Ok(_) => Self::fault(j@) is None,
                Err(e) => Self::fault(j@) == Some(e@),
            },
    ;
}

/// What is wrong with a JSON text that holds no such value: the reader's own reason where it is
/// no document.
pub open spec fn json_fault<T: FromTree>(text: Seq<char>) -> Option<Seq<char>> {
    match json_read(text) {
        Ok(v) => T::fault(value_tree(v)),
        Err(e) => Some(json_error_text(e)),
    }
}

/// What is wrong with a YAML text that holds no such value: the reader's own reason where it is
/// no document.
pub open spec fn yaml_fault<T: FromTree>(text: Seq<char>) -> Option<Seq<char>> {
    match yaml_read(text) {
        Ok(v) => T::fault(value_tree(v)),
        Err(e) => Some(yaml_error_text(e)),
    }
}

impl FromTree for String {
    type Model = Seq<char>;

    open spec fn model(&self) -> Seq<char> {
        self@
    }

    open spec fn read(t: JsonV) -> Option<Seq<char>> {
        scalar(t, true)
    }

    open spec fn fault(t: JsonV) -> Option<Seq<char>> {
        fault_unless(Self::read(t) is Some, "expected a string"@)
    }

    fn from_tree(j: &Json) -> (r: Result<String, String>) {
        match read_scalar(j, true) {
            Some(s) => Ok(s),
            None => Err(owned("expected a string")),
        }
    }
}

impl FromTree for TrustTier {
    type Model = Seq<char>;

    open spec fn model(&self) -> Seq<char> {
        self@
    }

    open spec fn read(t: JsonV) -> Option<Seq<char>> {
        scalar(t, true)
    }

    open spec fn fault(t: JsonV) -> Option<Seq<char>> {
        fault_unless(Self::read(t) is Some, "expected the name of a tier"@)
    }

    fn from_tree(j: &Json) -> (r: Result<TrustTier, String>) {
        match read_scalar(j, true) {
            Some(s) => Ok(TrustTier::named(s.as_str())),
            None => Err(owned("expected the name of a tier")),
        }
    }
}

impl FromTree for ConsciousnessState {
    type Model = ConsciousnessState;

    open spec fn model(&self) -> ConsciousnessState {
        *self
    }

    open spec fn read(t: JsonV) -> Option<ConsciousnessState> {
        match scalar(t, false) {
            Some(s) => state_of_tag(s),
            None => None,
        }
    }

    open spec fn fault(t: JsonV) -> Option<Seq<char>> {
        fault_unless(Self::read(t) is Some, "expected perceive, express, settle or reflect"@)
    }

    fn from_tree(j: &Json) -> (r: Result<ConsciousnessState, String>) {
        let state = match read_scalar(j, false) {
            Some(s) => state_from_tag(s.as_str()),
            None => None,
        };
        match state {
            Some(s) => Ok(s),
            None => Err(owned("expected perceive, express, settle or reflect")),
        }
    }
}

/// The value of a field that is neither absent nor null.
pub open spec fn present(t: JsonV, key: Seq<char>) -> Option<JsonV> {
    match field(t, key) {
        Some(JsonV::Null) => None,
        x => x,
    }
}

/// What is wrong with a required value.
pub open spec fn value_fault<T: FromTree>(t: JsonV, key: Seq<char>) -> Option<Seq<char>> {
    match field(t, key) {
        None => Some(missing_text(key)),
        Some(x) => match T::fault(x) {
            Some(e) => Some(within(key, e)),
            None => None,
        },
    }
}

/// What is wrong with an optional value.
pub open spec fn opt_value_fault<T: FromTree>(t: JsonV, key: Seq<char>) -> Option<Seq<char>> {
    match present(t, key) {
        None => None,
        Some(_) => value_fault::<T>(t, key),
    }
}

/// What is wrong with a value that has a default.
pub open spec fn value_or_fault<T: FromTree>(t: JsonV, key: Seq<char>) -> Option<Seq<char>> {
    match field(t, key) {
        None => None,
        Some(_) => value_fault::<T>(t, key),
    }
}

/// What is wrong with the first item that does not fit.
pub open spec fn values_fault<T: FromTree>(items: Seq<JsonV>) -> Option<Seq<char>>
    decreases items.len(),
{
    if items.len() == 0 {
        None
    } else {
        or_fault(values_fault::<T>(items.drop_last()), T::fault(items.last()))
    }
}

/// What is wrong with a list.
pub open spec fn list_fault<T: FromTree>(t: JsonV, key: Seq<char>) -> Option<Seq<char>> {
    match field(t, key) {
        None => None,
        Some(JsonV::Null) => None,
        Some(JsonV::Array(items)) => match values_fault::<T>(items) {
            Some(e) => Some(within(key, e)),
            None => None,
        },
        _ => Some(misfit(key, "a list"@)),
    }
}

/// What is wrong with the first entry that does not fit.
pub open spec fn entries_fault<T: FromTree>(f: Seq<(Seq<char>, JsonV)>) -> Option<Seq<char>>
    decreases f.len(),
{
    if f.len() == 0 {
        None
    } else {
        or_fault(entries_fault::<T>(f.drop_last()), T::fault(f.last().1))
    }
}

/// What is wrong with a map.
pub open spec fn map_fault<T: FromTree>(t: JsonV, key: Seq<char>) -> Option<Seq<char>> {
    match field(t, key) {
        None => None,
        Some(JsonV::Null) => None,
        Some(JsonV::Object(f)) => match entries_fault::<T>(f) {
            Some(e) => Some(within(key, e)),
            None => None,
        },
        _ => Some(misfit(key, "a map"@)),
    }
}

/// A required field.
pub open spec fn value_at<T: FromTree>(t: JsonV, key: Seq<char>) -> Option<T::Model> {
    match field(t, key) {
        Some(x) => T::read(x),
        None => None,
    }
}

/// An optional field.
pub open spec fn opt_value_at<T: FromTree>(t: JsonV, key: Seq<char>) -> Option<Option<T::Model>> {
    match present(t, key) {
        Some(x) => match T::read(x) {
            Some(v) => Some(Some(v)),
            None => None,
        },
        None => Some(None),
    }
}

/// A field with a default.
pub open spec fn value_or_at<T: FromTree>(t: JsonV, key: Seq<char>, default: T::Model) -> Option<
    T::Model,
> {
    match field(t, key) {
        Some(x) => T::read(x),
        None => Some(default),
    }
}

/// A list, item by item.
pub open spec fn values_of<T: FromTree>(items: Seq<JsonV>) -> Option<Seq<T::Model>>
    decreases items.len(),
{
    if items.len() == 0 {
        Some(Seq::empty())
    } else {
        match (values_of::<T>(items.drop_last()), T::read(items.last())) {
            (Some(v), Some(x)) => Some(v.push(x)),
            _ => None,
        }
    }
}

/// A field that is a list; empty where it is absent or holds nothing.
pub open spec fn list_at<T: FromTree>(t: JsonV, key: Seq<char>) -> Option<Seq<T::Model>> {
    match field(t, key) {
        None => Some(Seq::empty()),
        Some(JsonV::Null) => Some(Seq::empty()),
        Some(JsonV::Array(items)) => values_of::<T>(items),
        _ => None,
    }
}

/// An object, field by field.
pub open spec fn entries_of<T: FromTree>(f: Seq<(Seq<char>, JsonV)>) -> Option<
    Map<Seq<char>, T::Model>,
>
    decreases f.len(),
{
    if f.len() == 0 {
        Some(Map::empty())
    } else {
        match (entries_of::<T>(f.drop_last()), T::read(f.last().1)) {
            (Some(m), Some(x)) => Some(m.insert(f.last().0, x)),
            _ => None,
        }
    }
}

/// A field that is a map; empty where it is absent or holds nothing.
pub open spec fn map_at<T: FromTree>(t: JsonV, key: Seq<char>) -> Option<Map<Seq<char>, T::Model>> {
    match field(t, key) {
        None => Some(Map::empty()),
        Some(JsonV::Null) => Some(Map::empty()),
        Some(JsonV::Object(f)) => entries_of::<T>(f),
        _ => None,
    }
}

/// What the values of a list hold.
pub open spec fn models<T: FromTree>(v: Seq<T>) -> Seq<T::Model> {
    v.map_values(|x: T| x.model())
}

/// What the values of a map hold.
pub open spec fn entry_models<T: FromTree>(m: Map<Seq<char>, T>) -> Map<Seq<char>, T::Model> {
    m.map_values(|x: T| x.model())
}

/// What an optional value holds.
pub open spec fn opt_model<T: FromTree>(v: Option<T>) -> Option<T::Model> {
    match v {
        Some(x) => Some(x.model()),
        None => None,
    }
}

proof fn values_prefix<T: FromTree>(items: Seq<JsonV>, n: int)
    requires
        0 <= n <= items.len(),
        values_of::<T>(items.take(n)) is None,
        values_fault::<T>(items.take(n)) is Some,
    ensures
        values_of::<T>(items) is None,
        values_fault::<T>(items) == values_fault::<T>(items.take(n)),
    decreases items.len() - n,
{
    if n < items.len() {
        assert(items.take(n + 1).drop_last() =~= items.take(n));
        values_prefix::<T>(items, n + 1);
    } else {
        assert(items.take(n) =~= items);
    }
}

proof fn entries_prefix<T: FromTree>(f: Seq<(Seq<char>, JsonV)>, n: int)
    requires
        0 <= n <= f.len(),
        entries_of::<T>(f.take(n)) is None,
        entries_fault::<T>(f.take(n)) is Some,
    ensures
        entries_of::<T>(f) is None,
        entries_fault::<T>(f) == entries_fault::<T>(f.take(n)),
    decreases f.len() - n,
{
    if n < f.len() {
        assert(f.take(n + 1).drop_last() =~= f.take(n));
        entries_prefix::<T>(f, n + 1);
    } else {
        assert(f.take(n) =~= f);
    }
}

/// The value of a field that is neither absent nor null.
pub fn get_present<'a>(j: &'a Json, key: &str) -> (r: Option<&'a Json>)
    ensures
        match r {
            Some(x) => present(j@, key@) == Some(x@),
            None => present(j@, key@) is None,
        },
{
    match j.get(key) {
        Some(x) => match x {
            Json::Null => None,
            _ => Some(x),
        },
        None => None,
    }
}

/// A message about a field, with the field's name in front.
pub fn in_field(key: &str, e: String) -> (r: String)
    ensures
        r@ == within(key@, e@),
{
    let mut out = owned("field `");
    out.append(key);
    out.append("`: ");
    out.append(e.as_str());
    out
}

/// A required field.
pub fn get_value<T: FromTree>(j: &Json, key: &str) -> (r: Result<T, String>)
    ensures
        match value_at::<T>(j@, key@) {
            Some(v) => r is Ok && r->Ok_0.model() == v,
            None => r is Err,
        },
        match r {
            Ok(_) => value_fault::<T>(j@, key@) is None,
            Err(e) => value_fault::<T>(j@, key@) == Some(e@),
        },
{
    match j.get(key) {
        Some(x) => match T::from_tree(x) {
            Ok(v) => Ok(v),
            Err(e) => Err(in_field(key, e)),
        },
        None => Err(missing(key)),
    }
}

/// An optional field.
pub fn get_opt_value<T: FromTree>(j: &Json, key: &str) -> (r: Result<Option<T>, String>)
    ensures
        match opt_value_at::<T>(j@, key@) {
            Some(v) => r is Ok && opt_model(r->Ok_0) == v,
            None => r is Err,
        },
        match r {
            Ok(_) => opt_value_fault::<T>(j@, key@) is None,
            Err(e) => opt_value_fault::<T>(j@, key@) == Some(e@),
        },
{
    match get_present(j, key) {
        Some(x) => match T::from_tree(x) {
            Ok(v) => Ok(Some(v)),
            Err(e) => Err(in_field(key, e)),
        },
        None => Ok(None),
    }
}

/// A field with a default.
pub fn get_value_or<T: FromTree>(j: &Json, key: &str, default: T) -> (r: Result<T, String>)
    ensures
        match value_or_at::<T>(j@, key@, default.model()) {
            Some(v) => r is Ok && r->Ok_0.model() == v,
            None => r is Err,
        },
        match r {
            Ok(_) => value_or_fault::<T>(j@, key@) is None,
            Err(e) => value_or_fault::<T>(j@, key@) == Some(e@),
        },
{
    match j.get(key) {
        Some(x) => match T::from_tree(x) {
            Ok(v) => Ok(v),
            Err(e) => Err(in_field(key, e)),
        },
        None => Ok(default),
    }
}

/// A field that is a list; empty where it is absent or holds nothing.
pub fn get_list<T: FromTree>(j: &Json, key: &str) -> (r: Result<Vec<T>, String>)
    ensures
        match list_at::<T>(j@, key@) {
            Some(v) => r is Ok && models(r->Ok_0@) == v,
            None => r is Err,
        },
        match r {
            Ok(_) => list_fault::<T>(j@, key@) is None,
            Err(e) => list_fault::<T>(j@, key@) == Some(e@),
        },
{
    let mut out: Vec<T> = Vec::new();
    match j.get(key) {
        None => {
            assert(models(out@) =~= Seq::empty());
            Ok(out)
        },
        Some(x) => match x.as_array() {
            None => match x {
                Json::Null => {
                    assert(models(out@) =~= Seq::empty());
                    Ok(out)
                },
                _ => Err(field_error(key, "a list")),
            },
            Some(v) => {
                let ghost items = x@->Array_0;
                let mut i: usize = 0;
                assert(items.take(0) =~= Seq::empty());
                assert(models(out@) =~= Seq::empty());
                while i < v.len()
                    invariant
                        i <= v@.len(),
                        items.len() == v@.len(),
                        forall|k: int| 0 <= k < v@.len() ==> #[trigger] items[k] == v@[k]@,
                        field(j@, key@) == Some(JsonV::Array(items)),
                        values_of::<T>(items.take(i as int)) == Some(models(out@)),
                        values_fault::<T>(items.take(i as int)) is None,
                    decreases v@.len() - i,
                {
                    proof {
                        assert(items.take(i + 1).drop_last() =~= items.take(i as int));
                        assert(items.take(i + 1).last() == items[i as int]);
                    }
                    let ghost o = out@;
                    match T::from_tree(&v[i]) {
                        Ok(y) => {
                            let ghost w = y.model();
                            out.push(y);
                            assert(models(out@) =~= models(o).push(w));
                        },
                        Err(e) => {
                            proof {
                                values_prefix::<T>(items, i + 1);
                            }
                            return Err(in_field(key, e));
                        },
                    }
                    i += 1;
                }
                assert(items.take(i as int) =~= items);
                Ok(out)
            },
        },
    }
}

/// A field that is a map; empty where it is absent or holds nothing.
pub fn get_map<T: FromTree>(j: &Json, key: &str) -> (r: Result<StrMap<T>, String>)
    ensures
        match map_at::<T>(j@, key@) {
            Some(v) => r is Ok && entry_models(r->Ok_0@) == v,
            None => r is Err,
        },
        match r {
            Ok(_) => map_fault::<T>(j@, key@) is None,
            Err(e) => map_fault::<T>(j@, key@) == Some(e@),
        },
{
    let mut out: StrMap<T> = StrMap::new();
    match j.get(key) {
        None => {
            assert(entry_models(out@) =~= Map::empty());
            Ok(out)
        },
        Some(x) => match x {
            Json::Object(v) => {
                let ghost f = x@->Object_0;
                let mut i: usize = 0;
                assert(f.take(0) =~= Seq::empty());
                assert(entry_models(out@) =~= Map::empty());
                while i < v.len()
                    invariant
                        i <= v@.len(),
                        f.len() == v@.len(),
                        forall|k: int|
                            0 <= k < v@.len() ==> #[trigger] f[k] == (v@[k].0@, v@[k].1@),
                        field(j@, key@) == Some(JsonV::Object(f)),
                        entries_of::<T>(f.take(i as int)) == Some(entry_models(out@)),
                        entries_fault::<T>(f.take(i as int)) is None,
                    decreases v@.len() - i,
                {
                    proof {
                        assert(f.take(i + 1).drop_last() =~= f.take(i as int));
                        assert(f.take(i + 1).last() == f[i as int]);
                    }
                    let ghost o = out@;
                    match T::from_tree(&v[i].1) {
                        Ok(y) => {
                            let ghost w = y.model();
                            let ghost k = v@[i as int].0@;
                            out.insert(v[i].0.clone(), y);
                            assert(entry_models(out@) =~= entry_models(o).insert(k, w));
                        },
                        Err(e) => {
                            proof {
                                entries_prefix::<T>(f, i + 1);
                            }
                            return Err(in_field(key, e));
                        },
                    }
                    i += 1;
                }
                assert(f.take(i as int) =~= f);
                Ok(out)
            },
            Json::Null => {
                assert(entry_models(out@) =~= Map::empty());
                Ok(out)
            },
            _ => Err(field_error(key, "a map")),
        },
    }
}

/// A text is read from the field of its key. One that must be there may not be missing or null,
/// one that may be missing may also be null, and one with a default may not be null. Numbers and
/// truth values pass for texts only where reading is loose.
pub proof fn a_text_is_read_from_its_field(
    t: JsonV,
    key: Seq<char>,
    default: Seq<char>,
    loose: bool,
    s: Seq<char>,
)
    ensures
        text_at(t, key, false) == Some(s) <==> field(t, key) == Some(JsonV::Str(s)),
        match field(t, key) {
            None => {
                &&& text_at(t, key, loose) is None
                &&& opt_text_at(t, key, loose) == Some(None::<Seq<char>>)
                &&& text_or_at(t, key, default, loose) == Some(default)
            },
            Some(JsonV::Null) => {
                &&& text_at(t, key, loose) is None
                &&& opt_text_at(t, key, loose) == Some(None::<Seq<char>>)
                &&& text_or_at(t, key, default, loose) is None
            },
            Some(JsonV::Str(x)) => {
                &&& text_at(t, key, loose) == Some(x)
                &&& opt_text_at(t, key, loose) == Some(Some(x))
                &&& text_or_at(t, key, default, loose) == Some(x)
            },
            Some(JsonV::Number(n)) => {
                &&& text_at(t, key, true) == Some(number_text(n))
                &&& opt_text_at(t, key, true) == Some(Some(number_text(n)))
                &&& text_or_at(t, key, default, true) == Some(number_text(n))
                &&& opt_text_at(t, key, false) is None
                &&& text_or_at(t, key, default, false) is None
            },
            Some(JsonV::Bool(b)) => {
                let x = if b {
                    "true"@
                } else {
                    "false"@
                };
                &&& text_at(t, key, true) == Some(x)
                &&& opt_text_at(t, key, true) == Some(Some(x))
                &&& text_or_at(t, key, default, true) == Some(x)
                &&& opt_text_at(t, key, false) is None
                &&& text_or_at(t, key, default, false) is None
            },
            Some(_) => {
                &&& text_at(t, key, loose) is None
                &&& opt_text_at(t, key, loose) is None
                &&& text_or_at(t, key, default, loose) is None
            },
        },
{
}

/// A flag is what its field says, and its default where there is none: nothing but a truth value
/// will do.
pub proof fn a_flag_is_read_from_its_field(t: JsonV, key: Seq<char>, default: bool, b: bool)
    ensures
        bool_or_at(t, key, default) == Some(b) <==> (field(t, key) == Some(JsonV::Bool(b)) || (field(
            t,
            key,
        ) is None && b == default)),
{
}

/// A count is what its field says, its default where there is none, and nothing where the number
/// does not fit.
pub proof fn a_count_is_read_from_its_field(t: JsonV, key: Seq<char>, small: usize, n: u64, i: i64)
    ensures
        match field(t, key) {
            None => {
                &&& u64_or_at(t, key, n) == Some(n)
                &&& i64_or_at(t, key, i) == Some(i)
                &&& opt_u64_at(t, key) == Some(None::<u64>)
                &&& usize_or_at(t, key, small) == Some(small)
            },
            Some(JsonV::Number(x)) => {
                &&& u64_or_at(t, key, n) == number_u64(x)
                &&& i64_or_at(t, key, i) == number_i64(x)
                &&& number_u64(x) matches Some(k) ==> opt_u64_at(t, key) == Some(Some(k))
                &&& number_u64(x) is None ==> opt_u64_at(t, key) is None
                &&& usize_or_at(t, key, small) matches Some(u) ==> number_u64(x) == Some(u as u64)
                &&& (usize_or_at(t, key, small) is Some <==> number_u64(x) is Some && number_u64(x)->0
                    <= usize::MAX)
            },
            Some(x) => {
                &&& u64_or_at(t, key, n) is None
                &&& i64_or_at(t, key, i) is None
                &&& usize_or_at(t, key, small) is None
                &&& (opt_u64_at(t, key) is Some <==> x is Null)
            },
        },
{
}

/// A list of texts is read item by item, in its order, and not at all where one item is no text.
pub proof fn texts_are_read_item_by_item(items: Seq<JsonV>, loose: bool)
    ensures
        scalars(items, loose) is Some <==> forall|i: int|
            0 <= i < items.len() ==> scalar(#[trigger] items[i], loose) is Some,
        scalars(items, loose) matches Some(v) ==> {
            &&& v.len() == items.len()
            &&& forall|i: int| 0 <= i < v.len() ==> scalar(items[i], loose) == Some(#[trigger] v[i])
        },
    decreases items.len(),
{
    if items.len() > 0 {
        let rest = items.drop_last();
        texts_are_read_item_by_item(rest, loose);
        assert(forall|i: int|
            #![trigger rest[i]]
            #![trigger items[i]]
            0 <= i < rest.len() ==> rest[i] == items[i]);
        assert(items.last() == items[items.len() - 1]);
    }
}

/// A list is read item by item, in its order, and not at all where one item does not fit.
pub proof fn values_are_read_item_by_item<T: FromTree>(items: Seq<JsonV>)
    ensures
        values_of::<T>(items) is Some <==> forall|i: int|
            0 <= i < items.len() ==> T::read(#[trigger] items[i]) is Some,
        values_of::<T>(items) matches Some(v) ==> {
            &&& v.len() == items.len()
            &&& forall|i: int| 0 <= i < v.len() ==> T::read(items[i]) == Some(#[trigger] v[i])
        },
    decreases items.len(),
{
    if items.len() > 0 {
        let rest = items.drop_last();
        values_are_read_item_by_item::<T>(rest);
        assert(forall|i: int|
            #![trigger rest[i]]
            #![trigger items[i]]
            0 <= i < rest.len() ==> rest[i] == items[i]);
        assert(items.last() == items[items.len() - 1]);
    }
}

/// A map is read entry by entry: it has the keys of its entries and no other, the last entry of a
/// key counts, and it is not read at all where one entry does not fit.
pub proof fn a_map_is_read_entry_by_entry<T: FromTree>(
    f: Seq<(Seq<char>, JsonV)>,
    k: Seq<char>,
    i: int,
)
    ensures
        entries_of::<T>(f) is Some <==> forall|j: int|
            0 <= j < f.len() ==> T::read((#[trigger] f[j]).1) is Some,
        entries_of::<T>(f) matches Some(m) ==> {
            &&& m.contains_key(k) <==> exists|j: int| 0 <= j < f.len() && (#[trigger] f[j]).0 == k
            &&& 0 <= i < f.len() && (forall|j: int| i < j < f.len() ==> (#[trigger] f[j]).0 != f[i].0)
                ==> T::read(f[i].1) == Some(m[f[i].0])
        },
    decreases f.len(),
{
    if f.len() > 0 {
        let rest = f.drop_last();
        let n = f.len() - 1;
        assert(forall|j: int|
            #![trigger rest[j]]
            #![trigger f[j]]
            0 <= j < rest.len() ==> rest[j] == f[j]);
        a_map_is_read_entry_by_entry::<T>(rest, k, i);
        assert(f.last() == f[n]);
        if entries_of::<T>(f) is Some {
            let m = entries_of::<T>(f)->0;
            let r = entries_of::<T>(rest)->0;
            assert(m == r.insert(f[n].0, T::read(f[n].1)->0));
            if exists|j: int| 0 <= j < f.len() && (#[trigger] f[j]).0 == k {
                let j = choose|j: int| 0 <= j < f.len() && (#[trigger] f[j]).0 == k;
                if j < n {
                    assert(rest[j].0 == k);
                }
            }
            if r.contains_key(k) {
                let j = choose|j: int| 0 <= j < rest.len() && (#[trigger] rest[j]).0 == k;
                assert(f[j].0 == k);
            }
            if 0 <= i < n && (forall|j: int| i < j < f.len() ==> (#[trigger] f[j]).0 != f[i].0) {
                assert(f[n].0 != f[i].0);
                assert forall|j: int| i < j < rest.len() implies (#[trigger] rest[j]).0 != rest[i].0 by {
                    assert(f[j].0 != f[i].0);
                }
            }
        }
    }
}

/// A list or map that is missing or null is empty, and one of the wrong kind is not read.
pub proof fn what_is_missing_is_empty<T: FromTree>(t: JsonV, key: Seq<char>)
    ensures
        match field(t, key) {
            None | Some(JsonV::Null) => {
                &&& list_at::<T>(t, key) == Some(Seq::<T::Model>::empty())
                &&& map_at::<T>(t, key) == Some(Map::<Seq<char>, T::Model>::empty())
                &&& opt_value_at::<T>(t, key) == Some(None::<T::Model>)
            },
            Some(JsonV::Array(items)) => {
                &&& list_at::<T>(t, key) == values_of::<T>(items)
                &&& map_at::<T>(t, key) is None
            },
            Some(JsonV::Object(f)) => {
                &&& map_at::<T>(t, key) == entries_of::<T>(f)
                &&& list_at::<T>(t, key) is None
            },
            Some(x) => {
                &&& list_at::<T>(t, key) is None
                &&& map_at::<T>(t, key) is None
                &&& opt_value_at::<T>(t, key) is Some <==> T::read(x) is Some
            },
        },
{
}

} // verus!
