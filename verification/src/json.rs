//! Evidence values.
//!
//! A check may attach machine-readable evidence to its result. The engine
//! never looks inside it: it is a `serde_json::Value`, built and printed by
//! `serde_json`. Nothing here is proved of that crate; each function below
//! only gives a name to what one of its calls returns, so that the checks can
//! say which value they attach.

use vstd::prelude::*;

verus! {

/// `serde_json::Value`, carried through unopened.
#[verifier::external_type_specification]
#[verifier::external_body]
pub struct ExJsonValue(serde_json::Value);

/// The value that `serde_json` makes of a boolean.
pub uninterp spec fn json_bool(b: bool) -> serde_json::Value;

/// The value that `serde_json` makes of an unsigned number.
pub uninterp spec fn json_number(n: u64) -> serde_json::Value;

/// The value that `serde_json` makes of a text.
pub uninterp spec fn json_string(s: Seq<char>) -> serde_json::Value;

/// The value that `serde_json` makes of a list of values.
pub uninterp spec fn json_array(items: Seq<serde_json::Value>) -> serde_json::Value;

/// The value that `serde_json` makes of a list of named values.
pub uninterp spec fn json_object(fields: Seq<(Seq<char>, serde_json::Value)>) -> serde_json::Value;

/// The text that `serde_json` prints for a value.
pub uninterp spec fn json_text(v: serde_json::Value) -> Seq<char>;

/// The named values of `fields`, each name as its text.
pub open spec fn field_views(fields: Seq<(String, serde_json::Value)>) -> Seq<
    (Seq<char>, serde_json::Value),
> {
    Seq::new(fields.len(), |i: int| (fields[i].0@, fields[i].1))
}

/// Calls `Value::from(bool)`, which wraps the boolean; the contract only
/// names the result.
#[verifier::external_body]
pub(crate) fn bool_value(b: bool) -> (v: serde_json::Value)
    ensures
        v == json_bool(b),
{
    serde_json::Value::from(b)
}

/// Calls `Value::from(u64)`, which wraps the number; the contract only names
/// the result.
#[verifier::external_body]
pub(crate) fn number_value(n: u64) -> (v: serde_json::Value)
    ensures
        v == json_number(n),
{
    serde_json::Value::from(n)
}

/// Calls `Value::from(&str)`, which wraps a copy of the text; the contract
/// only names the result.
#[verifier::external_body]
pub(crate) fn string_value(s: &str) -> (v: serde_json::Value)
    ensures
        v == json_string(s@),
{
    serde_json::Value::from(s)
}

/// Calls `Value::from(Vec<Value>)`, which makes an array of the items in
/// their order; the contract only names the result.
#[verifier::external_body]
pub(crate) fn array_value(items: Vec<serde_json::Value>) -> (v: serde_json::Value)
    ensures
        v == json_array(items@),
{
    serde_json::Value::from(items)
}

/// Calls `Value::from_iter` on pairs of name and value, which makes an object
/// of them; the contract only names the result.
#[verifier::external_body]
pub(crate) fn object_value(fields: Vec<(String, serde_json::Value)>) -> (v: serde_json::Value)
    ensures
        v == json_object(field_views(fields@)),
{
    fields.into_iter().collect()
}

/// Calls the `Display` impl of `Value`, which prints compact JSON; the
/// contract only names the result.
#[verifier::external_body]
pub(crate) fn compact_text(v: &serde_json::Value) -> (s: String)
    ensures
        s@ == json_text(*v),
{
    format!("{}", v)
}

} // verus!
