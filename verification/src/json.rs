//! JSON values, each held as the text that serde_json writes for it. What the
//! values say is serde_json's to decide; everything done with them is decided
//! here. Such a text is read back as the value it was written for: serde_json's
//! `float_roundtrip` feature makes this hold of floats too.

use serde_json::Value;
use vstd::prelude::*;

use crate::text::decimal;

verus! {

/// What `serde_json::from_slice` makes of some bytes, or why it refuses them.
pub uninterp spec fn json_value(bytes: Seq<u8>) -> Result<Seq<char>, Seq<char>>;

/// What `Value::get` finds under a key of an object.
pub uninterp spec fn json_field(value: Seq<char>, key: Seq<char>) -> Option<Seq<char>>;

/// What `Value::as_str` finds.
pub uninterp spec fn json_string(value: Seq<char>) -> Option<Seq<char>>;

/// What `Value::as_u64` finds.
pub uninterp spec fn json_natural(value: Seq<char>) -> Option<u64>;

/// What `Value::as_i64` finds.
pub uninterp spec fn json_integer(value: Seq<char>) -> Option<i64>;

/// What `Value::as_bool` finds.
pub uninterp spec fn json_flag(value: Seq<char>) -> Option<bool>;

/// What `Value::as_array` finds.
pub uninterp spec fn json_items(value: Seq<char>) -> Option<Seq<Seq<char>>>;

/// What `serde_json::to_string` writes for a string.
pub uninterp spec fn json_quote(s: Seq<char>) -> Seq<char>;

/// What `Value`'s `Display` writes for an object with these fields.
pub uninterp spec fn json_object(fields: Seq<(Seq<char>, Seq<char>)>) -> Seq<char>;

/// Whether a text is what serde_json writes for a null, a boolean, a natural
/// number or a string.
pub open spec fn scalar(value: Seq<char>) -> bool {
    ||| value == "null"@
    ||| value == "true"@
    ||| value == "false"@
    ||| exists|n: u64| value == #[trigger] decimal(n as nat)
    ||| exists|s: Seq<char>| value == #[trigger] json_quote(s)
}

/// Whether a value was found in an object, and so can stand in one.
pub open spec fn found(value: Seq<char>) -> bool {
    exists|object: Seq<char>, key: Seq<char>| #[trigger] json_field(object, key) == Some(value)
}

/// Whether a value is an object of nulls, booleans, natural numbers and strings.
pub open spec fn flat(value: Seq<char>) -> bool {
    exists|fields: Seq<(Seq<char>, Seq<char>)>|
        value == #[trigger] json_object(fields) && forall|i: int|
            0 <= i < fields.len() ==> scalar((#[trigger] fields[i]).1)
}

/// Whether each key is used once, and each value can stand in an object.
pub open spec fn plain_fields(fields: Seq<(Seq<char>, Seq<char>)>) -> bool {
    &&& forall|i: int, j: int|
        0 <= i < j < fields.len() ==> (#[trigger] fields[i]).0 != (#[trigger] fields[j]).0
    &&& forall|i: int|
        0 <= i < fields.len() ==> scalar((#[trigger] fields[i]).1) || found(fields[i].1) || flat(
            fields[i].1,
        )
}

/// `serde_json::from_slice` for a `Value`, and that value's `to_string`; or
/// the `to_string` of the error. Both depend on the bytes alone.
#[verifier::external_body]
pub(crate) fn value(bytes: &Vec<u8>) -> (r: Result<String, String>)
    ensures
        match r {
            Ok(v) => json_value(bytes@) == Ok::<Seq<char>, Seq<char>>(v@),
            Err(e) => json_value(bytes@) == Err::<Seq<char>, Seq<char>>(e@),
        },
{
    match serde_json::from_slice::<Value>(bytes) {
        Ok(value) => Ok(value.to_string()),
        Err(error) => Err(error.to_string()),
    }
}

/// `Value::get` with a key: the value under that key, where there is one.
#[verifier::external_body]
pub(crate) fn field(value: &str, key: &str) -> (r: Option<String>)
    ensures
        r.deep_view() == json_field(value@, key@),
{
    let value: Value = serde_json::from_str(value).ok()?;
    value.get(key).map(Value::to_string)
}

/// `Value::as_str`. A string that serde_json wrote is read back as it was.
#[verifier::external_body]
pub(crate) fn string(value: &str) -> (r: Option<String>)
    ensures
        r.deep_view() == json_string(value@),
        forall|s: Seq<char>| value@ == #[trigger] json_quote(s) ==> r.deep_view() == Some(s),
{
    let value: Value = serde_json::from_str(value).ok()?;
    value.as_str().map(str::to_owned)
}

/// `Value::as_u64`. The decimal digits of a `u64` are read as that number.
#[verifier::external_body]
pub(crate) fn natural(value: &str) -> (r: Option<u64>)
    ensures
        r == json_natural(value@),
        forall|n: u64| value@ == #[trigger] decimal(n as nat) ==> r == Some(n),
{
    let value: Value = serde_json::from_str(value).ok()?;
    value.as_u64()
}

/// `Value::as_i64`.
#[verifier::external_body]
pub(crate) fn integer(value: &str) -> (r: Option<i64>)
    ensures
        r == json_integer(value@),
{
    let value: Value = serde_json::from_str(value).ok()?;
    value.as_i64()
}

/// `Value::as_bool`. The words `true` and `false` are read as what they say.
#[verifier::external_body]
pub(crate) fn flag(value: &str) -> (r: Option<bool>)
    ensures
        r == json_flag(value@),
        value@ == "true"@ ==> r == Some(true),
        value@ == "false"@ ==> r == Some(false),
{
    let value: Value = serde_json::from_str(value).ok()?;
    value.as_bool()
}

/// `Value::as_array`: the items, each as its own text.
#[verifier::external_body]
pub(crate) fn items(value: &str) -> (r: Option<Vec<String>>)
    ensures
        r.deep_view() == json_items(value@),
{
    let value: Value = serde_json::from_str(value).ok()?;
    value.as_array().map(|items| items.iter().map(Value::to_string).collect())
}

/// `Value::String` written with `to_string`.
#[verifier::external_body]
pub(crate) fn quote(s: &str) -> (r: String)
    ensures
        r@ == json_quote(s@),
{
    Value::String(s.to_owned()).to_string()
}

/// `Value::Object` written with `to_string`, a field whose text is no JSON
/// being null. A field that can stand in an object is found there again.
#[verifier::external_body]
pub(crate) fn object(fields: &Vec<(String, String)>) -> (r: String)
    ensures
        r@ == json_object(fields.deep_view()),
        plain_fields(fields.deep_view()) ==> forall|i: int|
            0 <= i < fields.len() ==> json_field(r@, (#[trigger] fields.deep_view()[i]).0) == Some(
                fields.deep_view()[i].1,
            ),
{
    let mut map = serde_json::Map::new();
    for (key, text) in fields {
        map.insert(key.clone(), serde_json::from_str(text).unwrap_or(Value::Null));
    }
    Value::Object(map).to_string()
}

/// What some bytes are as JSON, or why they are none.
pub(crate) fn read(bytes: &Vec<u8>) -> (r: Result<String, String>)
    ensures
        crate::plain::shown(r) == json_value(bytes.deep_view()),
{
    assert(bytes.deep_view() =~= bytes@);
    value(bytes)
}

/// One field of an object.
pub(crate) fn entry(key: &str, value: String) -> (r: (String, String))
    ensures
        r.deep_view() == (key@, value@),
{
    (crate::text::of(key), value)
}

/// A boolean.
pub(crate) fn truth(b: bool) -> (r: String)
    ensures
        r@ == (if b {
            "true"@
        } else {
            "false"@
        }),
{
    if b {
        crate::text::of("true")
    } else {
        crate::text::of("false")
    }
}

} // verus!
