//! A plain model of JSON values, and the trusted boundary that turns response
//! text into it.
//!
//! The service answers with JSON bodies. Parsing the text is delegated to
//! `serde_json`; everything the client reads out of a parsed value — field
//! lookup and shape checks — works on the [`JsonValue`] model below and is
//! verified.

use vstd::prelude::*;

verus! {

/// A parsed JSON value as plain data.
///
/// Object fields stand in the order the parser hands them out; a number is
/// carried as its decimal text, since no call of this client reads a numeric
/// value.
#[derive(Debug)]
pub enum JsonValue {
    Null,
    Bool(bool),
    Num(String),
    Text(String),
    Array(Vec<JsonValue>),
    Object(Vec<(String, JsonValue)>),
}

/// The value of the first field named `key`, if any.
pub open spec fn field_of(fields: Seq<(String, JsonValue)>, key: Seq<char>) -> Option<JsonValue>
    decreases fields.len(),
{
    if fields.len() == 0 {
        None
    } else if fields[0].0@ == key {
        Some(fields[0].1)
    } else {
        field_of(fields.drop_first(), key)
    }
}

/// The string content of field `key` of an object, if `v` is an object and
/// the field is present and holds a string.
pub open spec fn str_field(v: JsonValue, key: Seq<char>) -> Option<Seq<char>> {
    match v {
        JsonValue::Object(fields) => match field_of(fields@, key) {
            Some(JsonValue::Text(s)) => Some(s@),
            _ => None,
        },
        _ => None,
    }
}

proof fn lemma_field_of_scan(fields: Seq<(String, JsonValue)>, key: Seq<char>, i: int)
    requires
        0 <= i <= fields.len(),
        forall|j: int| 0 <= j < i ==> fields[j].0@ != key,
    ensures
        i < fields.len() && fields[i].0@ == key ==> field_of(fields, key) == Some(fields[i].1),
        i == fields.len() ==> field_of(fields, key) is None,
    decreases fields.len() - i,
{
    if i < fields.len() && fields[i].0@ == key {
        lemma_field_of_first_match(fields, key, i);
    } else if i == fields.len() {
        lemma_field_of_absent(fields, key);
    }
}

proof fn lemma_field_of_first_match(fields: Seq<(String, JsonValue)>, key: Seq<char>, i: int)
    requires
        0 <= i < fields.len(),
        forall|j: int| 0 <= j < i ==> fields[j].0@ != key,
        fields[i].0@ == key,
    ensures
        field_of(fields, key) == Some(fields[i].1),
    decreases fields.len(),
{
    if i == 0 {
    } else {
        assert forall|j: int| 0 <= j < i - 1 implies fields.drop_first()[j].0@ != key by {
            assert(fields.drop_first()[j] == fields[j + 1]);
        }
        assert(fields.drop_first()[i - 1] == fields[i]);
        lemma_field_of_first_match(fields.drop_first(), key, i - 1);
    }
}

proof fn lemma_field_of_absent(fields: Seq<(String, JsonValue)>, key: Seq<char>)
    requires
        forall|j: int| 0 <= j < fields.len() ==> fields[j].0@ != key,
    ensures
        field_of(fields, key) is None,
    decreases fields.len(),
{
    if fields.len() > 0 {
        assert forall|j: int| 0 <= j < fields.len() - 1 implies fields.drop_first()[j].0@ != key by {
            assert(fields.drop_first()[j] == fields[j + 1]);
        }
        lemma_field_of_absent(fields.drop_first(), key);
    }
}

/// The value of the first field named `key`, if `v` is an object that has
/// one.
pub fn get_field<'a>(v: &'a JsonValue, key: &str) -> (r: Option<&'a JsonValue>)
    ensures
        match r {
            Some(f) => v matches JsonValue::Object(fields) && field_of(fields@, key@) == Some(*f),
            None => match v {
                JsonValue::Object(fields) => field_of(fields@, key@) is None,
                _ => true,
            },
        },
{
    match v {
        JsonValue::Object(fields) => {
            let k = key.to_owned();
            let n = fields.len();
            let mut i: usize = 0;
            loop
                invariant
                    i <= n,
                    n == fields@.len(),
                    k@ == key@,
                    forall|j: int| 0 <= j < i ==> fields@[j].0@ != key@,
                ensures
                    i <= n,
                    forall|j: int| 0 <= j < i ==> fields@[j].0@ != key@,
                    i < n ==> fields@[i as int].0@ == key@,
                decreases n - i,
            {
                if i == n {
                    break;
                }
                if fields[i].0 == k {
                    break;
                }
                i = i + 1;
            }
            proof {
                lemma_field_of_scan(fields@, key@, i as int);
            }
            if i < n {
                Some(&fields[i].1)
            } else {
                None
            }
        },
        _ => None,
    }
}

/// The string content of field `key`, if `v` is an object holding it as a
/// string.
pub fn get_str_field(v: &JsonValue, key: &str) -> (r: Option<String>)
    ensures
        match r {
            Some(s) => str_field(*v, key@) == Some(s@),
            None => str_field(*v, key@) is None,
        },
{
    match get_field(v, key) {
        Some(f) => match f {
            JsonValue::Text(s) => Some(s.clone()),
            _ => None,
        },
        None => None,
    }
}

/// What `serde_json` parses the given text into, carried over into the
/// [`JsonValue`] model; `None` when the text is not valid JSON. Parsing
/// depends on the text alone.
pub uninterp spec fn json_of(s: Seq<char>) -> Option<JsonValue>;

/// Relies on `serde_json::Value` as an opaque type, so that the conversion
/// below can take one.
#[verifier::external_type_specification]
#[verifier::external_body]
pub struct ExValue(serde_json::Value);

/// Relies on `serde_json::Value`: carries a parsed value over into the
/// library's model, one arm for each JSON variant, moving the fields; a
/// number is carried as its decimal text.
#[verifier::external_body]
fn json_from_serde(v: serde_json::Value) -> JsonValue {
    match v {
        serde_json::Value::Null => JsonValue::Null,
        serde_json::Value::Bool(b) => JsonValue::Bool(b),
        serde_json::Value::Number(n) => JsonValue::Num(n.to_string()),
        serde_json::Value::String(s) => JsonValue::Text(s),
        serde_json::Value::Array(a) => JsonValue::Array(a.into_iter().map(json_from_serde).collect()),
        serde_json::Value::Object(m) => JsonValue::Object(m.into_iter().map(|(k, x)| (k, json_from_serde(x))).collect()),
    }
}

/// Relies on `serde_json::from_str`: whether text is valid JSON, and what
/// value it parses into, depend on the text alone.
#[verifier::external_body]
pub(crate) fn parse_json(s: &str) -> (r: Option<JsonValue>)
    ensures
        r == json_of(s@),
{
    match serde_json::from_str::<serde_json::Value>(s) {
        Ok(v) => Some(json_from_serde(v)),
        Err(_) => None,
    }
}

} // verus!
