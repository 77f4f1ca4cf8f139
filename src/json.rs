//! A JSON document as the library reads it, and the parse that produces it.
use vstd::prelude::*;

verus! {

/// A JSON number: the text serde_json writes for it, and its readings as
/// integers (`None` where it is not an integer of that type).
#[derive(Debug, Clone)]
pub struct JsonNumber {
    pub text: String,
    pub as_i64: Option<i64>,
    pub as_u64: Option<u64>,
}

/// A JSON value; an object keeps its entries in document order.
#[derive(Debug)]
pub enum JsonValue {
    Null,
    Bool(bool),
    Number(JsonNumber),
    Str(String),
    Array(Vec<JsonValue>),
    Object(Vec<(String, JsonValue)>),
}

/// What serde_json parses a text into, copied into a `JsonValue`; `None` when
/// the text is not JSON.
pub uninterp spec fn json_document(text: Seq<char>) -> Option<JsonValue>;

#[verifier::external_type_specification]
#[verifier::external_body]
pub struct ExSerdeJsonValue(serde_json::Value);

/// Relies on `serde_json::from_str` into `serde_json::Value` (with
/// `preserve_order`, so objects keep document order); the value is copied into
/// a `JsonValue` by `json_tree`.
#[verifier::external_body]
pub(crate) fn parse_json(text: &str) -> (r: Option<JsonValue>)
    ensures
        r == json_document(text@),
{
    serde_json::from_str::<serde_json::Value>(text).ok().map(json_tree)
}

/// Copies a `serde_json::Value` one for one, variant by variant; a number
/// keeps serde_json's `Display` text and its `as_i64` and `as_u64` readings.
#[verifier::external_body]
fn json_tree(v: serde_json::Value) -> JsonValue {
    match v {
        serde_json::Value::Null => JsonValue::Null,
        serde_json::Value::Bool(b) => JsonValue::Bool(b),
        serde_json::Value::Number(n) => JsonValue::Number(
            JsonNumber { text: n.to_string(), as_i64: n.as_i64(), as_u64: n.as_u64() },
        ),
        serde_json::Value::String(s) => JsonValue::Str(s),
        serde_json::Value::Array(a) => JsonValue::Array(a.into_iter().map(json_tree).collect()),
        serde_json::Value::Object(m) => JsonValue::Object(
            m.into_iter().map(|(k, x)| (k, json_tree(x))).collect(),
        ),
    }
}

/// The value under `key` among the entries of an object: the first entry with that key.
pub open spec fn entry_value(es: Seq<(String, JsonValue)>, key: Seq<char>) -> Option<JsonValue>
    decreases es.len(),
{
    if es.len() == 0 {
        None
    } else {
        match entry_value(es.drop_last(), key) {
            Some(v) => Some(v),
            None => if es.last().0@ == key {
                Some(es.last().1)
            } else {
                None
            },
        }
    }
}

/// The value under `key` when `v` is an object that has it.
pub open spec fn member(v: JsonValue, key: Seq<char>) -> Option<JsonValue> {
    match v {
        JsonValue::Object(es) => entry_value(es@, key),
        _ => None,
    }
}

pub open spec fn as_str(v: Option<JsonValue>) -> Option<Seq<char>> {
    match v {
        Some(JsonValue::Str(s)) => Some(s@),
        _ => None,
    }
}

pub open spec fn as_i64(v: Option<JsonValue>) -> Option<i64> {
    match v {
        Some(JsonValue::Number(n)) => n.as_i64,
        _ => None,
    }
}

pub open spec fn as_u64(v: Option<JsonValue>) -> Option<u64> {
    match v {
        Some(JsonValue::Number(n)) => n.as_u64,
        _ => None,
    }
}

pub open spec fn as_bool(v: Option<JsonValue>) -> Option<bool> {
    match v {
        Some(JsonValue::Bool(b)) => Some(b),
        _ => None,
    }
}

/// The text of a number.
pub open spec fn as_number_text(v: Option<JsonValue>) -> Option<Seq<char>> {
    match v {
        Some(JsonValue::Number(n)) => Some(n.text@),
        _ => None,
    }
}

/// Once a prefix of the entries has the key, longer prefixes give the same value.
proof fn lemma_entry_value_prefix(es: Seq<(String, JsonValue)>, n: int, m: int, key: Seq<char>)
    requires
        0 <= n <= m <= es.len(),
        entry_value(es.take(n), key) is Some,
    ensures
        entry_value(es.take(m), key) == entry_value(es.take(n), key),
    decreases m - n,
{
    if m > n {
        lemma_entry_value_prefix(es, n, m - 1, key);
        assert(es.take(m).drop_last() =~= es.take(m - 1));
    }
}

/// The value under `key`, when `v` is an object that has it.
pub fn member_of<'a>(v: &'a JsonValue, key: &str) -> (r: Option<&'a JsonValue>)
    ensures
        r matches Some(x) ==> member(*v, key@) == Some(*x),
        r is None ==> member(*v, key@) is None,
{
    match v {
        JsonValue::Object(es) => {
            let k = key.to_string();
            let mut i: usize = 0;
            while i < es.len()
                invariant
                    i <= es@.len(),
                    k@ == key@,
                    member(*v, key@) == entry_value(es@, key@),
                    entry_value(es@.take(i as int), key@) is None,
                decreases es@.len() - i,
            {
                if es[i].0 == k {
                    proof {
                        assert(es@.take(i + 1).drop_last() =~= es@.take(i as int));
                        assert(es@.take(i + 1).last() == es@[i as int]);
                        assert(entry_value(es@.take(i + 1), key@) == Some(es@[i as int].1));
                        lemma_entry_value_prefix(es@, i + 1, es@.len() as int, key@);
                        assert(es@.take(es@.len() as int) =~= es@);
                        assert(entry_value(es@, key@) == Some(es@[i as int].1));
                    }
                    return Some(&es[i].1);
                }
                i = i + 1;
                assert(es@.take(i as int).drop_last() =~= es@.take(i - 1));
            }
            assert(es@.take(i as int) =~= es@);
            None
        },
        _ => None,
    }
}

/// The string under `key`, or `default` when there is none.
pub fn str_member(v: &JsonValue, key: &str, default: &str) -> (s: String)
    ensures
        s@ == (match as_str(member(*v, key@)) {
            Some(t) => t,
            None => default@,
        }),
{
    match member_of(v, key) {
        Some(JsonValue::Str(s)) => s.clone(),
        _ => default.to_string(),
    }
}

/// The `i64` under `key` as an `i32` (truncating), or 0.
pub fn i32_member(v: &JsonValue, key: &str) -> (n: i32)
    ensures
        n == (match as_i64(member(*v, key@)) {
            Some(x) => x,
            None => 0,
        }) as i32,
{
    let x: i64 = match member_of(v, key) {
        Some(JsonValue::Number(n)) => match n.as_i64 {
            Some(x) => x,
            None => 0,
        },
        _ => 0,
    };
    #[verifier::truncate]
    (x as i32)
}

/// The `u64` under `key`, or 0.
pub fn u64_member(v: &JsonValue, key: &str) -> (n: u64)
    ensures
        n == (match as_u64(member(*v, key@)) {
            Some(x) => x,
            None => 0,
        }),
{
    match member_of(v, key) {
        Some(JsonValue::Number(n)) => match n.as_u64 {
            Some(x) => x,
            None => 0,
        },
        _ => 0,
    }
}

/// The boolean under `key`, or false.
pub fn bool_member(v: &JsonValue, key: &str) -> (b: bool)
    ensures
        b == (match as_bool(member(*v, key@)) {
            Some(x) => x,
            None => false,
        }),
{
    match member_of(v, key) {
        Some(JsonValue::Bool(b)) => *b,
        _ => false,
    }
}

/// The text of the number under `key`, or `0` when there is none.
pub fn number_text_member(v: &JsonValue, key: &str) -> (s: String)
    ensures
        s@ == (match as_number_text(member(*v, key@)) {
            Some(t) => t,
            None => "0"@,
        }),
{
    match member_of(v, key) {
        Some(JsonValue::Number(n)) => n.text.clone(),
        _ => "0".to_string(),
    }
}

} // verus!
