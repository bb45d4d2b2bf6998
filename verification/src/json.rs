//! JSON values of `serde_json`: what they hold, how they are built and read, and their text.
use vstd::prelude::*;

verus! {

/// What a JSON value holds. `Int` is a number of one of the integer kinds; `Float` is any other, one
/// such as `12.0` too.
pub enum Json {
    Null,
    Bool(bool),
    Int(int),
    Float(serde_json::Number),
    Str(Seq<char>),
    Array(Seq<Json>),
    Object(Map<Seq<char>, Json>),
}

/// A JSON value.
#[verifier::external_type_specification]
#[verifier::external_body]
pub struct ExValue(serde_json::Value);

/// A JSON number.
#[verifier::external_type_specification]
#[verifier::external_body]
pub struct ExNumber(serde_json::Number);

/// The entries of a JSON object.
#[verifier::external_type_specification]
#[verifier::external_body]
#[verifier::reject_recursive_types(K)]
#[verifier::reject_recursive_types(V)]
pub struct ExObjectEntries<K, V>(serde_json::Map<K, V>);

/// What a `serde_json::Value` holds.
pub uninterp spec fn json_of(value: serde_json::Value) -> Json;

/// What the entries of a `serde_json::Map` hold.
pub uninterp spec fn entries_of(entries: serde_json::Map<String, serde_json::Value>) -> Map<
    Seq<char>,
    Json,
>;

/// What the elements of a sequence of values hold.
pub open spec fn jsons_of(values: Seq<serde_json::Value>) -> Seq<Json> {
    Seq::new(values.len(), |i: int| json_of(values[i]))
}

/// The variant `Value::Null` of `serde_json`.
#[verifier::external_body]
pub(crate) fn json_null() -> (r: serde_json::Value)
    ensures
        json_of(r) == Json::Null,
{
    serde_json::Value::Null
}

/// The variant `Value::Bool` of `serde_json`.
#[verifier::external_body]
pub(crate) fn json_bool(b: bool) -> (r: serde_json::Value)
    ensures
        json_of(r) == Json::Bool(b),
{
    serde_json::Value::Bool(b)
}

/// The variant `Value::Number` of `serde_json` with `Number::from(i64)`: the whole number itself.
#[verifier::external_body]
pub(crate) fn json_int(n: i64) -> (r: serde_json::Value)
    ensures
        json_of(r) == Json::Int(n as int),
{
    serde_json::Value::Number(n.into())
}

/// What a JSON value holds that is the given number: `Int` where the number is of one of the
/// whole-number kinds, else `Float`.
pub uninterp spec fn number_of(number: serde_json::Number) -> Json;

/// The variant `Value::Number` of `serde_json`. What it holds is named by [`number_of`].
#[verifier::external_body]
pub(crate) fn json_number(number: serde_json::Number) -> (r: serde_json::Value)
    ensures
        json_of(r) == number_of(number),
{
    serde_json::Value::Number(number)
}

/// The variant `Value::String` of `serde_json`.
#[verifier::external_body]
pub(crate) fn json_string(s: String) -> (r: serde_json::Value)
    ensures
        json_of(r) == Json::Str(s@),
{
    serde_json::Value::String(s)
}

/// The variant `Value::Array` of `serde_json`.
#[verifier::external_body]
pub(crate) fn json_array(values: Vec<serde_json::Value>) -> (r: serde_json::Value)
    ensures
        json_of(r) == Json::Array(jsons_of(values@)),
{
    serde_json::Value::Array(values)
}

/// The entries of the empty object.
pub open spec fn no_members() -> Map<Seq<char>, Json> {
    Map::empty()
}

/// `Map::new` of `serde_json`: no entries.
#[verifier::external_body]
pub(crate) fn no_entries() -> (r: serde_json::Map<String, serde_json::Value>)
    ensures
        entries_of(r) == no_members(),
{
    serde_json::Map::new()
}

/// `Map::insert` of `serde_json`: the key gets the value, in place of an earlier one.
#[verifier::external_body]
pub(crate) fn insert_entry(
    entries: &mut serde_json::Map<String, serde_json::Value>,
    key: String,
    value: serde_json::Value,
)
    ensures
        entries_of(*final(entries)) == entries_of(*old(entries)).insert(key@, json_of(value)),
{
    entries.insert(key, value);
}

/// The variant `Value::Object` of `serde_json`.
#[verifier::external_body]
pub(crate) fn json_object(entries: serde_json::Map<String, serde_json::Value>) -> (r:
    serde_json::Value)
    ensures
        json_of(r) == Json::Object(entries_of(entries)),
{
    serde_json::Value::Object(entries)
}

impl Json {
    /// The member of an object, or null where there is none.
    pub open spec fn member(self, key: Seq<char>) -> Json {
        match self {
            Json::Object(entries) if entries.contains_key(key) => entries[key],
            _ => Json::Null,
        }
    }

    /// The element of an array, or null where there is none.
    pub open spec fn element(self, i: int) -> Json {
        match self {
            Json::Array(values) if 0 <= i < values.len() => values[i],
            _ => Json::Null,
        }
    }

    /// The number where it is a whole number that an unsigned 64-bit number can hold.
    pub open spec fn unsigned(self) -> Option<u64> {
        match self {
            Json::Int(n) if 0 <= n <= u64::MAX => Some(n as u64),
            _ => None,
        }
    }
}

/// Indexing a `serde_json::Value` with a string: the member of the object, null for anything else.
#[verifier::external_body]
pub(crate) fn member<'a>(value: &'a serde_json::Value, key: &str) -> (r: &'a serde_json::Value)
    ensures
        json_of(*r) == json_of(*value).member(key@),
{
    &value[key]
}

/// Indexing a `serde_json::Value` with a position: the element of the array, null for anything
/// else.
#[verifier::external_body]
pub(crate) fn element<'a>(value: &'a serde_json::Value, i: usize) -> (r: &'a serde_json::Value)
    ensures
        json_of(*r) == json_of(*value).element(i as int),
{
    &value[i]
}

/// `Value::as_str` of `serde_json`: the text of a string, nothing for any other value.
#[verifier::external_body]
pub(crate) fn as_text(value: &serde_json::Value) -> (r: Option<&str>)
    ensures
        match r {
            Some(s) => json_of(*value) == Json::Str(s@),
            None => !(json_of(*value) is Str),
        },
{
    value.as_str()
}

/// `Value::as_u64` of `serde_json`: a whole number in the range of `u64`, nothing for any other
/// value.
#[verifier::external_body]
pub(crate) fn as_unsigned(value: &serde_json::Value) -> (r: Option<u64>)
    ensures
        r == json_of(*value).unsigned(),
{
    value.as_u64()
}

/// The compact text that the `Display` of `serde_json::Value` writes for what a value holds.
pub uninterp spec fn json_text(json: Json) -> Seq<char>;

/// Calls `Value::to_string` of `serde_json`. The result is named by [`json_text`]: objects are
/// written in the order of their keys, so it depends on what the value holds alone.
#[verifier::external_body]
pub(crate) fn write_json(value: &serde_json::Value) -> (r: String)
    ensures
        r@ == json_text(json_of(*value)),
{
    value.to_string()
}

/// Calls `serde_json::to_vec`, and renders its error with `Display`. For a `serde_json::Value` it
/// succeeds, and writes the UTF-8 bytes of the text that `Value::to_string` writes.
#[verifier::external_body]
pub(crate) fn encode_json(value: &serde_json::Value) -> (r: Result<Vec<u8>, String>)
    ensures
        match r {
            Ok(bytes) => bytes@ == vstd::utf8::encode_utf8(json_text(json_of(*value))),
            Err(_) => false,
        },
{
    serde_json::to_vec(value).map_err(|error| error.to_string())
}

} // verus!
