//! JSON documents, read and written by `serde_json`.
//!
//! [`Json`] is the mathematical content of a `serde_json::Value`. The functions
//! here are one call into `serde_json` each; their contracts speak of that
//! content.

use vstd::prelude::*;
use vstd::string::*;

verus! {

/// The content of a JSON document.
pub enum Json {
    Null,
    Bool(bool),
    /// A nonnegative integer within `u64`.
    Unsigned(u64),
    /// A negative integer within `i64`.
    Negative(i64),
    /// Any other number, by the bits of its double-precision representation.
    Fraction(u64),
    Text(Seq<char>),
    Array(Seq<Json>),
    Object(Map<Seq<char>, Json>),
}

/// `serde_json::Value`, carried as an opaque value.
#[verifier::external_type_specification]
#[verifier::external_body]
pub struct ExValue(serde_json::Value);

/// `serde_json::Error`, carried as an opaque value.
#[verifier::external_type_specification]
#[verifier::external_body]
pub struct ExError(serde_json::Error);

/// The content of a JSON value.
pub uninterp spec fn json_content(value: serde_json::Value) -> Json;

/// The content that `serde_json::from_slice` reads from a byte string, if the
/// bytes are one JSON document.
pub uninterp spec fn json_parse(bytes: Seq<u8>) -> Option<Json>;

/// The bytes that `serde_json::to_vec` writes for a document.
pub uninterp spec fn json_text(content: Json) -> Seq<u8>;

/// What the first value in a byte string turns out to be.
pub enum FirstValue {
    /// A value that ends at this offset.
    Value { content: Json, offset: nat },
    /// The bytes end before the value does.
    Truncated,
    /// There is no value, or none that is valid.
    Unusable,
}

/// What `serde_json::StreamDeserializer` makes of the first value in a byte
/// string.
pub uninterp spec fn json_first(bytes: Seq<u8>) -> FirstValue;

/// A byte after which a value that needs an end has ended: white space, a comma
/// or a closing bracket.
pub open spec fn ends_value(byte: u8) -> bool {
    byte == 0x20 || byte == 0x09 || byte == 0x0a || byte == 0x0d || byte == 0x2c || byte == 0x5d
}

/// A byte that a value can start with: that of `null`, `true`, `false`, a text,
/// an array, an object or a number.
pub open spec fn starts_value(byte: u8) -> bool {
    byte == 0x6e || byte == 0x74 || byte == 0x66 || byte == 0x22 || byte == 0x5b || byte == 0x7b
        || byte == 0x2d || 0x30 <= byte <= 0x39
}

/// A text whose value is found again in the text and in any bytes that continue
/// it past the value's end; of a shorter piece of it, the stream reports either
/// that it is cut short or a number that reaches to the cut and goes on there.
pub open spec fn streams_back(text: Seq<u8>, content: Json) -> bool {
    &&& forall|t: int|
        0 < t < text.len() ==> match #[trigger] json_first(text.take(t)) {
            FirstValue::Value { offset, .. } => offset == t && !ends_value(text[t]),
            FirstValue::Truncated => true,
            FirstValue::Unusable => false,
        }
    &&& forall|rest: Seq<u8>|
        rest.len() == 0 || ends_value(rest[0]) ==> #[trigger] json_first(text + rest)
            == (FirstValue::Value { content, offset: text.len() })
}

/// A document made of integers, booleans, texts and nulls, with at most `depth`
/// nested arrays and objects and no member name that starts with a dollar sign.
pub open spec fn plain(json: Json, depth: nat) -> bool
    decreases depth,
{
    match json {
        Json::Fraction(_) => false,
        Json::Negative(n) => n < 0,
        Json::Array(items) => depth > 0 && forall|i: int|
            0 <= i < items.len() ==> plain(#[trigger] items[i], (depth - 1) as nat),
        Json::Object(members) => depth > 0 && forall|k: Seq<char>| #[trigger]
            members.contains_key(k) ==> plain_name(k) && plain(members[k], (depth - 1) as nat),
        _ => true,
    }
}

/// A member name that does not start with a dollar sign.
pub open spec fn plain_name(name: Seq<char>) -> bool {
    name.len() == 0 || name[0] != '$'
}

/// How deep a document may be nested for its text to be read back.
pub open spec fn readable_depth() -> nat {
    100
}

/// The member `key` of an object; nothing of any other document.
pub open spec fn member(json: Json, key: Seq<char>) -> Option<Json> {
    match json {
        Json::Object(members) => if members.contains_key(key) {
            Some(members[key])
        } else {
            None
        },
        _ => None,
    }
}

/// A document read as an unsigned integer.
pub open spec fn unsigned_of(json: Json) -> Option<u64> {
    match json {
        Json::Unsigned(n) => Some(n),
        _ => None,
    }
}

/// A document read as a signed integer.
pub open spec fn signed_of(json: Json) -> Option<i64> {
    match json {
        Json::Unsigned(n) => if n <= i64::MAX {
            Some(n as i64)
        } else {
            None
        },
        Json::Negative(n) => Some(n),
        _ => None,
    }
}

/// A document read as text.
pub open spec fn text_of(json: Json) -> Option<Seq<char>> {
    match json {
        Json::Text(s) => Some(s),
        _ => None,
    }
}

/// A document read as a boolean.
pub open spec fn bool_of(json: Json) -> Option<bool> {
    match json {
        Json::Bool(b) => Some(b),
        _ => None,
    }
}

/// The member `key` read as an unsigned integer.
pub open spec fn unsigned_member(json: Json, key: Seq<char>) -> Option<u64> {
    match member(json, key) {
        Some(value) => unsigned_of(value),
        None => None,
    }
}

/// The member `key` read as text.
pub open spec fn text_member(json: Json, key: Seq<char>) -> Option<Seq<char>> {
    match member(json, key) {
        Some(value) => text_of(value),
        None => None,
    }
}

/// The member `key` read as a boolean.
pub open spec fn bool_member(json: Json, key: Seq<char>) -> Option<bool> {
    match member(json, key) {
        Some(value) => bool_of(value),
        None => None,
    }
}

/// The contents of some JSON values, in order.
pub open spec fn json_contents(values: Seq<serde_json::Value>) -> Seq<Json> {
    values.map_values(|value: serde_json::Value| json_content(value))
}

/// Calls `serde_json::from_slice` for a `serde_json::Value`. Whether the bytes
/// are one JSON document, and with what content, depends on the bytes alone.
#[verifier::external_body]
pub(crate) fn json_from_slice(bytes: &[u8]) -> (r: Result<serde_json::Value, serde_json::Error>)
    ensures
        match r {
            Ok(value) => json_parse(bytes@) == Some(json_content(value)),
            Err(_) => json_parse(bytes@) is None,
        },
{
    serde_json::from_slice(bytes)
}

/// A text without control characters of the ASCII range.
pub open spec fn no_low_bytes(bytes: Seq<u8>) -> bool {
    forall|i: int| 0 <= i < bytes.len() ==> #[trigger] bytes[i] >= 0x20
}

/// Calls `serde_json::to_vec` on a `serde_json::Value`. A JSON value always
/// serialises; the bytes depend on its content alone; they start with the value
/// and hold no control character, for the compact form has no white space or
/// line breaks and escapes control characters in texts; and of a plain document, reading the
/// bytes, as a whole or as the first value of a stream, gives the document's
/// content back.
#[verifier::external_body]
pub(crate) fn json_to_vec(value: &serde_json::Value) -> (r: Result<Vec<u8>, serde_json::Error>)
    ensures
        r is Ok,
        r->Ok_0@ == json_text(json_content(*value)),
        r->Ok_0@.len() > 0,
        starts_value(r->Ok_0@[0]),
        no_low_bytes(r->Ok_0@),
        plain(json_content(*value), readable_depth()) ==> json_parse(r->Ok_0@) == Some(
            json_content(*value),
        ) && streams_back(r->Ok_0@, json_content(*value)),
{
    serde_json::to_vec(value)
}

/// What [`json_stream_first`] found.
pub(crate) enum FirstStep {
    /// A value, and the offset of its end.
    Value(serde_json::Value, usize),
    /// The bytes end before the value does.
    Truncated,
    /// There is no value, or none that is valid.
    Unusable,
}

/// Calls `next` and then `byte_offset` on the `serde_json::StreamDeserializer`
/// of a byte string. What they give depends on the bytes alone, and a value has at
/// least one byte and ends within the bytes.
#[verifier::external_body]
pub(crate) fn json_stream_first(bytes: &[u8]) -> (r: FirstStep)
    ensures
        match r {
            FirstStep::Value(value, offset) => {
                &&& json_first(bytes@) == (FirstValue::Value {
                    content: json_content(value),
                    offset: offset as nat,
                })
                &&& 0 < offset <= bytes@.len()
            },
            FirstStep::Truncated => json_first(bytes@) is Truncated,
            FirstStep::Unusable => json_first(bytes@) is Unusable,
        },
{
    let mut stream = serde_json::Deserializer::from_slice(bytes).into_iter::<serde_json::Value>();
    let first = stream.next();
    let offset = stream.byte_offset();
    match first {
        Some(Ok(value)) => FirstStep::Value(value, offset),
        Some(Err(error)) if error.is_eof() => FirstStep::Truncated,
        Some(Err(_)) | None => FirstStep::Unusable,
    }
}

/// Calls `serde_json::Value::get` with a member name: the member of that name,
/// if the value is an object that has one.
#[verifier::external_body]
pub(crate) fn json_get<'a>(value: &'a serde_json::Value, key: &str) -> (r: Option<
    &'a serde_json::Value,
>)
    ensures
        match r {
            Some(found) => member(json_content(*value), key@) == Some(json_content(*found)),
            None => member(json_content(*value), key@) is None,
        },
{
    value.get(key)
}

/// Calls `serde_json::Value::as_u64`: the value as an unsigned integer, if it
/// is a nonnegative integer within `u64`.
#[verifier::external_body]
pub(crate) fn json_as_u64(value: &serde_json::Value) -> (r: Option<u64>)
    ensures
        r == unsigned_of(json_content(*value)),
{
    value.as_u64()
}

/// Calls `serde_json::Value::as_i64`: the value as a signed integer, if it is
/// an integer within `i64`.
#[verifier::external_body]
pub(crate) fn json_as_i64(value: &serde_json::Value) -> (r: Option<i64>)
    ensures
        r == signed_of(json_content(*value)),
{
    value.as_i64()
}

/// Calls `serde_json::Value::as_str`: the text, if the value is a string.
#[verifier::external_body]
pub(crate) fn json_as_str<'a>(value: &'a serde_json::Value) -> (r: Option<&'a str>)
    ensures
        match r {
            Some(text) => text_of(json_content(*value)) == Some(text@),
            None => text_of(json_content(*value)) is None,
        },
{
    value.as_str()
}

/// Calls `serde_json::Value::as_bool`: the boolean, if the value is one.
#[verifier::external_body]
pub(crate) fn json_as_bool(value: &serde_json::Value) -> (r: Option<bool>)
    ensures
        r == bool_of(json_content(*value)),
{
    value.as_bool()
}

/// Calls `serde_json::Value::is_null`: whether the value is null.
#[verifier::external_body]
pub(crate) fn json_is_null(value: &serde_json::Value) -> (r: bool)
    ensures
        r == (json_content(*value) is Null),
{
    value.is_null()
}

/// Calls `serde_json::Value::is_object`: whether the value is an object.
#[verifier::external_body]
pub(crate) fn json_is_object(value: &serde_json::Value) -> (r: bool)
    ensures
        r == (json_content(*value) is Object),
{
    value.is_object()
}

/// Calls `serde_json::Value::as_array`: the items, if the value is an array.
#[verifier::external_body]
pub(crate) fn json_as_array<'a>(value: &'a serde_json::Value) -> (r: Option<
    &'a Vec<serde_json::Value>,
>)
    ensures
        match r {
            Some(items) => json_content(*value) == Json::Array(json_contents(items@)),
            None => !(json_content(*value) is Array),
        },
{
    value.as_array()
}

/// Makes `serde_json::Value::Null`.
#[verifier::external_body]
pub(crate) fn json_null() -> (r: serde_json::Value)
    ensures
        json_content(r) == Json::Null,
{
    serde_json::Value::Null
}

/// Makes `serde_json::Value::Bool`.
#[verifier::external_body]
pub(crate) fn json_bool(value: bool) -> (r: serde_json::Value)
    ensures
        json_content(r) == Json::Bool(value),
{
    serde_json::Value::Bool(value)
}

/// Calls `serde_json::Value::from` on an unsigned integer.
#[verifier::external_body]
pub(crate) fn json_unsigned(value: u64) -> (r: serde_json::Value)
    ensures
        json_content(r) == Json::Unsigned(value),
{
    serde_json::Value::from(value)
}

/// The content that a signed integer is given.
pub open spec fn signed_json(value: i64) -> Json {
    if value >= 0 {
        Json::Unsigned(value as u64)
    } else {
        Json::Negative(value)
    }
}

/// Calls `serde_json::Value::from` on a signed integer.
#[verifier::external_body]
pub(crate) fn json_signed(value: i64) -> (r: serde_json::Value)
    ensures
        json_content(r) == signed_json(value),
{
    serde_json::Value::from(value)
}

/// Makes `serde_json::Value::String`.
#[verifier::external_body]
pub(crate) fn json_string(value: &str) -> (r: serde_json::Value)
    ensures
        json_content(r) == Json::Text(value@),
{
    serde_json::Value::String(value.to_owned())
}

/// Makes `serde_json::Value::Array`.
#[verifier::external_body]
pub(crate) fn json_array(items: Vec<serde_json::Value>) -> (r: serde_json::Value)
    ensures
        json_content(r) == Json::Array(json_contents(items@)),
{
    serde_json::Value::Array(items)
}

/// Makes an empty `serde_json::Value::Object`.
#[verifier::external_body]
pub(crate) fn json_object() -> (r: serde_json::Value)
    ensures
        json_content(r) == Json::Object(Map::empty()),
{
    serde_json::Value::Object(serde_json::Map::new())
}

/// Assigns a member through `serde_json::Value`'s `IndexMut` by name, which
/// adds the member to the object or replaces it there. On a value that is
/// neither an object nor null the call panics.
#[verifier::external_body]
pub(crate) fn json_insert(value: &mut serde_json::Value, key: &str, member: serde_json::Value)
    requires
        json_content(*old(value)) is Object,
    ensures
        json_content(*final(value)) == Json::Object(
            json_content(*old(value))->Object_0.insert(key@, json_content(member)),
        ),
{
    value[key] = member;
}

/// Reads the member `key` as an unsigned integer.
pub(crate) fn read_unsigned(value: &serde_json::Value, key: &str) -> (r: Option<u64>)
    ensures
        r == unsigned_member(json_content(*value), key@),
{
    match json_get(value, key) {
        Some(found) => json_as_u64(found),
        None => None,
    }
}

/// Reads the member `key` as text.
pub(crate) fn read_text(value: &serde_json::Value, key: &str) -> (r: Option<String>)
    ensures
        match r {
            Some(text) => text_member(json_content(*value), key@) == Some(text@),
            None => text_member(json_content(*value), key@) is None,
        },
{
    match json_get(value, key) {
        Some(found) => match json_as_str(found) {
            Some(text) => Some(text.to_owned()),
            None => None,
        },
        None => None,
    }
}

/// Reads the member `key` as a boolean.
pub(crate) fn read_bool(value: &serde_json::Value, key: &str) -> (r: Option<bool>)
    ensures
        r == bool_member(json_content(*value), key@),
{
    match json_get(value, key) {
        Some(found) => json_as_bool(found),
        None => None,
    }
}

/// A document is read as what it is, and as nothing else: a number is read as
/// itself wherever it fits, and no other document is.
pub proof fn documents_are_read_as_what_they_are(json: Json, u: u64, i: i64)
    ensures
        unsigned_of(json) == Some(u) <==> json == Json::Unsigned(u),
        i >= 0 ==> (signed_of(json) == Some(i) <==> json == Json::Unsigned(i as u64) || json
            == Json::Negative(i)),
        i < 0 ==> (signed_of(json) == Some(i) <==> json == Json::Negative(i)),
        text_of(json) is Some <==> json is Text,
        json matches Json::Text(text) ==> text_of(json) == Some(text),
        bool_of(json) is Some <==> json is Bool,
        json matches Json::Bool(truth) ==> bool_of(json) == Some(truth),
{
}

/// A member is found under its own name, and only an object has members.
pub proof fn members_are_found_under_their_names(
    members: Map<Seq<char>, Json>,
    key: Seq<char>,
    other: Seq<char>,
    value: Json,
    json: Json,
)
    ensures
        member(Json::Object(members.insert(key, value)), key) == Some(value),
        other != key ==> member(Json::Object(members.insert(key, value)), other) == member(
            Json::Object(members),
            other,
        ),
        member(Json::Object(Map::empty()), key) is None,
        !(json is Object) ==> member(json, key) is None,
        unsigned_member(Json::Object(members.insert(key, value)), key) == unsigned_of(value),
        text_member(Json::Object(members.insert(key, value)), key) == text_of(value),
        bool_member(Json::Object(members.insert(key, value)), key) == bool_of(value),
        member(json, key) is None ==> unsigned_member(json, key) is None && text_member(
            json,
            key,
        ) is None && bool_member(json, key) is None,
{
}

} // verus!
