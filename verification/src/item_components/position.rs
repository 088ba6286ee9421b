//! Byte positions as durable JSON payloads.

use crate::json::{
    json_content, json_from_slice, json_insert, json_object, json_parse, json_text, json_to_vec,
    json_unsigned, plain, plain_name, read_unsigned, unsigned_member, Json,
};
use crate::runtime::StateCodecError;
use vstd::prelude::*;

verus! {

/// A document with one number.
pub open spec fn number_json(key: Seq<char>, number: u64) -> Json {
    Json::Object(map![key => Json::Unsigned(number)])
}

/// The number that durable bytes hold under a key.
pub open spec fn number_of_bytes(bytes: Seq<u8>, key: Seq<char>) -> Option<u64> {
    match json_parse(bytes) {
        Some(json) => unsigned_member(json, key),
        None => None,
    }
}

/// Writes one number under a key.
fn encode_number(key: &str, number: u64) -> (r: Result<Vec<u8>, StateCodecError>)
    requires
        plain_name(key@),
    ensures
        r is Ok,
        r->Ok_0@ == json_text(number_json(key@, number)),
        number_of_bytes(r->Ok_0@, key@) == Some(number),
{
    let mut value: serde_json::Value = json_object();
    json_insert(&mut value, key, json_unsigned(number));
    proof {
        reveal_with_fuel(plain, 2);
        assert(json_content(value) == number_json(key@, number));
    }
    match json_to_vec(&value) {
        Ok(bytes) => Ok(bytes),
        Err(_) => Err(StateCodecError::InvalidPayload),
    }
}

/// Reads the number under a key.
fn decode_number(key: &str, payload: &[u8]) -> (r: Result<u64, StateCodecError>)
    ensures
        match r {
            Ok(number) => number_of_bytes(payload@, key@) == Some(number),
            Err(error) => number_of_bytes(payload@, key@) is None && error
                == StateCodecError::InvalidPayload,
        },
{
    match json_from_slice(payload) {
        Err(_) => Err(StateCodecError::InvalidPayload),
        Ok(value) => match read_unsigned(&value, key) {
            Some(number) => Ok(number),
            None => Err(StateCodecError::InvalidPayload),
        },
    }
}

/// The codec of a reader's byte offset.
#[derive(Clone, Copy, Debug, PartialEq, Eq, Structural)]
pub struct ReaderPositionSchema;

impl ReaderPositionSchema {
    /// Writes a byte offset, which [`Self::decode`] reads back.
    pub fn encode(&self, value: u64) -> (r: Result<Vec<u8>, StateCodecError>)
        ensures
            r is Ok,
            r->Ok_0@ == json_text(number_json("byte"@, value)),
            number_of_bytes(r->Ok_0@, "byte"@) == Some(value),
    {
        proof {
            reveal_strlit("byte");
        }
        encode_number("byte", value)
    }

    /// Reads a byte offset.
    pub fn decode(&self, payload: &[u8]) -> (r: Result<u64, StateCodecError>)
        ensures
            match r {
                Ok(number) => number_of_bytes(payload@, "byte"@) == Some(number),
                Err(error) => number_of_bytes(payload@, "byte"@) is None && error
                    == StateCodecError::InvalidPayload,
            },
    {
        decode_number("byte", payload)
    }
}

/// The codec of a writer's committed length.
#[derive(Clone, Copy, Debug, PartialEq, Eq, Structural)]
pub struct WriterPositionSchema;

impl WriterPositionSchema {
    /// Writes a committed length, which [`Self::decode`] reads back.
    pub fn encode(&self, value: u64) -> (r: Result<Vec<u8>, StateCodecError>)
        ensures
            r is Ok,
            r->Ok_0@ == json_text(number_json("committed_bytes"@, value)),
            number_of_bytes(r->Ok_0@, "committed_bytes"@) == Some(value),
    {
        proof {
            reveal_strlit("committed_bytes");
        }
        encode_number("committed_bytes", value)
    }

    /// Reads a committed length.
    pub fn decode(&self, payload: &[u8]) -> (r: Result<u64, StateCodecError>)
        ensures
            match r {
                Ok(number) => number_of_bytes(payload@, "committed_bytes"@) == Some(number),
                Err(error) => number_of_bytes(payload@, "committed_bytes"@) is None && error
                    == StateCodecError::InvalidPayload,
            },
    {
        decode_number("committed_bytes", payload)
    }
}

/// A number is kept under its key as it is, and is read back from what was
/// written under that key alone.
pub proof fn a_number_is_kept_under_its_key(key: Seq<char>, other: Seq<char>, number: u64)
    ensures
        unsigned_member(number_json(key, number), key) == Some(number),
        other != key ==> unsigned_member(number_json(key, number), other) is None,
{
}

/// A position that was written is read back, and no position is read from what
/// holds no number under the codec's key.
pub proof fn positions_are_read_back(
    value: u64,
    written: Result<Vec<u8>, StateCodecError>,
    payload: &[u8],
    read: Result<u64, StateCodecError>,
)
    requires
        call_ensures(ReaderPositionSchema::encode, (&ReaderPositionSchema, value), written),
        call_ensures(ReaderPositionSchema::decode, (&ReaderPositionSchema, payload), read),
    ensures
        written is Ok,
        payload@ == written->Ok_0@ ==> read == Ok::<u64, StateCodecError>(value),
        json_parse(payload@) is None ==> read == Err::<u64, StateCodecError>(
            StateCodecError::InvalidPayload,
        ),
        json_parse(payload@) matches Some(json) ==> (read is Ok <==> unsigned_member(
            json,
            "byte"@,
        ) is Some),
{
}

/// The same of committed lengths.
pub proof fn lengths_are_read_back(
    value: u64,
    written: Result<Vec<u8>, StateCodecError>,
    payload: &[u8],
    read: Result<u64, StateCodecError>,
)
    requires
        call_ensures(WriterPositionSchema::encode, (&WriterPositionSchema, value), written),
        call_ensures(WriterPositionSchema::decode, (&WriterPositionSchema, payload), read),
    ensures
        written is Ok,
        payload@ == written->Ok_0@ ==> read == Ok::<u64, StateCodecError>(value),
        json_parse(payload@) is None ==> read == Err::<u64, StateCodecError>(
            StateCodecError::InvalidPayload,
        ),
        json_parse(payload@) matches Some(json) ==> (read is Ok <==> unsigned_member(
            json,
            "committed_bytes"@,
        ) is Some),
{
}

} // verus!
