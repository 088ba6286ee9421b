//! Committed positions within one object as durable JSON payloads.

use super::identity::{token_text, ObjectVersionToken};
use crate::json::{
    json_as_str, json_content, json_from_slice, json_get, json_insert, json_is_null, json_null,
    json_object, json_parse, json_string, json_text, json_to_vec, json_unsigned, member, plain,
    read_unsigned, readable_depth, unsigned_member, Json,
};
use crate::runtime::StateCodecError;
use vstd::prelude::*;

verus! {

/// The schema of a reader's position.
pub const OBJECT_READ_SCHEMA: &'static str = "oxide-batch.object-store-read-position";

/// The codec of a reader's position.
pub const OBJECT_READ_CODEC: &'static str = "oxide-batch.object-store-read-position-codec";

/// The schema of a writer's position.
pub const OBJECT_WRITE_SCHEMA: &'static str = "oxide-batch.object-store-write-position";

/// The codec of a writer's position.
pub const OBJECT_WRITE_CODEC: &'static str = "oxide-batch.object-store-write-position-codec";

/// A position by its content: how many items, of which version of the object.
#[verifier::ext_equal]
pub struct ObjectPositionView {
    pub items: u64,
    pub token: Option<Seq<char>>,
}

/// An optional token as JSON.
pub open spec fn token_json(token: Option<Seq<char>>) -> Json {
    match token {
        Some(text) => Json::Text(text),
        None => Json::Null,
    }
}

/// A position as JSON, with the number under `key`.
pub open spec fn object_position_json(key: Seq<char>, position: ObjectPositionView) -> Json {
    Json::Object(
        map![
            key => Json::Unsigned(position.items),
            "version_token"@ => token_json(position.token),
        ],
    )
}

/// The token that a JSON value spells: null is no token, and nothing but null
/// and text spells one.
pub open spec fn token_of(json: Json) -> Option<Option<Seq<char>>> {
    match json {
        Json::Null => Some(None),
        Json::Text(text) => Some(Some(text)),
        _ => None,
    }
}

/// The position that a reader's durable bytes spell. A missing token is no
/// token.
pub open spec fn read_position_of_bytes(bytes: Seq<u8>) -> Option<ObjectPositionView> {
    match json_parse(bytes) {
        None => None,
        Some(json) => match unsigned_member(json, "item_ordinal"@) {
            None => None,
            Some(items) => match member(json, "version_token"@) {
                None => Some(ObjectPositionView { items, token: None }),
                Some(token) => match token_of(token) {
                    None => None,
                    Some(token) => Some(ObjectPositionView { items, token }),
                },
            },
        },
    }
}

/// The position that a writer's durable bytes spell. The token must be there.
pub open spec fn write_position_of_bytes(bytes: Seq<u8>) -> Option<ObjectPositionView> {
    match json_parse(bytes) {
        None => None,
        Some(json) => match unsigned_member(json, "committed_item_count"@) {
            None => None,
            Some(items) => match member(json, "version_token"@) {
                None => None,
                Some(token) => match token_of(token) {
                    None => None,
                    Some(token) => Some(ObjectPositionView { items, token }),
                },
            },
        },
    }
}

/// A reader's position within one object.
#[derive(Debug, PartialEq, Eq)]
pub struct ObjectReadPosition {
    /// How many items were read.
    pub item_ordinal: u64,
    /// The version of the object they were read from.
    pub version_token: Option<ObjectVersionToken>,
}

impl View for ObjectReadPosition {
    type V = ObjectPositionView;

    open spec fn view(&self) -> ObjectPositionView {
        ObjectPositionView { items: self.item_ordinal, token: token_text(self.version_token) }
    }
}

/// A writer's position within one object.
#[derive(Debug, PartialEq, Eq)]
pub struct ObjectWritePosition {
    /// How many items are in the object.
    pub committed_item_count: u64,
    /// The version of the object that holds them.
    pub version_token: Option<ObjectVersionToken>,
}

impl View for ObjectWritePosition {
    type V = ObjectPositionView;

    open spec fn view(&self) -> ObjectPositionView {
        ObjectPositionView {
            items: self.committed_item_count,
            token: token_text(self.version_token),
        }
    }
}

/// Writes a number and an optional token.
fn encode_position(key: &str, items: u64, token: &Option<ObjectVersionToken>) -> (r: Result<
    Vec<u8>,
    StateCodecError,
>)
    requires
        key@ == "item_ordinal"@ || key@ == "committed_item_count"@,
    ensures
        r is Ok,
        r->Ok_0@ == json_text(
            object_position_json(
                key@,
                (ObjectPositionView { items, token: token_text(*token) }),
            ),
        ),
        json_parse(r->Ok_0@) == Some(
            object_position_json(
                key@,
                (ObjectPositionView { items, token: token_text(*token) }),
            ),
        ),
        key@ != "version_token"@,
{
    let mut value: serde_json::Value = json_object();
    json_insert(&mut value, key, json_unsigned(items));
    match token {
        Some(token) => json_insert(&mut value, "version_token", json_string(token.as_str())),
        None => json_insert(&mut value, "version_token", json_null()),
    }
    proof {
        reveal_strlit("item_ordinal");
        reveal_strlit("committed_item_count");
        reveal_strlit("version_token");
        assert("item_ordinal"@[0] == 'i');
        assert("committed_item_count"@[0] == 'c');
        assert("version_token"@[0] == 'v');
        reveal_with_fuel(plain, 2);
        assert(plain(json_content(value), readable_depth()));
    }
    match json_to_vec(&value) {
        Ok(bytes) => Ok(bytes),
        Err(_) => Err(StateCodecError::InvalidPayload),
    }
}

/// Reads a token from the value of its member.
fn decode_token(value: &serde_json::Value) -> (r: Option<Option<ObjectVersionToken>>)
    ensures
        match r {
            Some(token) => token_of(json_content(*value)) == Some(token_text(token)),
            None => token_of(json_content(*value)) is None,
        },
{
    if json_is_null(value) {
        return Some(None);
    }
    match json_as_str(value) {
        Some(text) => Some(Some(ObjectVersionToken::new(text))),
        None => None,
    }
}

/// The codec of a reader's position.
#[derive(Clone, Copy, Debug, PartialEq, Eq, Structural)]
pub struct ObjectReadPositionSchema;

impl ObjectReadPositionSchema {
    /// Writes a position, which [`Self::decode`] reads back.
    pub fn encode(&self, value: &ObjectReadPosition) -> (r: Result<Vec<u8>, StateCodecError>)
        ensures
            r is Ok,
            r->Ok_0@ == json_text(object_position_json("item_ordinal"@, value@)),
            read_position_of_bytes(r->Ok_0@) == Some(value@),
    {
        encode_position("item_ordinal", value.item_ordinal, &value.version_token)
    }

    /// Reads a position.
    pub fn decode(&self, payload: &[u8]) -> (r: Result<ObjectReadPosition, StateCodecError>)
        ensures
            match r {
                Ok(position) => read_position_of_bytes(payload@) == Some(position@),
                Err(error) => read_position_of_bytes(payload@) is None && error
                    == StateCodecError::InvalidPayload,
            },
    {
        let value: serde_json::Value = match json_from_slice(payload) {
            Ok(value) => value,
            Err(_) => return Err(StateCodecError::InvalidPayload),
        };
        let item_ordinal: u64 = match read_unsigned(&value, "item_ordinal") {
            Some(number) => number,
            None => return Err(StateCodecError::InvalidPayload),
        };
        match json_get(&value, "version_token") {
            None => Ok(ObjectReadPosition { item_ordinal, version_token: None }),
            Some(token) => match decode_token(token) {
                Some(version_token) => Ok(ObjectReadPosition { item_ordinal, version_token }),
                None => Err(StateCodecError::InvalidPayload),
            },
        }
    }
}

/// The codec of a writer's position.
#[derive(Clone, Copy, Debug, PartialEq, Eq, Structural)]
pub struct ObjectWritePositionSchema;

impl ObjectWritePositionSchema {
    /// Writes a position, which [`Self::decode`] reads back.
    pub fn encode(&self, value: &ObjectWritePosition) -> (r: Result<Vec<u8>, StateCodecError>)
        ensures
            r is Ok,
            r->Ok_0@ == json_text(object_position_json("committed_item_count"@, value@)),
            write_position_of_bytes(r->Ok_0@) == Some(value@),
    {
        encode_position("committed_item_count", value.committed_item_count, &value.version_token)
    }

    /// Reads a position.
    pub fn decode(&self, payload: &[u8]) -> (r: Result<ObjectWritePosition, StateCodecError>)
        ensures
            match r {
                Ok(position) => write_position_of_bytes(payload@) == Some(position@),
                Err(error) => write_position_of_bytes(payload@) is None && error
                    == StateCodecError::InvalidPayload,
            },
    {
        let value: serde_json::Value = match json_from_slice(payload) {
            Ok(value) => value,
            Err(_) => return Err(StateCodecError::InvalidPayload),
        };
        let committed_item_count: u64 = match read_unsigned(&value, "committed_item_count") {
            Some(number) => number,
            None => return Err(StateCodecError::InvalidPayload),
        };
        match json_get(&value, "version_token") {
            None => Err(StateCodecError::InvalidPayload),
            Some(token) => match decode_token(token) {
                Some(version_token) => Ok(
                    ObjectWritePosition { committed_item_count, version_token },
                ),
                None => Err(StateCodecError::InvalidPayload),
            },
        }
    }
}

/// The object fetched now is proven to be the one a position was recorded
/// against: both versions are known and the same. Two missing tokens prove
/// nothing.
pub open spec fn proven_identical(then: Option<Seq<char>>, now: Option<Seq<char>>) -> bool {
    then is Some && then == now
}

/// Reports whether the object fetched now is proven to be the one a position was
/// recorded against.
pub(crate) fn is_proven_identical(
    then: &Option<ObjectVersionToken>,
    now: &Option<ObjectVersionToken>,
) -> (r: bool)
    ensures
        r == proven_identical(token_text(*then), token_text(*now)),
{
    match (then, now) {
        (Some(then), Some(now)) => then.same(now),
        _ => false,
    }
}

/// A position is told by its JSON: its number stands under the given name and its
/// token under its own, and a token that is not known is null.
pub proof fn an_object_position_is_told_by_its_json(key: Seq<char>, position: ObjectPositionView)
    requires
        key != "version_token"@,
    ensures
        unsigned_member(object_position_json(key, position), key) == Some(position.items),
        position.token is None <==> member(object_position_json(key, position), "version_token"@)
            == Some(Json::Null),
        position.token matches Some(token) ==> member(
            object_position_json(key, position),
            "version_token"@,
        ) == Some(Json::Text(token)),
{
}

/// A position that was written is read back. A token that is neither text nor null
/// is refused, and a reader's position may lack it.
pub proof fn read_positions_are_read_back(
    value: &ObjectReadPosition,
    written: Result<Vec<u8>, StateCodecError>,
    payload: &[u8],
    read: Result<ObjectReadPosition, StateCodecError>,
    json: Json,
)
    requires
        call_ensures(ObjectReadPositionSchema::encode, (&ObjectReadPositionSchema, value), written),
        call_ensures(ObjectReadPositionSchema::decode, (&ObjectReadPositionSchema, payload), read),
    ensures
        written is Ok,
        payload@ == written->Ok_0@ ==> read is Ok && read->Ok_0@ == value@,
        json_parse(payload@) is None ==> read is Err,
        json_parse(payload@) == Some(json) ==> (read is Ok <==> unsigned_member(
            json,
            "item_ordinal"@,
        ) is Some && (member(json, "version_token"@) matches Some(token) ==> token is Text || token
            is Null)),
{
}

/// The same of a writer's position, which must have its token.
pub proof fn write_positions_are_read_back(
    value: &ObjectWritePosition,
    written: Result<Vec<u8>, StateCodecError>,
    payload: &[u8],
    read: Result<ObjectWritePosition, StateCodecError>,
    json: Json,
)
    requires
        call_ensures(
            ObjectWritePositionSchema::encode,
            (&ObjectWritePositionSchema, value),
            written,
        ),
        call_ensures(ObjectWritePositionSchema::decode, (&ObjectWritePositionSchema, payload), read),
    ensures
        written is Ok,
        payload@ == written->Ok_0@ ==> read is Ok && read->Ok_0@ == value@,
        json_parse(payload@) is None ==> read is Err,
        json_parse(payload@) == Some(json) ==> (read is Ok <==> unsigned_member(
            json,
            "committed_item_count"@,
        ) is Some && (member(json, "version_token"@) matches Some(token) && (token is Text || token
            is Null))),
{
}

/// Only two known and equal versions prove that an object is the same.
pub proof fn only_known_versions_prove_anything(then: Seq<char>, now: Option<Seq<char>>)
    ensures
        proven_identical(Some(then), now) <==> now == Some(then),
        !proven_identical(None, now),
{
}

/// The names under which positions are stored, which a restart finds them by.
pub proof fn object_positions_are_stored_under_these_names()
    ensures
        OBJECT_READ_SCHEMA@ == "oxide-batch.object-store-read-position"@,
        OBJECT_READ_CODEC@ == "oxide-batch.object-store-read-position-codec"@,
        OBJECT_WRITE_SCHEMA@ == "oxide-batch.object-store-write-position"@,
        OBJECT_WRITE_CODEC@ == "oxide-batch.object-store-write-position-codec"@,
{
}

} // verus!
