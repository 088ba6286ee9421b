//! The durable position of a multi-resource component, and its JSON form.

use super::identity::{revision_length, ResourceSetRevision};
use crate::component_state::{ComponentStateEnvelope, EnvelopeView, PayloadView, StatePayload};
use crate::hex::{hex_bytes, hex_decode, hex_encode, hex_round_trip, hex_text, is_hex, to_array_32};
use crate::json::{
    bool_member, json_bool, json_content, json_from_slice, json_get, json_insert, json_is_null,
    json_null, json_object, json_parse, json_string, json_text, json_to_vec, json_unsigned, member,
    plain, read_bool, read_text, read_unsigned, readable_depth, text_member, unsigned_member, Json,
};
use crate::runtime::StateCodecError;
use crate::text::{copy_text, same_text};
use crate::tokens::ComponentStreamIdentity;
use vstd::array::array_as_slice;
use vstd::prelude::*;
use vstd::utf8::encode_utf8;

verus! {

/// The schema of a multi-resource position.
pub const MULTI_RESOURCE_SCHEMA: &'static str = "oxide-batch.multi-resource-position";

/// The codec of a multi-resource position.
pub const MULTI_RESOURCE_CODEC: &'static str = "oxide-batch.multi-resource-position-codec";

/// The version of both.
pub const MULTI_RESOURCE_VERSION: u32 = 1;

/// The durable columns of one delegate's state, embedded verbatim inside the
/// position of the whole resource set.
///
/// The namespace is carried along so that a restore can verify, and not merely
/// assume, that the delegate which produced these columns reported the identity
/// it was given.
pub struct DelegateEnvelopeColumns {
    /// The namespace that the delegate reported.
    pub namespace: String,
    /// The schema of the delegate's payload.
    pub schema_id: String,
    /// The version of that schema.
    pub schema_version: u32,
    /// The codec of the delegate's payload.
    pub codec_id: String,
    /// The version of that codec.
    pub codec_version: u32,
    /// The checksum algorithm.
    pub checksum_algorithm: u16,
    /// The version of the checksum algorithm.
    pub checksum_algorithm_version: u16,
    /// The checksum of the payload.
    pub checksum: [u8; 32],
    /// Whether the payload is stored elsewhere.
    pub is_external: bool,
    /// An inline payload, in hexadecimal.
    pub payload_inline_hex: Option<String>,
    /// The content identity of an external payload, in hexadecimal.
    pub payload_external_content_id_hex: Option<String>,
    /// The encoded length of an external payload.
    pub payload_external_len: Option<u64>,
}

/// The content of [`DelegateEnvelopeColumns`].
#[verifier::ext_equal]
pub struct ColumnsView {
    pub namespace: Seq<char>,
    pub schema_id: Seq<char>,
    pub schema_version: u32,
    pub codec_id: Seq<char>,
    pub codec_version: u32,
    pub checksum_algorithm: u16,
    pub checksum_algorithm_version: u16,
    pub checksum: Seq<u8>,
    pub is_external: bool,
    pub payload_inline_hex: Option<Seq<char>>,
    pub payload_external_content_id_hex: Option<Seq<char>>,
    pub payload_external_len: Option<u64>,
}

/// The content of an optional text.
pub open spec fn optional_text(text: Option<String>) -> Option<Seq<char>> {
    match text {
        Some(text) => Some(text@),
        None => None,
    }
}

impl View for DelegateEnvelopeColumns {
    type V = ColumnsView;

    open spec fn view(&self) -> ColumnsView {
        ColumnsView {
            namespace: self.namespace@,
            schema_id: self.schema_id@,
            schema_version: self.schema_version,
            codec_id: self.codec_id@,
            codec_version: self.codec_version,
            checksum_algorithm: self.checksum_algorithm,
            checksum_algorithm_version: self.checksum_algorithm_version,
            checksum: self.checksum@,
            is_external: self.is_external,
            payload_inline_hex: optional_text(self.payload_inline_hex),
            payload_external_content_id_hex: optional_text(self.payload_external_content_id_hex),
            payload_external_len: self.payload_external_len,
        }
    }
}

/// The columns that carry an envelope.
pub open spec fn columns_of(envelope: EnvelopeView) -> ColumnsView {
    ColumnsView {
        namespace: envelope.namespace,
        schema_id: envelope.schema_id,
        schema_version: envelope.schema_version,
        codec_id: envelope.codec_id,
        codec_version: envelope.codec_version,
        checksum_algorithm: envelope.checksum_algorithm,
        checksum_algorithm_version: envelope.checksum_algorithm_version,
        checksum: envelope.checksum,
        is_external: envelope.payload is External,
        payload_inline_hex: match envelope.payload {
            PayloadView::Inline(bytes) => Some(hex_text(bytes)),
            PayloadView::External { .. } => None,
        },
        payload_external_content_id_hex: match envelope.payload {
            PayloadView::Inline(_) => None,
            PayloadView::External { content_id, .. } => Some(hex_text(content_id)),
        },
        payload_external_len: match envelope.payload {
            PayloadView::Inline(_) => None,
            PayloadView::External { encoded_len, .. } => Some(encoded_len),
        },
    }
}

/// The payload that columns carry, if they carry one.
pub open spec fn payload_of(columns: ColumnsView) -> Option<PayloadView> {
    if columns.is_external {
        match (columns.payload_external_content_id_hex, columns.payload_external_len) {
            (Some(hex), Some(encoded_len)) => {
                if is_hex(encode_utf8(hex)) && hex_bytes(encode_utf8(hex)).len() == 32 {
                    Some(
                        PayloadView::External {
                            content_id: hex_bytes(encode_utf8(hex)),
                            encoded_len,
                        },
                    )
                } else {
                    None
                }
            },
            _ => None,
        }
    } else {
        match columns.payload_inline_hex {
            Some(hex) => if is_hex(encode_utf8(hex)) {
                Some(PayloadView::Inline(hex_bytes(encode_utf8(hex))))
            } else {
                None
            },
            None => None,
        }
    }
}

/// The envelope that columns carry, under the given namespace.
pub open spec fn envelope_of(columns: ColumnsView, namespace: Seq<char>) -> Option<EnvelopeView> {
    match payload_of(columns) {
        Some(payload) => Some(
            EnvelopeView {
                namespace,
                schema_id: columns.schema_id,
                schema_version: columns.schema_version,
                codec_id: columns.codec_id,
                codec_version: columns.codec_version,
                checksum_algorithm: columns.checksum_algorithm,
                checksum_algorithm_version: columns.checksum_algorithm_version,
                checksum: columns.checksum,
                payload,
            },
        ),
        None => None,
    }
}

impl DelegateEnvelopeColumns {
    /// Takes an envelope apart into its columns.
    pub fn from_envelope(envelope: &ComponentStateEnvelope) -> (r: Self)
        ensures
            r@ == columns_of(envelope@),
    {
        let mut is_external: bool = false;
        let mut inline_hex: Option<String> = None;
        let mut content_hex: Option<String> = None;
        let mut external_len: Option<u64> = None;
        match &envelope.payload {
            StatePayload::Inline(bytes) => {
                inline_hex = Some(hex_encode(bytes.as_slice()));
            },
            StatePayload::External { content_id, encoded_len } => {
                is_external = true;
                content_hex = Some(hex_encode(array_as_slice(content_id)));
                external_len = Some(*encoded_len);
            },
        }
        DelegateEnvelopeColumns {
            namespace: copy_text(envelope.namespace.as_str()),
            schema_id: copy_text(envelope.schema_id.as_str()),
            schema_version: envelope.schema_version,
            codec_id: copy_text(envelope.codec_id.as_str()),
            codec_version: envelope.codec_version,
            checksum_algorithm: envelope.checksum_algorithm,
            checksum_algorithm_version: envelope.checksum_algorithm_version,
            checksum: envelope.checksum,
            is_external,
            payload_inline_hex: inline_hex,
            payload_external_content_id_hex: content_hex,
            payload_external_len: external_len,
        }
    }

    /// Returns whether the stored namespace exactly matches the delegate
    /// identity that the opener assigned. A mismatch must be rejected.
    pub fn namespace_matches(&self, expected: &ComponentStreamIdentity) -> (r: bool)
        ensures
            r == (self@.namespace == expected@),
    {
        same_text(self.namespace.as_str(), expected.as_str())
    }

    /// Puts the envelope together again, under the given namespace; nothing if
    /// the payload columns do not spell a payload.
    pub fn to_envelope(&self, namespace: ComponentStreamIdentity) -> (r: Option<
        ComponentStateEnvelope,
    >)
        ensures
            match r {
                Some(envelope) => envelope_of(self@, namespace@) == Some(envelope@),
                None => envelope_of(self@, namespace@) is None,
            },
    {
        let payload: StatePayload;
        if self.is_external {
            let hex: &String = match &self.payload_external_content_id_hex {
                Some(hex) => hex,
                None => return None,
            };
            let bytes: Vec<u8> = match hex_decode(hex.as_str()) {
                Some(bytes) => bytes,
                None => return None,
            };
            let content_id: [u8; 32] = match to_array_32(bytes.as_slice()) {
                Some(content_id) => content_id,
                None => return None,
            };
            let encoded_len: u64 = match self.payload_external_len {
                Some(encoded_len) => encoded_len,
                None => return None,
            };
            payload = StatePayload::External { content_id, encoded_len };
        } else {
            let hex: &String = match &self.payload_inline_hex {
                Some(hex) => hex,
                None => return None,
            };
            let bytes: Vec<u8> = match hex_decode(hex.as_str()) {
                Some(bytes) => bytes,
                None => return None,
            };
            payload = StatePayload::Inline(bytes);
        }
        Some(
            ComponentStateEnvelope {
                namespace,
                schema_id: copy_text(self.schema_id.as_str()),
                schema_version: self.schema_version,
                codec_id: copy_text(self.codec_id.as_str()),
                codec_version: self.codec_version,
                checksum_algorithm: self.checksum_algorithm,
                checksum_algorithm_version: self.checksum_algorithm_version,
                checksum: self.checksum,
                payload,
            },
        )
    }
}

/// The durable position of a multi-resource component.
pub struct MultiResourceState {
    /// The fingerprint of the resource set the position belongs to.
    pub resource_set_revision: ResourceSetRevision,
    /// The ordinal of the current resource.
    pub resource_index: u32,
    /// The current resource's own position.
    pub delegate: Option<DelegateEnvelopeColumns>,
    /// Batches committed to the current resource so far, so that a rollover
    /// policy sees the true count across a restart. Zero on the reader path.
    pub resource_batches_written: u64,
}

/// The content of a [`MultiResourceState`].
#[verifier::ext_equal]
pub struct StateView {
    pub resource_set_revision: Seq<u8>,
    pub resource_index: u32,
    pub delegate: Option<ColumnsView>,
    pub resource_batches_written: u64,
}

impl View for MultiResourceState {
    type V = StateView;

    open spec fn view(&self) -> StateView {
        StateView {
            resource_set_revision: self.resource_set_revision@,
            resource_index: self.resource_index,
            delegate: match self.delegate {
                Some(columns) => Some(columns@),
                None => None,
            },
            resource_batches_written: self.resource_batches_written,
        }
    }
}

/// An optional text as JSON: null when there is none.
pub open spec fn optional_text_json(text: Option<Seq<char>>) -> Json {
    match text {
        Some(text) => Json::Text(text),
        None => Json::Null,
    }
}

/// An optional number as JSON: null when there is none.
pub open spec fn optional_number_json(number: Option<u64>) -> Json {
    match number {
        Some(number) => Json::Unsigned(number),
        None => Json::Null,
    }
}

/// Delegate columns as JSON.
pub open spec fn columns_json(columns: ColumnsView) -> Json {
    Json::Object(
        map![
            "namespace"@ => Json::Text(columns.namespace),
            "schema_id"@ => Json::Text(columns.schema_id),
            "schema_version"@ => Json::Unsigned(columns.schema_version as u64),
            "codec_id"@ => Json::Text(columns.codec_id),
            "codec_version"@ => Json::Unsigned(columns.codec_version as u64),
            "checksum_algorithm"@ => Json::Unsigned(columns.checksum_algorithm as u64),
            "checksum_algorithm_version"@ => Json::Unsigned(
                columns.checksum_algorithm_version as u64,
            ),
            "checksum"@ => Json::Text(hex_text(columns.checksum)),
            "is_external"@ => Json::Bool(columns.is_external),
            "payload_inline"@ => optional_text_json(columns.payload_inline_hex),
            "payload_external_content_id"@ => optional_text_json(
                columns.payload_external_content_id_hex,
            ),
            "payload_external_len"@ => optional_number_json(columns.payload_external_len),
        ],
    )
}

/// A position as JSON.
pub open spec fn state_json(state: StateView) -> Json {
    Json::Object(
        map![
            "resource_set_revision"@ => Json::Text(hex_text(state.resource_set_revision)),
            "resource_index"@ => Json::Unsigned(state.resource_index as u64),
            "delegate"@ => match state.delegate {
                Some(columns) => columns_json(columns),
                None => Json::Null,
            },
            "resource_batches_written"@ => Json::Unsigned(state.resource_batches_written),
        ],
    )
}

/// A text that spells 32 bytes in hexadecimal.
pub open spec fn digest_of(text: Option<Seq<char>>) -> Option<Seq<u8>> {
    match text {
        Some(hex) => if is_hex(encode_utf8(hex)) && hex_bytes(encode_utf8(hex)).len() == 32 {
            Some(hex_bytes(encode_utf8(hex)))
        } else {
            None
        },
        None => None,
    }
}

/// A number that fits 32 bits.
pub open spec fn narrow_32(number: Option<u64>) -> Option<u32> {
    match number {
        Some(number) => if number <= u32::MAX {
            Some(number as u32)
        } else {
            None
        },
        None => None,
    }
}

/// A number that fits 16 bits.
pub open spec fn narrow_16(number: Option<u64>) -> Option<u16> {
    match number {
        Some(number) => if number <= u16::MAX {
            Some(number as u16)
        } else {
            None
        },
        None => None,
    }
}

/// The delegate columns that a JSON document spells: every column must be there
/// in its own type, except the three payload columns, of which one that is
/// missing or of another type reads as none.
pub open spec fn columns_of_json(json: Json) -> Option<ColumnsView> {
    let namespace = text_member(json, "namespace"@);
    let schema_id = text_member(json, "schema_id"@);
    let schema_version = narrow_32(unsigned_member(json, "schema_version"@));
    let codec_id = text_member(json, "codec_id"@);
    let codec_version = narrow_32(unsigned_member(json, "codec_version"@));
    let algorithm = narrow_16(unsigned_member(json, "checksum_algorithm"@));
    let algorithm_version = narrow_16(unsigned_member(json, "checksum_algorithm_version"@));
    let checksum = digest_of(text_member(json, "checksum"@));
    let is_external = bool_member(json, "is_external"@);
    if namespace is Some && schema_id is Some && schema_version is Some && codec_id is Some
        && codec_version is Some && algorithm is Some && algorithm_version is Some
        && checksum is Some && is_external is Some {
        Some(
            ColumnsView {
                namespace: namespace->0,
                schema_id: schema_id->0,
                schema_version: schema_version->0,
                codec_id: codec_id->0,
                codec_version: codec_version->0,
                checksum_algorithm: algorithm->0,
                checksum_algorithm_version: algorithm_version->0,
                checksum: checksum->0,
                is_external: is_external->0,
                payload_inline_hex: text_member(json, "payload_inline"@),
                payload_external_content_id_hex: text_member(json, "payload_external_content_id"@),
                payload_external_len: unsigned_member(json, "payload_external_len"@),
            },
        )
    } else {
        None
    }
}

/// The position that a JSON document spells. A missing or null delegate is none,
/// and a missing batch count is zero.
pub open spec fn state_of_json(json: Json) -> Option<StateView> {
    let revision = digest_of(text_member(json, "resource_set_revision"@));
    let index = narrow_32(unsigned_member(json, "resource_index"@));
    let absent = match member(json, "delegate"@) {
        None => true,
        Some(delegate) => delegate is Null,
    };
    let columns = columns_of_json(member(json, "delegate"@)->0);
    if revision is Some && index is Some && (absent || columns is Some) {
        Some(
            StateView {
                resource_set_revision: revision->0,
                resource_index: index->0,
                delegate: if absent {
                    None
                } else {
                    columns
                },
                resource_batches_written: match unsigned_member(
                    json,
                    "resource_batches_written"@,
                ) {
                    Some(count) => count,
                    None => 0,
                },
            },
        )
    } else {
        None
    }
}

/// The position that durable bytes spell.
pub open spec fn state_of_bytes(bytes: Seq<u8>) -> Option<StateView> {
    match json_parse(bytes) {
        Some(json) => state_of_json(json),
        None => None,
    }
}

fn optional_text_value(text: &Option<String>) -> (r: serde_json::Value)
    ensures
        json_content(r) == optional_text_json(optional_text(*text)),
{
    match text {
        Some(text) => json_string(text.as_str()),
        None => json_null(),
    }
}

fn delegate_columns_to_json(delegate: &DelegateEnvelopeColumns) -> (r: serde_json::Value)
    ensures
        json_content(r) == columns_json(delegate@),
{
    let mut value: serde_json::Value = json_object();
    json_insert(&mut value, "namespace", json_string(delegate.namespace.as_str()));
    json_insert(&mut value, "schema_id", json_string(delegate.schema_id.as_str()));
    json_insert(&mut value, "schema_version", json_unsigned(delegate.schema_version as u64));
    json_insert(&mut value, "codec_id", json_string(delegate.codec_id.as_str()));
    json_insert(&mut value, "codec_version", json_unsigned(delegate.codec_version as u64));
    json_insert(
        &mut value,
        "checksum_algorithm",
        json_unsigned(delegate.checksum_algorithm as u64),
    );
    json_insert(
        &mut value,
        "checksum_algorithm_version",
        json_unsigned(delegate.checksum_algorithm_version as u64),
    );
    let checksum: String = hex_encode(array_as_slice(&delegate.checksum));
    json_insert(&mut value, "checksum", json_string(checksum.as_str()));
    json_insert(&mut value, "is_external", json_bool(delegate.is_external));
    json_insert(&mut value, "payload_inline", optional_text_value(&delegate.payload_inline_hex));
    json_insert(
        &mut value,
        "payload_external_content_id",
        optional_text_value(&delegate.payload_external_content_id_hex),
    );
    let length: serde_json::Value = match delegate.payload_external_len {
        Some(length) => json_unsigned(length),
        None => json_null(),
    };
    json_insert(&mut value, "payload_external_len", length);
    value
}

fn read_digest(value: &serde_json::Value, key: &str) -> (r: Option<[u8; 32]>)
    ensures
        match r {
            Some(digest) => digest_of(text_member(json_content(*value), key@)) == Some(digest@),
            None => digest_of(text_member(json_content(*value), key@)) is None,
        },
{
    match read_text(value, key) {
        Some(text) => match hex_decode(text.as_str()) {
            Some(bytes) => to_array_32(bytes.as_slice()),
            None => None,
        },
        None => None,
    }
}

fn read_u32(value: &serde_json::Value, key: &str) -> (r: Option<u32>)
    ensures
        r == narrow_32(unsigned_member(json_content(*value), key@)),
{
    match read_unsigned(value, key) {
        Some(number) => if number <= u32::MAX as u64 {
            Some(number as u32)
        } else {
            None
        },
        None => None,
    }
}

fn read_u16(value: &serde_json::Value, key: &str) -> (r: Option<u16>)
    ensures
        r == narrow_16(unsigned_member(json_content(*value), key@)),
{
    match read_unsigned(value, key) {
        Some(number) => if number <= u16::MAX as u64 {
            Some(number as u16)
        } else {
            None
        },
        None => None,
    }
}

fn delegate_columns_from_json(value: &serde_json::Value) -> (r: Option<DelegateEnvelopeColumns>)
    ensures
        match r {
            Some(columns) => columns_of_json(json_content(*value)) == Some(columns@),
            None => columns_of_json(json_content(*value)) is None,
        },
{
    let checksum: [u8; 32] = match read_digest(value, "checksum") {
        Some(checksum) => checksum,
        None => return None,
    };
    let namespace: String = match read_text(value, "namespace") {
        Some(namespace) => namespace,
        None => return None,
    };
    let schema_id: String = match read_text(value, "schema_id") {
        Some(schema_id) => schema_id,
        None => return None,
    };
    let schema_version: u32 = match read_u32(value, "schema_version") {
        Some(version) => version,
        None => return None,
    };
    let codec_id: String = match read_text(value, "codec_id") {
        Some(codec_id) => codec_id,
        None => return None,
    };
    let codec_version: u32 = match read_u32(value, "codec_version") {
        Some(version) => version,
        None => return None,
    };
    let checksum_algorithm: u16 = match read_u16(value, "checksum_algorithm") {
        Some(algorithm) => algorithm,
        None => return None,
    };
    let checksum_algorithm_version: u16 = match read_u16(value, "checksum_algorithm_version") {
        Some(version) => version,
        None => return None,
    };
    let is_external: bool = match read_bool(value, "is_external") {
        Some(is_external) => is_external,
        None => return None,
    };
    Some(
        DelegateEnvelopeColumns {
            namespace,
            schema_id,
            schema_version,
            codec_id,
            codec_version,
            checksum_algorithm,
            checksum_algorithm_version,
            checksum,
            is_external,
            payload_inline_hex: read_text(value, "payload_inline"),
            payload_external_content_id_hex: read_text(value, "payload_external_content_id"),
            payload_external_len: read_unsigned(value, "payload_external_len"),
        },
    )
}

/// The codec of a multi-resource position.
#[derive(Clone, Copy, Debug, PartialEq, Eq, Structural)]
pub struct MultiResourcePositionSchema;

impl MultiResourcePositionSchema {
    /// Writes a position as JSON bytes, which [`Self::decode`] reads back.
    pub fn encode(&self, value: &MultiResourceState) -> (r: Result<Vec<u8>, StateCodecError>)
        ensures
            r is Ok,
            r->Ok_0@ == json_text(state_json(value@)),
            state_of_bytes(r->Ok_0@) == Some(value@),
    {
        let mut json: serde_json::Value = json_object();
        let revision: String = value.resource_set_revision.to_hex();
        json_insert(&mut json, "resource_set_revision", json_string(revision.as_str()));
        json_insert(&mut json, "resource_index", json_unsigned(value.resource_index as u64));
        let delegate: serde_json::Value = match &value.delegate {
            Some(columns) => delegate_columns_to_json(columns),
            None => json_null(),
        };
        json_insert(&mut json, "delegate", delegate);
        json_insert(
            &mut json,
            "resource_batches_written",
            json_unsigned(value.resource_batches_written),
        );
        proof {
            revision_length(value.resource_set_revision);
            position_round_trip(value@);
        }
        match json_to_vec(&json) {
            Ok(bytes) => Ok(bytes),
            Err(_) => Err(StateCodecError::InvalidPayload),
        }
    }

    /// Reads a position from JSON bytes.
    pub fn decode(&self, payload: &[u8]) -> (r: Result<MultiResourceState, StateCodecError>)
        ensures
            match r {
                Ok(state) => state_of_bytes(payload@) == Some(state@),
                Err(error) => state_of_bytes(payload@) is None && error
                    == StateCodecError::InvalidPayload,
            },
    {
        let value: serde_json::Value = match json_from_slice(payload) {
            Ok(value) => value,
            Err(_) => return Err(StateCodecError::InvalidPayload),
        };
        let revision_hex: String = match read_text(&value, "resource_set_revision") {
            Some(hex) => hex,
            None => return Err(StateCodecError::InvalidPayload),
        };
        let resource_set_revision: ResourceSetRevision = match ResourceSetRevision::from_hex(
            revision_hex.as_str(),
        ) {
            Some(revision) => revision,
            None => return Err(StateCodecError::InvalidPayload),
        };
        let resource_index: u32 = match read_u32(&value, "resource_index") {
            Some(index) => index,
            None => return Err(StateCodecError::InvalidPayload),
        };
        let delegate: Option<DelegateEnvelopeColumns> = match json_get(&value, "delegate") {
            None => None,
            Some(found) => if json_is_null(found) {
                None
            } else {
                match delegate_columns_from_json(found) {
                    Some(columns) => Some(columns),
                    None => return Err(StateCodecError::InvalidPayload),
                }
            },
        };
        let resource_batches_written: u64 = match read_unsigned(&value, "resource_batches_written") {
            Some(count) => count,
            None => 0,
        };
        Ok(
            MultiResourceState {
                resource_set_revision,
                resource_index,
                delegate,
                resource_batches_written,
            },
        )
    }
}

proof fn column_names_differ()
    ensures
        ({
            let names = seq![
                "namespace"@,
                "schema_id"@,
                "schema_version"@,
                "codec_id"@,
                "codec_version"@,
                "checksum_algorithm"@,
                "checksum_algorithm_version"@,
                "checksum"@,
                "is_external"@,
                "payload_inline"@,
                "payload_external_content_id"@,
                "payload_external_len"@,
            ];
            &&& names.no_duplicates()
            &&& forall|i: int|
                0 <= i < names.len() ==> (#[trigger] names[i]).len() > 0 && names[i][0] != '$'
        }),
{
    reveal_strlit("namespace");
    reveal_strlit("schema_id");
    reveal_strlit("schema_version");
    reveal_strlit("codec_id");
    reveal_strlit("codec_version");
    reveal_strlit("checksum_algorithm");
    reveal_strlit("checksum_algorithm_version");
    reveal_strlit("checksum");
    reveal_strlit("is_external");
    reveal_strlit("payload_inline");
    reveal_strlit("payload_external_content_id");
    reveal_strlit("payload_external_len");
    assert("namespace"@.len() == 9 && "namespace"@[0] == 'n');
    assert("schema_id"@.len() == 9 && "schema_id"@[0] == 's');
    assert("schema_version"@.len() == 14 && "schema_version"@[0] == 's');
    assert("codec_id"@.len() == 8 && "codec_id"@[0] == 'c');
    assert("codec_version"@.len() == 13 && "codec_version"@[0] == 'c');
    assert("checksum_algorithm"@.len() == 18 && "checksum_algorithm"@[0] == 'c');
    assert("checksum_algorithm_version"@.len() == 26 && "checksum_algorithm_version"@[0] == 'c');
    assert("checksum"@.len() == 8 && "checksum"@[0] == 'c');
    assert("is_external"@.len() == 11 && "is_external"@[0] == 'i');
    assert("payload_inline"@.len() == 14 && "payload_inline"@[0] == 'p');
    assert("payload_external_content_id"@.len() == 27 && "payload_external_content_id"@[0] == 'p');
    assert("payload_external_len"@.len() == 20 && "payload_external_len"@[0] == 'p');
    assert("codec_id"@[1] == 'o' && "checksum"@[1] == 'h');
}

/// Delegate columns written as JSON read back as the same columns.
pub proof fn columns_round_trip(columns: ColumnsView)
    requires
        columns.checksum.len() == 32,
    ensures
        columns_of_json(columns_json(columns)) == Some(columns),
        plain(columns_json(columns), 1),
{
    column_names_differ();
    hex_round_trip(columns.checksum);
    let names = seq![
        "namespace"@,
        "schema_id"@,
        "schema_version"@,
        "codec_id"@,
        "codec_version"@,
        "checksum_algorithm"@,
        "checksum_algorithm_version"@,
        "checksum"@,
        "is_external"@,
        "payload_inline"@,
        "payload_external_content_id"@,
        "payload_external_len"@,
    ];
    assert(names[0] == "namespace"@ && names[1] == "schema_id"@ && names[2] == "schema_version"@
        && names[3] == "codec_id"@ && names[4] == "codec_version"@ && names[5]
        == "checksum_algorithm"@ && names[6] == "checksum_algorithm_version"@ && names[7]
        == "checksum"@ && names[8] == "is_external"@ && names[9] == "payload_inline"@ && names[10]
        == "payload_external_content_id"@ && names[11] == "payload_external_len"@);
    reveal_with_fuel(plain, 2);
}

/// A position written as JSON reads back as the same position, and its text is
/// one that can be read back.
pub proof fn position_round_trip(state: StateView)
    requires
        state.resource_set_revision.len() == 32,
        state.delegate matches Some(columns) ==> columns.checksum.len() == 32,
    ensures
        state_of_json(state_json(state)) == Some(state),
        plain(state_json(state), readable_depth()),
{
    hex_round_trip(state.resource_set_revision);
    reveal_strlit("resource_set_revision");
    reveal_strlit("resource_index");
    reveal_strlit("delegate");
    reveal_strlit("resource_batches_written");
    assert("resource_set_revision"@.len() == 21 && "resource_set_revision"@[0] == 'r');
    assert("resource_index"@.len() == 14 && "resource_index"@[0] == 'r');
    assert("delegate"@.len() == 8 && "delegate"@[0] == 'd');
    assert("resource_batches_written"@.len() == 24 && "resource_batches_written"@[0] == 'r');
    reveal_with_fuel(plain, 2);
    match state.delegate {
        Some(columns) => {
            columns_round_trip(columns);
            assert(member(state_json(state), "delegate"@) == Some(columns_json(columns)));
            assert(state_of_json(state_json(state))->0 =~= state);
            deeper_is_plain(columns_json(columns), 1, 99);
        },
        None => {},
    }
}

proof fn deeper_is_plain(json: Json, depth: nat, more: nat)
    requires
        plain(json, depth),
        depth <= more,
    ensures
        plain(json, more),
    decreases depth,
{
    match json {
        Json::Array(items) => {
            assert forall|i: int| 0 <= i < items.len() implies plain(
                #[trigger] items[i],
                (more - 1) as nat,
            ) by {
                deeper_is_plain(items[i], (depth - 1) as nat, (more - 1) as nat);
            }
        },
        Json::Object(members) => {
            assert forall|k: Seq<char>| #[trigger] members.contains_key(k) implies plain(
                members[k],
                (more - 1) as nat,
            ) by {
                deeper_is_plain(members[k], (depth - 1) as nat, (more - 1) as nat);
            }
        },
        _ => {},
    }
}

/// Taking an envelope apart into columns and putting it together again under
/// its own namespace gives the envelope.
pub proof fn envelope_round_trip(envelope: EnvelopeView)
    requires
        envelope.payload matches PayloadView::External { content_id, .. } ==> content_id.len()
            == 32,
    ensures
        envelope_of(columns_of(envelope), envelope.namespace) == Some(envelope),
{
    match envelope.payload {
        PayloadView::Inline(bytes) => {
            hex_round_trip(bytes);
        },
        PayloadView::External { content_id, .. } => {
            hex_round_trip(content_id);
        },
    }
}

/// The columns of an envelope are its own, each in its place: an inline payload is
/// carried in hexadecimal, an external one by its content and length.
pub proof fn columns_carry_the_envelope(
    envelope: &ComponentStateEnvelope,
    r: DelegateEnvelopeColumns,
)
    requires
        call_ensures(DelegateEnvelopeColumns::from_envelope, (envelope,), r),
    ensures
        r.namespace@ == envelope.namespace@,
        r.schema_id@ == envelope.schema_id@,
        r.schema_version == envelope.schema_version,
        r.codec_id@ == envelope.codec_id@,
        r.codec_version == envelope.codec_version,
        r.checksum_algorithm == envelope.checksum_algorithm,
        r.checksum_algorithm_version == envelope.checksum_algorithm_version,
        r.checksum@ == envelope.checksum@,
        r.is_external <==> envelope.payload is External,
        envelope.payload matches StatePayload::Inline(bytes) ==> (
        r.payload_inline_hex matches Some(hex) && hex@ == hex_text(bytes@)),
        envelope.payload matches StatePayload::External { content_id, encoded_len } ==> (
        r.payload_external_content_id_hex matches Some(hex) && hex@ == hex_text(content_id@))
            && r.payload_external_len == Some(encoded_len),
{
    assert(r@.namespace == columns_of(envelope@).namespace);
    assert(r@.checksum == columns_of(envelope@).checksum);
    assert(r@.payload_inline_hex == columns_of(envelope@).payload_inline_hex);
}

/// An envelope that was taken apart is put together again as it was.
pub proof fn an_envelope_is_put_together_again(
    envelope: &ComponentStateEnvelope,
    columns: DelegateEnvelopeColumns,
    namespace: ComponentStreamIdentity,
    r: Option<ComponentStateEnvelope>,
)
    requires
        call_ensures(DelegateEnvelopeColumns::from_envelope, (envelope,), columns),
        call_ensures(DelegateEnvelopeColumns::to_envelope, (&columns, namespace), r),
        namespace@ == envelope.namespace@,
    ensures
        r is Some,
        r->0@ == envelope@,
{
    match envelope.payload {
        StatePayload::External { content_id, .. } => {
            assert(content_id@.len() == 32);
        },
        _ => {},
    }
    envelope_round_trip(envelope@);
}

/// Columns stand in their document under their own names.
pub proof fn columns_stand_under_their_names(columns: ColumnsView)
    ensures
        ({
            let json = columns_json(columns);
            &&& text_member(json, "namespace"@) == Some(columns.namespace)
            &&& text_member(json, "schema_id"@) == Some(columns.schema_id)
            &&& unsigned_member(json, "schema_version"@) == Some(columns.schema_version as u64)
            &&& text_member(json, "codec_id"@) == Some(columns.codec_id)
            &&& unsigned_member(json, "codec_version"@) == Some(columns.codec_version as u64)
            &&& unsigned_member(json, "checksum_algorithm"@) == Some(
                columns.checksum_algorithm as u64,
            )
            &&& unsigned_member(json, "checksum_algorithm_version"@) == Some(
                columns.checksum_algorithm_version as u64,
            )
            &&& text_member(json, "checksum"@) == Some(hex_text(columns.checksum))
            &&& bool_member(json, "is_external"@) == Some(columns.is_external)
            &&& text_member(json, "payload_inline"@) == columns.payload_inline_hex
            &&& text_member(json, "payload_external_content_id"@)
                == columns.payload_external_content_id_hex
            &&& unsigned_member(json, "payload_external_len"@) == columns.payload_external_len
        }),
{
    column_names_differ();
    let names = seq![
        "namespace"@,
        "schema_id"@,
        "schema_version"@,
        "codec_id"@,
        "codec_version"@,
        "checksum_algorithm"@,
        "checksum_algorithm_version"@,
        "checksum"@,
        "is_external"@,
        "payload_inline"@,
        "payload_external_content_id"@,
        "payload_external_len"@,
    ];
    assert(forall|i: int, j: int|
        0 <= i < 12 && 0 <= j < 12 && i != j ==> #[trigger] names[i] != #[trigger] names[j]);
    assert(names[0] == "namespace"@ && names[1] == "schema_id"@ && names[2] == "schema_version"@);
    assert(names[3] == "codec_id"@ && names[4] == "codec_version"@);
    assert(names[5] == "checksum_algorithm"@ && names[6] == "checksum_algorithm_version"@);
    assert(names[7] == "checksum"@ && names[8] == "is_external"@ && names[9] == "payload_inline"@);
    assert(names[10] == "payload_external_content_id"@ && names[11] == "payload_external_len"@);
}

/// A position stands in its document under its own names.
pub proof fn positions_stand_under_their_names(state: StateView)
    ensures
        ({
            let json = state_json(state);
            &&& text_member(json, "resource_set_revision"@) == Some(
                hex_text(state.resource_set_revision),
            )
            &&& unsigned_member(json, "resource_index"@) == Some(state.resource_index as u64)
            &&& unsigned_member(json, "resource_batches_written"@) == Some(
                state.resource_batches_written,
            )
            &&& member(json, "delegate"@) == Some(
                match state.delegate {
                    Some(columns) => columns_json(columns),
                    None => Json::Null,
                },
            )
        }),
{
    reveal_strlit("resource_set_revision");
    reveal_strlit("resource_index");
    reveal_strlit("delegate");
    reveal_strlit("resource_batches_written");
    assert("resource_set_revision"@.len() == 21);
    assert("resource_index"@.len() == 14);
    assert("delegate"@.len() == 8);
    assert("resource_batches_written"@.len() == 24);
}

/// A document without a revision or an ordinal, or with an ordinal that does not
/// fit 32 bits, is no position; one without a batch count has written none.
pub proof fn a_position_needs_its_ordinal(json: Json)
    ensures
        text_member(json, "resource_set_revision"@) is None ==> state_of_json(json) is None,
        unsigned_member(json, "resource_index"@) is None ==> state_of_json(json) is None,
        unsigned_member(json, "resource_index"@) matches Some(index)
            ==> (state_of_json(json) is Some
            ==> state_of_json(json)->0.resource_index == index),
        state_of_json(json) is Some && unsigned_member(json, "resource_batches_written"@) is None
            ==> state_of_json(json)->0.resource_batches_written == 0,
        state_of_json(json) is Some && member(json, "delegate"@) is None ==> state_of_json(
            json,
        )->0.delegate is None,
{
}

/// A position that was written is read back.
pub proof fn multi_resource_positions_are_read_back(
    value: &MultiResourceState,
    written: Result<Vec<u8>, StateCodecError>,
    payload: &[u8],
    read: Result<MultiResourceState, StateCodecError>,
)
    requires
        call_ensures(
            MultiResourcePositionSchema::encode,
            (&MultiResourcePositionSchema, value),
            written,
        ),
        call_ensures(
            MultiResourcePositionSchema::decode,
            (&MultiResourcePositionSchema, payload),
            read,
        ),
    ensures
        written is Ok,
        payload@ == written->Ok_0@ ==> read is Ok && read->Ok_0@ == value@,
        json_parse(payload@) is None ==> read is Err,
{
}

/// Only the assigned namespace is accepted.
pub proof fn only_the_assigned_namespace_matches(
    columns: &DelegateEnvelopeColumns,
    expected: &ComponentStreamIdentity,
    r: bool,
)
    requires
        call_ensures(DelegateEnvelopeColumns::namespace_matches, (columns, expected), r),
    ensures
        r <==> columns.namespace@ == expected@,
{
    assert(columns@.namespace == columns.namespace@);
}

/// The names under which positions are stored, which a restart finds them by.
pub proof fn multi_resource_positions_are_stored_under_these_names()
    ensures
        MULTI_RESOURCE_SCHEMA@ == "oxide-batch.multi-resource-position"@,
        MULTI_RESOURCE_CODEC@ == "oxide-batch.multi-resource-position-codec"@,
        MULTI_RESOURCE_VERSION == 1,
{
}

} // verus!
