//! The durable columns of one component's committed state.

use crate::tokens::ComponentStreamIdentity;
use vstd::prelude::*;

verus! {

/// A durable payload: held in the record, or stored elsewhere under the
/// identity of its content.
#[derive(Debug, PartialEq, Eq)]
pub enum StatePayload {
    /// The encoded bytes.
    Inline(Vec<u8>),
    /// A reference to bytes stored elsewhere.
    External {
        /// The identity of the content.
        content_id: [u8; 32],
        /// The encoded length of the content.
        encoded_len: u64,
    },
}

/// The content of a [`StatePayload`].
pub enum PayloadView {
    Inline(Seq<u8>),
    External { content_id: Seq<u8>, encoded_len: u64 },
}

impl View for StatePayload {
    type V = PayloadView;

    open spec fn view(&self) -> PayloadView {
        match self {
            StatePayload::Inline(bytes) => PayloadView::Inline(bytes@),
            StatePayload::External { content_id, encoded_len } => PayloadView::External {
                content_id: content_id@,
                encoded_len: *encoded_len,
            },
        }
    }
}

/// Every durable column of a component's committed state.
#[derive(Debug, PartialEq, Eq)]
pub struct ComponentStateEnvelope {
    /// The namespace the state belongs to.
    pub namespace: ComponentStreamIdentity,
    /// The schema of the payload.
    pub schema_id: String,
    /// The version of the schema.
    pub schema_version: u32,
    /// The codec that wrote the payload.
    pub codec_id: String,
    /// The version of the codec.
    pub codec_version: u32,
    /// The checksum algorithm.
    pub checksum_algorithm: u16,
    /// The version of the checksum algorithm.
    pub checksum_algorithm_version: u16,
    /// The checksum of the payload.
    pub checksum: [u8; 32],
    /// The payload.
    pub payload: StatePayload,
}

/// The content of a [`ComponentStateEnvelope`].
#[verifier::ext_equal]
pub struct EnvelopeView {
    pub namespace: Seq<char>,
    pub schema_id: Seq<char>,
    pub schema_version: u32,
    pub codec_id: Seq<char>,
    pub codec_version: u32,
    pub checksum_algorithm: u16,
    pub checksum_algorithm_version: u16,
    pub checksum: Seq<u8>,
    pub payload: PayloadView,
}

impl View for ComponentStateEnvelope {
    type V = EnvelopeView;

    open spec fn view(&self) -> EnvelopeView {
        EnvelopeView {
            namespace: self.namespace@,
            schema_id: self.schema_id@,
            schema_version: self.schema_version,
            codec_id: self.codec_id@,
            codec_version: self.codec_version,
            checksum_algorithm: self.checksum_algorithm,
            checksum_algorithm_version: self.checksum_algorithm_version,
            checksum: self.checksum@,
            payload: self.payload@,
        }
    }
}

} // verus!
