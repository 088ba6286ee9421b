//! Accumulating items in one object.
//!
//! Putting an object replaces it as a whole, so a writer keeps what it has
//! written and puts it again, with the new items behind it, on every write.

use super::identity::{
    copy_token, token_text, ObjectIdentity, ObjectMetadata, ObjectStoreError, ObjectVersionToken,
};
use super::position::{
    is_proven_identical, object_position_json, proven_identical, write_position_of_bytes,
    ObjectPositionView, ObjectWritePosition, ObjectWritePositionSchema,
};
use super::reader::{failed_open, identify_object, object_of_resource};
use crate::item_components::multi_resource::error::MultiResourceOpenError;
use crate::item_components::multi_resource::identity::ResourceIdentity;
use crate::item_stream::{
    StreamCloseError, StreamCloseOutcome, StreamOpenError, StreamOpenOutcome, StreamUpdateError,
};
use crate::json::json_text;
use crate::runtime::{FailureCategory, StopToken, WriteOutcome, WriterError};
use crate::text::append_bytes;
use vstd::prelude::*;

verus! {

/// What a writer has put so far.
pub struct WriteAccumulator {
    /// The bytes of the object.
    pub bytes: Vec<u8>,
    /// How many items they hold.
    pub committed_item_count: u64,
    /// The version that the backend gave the object.
    pub version_token: Option<ObjectVersionToken>,
}

/// An accumulator by its content.
#[verifier::ext_equal]
pub struct AccumulatorView {
    pub bytes: Seq<u8>,
    pub items: u64,
    pub token: Option<Seq<char>>,
}

impl View for WriteAccumulator {
    type V = AccumulatorView;

    open spec fn view(&self) -> AccumulatorView {
        AccumulatorView {
            bytes: self.bytes@,
            items: self.committed_item_count,
            token: token_text(self.version_token),
        }
    }
}

/// The accumulator of an object without items.
pub open spec fn empty_accumulator() -> AccumulatorView {
    AccumulatorView { bytes: Seq::empty(), items: 0, token: None }
}

/// Encoded items, one after the other.
pub open spec fn joined(chunks: Seq<Vec<u8>>) -> Seq<u8>
    decreases chunks.len(),
{
    if chunks.len() == 0 {
        Seq::empty()
    } else {
        joined(chunks.drop_last()) + chunks.last()@
    }
}

/// The chunks are encodings of the first items.
pub open spec fn encodes<O, S: Fn(&O) -> Vec<u8>>(
    serialize: S,
    items: Seq<O>,
    chunks: Seq<Vec<u8>>,
) -> bool {
    &&& chunks.len() <= items.len()
    &&& forall|i: int|
        0 <= i < chunks.len() ==> call_ensures(serialize, (&items[i],), #[trigger] chunks[i])
}

/// What a write is waiting for: how long the object was, and how many items were
/// put behind it.
#[derive(Clone, Copy, Debug, PartialEq, Eq, Structural)]
pub struct PendingPut {
    /// The length of the object before the write.
    pub original_len: usize,
    /// The number of items of the write.
    pub item_count: u64,
}

/// The next step of a write.
#[derive(Clone, Copy, Debug, PartialEq, Eq)]
pub enum ObjectWriteAction {
    /// The write is over.
    Return(Result<WriteOutcome, WriterError>),
    /// Put the accumulator's bytes and report what came of it.
    Put(PendingPut),
}

/// A restartable writer that accumulates serialised items in memory and puts the
/// whole object on every write.
///
/// If the process ends between a successful put and the runtime's own durable
/// commit, the object holds items whose commit never happened. The version of
/// such a put was never recorded, so a restart is refused; recovering from that
/// state is an operational decision.
#[derive(Debug, PartialEq, Eq)]
pub struct ObjectItemWriter {
    /// The object to put.
    pub id: ObjectIdentity,
    /// The largest object that is put.
    pub max_object_bytes: usize,
}

impl ObjectItemWriter {
    /// Puts the encoded items behind the object, unless the write is to stop. An
    /// item that takes the object past its limit ends the write before it is
    /// appended; the object is then as it was, and no later item was encoded.
    pub fn write<O, S: Fn(&O) -> Vec<u8>>(
        &self,
        accumulator: &mut WriteAccumulator,
        items: &[O],
        stop: &StopToken,
        serialize: S,
    ) -> (r: ObjectWriteAction)
        requires
            forall|item: &O| #[trigger] call_requires(serialize, (item,)),
        ensures
            if stop.requested {
                &&& final(accumulator)@ == old(accumulator)@
                &&& r == ObjectWriteAction::Return(Ok(WriteOutcome::Stopped))
            } else {
                match r {
                    ObjectWriteAction::Put(pending) => {
                        &&& pending.original_len == old(accumulator)@.bytes.len()
                        &&& pending.item_count == items@.len()
                        &&& items@.len() > 0 ==> final(accumulator)@.bytes.len()
                            <= self.max_object_bytes
                        &&& exists|chunks: Seq<Vec<u8>>|
                            {
                                &&& #[trigger] encodes(serialize, items@, chunks)
                                &&& chunks.len() == items@.len()
                                &&& final(accumulator)@ == (AccumulatorView {
                                    bytes: old(accumulator)@.bytes + joined(chunks),
                                    ..old(accumulator)@
                                })
                            }
                    },
                    ObjectWriteAction::Return(outcome) => {
                        &&& outcome == Err::<WriteOutcome, WriterError>(
                            WriterError {
                                category: FailureCategory::Invariant,
                                rolled_back_output: None,
                            },
                        )
                        &&& final(accumulator)@ == old(accumulator)@
                        &&& exists|chunks: Seq<Vec<u8>>|
                            {
                                &&& #[trigger] encodes(serialize, items@, chunks)
                                &&& chunks.len() > 0
                                &&& old(accumulator)@.bytes.len() + joined(chunks).len()
                                    > self.max_object_bytes
                                &&& chunks.len() > 1 ==> old(accumulator)@.bytes.len() + joined(
                                    chunks.drop_last(),
                                ).len() <= self.max_object_bytes
                            }
                    },
                }
            },
    {
        if stop.is_stop_requested() {
            return ObjectWriteAction::Return(Ok(WriteOutcome::Stopped));
        }
        let original_len: usize = accumulator.bytes.len();
        let ghost before = accumulator@;
        let ghost mut chunks: Seq<Vec<u8>> = Seq::empty();
        let mut i: usize = 0;
        assert(before.bytes + joined(chunks) =~= before.bytes);
        while i < items.len()
            invariant
                i <= items@.len(),
                chunks.len() == i,
                encodes(serialize, items@, chunks),
                forall|item: &O| #[trigger] call_requires(serialize, (item,)),
                original_len == before.bytes.len(),
                accumulator@ == (AccumulatorView {
                    bytes: before.bytes + joined(chunks),
                    ..before
                }),
                i > 0 ==> accumulator@.bytes.len() <= self.max_object_bytes,
                before == old(accumulator)@,
                !stop.requested,
            decreases items.len() - i,
        {
            let chunk: Vec<u8> = serialize(&items[i]);
            let ghost longer = chunks.push(chunk);
            let length: usize = accumulator.bytes.len();
            proof {
                assert(longer.drop_last() =~= chunks);
                assert(encodes(serialize, items@, longer));
            }
            let fits: bool = match length.checked_add(chunk.len()) {
                Some(total) => total <= self.max_object_bytes,
                None => false,
            };
            if !fits {
                accumulator.bytes.truncate(original_len);
                assert(accumulator@.bytes =~= before.bytes);
                assert(before.bytes.len() + joined(longer).len() > self.max_object_bytes);
                return ObjectWriteAction::Return(
                    Err(WriterError::with_category(FailureCategory::Invariant)),
                );
            }
            append_bytes(&mut accumulator.bytes, chunk.as_slice());
            proof {
                assert(accumulator@.bytes =~= before.bytes + joined(longer));
                chunks = longer;
            }
            i = i + 1;
        }
        ObjectWriteAction::Put(PendingPut { original_len, item_count: items.len() as u64 })
    }

    /// Takes what came of the put. If it failed, the object is again as it was
    /// before the write.
    pub fn put_finished(
        &self,
        accumulator: &mut WriteAccumulator,
        pending: PendingPut,
        result: Result<ObjectMetadata, ObjectStoreError>,
    ) -> (r: Result<WriteOutcome, WriterError>)
        requires
            pending.original_len <= old(accumulator)@.bytes.len(),
            old(accumulator)@.items + pending.item_count <= u64::MAX,
        ensures
            match result {
                Ok(metadata) => {
                    &&& final(accumulator)@ == (AccumulatorView {
                        bytes: old(accumulator)@.bytes,
                        items: (old(accumulator)@.items + pending.item_count) as u64,
                        token: metadata.token_view(),
                    })
                    &&& r == Ok::<WriteOutcome, WriterError>(WriteOutcome::Written)
                },
                Err(error) => {
                    &&& final(accumulator)@ == (AccumulatorView {
                        bytes: old(accumulator)@.bytes.take(pending.original_len as int),
                        ..old(accumulator)@
                    })
                    &&& r == Err::<WriteOutcome, WriterError>(
                        WriterError { category: error.category, rolled_back_output: None },
                    )
                },
            },
    {
        match result {
            Ok(metadata) => {
                accumulator.committed_item_count = accumulator.committed_item_count
                    + pending.item_count;
                accumulator.version_token = metadata.copied_token();
                Ok(WriteOutcome::Written)
            },
            Err(error) => {
                accumulator.bytes.truncate(pending.original_len);
                Err(WriterError::with_category(error.category))
            },
        }
    }
}

/// A refused put leaves the object as it was before the write, whatever was put
/// behind it.
pub proof fn refused_put_restores_the_object(before: AccumulatorView, chunks: Seq<Vec<u8>>)
    ensures
        (AccumulatorView {
            bytes: (before.bytes + joined(chunks)).take(before.bytes.len() as int),
            ..before
        }) == before,
{
    assert((before.bytes + joined(chunks)).take(before.bytes.len() as int) =~= before.bytes);
}

/// The next step of opening a writer's stream.
pub enum ObjectOpenAction {
    /// The open is over.
    Return(Result<StreamOpenOutcome, StreamOpenError>),
    /// Fetch the object and report what came of it, with the committed position.
    Get(ObjectWritePosition),
}

/// The stream half of an [`ObjectItemWriter`].
#[derive(Debug, PartialEq, Eq)]
pub struct ObjectItemWriterStream {
    /// The object to fetch on a restart.
    pub id: ObjectIdentity,
    /// The largest object that is fetched.
    pub max_object_bytes: usize,
}

impl ObjectItemWriterStream {
    /// Starts to open the stream: without inherited state the object starts
    /// empty; with it the object is fetched.
    pub fn open(&self, accumulator: &mut WriteAccumulator, inherited: Option<&[u8]>) -> (r:
        ObjectOpenAction)
        ensures
            match inherited {
                None => {
                    &&& final(accumulator)@ == empty_accumulator()
                    &&& r == ObjectOpenAction::Return(Ok(StreamOpenOutcome::Initial))
                },
                Some(bytes) => {
                    &&& final(accumulator)@ == old(accumulator)@
                    &&& match write_position_of_bytes(bytes@) {
                        Some(position) => r matches ObjectOpenAction::Get(found) && found@
                            == position,
                        None => r == ObjectOpenAction::Return(
                            Err(StreamOpenError { category: FailureCategory::UserComponent }),
                        ),
                    }
                },
            },
    {
        match inherited {
            None => {
                accumulator.bytes.clear();
                accumulator.committed_item_count = 0;
                accumulator.version_token = None;
                ObjectOpenAction::Return(Ok(StreamOpenOutcome::Initial))
            },
            Some(bytes) => match ObjectWritePositionSchema.decode(bytes) {
                Ok(position) => ObjectOpenAction::Get(position),
                Err(_) => ObjectOpenAction::Return(Err(StreamOpenError::new())),
            },
        }
    }

    /// Takes what came of fetching the object. Writing goes on behind its content
    /// only if it is proven to be the object of the committed position; else the
    /// open is refused and the accumulator stays as it was.
    pub fn fetched(
        &self,
        accumulator: &mut WriteAccumulator,
        position: ObjectWritePosition,
        fetched: Result<(Vec<u8>, ObjectMetadata), ObjectStoreError>,
    ) -> (r: Result<StreamOpenOutcome, StreamOpenError>)
        ensures
            match fetched {
                Err(error) => {
                    &&& final(accumulator)@ == old(accumulator)@
                    &&& r == Err::<StreamOpenOutcome, StreamOpenError>(
                        StreamOpenError { category: error.category },
                    )
                },
                Ok((bytes, metadata)) => if proven_identical(
                    position@.token,
                    metadata.token_view(),
                ) {
                    &&& final(accumulator)@ == (AccumulatorView {
                        bytes: bytes@,
                        items: position@.items,
                        token: metadata.token_view(),
                    })
                    &&& r == Ok::<StreamOpenOutcome, StreamOpenError>(StreamOpenOutcome::Restored)
                } else {
                    &&& final(accumulator)@ == old(accumulator)@
                    &&& r == Err::<StreamOpenOutcome, StreamOpenError>(
                        StreamOpenError { category: FailureCategory::UnsupportedCapability },
                    )
                },
            },
    {
        let (bytes, metadata) = match fetched {
            Ok(fetched) => fetched,
            Err(error) => return Err(StreamOpenError::with_category(error.category)),
        };
        let current: Option<ObjectVersionToken> = metadata.copied_token();
        if !is_proven_identical(&position.version_token, &current) {
            return Err(StreamOpenError::with_category(FailureCategory::UnsupportedCapability));
        }
        accumulator.bytes = bytes;
        accumulator.committed_item_count = position.committed_item_count;
        accumulator.version_token = current;
        Ok(StreamOpenOutcome::Restored)
    }

    /// The durable position: the item count, and the version that holds it.
    pub fn update(&self, accumulator: &WriteAccumulator) -> (r: Result<Vec<u8>, StreamUpdateError>)
        ensures
            r is Ok,
            ({
                let position = ObjectPositionView {
                    items: accumulator@.items,
                    token: accumulator@.token,
                };
                &&& r->Ok_0@ == json_text(object_position_json("committed_item_count"@, position))
                &&& write_position_of_bytes(r->Ok_0@) == Some(position)
            }),
    {
        let position = ObjectWritePosition {
            committed_item_count: accumulator.committed_item_count,
            version_token: copy_token(&accumulator.version_token),
        };
        match ObjectWritePositionSchema.encode(&position) {
            Ok(bytes) => Ok(bytes),
            Err(_) => Err(StreamUpdateError::new()),
        }
    }

    /// Closes the stream, which holds nothing to release.
    pub fn close(&self) -> (r: Result<StreamCloseOutcome, StreamCloseError>)
        ensures
            r == Ok::<StreamCloseOutcome, StreamCloseError>(StreamCloseOutcome::Closed),
    {
        Ok(StreamCloseOutcome::Closed)
    }
}

/// Opens objects as the resources of a multi-resource output.
pub struct ObjectStoreWriterOpener<C, S> {
    /// The store to put into.
    pub store: C,
    /// Encodes an item.
    pub serialize: S,
    /// The largest object that is put.
    pub max_object_bytes: usize,
}

impl<C, S> ObjectStoreWriterOpener<C, S> {
    /// Builds an opener over `store`, encoding each item with `serialize` before
    /// it is appended to the current object; an object whose size would exceed
    /// `max_object_bytes` is rejected before it is grown to that size.
    pub fn new(store: C, serialize: S, max_object_bytes: usize) -> (r: Self)
        ensures
            r == (ObjectStoreWriterOpener { store, serialize, max_object_bytes }),
    {
        ObjectStoreWriterOpener { store, serialize, max_object_bytes }
    }

    /// Opens a resource with an empty object. The object's own content is read
    /// only when the stream is opened with inherited state.
    pub fn open(&self, resource: &ResourceIdentity, resource_ordinal: u32) -> (r: Result<
        (ObjectItemWriter, ObjectItemWriterStream, WriteAccumulator),
        MultiResourceOpenError,
    >)
        ensures
            match r {
                Ok((writer, stream, accumulator)) => {
                    &&& object_of_resource(resource@) == Some(writer.id@)
                    &&& stream.id@ == writer.id@
                    &&& writer.max_object_bytes == self.max_object_bytes
                    &&& stream.max_object_bytes == self.max_object_bytes
                    &&& accumulator@ == empty_accumulator()
                },
                Err(error) => object_of_resource(resource@) is None && failed_open(
                    error,
                    resource_ordinal,
                    FailureCategory::UserComponent,
                ),
            },
    {
        let id: ObjectIdentity = match identify_object(resource, resource_ordinal) {
            Ok(id) => id,
            Err(error) => return Err(error),
        };
        let writer = ObjectItemWriter { id: id.clone(), max_object_bytes: self.max_object_bytes };
        let stream = ObjectItemWriterStream { id, max_object_bytes: self.max_object_bytes };
        let accumulator = WriteAccumulator {
            bytes: Vec::new(),
            committed_item_count: 0,
            version_token: None,
        };
        Ok((writer, stream, accumulator))
    }
}

/// A write that is to stop changes nothing. Any other one puts the items' encodings
/// behind what the object holds, in order, unless that exceeds the limit: then the
/// object is as it was.
pub proof fn items_are_put_behind_the_object<O, S: Fn(&O) -> Vec<u8>>(
    writer: &ObjectItemWriter,
    accumulator: &mut WriteAccumulator,
    items: &[O],
    stop: &StopToken,
    serialize: S,
    r: ObjectWriteAction,
)
    requires
        call_ensures(
            ObjectItemWriter::write::<O, S>,
            (writer, accumulator, items, stop, serialize),
            r,
        ),
    ensures
        stop.requested <==> r == ObjectWriteAction::Return(Ok(WriteOutcome::Stopped)),
        r is Return ==> final(accumulator)@ == old(accumulator)@,
        r matches ObjectWriteAction::Return(Err(error)) ==> error.category
            == FailureCategory::Invariant && error.rolled_back_output is None,
        r matches ObjectWriteAction::Put(pending) ==> old(accumulator)@.bytes.is_prefix_of(
            final(accumulator)@.bytes,
        ) && pending.original_len == old(accumulator)@.bytes.len() && pending.item_count
            == items@.len() && final(accumulator)@.items == old(accumulator)@.items
                && final(accumulator)@.token == old(accumulator)@.token,
        r is Put && items@.len() > 0 ==> final(accumulator)@.bytes.len() <= writer.max_object_bytes,
        !stop.requested && items@.len() == 0 ==> r is Put && final(accumulator)@
            == old(accumulator)@,
{
    if !stop.requested {
        match r {
            ObjectWriteAction::Put(_) => {
                let chunks = choose|chunks: Seq<Vec<u8>>|
                    {
                        &&& #[trigger] encodes(serialize, items@, chunks)
                        &&& chunks.len() == items@.len()
                        &&& final(accumulator)@ == (AccumulatorView {
                            bytes: old(accumulator)@.bytes + joined(chunks),
                            ..old(accumulator)@
                        })
                    };
                assert(chunks.len() == 0 ==> old(accumulator)@.bytes + joined(chunks)
                    =~= old(accumulator)@.bytes);
            },
            _ => {},
        }
    }
}

/// Encodings are put one behind the other.
pub proof fn encodings_follow_each_other(chunks: Seq<Vec<u8>>, chunk: Vec<u8>)
    ensures
        joined(Seq::<Vec<u8>>::empty()).len() == 0,
        joined(chunks.push(chunk)) == joined(chunks) + chunk@,
{
    assert(chunks.push(chunk).drop_last() =~= chunks);
}

/// A put that succeeded counts its items and takes over the object's new version;
/// one that failed gives back exactly the object before the write, with its
/// category.
pub proof fn only_a_finished_put_counts(
    writer: &ObjectItemWriter,
    accumulator: &mut WriteAccumulator,
    pending: PendingPut,
    result: Result<ObjectMetadata, ObjectStoreError>,
    r: Result<WriteOutcome, WriterError>,
)
    requires
        call_ensures(ObjectItemWriter::put_finished, (writer, accumulator, pending, result), r),
        pending.original_len <= old(accumulator)@.bytes.len(),
        old(accumulator)@.items + pending.item_count <= u64::MAX,
    ensures
        r is Ok <==> result is Ok,
        result matches Ok(metadata) ==> final(accumulator)@.items == old(accumulator)@.items
            + pending.item_count && final(accumulator)@.bytes == old(accumulator)@.bytes
                && final(accumulator)@.token == metadata.token_view() && r->Ok_0
                    == WriteOutcome::Written,
        result matches Err(error) ==> final(accumulator)@.items == old(accumulator)@.items
            && final(accumulator)@.token == old(accumulator)@.token
                && final(accumulator)@.bytes.len()
            == pending.original_len && final(accumulator)@.bytes.is_prefix_of(
            old(accumulator)@.bytes,
        ) && r->Err_0.category == error.category && r->Err_0.rolled_back_output is None,
{
}

/// Without inherited state an object starts empty, whatever was accumulated; with
/// it the object is fetched before anything changes.
pub proof fn an_object_is_fetched_before_it_is_resumed(
    stream: &ObjectItemWriterStream,
    accumulator: &mut WriteAccumulator,
    inherited: Option<&[u8]>,
    r: ObjectOpenAction,
)
    requires
        call_ensures(ObjectItemWriterStream::open, (stream, accumulator, inherited), r),
    ensures
        inherited is None ==> final(accumulator)@.bytes.len() == 0 && final(accumulator)@.items == 0
            && final(accumulator)@.token is None && r == ObjectOpenAction::Return(
            Ok(StreamOpenOutcome::Initial),
        ),
        inherited is Some ==> final(accumulator)@ == old(accumulator)@,
        inherited is Some && write_position_of_bytes(inherited->0@) is Some ==> (
        r matches ObjectOpenAction::Get(position) && write_position_of_bytes(inherited->0@) == Some(
            position@,
        )),
        inherited is Some && write_position_of_bytes(inherited->0@) is None ==> r
            == ObjectOpenAction::Return(
            Err(StreamOpenError { category: FailureCategory::UserComponent }),
        ),
{
}

/// Writing goes on behind the fetched content exactly if both versions are known
/// and the same; a refusal changes nothing.
pub proof fn only_the_committed_object_is_resumed(
    stream: &ObjectItemWriterStream,
    accumulator: &mut WriteAccumulator,
    position: ObjectWritePosition,
    fetched: Result<(Vec<u8>, ObjectMetadata), ObjectStoreError>,
    r: Result<StreamOpenOutcome, StreamOpenError>,
)
    requires
        call_ensures(
            ObjectItemWriterStream::fetched,
            (stream, accumulator, position, fetched),
            r,
        ),
    ensures
        r is Ok <==> fetched is Ok && position.version_token is Some && fetched->Ok_0.1.token_view()
            == Some(position.version_token->0@),
        r is Ok ==> r->Ok_0 == StreamOpenOutcome::Restored && final(accumulator)@.bytes
            == fetched->Ok_0.0@ && final(accumulator)@.items == position.committed_item_count
            && final(accumulator)@.token == fetched->Ok_0.1.token_view(),
        r is Err ==> final(accumulator)@ == old(accumulator)@,
        fetched matches Err(error) ==> r->Err_0.category == error.category,
        fetched is Ok && r is Err ==> r->Err_0.category == FailureCategory::UnsupportedCapability,
{
    assert(position@.token == token_text(position.version_token));
}

/// What is prepared is what is accumulated: the items and the version.
pub proof fn a_prepared_object_is_read_back(
    stream: &ObjectItemWriterStream,
    accumulator: &WriteAccumulator,
    r: Result<Vec<u8>, StreamUpdateError>,
)
    requires
        call_ensures(ObjectItemWriterStream::update, (stream, accumulator), r),
    ensures
        r is Ok,
        write_position_of_bytes(r->Ok_0@) matches Some(position) && position.items
            == accumulator.committed_item_count && position.token == token_text(
            accumulator.version_token,
        ),
{
}

/// An output resource names the object whose key is its identity; it starts empty,
/// under the opener's limit.
pub proof fn an_output_resource_starts_empty<C, S>(
    opener: &ObjectStoreWriterOpener<C, S>,
    resource: &ResourceIdentity,
    ordinal: u32,
    r: Result<(ObjectItemWriter, ObjectItemWriterStream, WriteAccumulator), MultiResourceOpenError>,
)
    requires
        call_ensures(ObjectStoreWriterOpener::<C, S>::open, (opener, resource, ordinal), r),
    ensures
        r matches Ok((writer, stream, accumulator)) ==> writer.id@ == resource@ && stream.id@
            == resource@ && writer.max_object_bytes == opener.max_object_bytes
            && stream.max_object_bytes == opener.max_object_bytes && accumulator@.bytes.len() == 0
            && accumulator@.items == 0 && accumulator@.token is None,
        r matches Err(error) ==> error.ordinal_view() == ordinal && error.category_view()
            == FailureCategory::UserComponent && object_of_resource(resource@) is None,
{
}

/// What is put is every item's own encoding, in the items' order; what is refused
/// is an item whose encoding takes the object past its limit, and no item before it
/// did.
pub proof fn every_item_is_encoded_in_its_place<O, S: Fn(&O) -> Vec<u8>>(
    writer: &ObjectItemWriter,
    accumulator: &mut WriteAccumulator,
    items: &[O],
    stop: &StopToken,
    serialize: S,
    r: ObjectWriteAction,
)
    requires
        call_ensures(
            ObjectItemWriter::write::<O, S>,
            (writer, accumulator, items, stop, serialize),
            r,
        ),
        !stop.requested,
    ensures
        r is Put ==> exists|chunks: Seq<Vec<u8>>|
            {
                &&& chunks.len() == items@.len()
                &&& forall|i: int|
                    0 <= i < chunks.len() ==> call_ensures(
                        serialize,
                        (&items@[i],),
                        #[trigger] chunks[i],
                    )
                &&& final(accumulator)@.bytes == old(accumulator)@.bytes + #[trigger] joined(chunks)
            },
        r is Return ==> exists|chunks: Seq<Vec<u8>>|
            {
                &&& 0 < chunks.len() <= items@.len()
                &&& forall|i: int|
                    0 <= i < chunks.len() ==> call_ensures(
                        serialize,
                        (&items@[i],),
                        #[trigger] chunks[i],
                    )
                &&& old(accumulator)@.bytes.len() + #[trigger] joined(chunks).len()
                    > writer.max_object_bytes
            },
{
    match r {
        ObjectWriteAction::Put(_) => {
            let chunks = choose|chunks: Seq<Vec<u8>>|
                {
                    &&& #[trigger] encodes(serialize, items@, chunks)
                    &&& chunks.len() == items@.len()
                    &&& final(accumulator)@ == (AccumulatorView {
                        bytes: old(accumulator)@.bytes + joined(chunks),
                        ..old(accumulator)@
                    })
                };
            assert(final(accumulator)@.bytes == old(accumulator)@.bytes + joined(chunks));
        },
        ObjectWriteAction::Return(_) => {
            let chunks = choose|chunks: Seq<Vec<u8>>|
                {
                    &&& #[trigger] encodes(serialize, items@, chunks)
                    &&& chunks.len() > 0
                    &&& old(accumulator)@.bytes.len() + joined(chunks).len()
                        > writer.max_object_bytes
                    &&& chunks.len() > 1 ==> old(accumulator)@.bytes.len() + joined(
                        chunks.drop_last(),
                    ).len() <= writer.max_object_bytes
                };
            assert(old(accumulator)@.bytes.len() + joined(chunks).len() > writer.max_object_bytes);
        },
    }
}

} // verus!
