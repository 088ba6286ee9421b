//! Reading the items of one fetched object.

use super::identity::{
    copy_token, key_fault, token_text, ObjectIdentity, ObjectMetadata, ObjectStoreError,
    ObjectVersionToken,
};
use super::position::{
    is_proven_identical, object_position_json, proven_identical, read_position_of_bytes,
    ObjectPositionView, ObjectReadPosition, ObjectReadPositionSchema,
};
use crate::item_components::multi_resource::error::MultiResourceOpenError;
use crate::item_components::multi_resource::identity::ResourceIdentity;
use crate::item_stream::{
    StreamCloseError, StreamCloseOutcome, StreamOpenError, StreamOpenOutcome, StreamUpdateError,
};
use crate::json::json_text;
use crate::runtime::{FailureCategory, ReadOutcome, ReaderError};
use vstd::prelude::*;

verus! {

/// A restartable reader over one whole fetched object, serving parsed items by
/// ordinal.
pub struct ObjectItemReader<I> {
    /// The items of the object.
    pub items: Vec<I>,
    /// The ordinal of the next item.
    pub ordinal: u64,
}

impl<I: Clone> ObjectItemReader<I> {
    /// Serves a copy of the item at the ordinal and steps to the next one. Past
    /// the last item the input has ended.
    pub fn read(&mut self) -> (r: Result<ReadOutcome<I>, ReaderError>)
        ensures
            final(self).items == old(self).items,
            if old(self).ordinal < old(self).items@.len() {
                &&& r matches Ok(ReadOutcome::Item(item)) && cloned(
                    old(self).items@[old(self).ordinal as int],
                    item,
                )
                &&& final(self).ordinal == old(self).ordinal + 1
            } else {
                &&& r == Ok::<ReadOutcome<I>, ReaderError>(ReadOutcome::EndOfInput)
                &&& final(self).ordinal == old(self).ordinal
            },
    {
        if self.ordinal >= self.items.len() as u64 {
            return Ok(ReadOutcome::EndOfInput);
        }
        let index: usize = self.ordinal as usize;
        let item: I = self.items[index].clone();
        self.ordinal = self.ordinal + 1;
        Ok(ReadOutcome::Item(item))
    }
}

/// How a reader's stream opens over an object of which version: the outcome with
/// the ordinal to go on from, or the category of the refusal.
pub open spec fn reader_open(
    inherited: Option<Seq<u8>>,
    fetched: Option<Seq<char>>,
) -> Result<(StreamOpenOutcome, u64), FailureCategory> {
    match inherited {
        None => Ok((StreamOpenOutcome::Initial, 0)),
        Some(bytes) => match read_position_of_bytes(bytes) {
            None => Err(FailureCategory::UserComponent),
            Some(position) => if proven_identical(position.token, fetched) {
                Ok((StreamOpenOutcome::Restored, position.items))
            } else {
                Err(FailureCategory::UnsupportedCapability)
            },
        },
    }
}

/// The stream half of an [`ObjectItemReader`]: it rejects a restart whose
/// recorded object version no longer matches the freshly fetched object, rather
/// than resuming against different content.
#[derive(Debug, PartialEq, Eq)]
pub struct ObjectItemReaderStream {
    /// The version that was fetched, if the backend supplies one.
    pub fetched_version: Option<ObjectVersionToken>,
}

impl ObjectItemReaderStream {
    /// Opens the stream and sets the reader's ordinal. A refused open leaves the
    /// ordinal alone.
    pub fn open(&self, inherited: Option<&[u8]>, ordinal: &mut u64) -> (r: Result<
        StreamOpenOutcome,
        StreamOpenError,
    >)
        ensures
            ({
                let bytes = match inherited {
                    Some(bytes) => Some(bytes@),
                    None => None,
                };
                match reader_open(bytes, token_text(self.fetched_version)) {
                    Ok((outcome, next)) => *final(ordinal) == next && r == Ok::<
                        StreamOpenOutcome,
                        StreamOpenError,
                    >(outcome),
                    Err(category) => *final(ordinal) == *old(ordinal) && r == Err::<
                        StreamOpenOutcome,
                        StreamOpenError,
                    >(StreamOpenError { category }),
                }
            }),
    {
        match inherited {
            None => {
                *ordinal = 0;
                Ok(StreamOpenOutcome::Initial)
            },
            Some(bytes) => {
                let restored = match ObjectReadPositionSchema.decode(bytes) {
                    Ok(position) => position,
                    Err(_) => return Err(StreamOpenError::new()),
                };
                if !is_proven_identical(&restored.version_token, &self.fetched_version) {
                    return Err(
                        StreamOpenError::with_category(FailureCategory::UnsupportedCapability),
                    );
                }
                *ordinal = restored.item_ordinal;
                Ok(StreamOpenOutcome::Restored)
            },
        }
    }

    /// The durable position: the ordinal, and the version it was reached in.
    pub fn update(&self, ordinal: u64) -> (r: Result<Vec<u8>, StreamUpdateError>)
        ensures
            r is Ok,
            ({
                let position = ObjectPositionView {
                    items: ordinal,
                    token: token_text(self.fetched_version),
                };
                &&& r->Ok_0@ == json_text(object_position_json("item_ordinal"@, position))
                &&& read_position_of_bytes(r->Ok_0@) == Some(position)
            }),
    {
        let position = ObjectReadPosition {
            item_ordinal: ordinal,
            version_token: copy_token(&self.fetched_version),
        };
        match ObjectReadPositionSchema.encode(&position) {
            Ok(bytes) => Ok(bytes),
            Err(_) => Err(StreamUpdateError::new()),
        }
    }

    /// Closes the stream, which holds nothing to release.
    pub fn close(&self) -> (r: Result<StreamCloseOutcome, StreamCloseError>)
        ensures
            r == Ok::<StreamCloseOutcome, StreamCloseError>(StreamCloseOutcome::Closed),
    {
        Ok(StreamCloseOutcome::Closed)
    }
}

/// A restart goes on from the committed ordinal exactly if the object is proven
/// to be the one the position was recorded against. A replaced object, and a
/// backend without version tokens, are refused.
pub proof fn only_a_proven_version_resumes(
    bytes: Seq<u8>,
    position: ObjectPositionView,
    fetched: Option<Seq<char>>,
)
    requires
        read_position_of_bytes(bytes) == Some(position),
    ensures
        position.token is Some && position.token == fetched ==> reader_open(Some(bytes), fetched)
            == Ok::<(StreamOpenOutcome, u64), FailureCategory>(
            (StreamOpenOutcome::Restored, position.items),
        ),
        position.token is None || position.token != fetched ==> reader_open(Some(bytes), fetched)
            == Err::<(StreamOpenOutcome, u64), FailureCategory>(
            FailureCategory::UnsupportedCapability,
        ),
{
}

/// Opens objects as the resources of a multi-resource input: each whole object
/// is fetched and parsed.
pub struct ObjectStoreReaderOpener<C, F> {
    /// The store to fetch from.
    pub store: C,
    /// The largest object that is fetched.
    pub max_object_bytes: usize,
    /// Parses an object's bytes.
    pub parse: F,
}

/// The object of a resource, if the resource names one.
pub open spec fn object_of_resource(resource: Seq<char>) -> Option<Seq<char>> {
    if key_fault(resource) is None {
        Some(resource)
    } else {
        None
    }
}

/// The error says that the resource at the ordinal failed with the category.
pub open spec fn failed_open(
    error: MultiResourceOpenError,
    resource_ordinal: u32,
    category: FailureCategory,
) -> bool {
    error.ordinal_view() == resource_ordinal && error.category_view() == category
}

/// The object that a resource names.
pub(crate) fn identify_object(resource: &ResourceIdentity, resource_ordinal: u32) -> (r: Result<
    ObjectIdentity,
    MultiResourceOpenError,
>)
    ensures
        match r {
            Ok(id) => object_of_resource(resource@) == Some(id@),
            Err(error) => object_of_resource(resource@) is None && failed_open(
                error,
                resource_ordinal,
                FailureCategory::UserComponent,
            ),
        },
{
    match ObjectIdentity::new(resource.as_str()) {
        Ok(id) => Ok(id),
        Err(_) => Err(MultiResourceOpenError::new(resource_ordinal)),
    }
}

impl<C, F> ObjectStoreReaderOpener<C, F> {
    /// Builds an opener over `store`, parsing each fetched object's bytes with
    /// `parse`; a fetched object larger than `max_object_bytes` is rejected
    /// rather than buffered.
    pub fn new(store: C, max_object_bytes: usize, parse: F) -> (r: Self)
        ensures
            r == (ObjectStoreReaderOpener { store, max_object_bytes, parse }),
    {
        ObjectStoreReaderOpener { store, max_object_bytes, parse }
    }

    /// The object to fetch, with at most [`Self::max_object_bytes`] bytes, for a
    /// resource.
    pub fn open(&self, resource: &ResourceIdentity, resource_ordinal: u32) -> (r: Result<
        ObjectIdentity,
        MultiResourceOpenError,
    >)
        ensures
            match r {
                Ok(id) => object_of_resource(resource@) == Some(id@),
                Err(error) => object_of_resource(resource@) is None && failed_open(
                    error,
                    resource_ordinal,
                    FailureCategory::UserComponent,
                ),
            },
    {
        identify_object(resource, resource_ordinal)
    }

    /// Takes what came of fetching the object: its parsed items from the start,
    /// with the version they were fetched in, or the category of the failure to
    /// fetch or to parse.
    pub fn fetched<I>(
        &self,
        resource_ordinal: u32,
        fetched: Result<(Vec<u8>, ObjectMetadata), ObjectStoreError>,
    ) -> (r: Result<(ObjectItemReader<I>, ObjectItemReaderStream), MultiResourceOpenError>) where
        F: Fn(&[u8]) -> Result<Vec<I>, ObjectStoreError>,

        requires
            forall|bytes: &[u8]| #[trigger] call_requires(self.parse, (bytes,)),
        ensures
            match fetched {
                Err(error) => r is Err && failed_open(r->Err_0, resource_ordinal, error.category),
                Ok((bytes, metadata)) => exists|
                    input: &[u8],
                    parsed: Result<Vec<I>, ObjectStoreError>,
                |
                    #![trigger call_ensures(self.parse, (input,), parsed)]
                    {
                        &&& input@ == bytes@
                        &&& call_ensures(self.parse, (input,), parsed)
                        &&& match parsed {
                            Err(error) => r is Err && failed_open(
                                r->Err_0,
                                resource_ordinal,
                                error.category,
                            ),
                            Ok(items) => {
                                &&& r is Ok
                                &&& r->Ok_0.0.items == items
                                &&& r->Ok_0.0.ordinal == 0
                                &&& token_text(r->Ok_0.1.fetched_version) == metadata.token_view()
                            },
                        }
                    },
            },
    {
        let (bytes, metadata) = match fetched {
            Ok(fetched) => fetched,
            Err(error) => return Err(
                MultiResourceOpenError::with_category(resource_ordinal, error.category),
            ),
        };
        match (self.parse)(bytes.as_slice()) {
            Err(error) => Err(
                MultiResourceOpenError::with_category(resource_ordinal, error.category),
            ),
            Ok(items) => {
                let stream = ObjectItemReaderStream { fetched_version: metadata.copied_token() };
                Ok((ObjectItemReader { items, ordinal: 0 }, stream))
            },
        }
    }
}

/// The items of an object are served one after the other, each once, from the
/// ordinal on.
pub proof fn items_are_served_in_order<I: Clone>(
    reader: &mut ObjectItemReader<I>,
    r: Result<ReadOutcome<I>, ReaderError>,
)
    requires
        call_ensures(ObjectItemReader::<I>::read, (reader,), r),
    ensures
        r is Ok,
        r->Ok_0 is EndOfInput <==> old(reader).ordinal >= old(reader).items@.len(),
        r->Ok_0 is Item <==> old(reader).ordinal < old(reader).items@.len(),
        r->Ok_0 is Item ==> cloned(
            old(reader).items@[old(reader).ordinal as int],
            r->Ok_0->Item_0,
        ) && final(reader).ordinal == old(reader).ordinal + 1,
        r->Ok_0 is EndOfInput ==> final(reader).ordinal == old(reader).ordinal,
        final(reader).items == old(reader).items,
{
}

/// A restart goes on at the ordinal that was prepared exactly if the object has the
/// version that it was prepared over; without inherited state it starts at the
/// first item.
pub proof fn a_restart_needs_the_same_version(
    before: &ObjectItemReaderStream,
    ordinal: u64,
    prepared: Result<Vec<u8>, StreamUpdateError>,
    stream: &ObjectItemReaderStream,
    inherited: Option<&[u8]>,
    next: &mut u64,
    r: Result<StreamOpenOutcome, StreamOpenError>,
)
    requires
        call_ensures(ObjectItemReaderStream::update, (before, ordinal), prepared),
        call_ensures(ObjectItemReaderStream::open, (stream, inherited, next), r),
    ensures
        prepared is Ok,
        inherited is None ==> *final(next) == 0 && r == Ok::<StreamOpenOutcome, StreamOpenError>(
            StreamOpenOutcome::Initial,
        ),
        inherited is Some && inherited->0@ == prepared->Ok_0@ ==> (if before.fetched_version is Some
            && stream.fetched_version is Some && before.fetched_version->0@
            == stream.fetched_version->0@ {
            *final(next) == ordinal && r == Ok::<StreamOpenOutcome, StreamOpenError>(
                StreamOpenOutcome::Restored,
            )
        } else {
            r == Err::<StreamOpenOutcome, StreamOpenError>(
                StreamOpenError { category: FailureCategory::UnsupportedCapability },
            )
        }),
        r is Err ==> *final(next) == *old(next),
{
}

/// A resource names the object whose key is its identity, and fails as the
/// resource that it is if that is no key.
pub proof fn a_resource_names_its_object<C, F>(
    opener: &ObjectStoreReaderOpener<C, F>,
    resource: &ResourceIdentity,
    ordinal: u32,
    r: Result<ObjectIdentity, MultiResourceOpenError>,
)
    requires
        call_ensures(ObjectStoreReaderOpener::<C, F>::open, (opener, resource, ordinal), r),
    ensures
        r is Ok <==> key_fault(resource@) is None,
        r matches Ok(id) ==> id@ == resource@,
        r matches Err(error) ==> error.ordinal_view() == ordinal && error.category_view()
            == FailureCategory::UserComponent,
{
}

/// A fetched object is read from its first item, under the version that it was
/// fetched in; a failed fetch keeps its category and its ordinal.
pub proof fn a_fetched_object_is_read_from_its_start<C, F, I>(
    opener: &ObjectStoreReaderOpener<C, F>,
    ordinal: u32,
    fetched: Result<(Vec<u8>, ObjectMetadata), ObjectStoreError>,
    r: Result<(ObjectItemReader<I>, ObjectItemReaderStream), MultiResourceOpenError>,
) where F: Fn(&[u8]) -> Result<Vec<I>, ObjectStoreError>
    requires
        call_ensures(
            ObjectStoreReaderOpener::<C, F>::fetched::<I>,
            (opener, ordinal, fetched),
            r,
        ),
    ensures
        fetched matches Err(error) ==> (r matches Err(failure) && failure.ordinal_view() == ordinal
            && failure.category_view() == error.category),
        r matches Ok((reader, stream)) ==> fetched is Ok && reader.ordinal == 0 && token_text(
            stream.fetched_version,
        ) == fetched->Ok_0.1.token_view(),
        r matches Err(failure) ==> failure.ordinal_view() == ordinal,
{
}

/// A fetched object is parsed as it is: its items are what the parser made of
/// exactly its bytes, and the parser's failure is the resource's failure.
pub proof fn a_fetched_object_is_parsed_as_it_is<C, F, I>(
    opener: &ObjectStoreReaderOpener<C, F>,
    ordinal: u32,
    bytes: Vec<u8>,
    metadata: ObjectMetadata,
    r: Result<(ObjectItemReader<I>, ObjectItemReaderStream), MultiResourceOpenError>,
) where F: Fn(&[u8]) -> Result<Vec<I>, ObjectStoreError>
    requires
        call_ensures(
            ObjectStoreReaderOpener::<C, F>::fetched::<I>,
            (opener, ordinal, Ok((bytes, metadata))),
            r,
        ),
    ensures
        r matches Ok((reader, stream)) ==> exists|input: &[u8]|
            input@ == bytes@ && #[trigger] call_ensures(opener.parse, (input,), Ok(reader.items)),
        r matches Err(failure) ==> exists|input: &[u8], error: ObjectStoreError|
            input@ == bytes@ && #[trigger] call_ensures(opener.parse, (input,), Err(error))
                && failure.category_view() == error.category,
{
    let (input, parsed) = choose|input: &[u8], parsed: Result<Vec<I>, ObjectStoreError>|
        #![trigger call_ensures(opener.parse, (input,), parsed)]
        {
            &&& input@ == bytes@
            &&& call_ensures(opener.parse, (input,), parsed)
            &&& match parsed {
                Err(error) => r is Err && failed_open(r->Err_0, ordinal, error.category),
                Ok(items) => {
                    &&& r is Ok
                    &&& r->Ok_0.0.items == items
                    &&& r->Ok_0.0.ordinal == 0
                    &&& token_text(r->Ok_0.1.fetched_version) == metadata.token_view()
                },
            }
        };
    match parsed {
        Ok(items) => {
            assert(call_ensures(opener.parse, (input,), Ok(r->Ok_0.0.items)));
        },
        Err(error) => {
            assert(call_ensures(opener.parse, (input,), Err(error)));
        },
    }
}

} // verus!
