//! Reading an ordered set of resources as one restartable input.
//!
//! [`MultiResourceReader`] decides; its caller acts. Each method takes what came
//! of the last action and says what to do next: read from the delegate, close
//! its stream, open a resource, open a stream, or return.

use super::error::MultiResourceOpenError;
use super::identity::{ResourceIdentity, ResourceSet};
use super::lifecycle::{one_at_a_time, one_more_step, LifecycleEvent};
use super::state::{
    columns_of, envelope_of, state_json, state_of_bytes, ColumnsView, DelegateEnvelopeColumns,
    MultiResourcePositionSchema, MultiResourceState, StateView,
};
use crate::component_state::{ComponentStateEnvelope, EnvelopeView};
use crate::item_stream::{
    StreamCloseError, StreamOpenError, StreamOpenOutcome, StreamRuntimeOutcome, StreamUpdateError,
};
use crate::json::json_text;
use crate::runtime::{FailureCategory, ReadOutcome, ReaderError};
use crate::tokens::ComponentStreamIdentity;
use vstd::prelude::*;

verus! {

/// The stream half of the delegate that is open, or was just closed at its
/// boundary.
pub struct StreamHandle<S> {
    /// The ordinal of the resource.
    pub index: u32,
    /// The delegate's stream.
    pub stream: S,
    /// The stream has been closed at its boundary, and the move to the next
    /// resource is not complete yet. Whoever closes the whole component skips
    /// such a stream.
    pub retired: bool,
}

/// What to do next within one read call.
pub enum ReadAction<I> {
    /// The call is over.
    Return(Result<ReadOutcome<I>, ReaderError>),
    /// Read from the delegate reader.
    ReadDelegate,
    /// Close the delegate's stream with this outcome.
    CloseDelegate(StreamRuntimeOutcome),
    /// Open the resource with this ordinal, and then its stream without
    /// inherited state.
    OpenResource(u32),
}

/// What a multi-resource reader knows between two calls.
pub struct ReaderView<R, S> {
    /// The delegate reader to read from.
    pub reader: Option<R>,
    /// The delegate reader that opening the stream has left for the first read.
    pub pending: Option<R>,
    /// The delegate's stream.
    pub handle: Option<StreamHandle<S>>,
    /// The first read call has been made.
    pub started: bool,
    /// The exhausted delegate's stream is closed, and the move to the next
    /// resource is not complete yet.
    pub transitioning: bool,
}

/// The invariant failure.
pub open spec fn invariant_failure<I>() -> ReadAction<I> {
    ReadAction::Return(
        Err(ReaderError { category: FailureCategory::Invariant, checkpoint_advanced: false }),
    )
}

/// The move to the resource after the current one, or to the end of the set of
/// `count` resources.
pub open spec fn move_on<I, R, S>(v: ReaderView<R, S>, count: nat) -> (
    ReaderView<R, S>,
    ReadAction<I>,
) {
    match v.handle {
        None => (v, invariant_failure()),
        Some(handle) => if handle.index + 1 >= count {
            (
                ReaderView { handle: None, transitioning: false, ..v },
                ReadAction::Return(Ok(ReadOutcome::EndOfInput)),
            )
        } else {
            (v, ReadAction::OpenResource((handle.index + 1) as u32))
        },
    }
}

/// What a read call does first: it resumes an unfinished move to the next
/// resource, reads from the delegate, or reports the end of the set.
pub open spec fn read_begins<I, R, S>(v: ReaderView<R, S>, count: nat) -> (
    ReaderView<R, S>,
    ReadAction<I>,
) {
    if !v.started && v.pending is None {
        (
            ReaderView { started: true, ..v },
            ReadAction::Return(Ok(ReadOutcome::EndOfInput)),
        )
    } else {
        let w = if v.started {
            v
        } else {
            ReaderView { started: true, reader: v.pending, pending: None, ..v }
        };
        if w.transitioning {
            move_on(w, count)
        } else if w.reader is None {
            (w, ReadAction::Return(Ok(ReadOutcome::EndOfInput)))
        } else {
            (w, ReadAction::ReadDelegate)
        }
    }
}

/// What follows from a delegate's answer: an item, a stop or a failure is passed
/// on, and the end of its resource asks for its stream to be closed.
pub open spec fn delegate_answers<I, R, S>(
    v: ReaderView<R, S>,
    result: Result<ReadOutcome<I>, ReaderError>,
) -> ReadAction<I> {
    match result {
        Ok(ReadOutcome::EndOfInput) => if v.handle is None {
            invariant_failure()
        } else {
            ReadAction::CloseDelegate(StreamRuntimeOutcome::ResourceBoundary)
        },
        other => ReadAction::Return(other),
    }
}

/// What follows from closing the delegate's stream at its boundary: a failure is
/// passed on and changes nothing, so that a retry closes it again; otherwise the
/// delegate is retired and the move to the next resource begins.
pub open spec fn delegate_closes<I, R, S>(
    v: ReaderView<R, S>,
    count: nat,
    result: Result<(), StreamCloseError>,
) -> (ReaderView<R, S>, ReadAction<I>) {
    match result {
        Err(error) => (
            v,
            ReadAction::Return(
                Err(ReaderError { category: error.category, checkpoint_advanced: false }),
            ),
        ),
        Ok(_) => {
            let handle = v.handle->0;
            move_on(
                ReaderView {
                    reader: None,
                    transitioning: true,
                    handle: Some(StreamHandle { retired: true, ..handle }),
                    ..v
                },
                count,
            )
        },
    }
}

/// The state after the next resource and its stream were opened.
pub open spec fn resource_entered<R, S>(v: ReaderView<R, S>, reader: R, stream: S) -> ReaderView<
    R,
    S,
> {
    ReaderView {
        reader: Some(reader),
        handle: Some(
            StreamHandle { index: (v.handle->0.index + 1) as u32, stream, retired: false },
        ),
        transitioning: false,
        ..v
    }
}

/// Why opening the next resource failed.
#[derive(Clone, Copy, Debug, PartialEq, Eq, Structural)]
pub enum EnterFailure {
    /// The resource could not be opened.
    Resource(MultiResourceOpenError),
    /// The resource's stream could not be opened.
    Stream(StreamOpenError),
}

/// The read failure that an open failure is reported as.
pub open spec fn enter_failure(failure: EnterFailure) -> ReaderError {
    match failure {
        EnterFailure::Resource(error) => ReaderError {
            category: error.category_view(),
            checkpoint_advanced: false,
        },
        EnterFailure::Stream(_) => ReaderError {
            category: FailureCategory::UserComponent,
            checkpoint_advanced: false,
        },
    }
}

/// Where an attempt resumes.
pub struct ResumePoint {
    /// The ordinal of the resource to open.
    pub index: u32,
    /// That resource's own committed position.
    pub delegate: Option<DelegateEnvelopeColumns>,
    /// The number of batches committed to that resource.
    pub batches: u64,
    /// A committed position of the whole set was inherited.
    pub restored: bool,
}

/// What to do next while the stream is being opened.
pub enum OpenAction {
    /// Opening is over.
    Return(Result<StreamOpenOutcome, StreamOpenError>),
    /// Open the resource of this resume point.
    OpenResource(ResumePoint),
}

/// What to do next once the resumed resource is open.
pub enum ResumeAction {
    /// Opening is over.
    Return(Result<StreamOpenOutcome, StreamOpenError>),
    /// Open the delegate's stream with this inherited state.
    OpenStream(Option<ComponentStateEnvelope>),
}

/// The outcome that a successful open reports.
pub open spec fn open_outcome(restored: bool) -> StreamOpenOutcome {
    if restored {
        StreamOpenOutcome::Restored
    } else {
        StreamOpenOutcome::Initial
    }
}

/// A user-component open failure.
pub open spec fn open_failure() -> StreamOpenError {
    StreamOpenError { category: FailureCategory::UserComponent }
}

/// A resume point, by its content.
pub struct ResumeView {
    pub index: u32,
    pub delegate: Option<ColumnsView>,
    pub batches: u64,
    pub restored: bool,
}

impl View for ResumePoint {
    type V = ResumeView;

    open spec fn view(&self) -> ResumeView {
        ResumeView {
            index: self.index,
            delegate: match self.delegate {
                Some(columns) => Some(columns@),
                None => None,
            },
            batches: self.batches,
            restored: self.restored,
        }
    }
}

/// What inherited bytes resume at: the position they spell, unless they spell
/// none or one of another resource set.
pub open spec fn inherited_position(inherited: Option<Seq<u8>>, revision: Seq<u8>) -> Result<
    StateView,
    StreamOpenError,
> {
    match inherited {
        None => Ok(
            StateView {
                resource_set_revision: revision,
                resource_index: 0,
                delegate: None,
                resource_batches_written: 0,
            },
        ),
        Some(bytes) => match state_of_bytes(bytes) {
            None => Err(open_failure()),
            Some(state) => if state.resource_set_revision != revision {
                Err(StreamOpenError { category: FailureCategory::UnsupportedCapability })
            } else {
                Ok(state)
            },
        },
    }
}

/// What the delegate's stream is to be opened with: nothing at the start of a
/// resource, its own committed envelope otherwise, unless that envelope was
/// reported under another namespace or cannot be put together.
pub open spec fn delegate_inheritance(
    delegate: Option<ColumnsView>,
    identity: Seq<char>,
) -> Result<Option<EnvelopeView>, StreamOpenError> {
    match delegate {
        None => Ok(None),
        Some(columns) => if columns.namespace != identity {
            Err(StreamOpenError { category: FailureCategory::Invariant })
        } else {
            match envelope_of(columns, identity) {
                None => Err(open_failure()),
                Some(envelope) => Ok(Some(envelope)),
            }
        },
    }
}

/// Decodes inherited bytes and checks that they belong to this resource set.
pub(crate) fn decode_inherited(inherited: Option<&[u8]>, resources: &ResourceSet) -> (r: Result<
    MultiResourceState,
    StreamOpenError,
>)
    ensures
        ({
            let position = inherited_position(
                match inherited {
                    Some(bytes) => Some(bytes@),
                    None => None,
                },
                resources.revision_view(),
            );
            match r {
                Ok(state) => position == Ok::<StateView, StreamOpenError>(state@),
                Err(error) => position == Err::<StateView, StreamOpenError>(error),
            }
        }),
{
    match inherited {
        None => Ok(
            MultiResourceState {
                resource_set_revision: resources.revision(),
                resource_index: 0,
                delegate: None,
                resource_batches_written: 0,
            },
        ),
        Some(bytes) => match MultiResourcePositionSchema.decode(bytes) {
            Err(_) => Err(StreamOpenError::new()),
            Ok(state) => {
                let revision = resources.revision();
                if !state.resource_set_revision.same(&revision) {
                    Err(StreamOpenError::with_category(FailureCategory::UnsupportedCapability))
                } else {
                    Ok(state)
                }
            },
        },
    }
}

/// Checks a committed delegate position and puts its envelope together.
pub(crate) fn resume_delegate(
    delegate: &Option<DelegateEnvelopeColumns>,
    identity: &ComponentStreamIdentity,
) -> (r: Result<Option<ComponentStateEnvelope>, StreamOpenError>)
    ensures
        ({
            let inheritance = delegate_inheritance(
                match *delegate {
                    Some(columns) => Some(columns@),
                    None => None,
                },
                identity@,
            );
            match r {
                Ok(Some(envelope)) => inheritance == Ok::<
                    Option<EnvelopeView>,
                    StreamOpenError,
                >(Some(envelope@)),
                Ok(None) => inheritance == Ok::<Option<EnvelopeView>, StreamOpenError>(None),
                Err(error) => inheritance == Err::<Option<EnvelopeView>, StreamOpenError>(error),
            }
        }),
{
    match delegate {
        None => Ok(None),
        Some(columns) => {
            if !columns.namespace_matches(identity) {
                return Err(StreamOpenError::with_category(FailureCategory::Invariant));
            }
            match columns.to_envelope(identity.clone()) {
                None => Err(StreamOpenError::new()),
                Some(envelope) => Ok(Some(envelope)),
            }
        },
    }
}

/// The candidate position of a component whose delegate reported `delegate`:
/// the position, unless the delegate failed or reported another namespace than
/// the one it was given.
pub open spec fn candidate_position(
    revision: Seq<u8>,
    identity: Seq<char>,
    index: u32,
    delegate: Result<EnvelopeView, StreamUpdateError>,
    batches: u64,
) -> Result<StateView, StreamUpdateError> {
    match delegate {
        Err(_) => Err(StreamUpdateError { category: FailureCategory::UserComponent }),
        Ok(envelope) => if envelope.namespace != identity {
            Err(StreamUpdateError { category: FailureCategory::Invariant })
        } else {
            Ok(
                StateView {
                    resource_set_revision: revision,
                    resource_index: index,
                    delegate: Some(columns_of(envelope)),
                    resource_batches_written: batches,
                },
            )
        },
    }
}

/// The content of a delegate's candidate.
pub open spec fn candidate_view(
    delegate: Result<ComponentStateEnvelope, StreamUpdateError>,
) -> Result<EnvelopeView, StreamUpdateError> {
    match delegate {
        Ok(envelope) => Ok(envelope@),
        Err(error) => Err(error),
    }
}

/// Durable bytes that spell a position.
pub open spec fn spells(bytes: Seq<u8>, state: StateView) -> bool {
    bytes == json_text(state_json(state)) && state_of_bytes(bytes) == Some(state)
}

/// Embeds a delegate's candidate in the position of the whole set.
pub(crate) fn encode_candidate(
    resources: &ResourceSet,
    identity: &ComponentStreamIdentity,
    index: u32,
    delegate: Result<ComponentStateEnvelope, StreamUpdateError>,
    batches: u64,
) -> (r: Result<Vec<u8>, StreamUpdateError>)
    ensures
        ({
            let candidate = candidate_position(
                resources.revision_view(),
                identity@,
                index,
                candidate_view(delegate),
                batches,
            );
            match r {
                Ok(bytes) => candidate is Ok && spells(bytes@, candidate->Ok_0),
                Err(error) => candidate == Err::<StateView, StreamUpdateError>(error),
            }
        }),
{
    let envelope: ComponentStateEnvelope = match delegate {
        Ok(envelope) => envelope,
        Err(_) => return Err(StreamUpdateError::new()),
    };
    if !envelope.namespace.same(identity) {
        return Err(StreamUpdateError::with_category(FailureCategory::Invariant));
    }
    let state = MultiResourceState {
        resource_set_revision: resources.revision(),
        resource_index: index,
        delegate: Some(DelegateEnvelopeColumns::from_envelope(&envelope)),
        resource_batches_written: batches,
    };
    match MultiResourcePositionSchema.encode(&state) {
        Ok(bytes) => Ok(bytes),
        Err(_) => Err(StreamUpdateError::new()),
    }
}

/// Reads an ordered set of physical resources as one logical, restartable input
/// through delegates of the reader type `R` with streams of the type `S`.
///
/// Resources are traversed in declared order, and at most one is open at a time:
/// an exhausted resource's stream is closed before the next one is opened.
pub struct MultiResourceReader<R, S> {
    resources: ResourceSet,
    identity: ComponentStreamIdentity,
    reader: Option<R>,
    pending: Option<R>,
    handle: Option<StreamHandle<S>>,
    started: bool,
    transitioning: bool,
    // The ordinal that the attempt resumed at.
    first: Ghost<int>,
    // The lifecycle steps since then.
    log: Ghost<Seq<LifecycleEvent>>,
    // The stream was not opened again after the first read.
    regular: Ghost<bool>,
}

impl<R, S> View for MultiResourceReader<R, S> {
    type V = ReaderView<R, S>;

    closed spec fn view(&self) -> ReaderView<R, S> {
        ReaderView {
            reader: self.reader,
            pending: self.pending,
            handle: self.handle,
            started: self.started,
            transitioning: self.transitioning,
        }
    }
}

/// The lifecycle steps that lead to a state: every resource before the current
/// one was opened and closed, and the current one is open unless it is retired.
pub open spec fn steps_lead_to<R, S>(
    v: ReaderView<R, S>,
    first: int,
    log: Seq<LifecycleEvent>,
) -> bool {
    &&& log == one_at_a_time(first, log.len())
    &&& match v.handle {
        Some(handle) => {
            &&& log.len() > 0
            &&& handle.index == first + (log.len() as int - 1) / 2
            &&& handle.retired == (log.len() % 2 == 0)
        },
        None => log.len() % 2 == 0,
    }
    &&& v.transitioning ==> v.handle is Some && v.handle->0.retired && v.reader is None
    &&& v.handle is Some && !v.transitioning ==> !v.handle->0.retired && (v.started ==> v.reader
        is Some) && (!v.started ==> v.pending is Some)
    &&& v.reader is Some ==> v.handle is Some && !v.transitioning
    &&& v.pending is Some ==> v.handle is Some && !v.transitioning && v.reader is None
    &&& !v.started ==> v.reader is None
    &&& v.started ==> v.pending is None
}

impl<R, S> MultiResourceReader<R, S> {
    /// The identities of the resources, in order.
    pub closed spec fn names(&self) -> Seq<ResourceIdentity> {
        self.resources.identities()
    }

    /// The number of resources.
    pub open spec fn count(&self) -> nat {
        self.names().len()
    }

    /// The revision of the resource set.
    pub closed spec fn revision(&self) -> Seq<u8> {
        self.resources.revision_view()
    }

    /// The namespace of the component and of its delegates.
    pub closed spec fn identity_view(&self) -> Seq<char> {
        self.identity@
    }

    /// The ordinal that the attempt resumed at.
    pub closed spec fn first_ordinal(&self) -> int {
        self.first@
    }

    /// The lifecycle steps since the attempt resumed.
    pub closed spec fn steps(&self) -> Seq<LifecycleEvent> {
        self.log@
    }

    /// The stream was not opened again after the first read.
    pub closed spec fn opened_before_reading(&self) -> bool {
        self.regular@
    }

    /// The parts that no call changes.
    pub open spec fn same_set(&self, other: &Self) -> bool {
        &&& self.names() == other.names()
        &&& self.revision() == other.revision()
        &&& self.identity_view() == other.identity_view()
    }

    /// The state is one that the calls of an attempt lead to.
    pub closed spec fn wf(&self) -> bool {
        &&& self.resources.identities().len() <= u32::MAX
        &&& self.handle matches Some(handle) ==> handle.index
            < self.resources.identities().len()
        &&& !self.started ==> self.regular@ && self.reader is None && !self.transitioning
        &&& self.regular@ ==> steps_lead_to(self@, self.first@, self.log@)
    }

    /// Moves to the resource after the current one.
    fn advance<I>(&mut self) -> (r: ReadAction<I>)
        requires
            old(self).wf(),
            old(self)@.transitioning,
        ensures
            final(self).wf(),
            final(self).same_set(old(self)),
            (final(self)@, r) == move_on::<I, R, S>(old(self)@, old(self).count()),
            final(self).steps() == old(self).steps(),
            final(self).first_ordinal() == old(self).first_ordinal(),
            final(self).opened_before_reading() == old(self).opened_before_reading(),
    {
        let current: u32 = match &self.handle {
            Some(handle) => handle.index,
            None => return ReadAction::Return(
                Err(ReaderError::with_category(FailureCategory::Invariant)),
            ),
        };
        if current as usize + 1 >= self.resources.len() {
            self.handle = None;
            self.transitioning = false;
            return ReadAction::Return(Ok(ReadOutcome::EndOfInput));
        }
        ReadAction::OpenResource(current + 1)
    }

    /// Begins a read call.
    pub fn read<I>(&mut self) -> (r: ReadAction<I>)
        requires
            old(self).wf(),
        ensures
            final(self).wf(),
            final(self).same_set(old(self)),
            (final(self)@, r) == read_begins::<I, R, S>(old(self)@, old(self).count()),
            final(self).steps() == old(self).steps(),
            final(self).first_ordinal() == old(self).first_ordinal(),
            final(self).opened_before_reading() == old(self).opened_before_reading(),
    {
        if !self.started {
            self.started = true;
            match self.pending.take() {
                Some(reader) => {
                    self.reader = Some(reader);
                },
                None => {
                    return ReadAction::Return(Ok(ReadOutcome::EndOfInput));
                },
            }
        }
        if self.transitioning {
            return self.advance();
        }
        if self.reader.is_none() {
            return ReadAction::Return(Ok(ReadOutcome::EndOfInput));
        }
        ReadAction::ReadDelegate
    }

    /// Borrows the delegate reader to read from.
    pub fn delegate_reader(&mut self) -> (r: Option<&mut R>)
        ensures
            match r {
                Some(reader) => {
                    &&& old(self)@.reader == Some(*reader)
                    &&& final(self)@ == (ReaderView {
                        reader: Some(*final(reader)),
                        ..old(self)@
                    })
                },
                None => old(self)@.reader is None && final(self)@ == old(self)@,
            },
            final(self).same_set(old(self)),
            final(self).steps() == old(self).steps(),
            final(self).first_ordinal() == old(self).first_ordinal(),
            final(self).opened_before_reading() == old(self).opened_before_reading(),
            old(self).wf() ==> final(self).wf(),
    {
        match &mut self.reader {
            Some(reader) => Some(reader),
            None => None,
        }
    }

    /// Takes the delegate reader's answer.
    pub fn delegate_read<I>(&mut self, result: Result<ReadOutcome<I>, ReaderError>) -> (r:
        ReadAction<I>)
        requires
            old(self).wf(),
            old(self)@.started,
            old(self)@.reader is Some,
            !old(self)@.transitioning,
        ensures
            *final(self) == *old(self),
            r == delegate_answers(old(self)@, result),
    {
        match result {
            Ok(ReadOutcome::EndOfInput) => {
                if self.handle.is_none() {
                    ReadAction::Return(Err(ReaderError::with_category(FailureCategory::Invariant)))
                } else {
                    ReadAction::CloseDelegate(StreamRuntimeOutcome::ResourceBoundary)
                }
            },
            other => ReadAction::Return(other),
        }
    }

    /// Borrows the delegate's stream.
    pub fn delegate_stream(&self) -> (r: Option<&S>)
        ensures
            match r {
                Some(stream) => self@.handle is Some && self@.handle->0.stream == *stream,
                None => self@.handle is None,
            },
    {
        match &self.handle {
            Some(handle) => Some(&handle.stream),
            None => None,
        }
    }

    /// Takes what came of closing the delegate's stream at its boundary.
    pub fn delegate_closed<I>(&mut self, result: Result<(), StreamCloseError>) -> (r: ReadAction<
        I,
    >)
        requires
            old(self).wf(),
            old(self)@.started,
            old(self)@.reader is Some,
            !old(self)@.transitioning,
            old(self)@.handle is Some,
        ensures
            final(self).wf(),
            final(self).same_set(old(self)),
            (final(self)@, r) == delegate_closes::<I, R, S>(
                old(self)@,
                old(self).count(),
                result,
            ),
            final(self).steps() == (if result is Ok {
                old(self).steps().push(LifecycleEvent::Closed(old(self)@.handle->0.index as int))
            } else {
                old(self).steps()
            }),
            final(self).first_ordinal() == old(self).first_ordinal(),
            final(self).opened_before_reading() == old(self).opened_before_reading(),
    {
        match result {
            Err(error) => ReadAction::Return(
                Err(ReaderError::with_category(error.category())),
            ),
            Ok(_) => {
                proof {
                    if self.regular@ {
                        one_more_step(self.first@, self.log@.len());
                    }
                }
                match self.handle.take() {
                    Some(handle) => {
                        let closed = StreamHandle {
                            index: handle.index,
                            stream: handle.stream,
                            retired: true,
                        };
                        self.log = Ghost(
                            self.log@.push(LifecycleEvent::Closed(handle.index as int)),
                        );
                        self.handle = Some(closed);
                    },
                    None => {},
                }
                self.reader = None;
                self.transitioning = true;
                self.advance()
            },
        }
    }

    /// The identity of the resource with the given ordinal, for opening it.
    pub fn resource(&self, index: u32) -> (r: Option<&ResourceIdentity>)
        ensures
            match r {
                Some(resource) => index < self.count() && *resource == self.names()[index as int],
                None => index >= self.count(),
            },
    {
        if (index as usize) < self.resources.len() {
            Some(&self.resources.resources()[index as usize])
        } else {
            None
        }
    }

    /// The namespace that delegates are opened under.
    pub fn identity(&self) -> (r: &ComponentStreamIdentity)
        ensures
            r@ == self.identity_view(),
    {
        &self.identity
    }

    /// Takes what came of opening the next resource and its stream, and says
    /// what to do next: read from the new delegate, or return the failure and
    /// leave everything for a retry that opens the same resource.
    pub fn resource_opened<I>(&mut self, result: Result<(R, S), EnterFailure>) -> (r: ReadAction<
        I,
    >)
        requires
            old(self).wf(),
            old(self)@.started,
            old(self)@.transitioning,
            old(self)@.handle is Some,
            old(self)@.handle->0.index + 1 < old(self).count(),
        ensures
            final(self).wf(),
            final(self).same_set(old(self)),
            match result {
                Err(failure) => {
                    &&& *final(self) == *old(self)
                    &&& r == ReadAction::<I>::Return(Err(enter_failure(failure)))
                },
                Ok((reader, stream)) => {
                    &&& final(self)@ == resource_entered(old(self)@, reader, stream)
                    &&& r == ReadAction::<I>::ReadDelegate
                    &&& final(self).steps() == old(self).steps().push(
                        LifecycleEvent::Opened(old(self)@.handle->0.index + 1),
                    )
                },
            },
            final(self).first_ordinal() == old(self).first_ordinal(),
            final(self).opened_before_reading() == old(self).opened_before_reading(),
    {
        match result {
            Err(EnterFailure::Resource(error)) => ReadAction::Return(
                Err(ReaderError::with_category(error.category())),
            ),
            Err(EnterFailure::Stream(_)) => ReadAction::Return(Err(ReaderError::new())),
            Ok((reader, stream)) => {
                let current: u32 = match &self.handle {
                    Some(handle) => handle.index,
                    None => 0,
                };
                proof {
                    if self.regular@ {
                        one_more_step(self.first@, self.log@.len());
                    }
                }
                self.log = Ghost(self.log@.push(LifecycleEvent::Opened(current + 1)));
                self.reader = Some(reader);
                self.handle = Some(StreamHandle { index: current + 1, stream, retired: false });
                self.transitioning = false;
                ReadAction::ReadDelegate
            },
        }
    }

    /// Begins opening the stream from the committed position in `inherited`, or
    /// from the start of the set when there is none.
    pub fn open(&mut self, inherited: Option<&[u8]>) -> (r: OpenAction)
        requires
            old(self).wf(),
        ensures
            final(self).wf(),
            final(self).same_set(old(self)),
            ({
                let bytes = match inherited {
                    Some(bytes) => Some(bytes@),
                    None => None,
                };
                match inherited_position(bytes, old(self).revision()) {
                    Err(error) => {
                        &&& *final(self) == *old(self)
                        &&& r == OpenAction::Return(Err(error))
                    },
                    Ok(state) => if state.resource_index > old(self).count() {
                        &&& *final(self) == *old(self)
                        &&& r == OpenAction::Return(
                            Err(StreamOpenError { category: FailureCategory::Invariant }),
                        )
                    } else if state.resource_index == old(self).count() {
                        &&& final(self)@ == (ReaderView {
                            handle: None,
                            pending: None,
                            ..old(self)@
                        })
                        &&& r == OpenAction::Return(Ok(open_outcome(inherited is Some)))
                        &&& final(self).steps().len() == 0
                        &&& final(self).opened_before_reading() == !old(self)@.started
                    } else {
                        &&& *final(self) == *old(self)
                        &&& r is OpenResource
                        &&& r->OpenResource_0@ == (ResumeView {
                            index: state.resource_index,
                            delegate: state.delegate,
                            batches: state.resource_batches_written,
                            restored: inherited is Some,
                        })
                    },
                }
            }),
    {
        let restored: bool = inherited.is_some();
        let state: MultiResourceState = match decode_inherited(inherited, &self.resources) {
            Ok(state) => state,
            Err(error) => return OpenAction::Return(Err(error)),
        };
        let count: usize = self.resources.len();
        let index: usize = state.resource_index as usize;
        if index > count {
            return OpenAction::Return(
                Err(StreamOpenError::with_category(FailureCategory::Invariant)),
            );
        }
        if index == count {
            self.handle = None;
            self.pending = None;
            self.first = Ghost(index as int);
            self.log = Ghost(Seq::empty());
            self.regular = Ghost(!self.started);
            assert(self.log@ =~= one_at_a_time(self.first@, 0));
            let outcome = if restored {
                StreamOpenOutcome::Restored
            } else {
                StreamOpenOutcome::Initial
            };
            return OpenAction::Return(Ok(outcome));
        }
        OpenAction::OpenResource(
            ResumePoint {
                index: state.resource_index,
                delegate: state.delegate,
                batches: state.resource_batches_written,
                restored,
            },
        )
    }

    /// Takes what came of opening the resumed resource, and says what its stream
    /// is to be opened with.
    pub fn resumed_resource_opened(
        &self,
        point: &ResumePoint,
        result: Result<(), MultiResourceOpenError>,
    ) -> (r: ResumeAction)
        ensures
            match result {
                Err(_) => r == ResumeAction::Return(Err(open_failure())),
                Ok(_) => match delegate_inheritance(point@.delegate, self.identity_view()) {
                    Err(error) => r == ResumeAction::Return(Err(error)),
                    Ok(None) => r is OpenStream && r->OpenStream_0 is None,
                    Ok(Some(envelope)) => r is OpenStream && r->OpenStream_0 is Some
                        && r->OpenStream_0->0@ == envelope,
                },
            },
    {
        match result {
            Err(_) => ResumeAction::Return(Err(StreamOpenError::new())),
            Ok(_) => match resume_delegate(&point.delegate, &self.identity) {
                Err(error) => ResumeAction::Return(Err(error)),
                Ok(inherited) => ResumeAction::OpenStream(inherited),
            },
        }
    }

    /// Takes what came of opening the resumed resource's stream, and ends the
    /// opening: the delegate is handed to the first read call, or nothing
    /// changes.
    pub fn resumed(&mut self, point: &ResumePoint, result: Result<(R, S), StreamOpenError>) -> (r:
        Result<StreamOpenOutcome, StreamOpenError>)
        requires
            old(self).wf(),
            point@.index < old(self).count(),
        ensures
            final(self).wf(),
            final(self).same_set(old(self)),
            match result {
                Err(_) => {
                    &&& *final(self) == *old(self)
                    &&& r == Err::<StreamOpenOutcome, StreamOpenError>(open_failure())
                },
                Ok((reader, stream)) => {
                    &&& final(self)@ == (ReaderView {
                        pending: Some(reader),
                        handle: Some(
                            StreamHandle { index: point@.index, stream, retired: false },
                        ),
                        ..old(self)@
                    })
                    &&& r == Ok::<StreamOpenOutcome, StreamOpenError>(
                        open_outcome(point@.restored),
                    )
                    &&& final(self).first_ordinal() == point@.index
                    &&& final(self).steps() == seq![LifecycleEvent::Opened(point@.index as int)]
                    &&& final(self).opened_before_reading() == !old(self)@.started
                },
            },
    {
        match result {
            Err(_) => Err(StreamOpenError::new()),
            Ok((reader, stream)) => {
                self.pending = Some(reader);
                self.handle = Some(StreamHandle { index: point.index, stream, retired: false });
                self.first = Ghost(point.index as int);
                self.log = Ghost(Seq::empty().push(LifecycleEvent::Opened(point.index as int)));
                self.regular = Ghost(!self.started);
                assert(self.log@ =~= one_at_a_time(self.first@, 1));
                if point.restored {
                    Ok(StreamOpenOutcome::Restored)
                } else {
                    Ok(StreamOpenOutcome::Initial)
                }
            },
        }
    }

    /// Prepares the candidate position. `delegate` is what the delegate's stream
    /// reported, and is there exactly if there is a delegate stream.
    pub fn update(&self, delegate: Option<Result<ComponentStateEnvelope, StreamUpdateError>>) -> (r:
        Result<Vec<u8>, StreamUpdateError>)
        requires
            self.wf(),
            delegate is Some == self@.handle is Some,
        ensures
            ({
                let candidate = match self@.handle {
                    Some(handle) => candidate_position(
                        self.revision(),
                        self.identity_view(),
                        handle.index,
                        candidate_view(delegate->0),
                        0,
                    ),
                    None => Ok(
                        StateView {
                            resource_set_revision: self.revision(),
                            resource_index: self.count() as u32,
                            delegate: None,
                            resource_batches_written: 0,
                        },
                    ),
                };
                match r {
                    Ok(bytes) => candidate is Ok && spells(bytes@, candidate->Ok_0),
                    Err(error) => candidate == Err::<StateView, StreamUpdateError>(error),
                }
            }),
    {
        match (&self.handle, delegate) {
            (Some(handle), Some(reported)) => encode_candidate(
                &self.resources,
                &self.identity,
                handle.index,
                reported,
                0,
            ),
            _ => {
                let state = MultiResourceState {
                    resource_set_revision: self.resources.revision(),
                    resource_index: self.resources.len() as u32,
                    delegate: None,
                    resource_batches_written: 0,
                };
                match MultiResourcePositionSchema.encode(&state) {
                    Ok(bytes) => Ok(bytes),
                    Err(_) => Err(StreamUpdateError::new()),
                }
            },
        }
    }

    /// The stream that the terminal close is still to close: the delegate's,
    /// unless it was closed at its boundary already.
    pub fn close(&self) -> (r: Option<&S>)
        ensures
            match r {
                Some(stream) => {
                    &&& self@.handle matches Some(handle)
                    &&& !handle.retired
                    &&& handle.stream == *stream
                },
                None => self@.handle matches Some(handle) ==> handle.retired,
            },
    {
        match &self.handle {
            Some(handle) => if handle.retired {
                None
            } else {
                Some(&handle.stream)
            },
            None => None,
        }
    }
}

/// Builds a reader over an ordered resource set, namespaced under `identity`.
pub fn multi_resource_reader<R, S>(
    resources: ResourceSet,
    identity: ComponentStreamIdentity,
) -> (r: MultiResourceReader<R, S>)
    requires
        resources.identities().len() <= u32::MAX,
    ensures
        r.wf(),
        r.names() == resources.identities(),
        r.revision() == resources.revision_view(),
        r.identity_view() == identity@,
        r@ == (ReaderView::<R, S> {
            reader: None,
            pending: None,
            handle: None,
            started: false,
            transitioning: false,
        }),
        r.steps().len() == 0,
        r.opened_before_reading(),
{
    let r = MultiResourceReader {
        resources,
        identity,
        reader: None,
        pending: None,
        handle: None,
        started: false,
        transitioning: false,
        first: Ghost(0),
        log: Ghost(Seq::empty()),
        regular: Ghost(true),
    };
    assert(r.log@ =~= one_at_a_time(0, 0));
    r
}

/// What the terminal close answers: it reports the delegate's failure as a
/// user-component failure.
pub fn close_result(delegate: Result<(), StreamCloseError>) -> (r: Result<(), StreamCloseError>)
    ensures
        match delegate {
            Ok(_) => r is Ok,
            Err(_) => r == Err::<(), StreamCloseError>(
                StreamCloseError { category: FailureCategory::UserComponent },
            ),
        },
{
    match delegate {
        Ok(_) => Ok(()),
        Err(_) => Err(StreamCloseError::new()),
    }
}

/// Whatever the delegates, openers and streams answer, an attempt opens its
/// resources one at a time and in order, closing each at its boundary before
/// the next is opened; and the terminal close is left with exactly the one that
/// is still open.
pub proof fn reader_closes_each_resource_once<R, S>(reader: MultiResourceReader<R, S>)
    requires
        reader.wf(),
        reader.opened_before_reading(),
    ensures
        reader.steps() == one_at_a_time(reader.first_ordinal(), reader.steps().len()),
        reader@.handle matches Some(handle) && !handle.retired <==> reader.steps().len() % 2 == 1,
        reader@.handle matches Some(handle) ==> (!handle.retired ==> reader.steps().last()
            == LifecycleEvent::Opened(handle.index as int)),
{
}

/// Once the whole set is exhausted, every further read reports the end of
/// input and changes nothing.
pub proof fn exhausted_stays_exhausted<I, R, S>(v: ReaderView<R, S>, count: nat)
    requires
        v.started,
        v.reader is None,
        !v.transitioning,
    ensures
        read_begins::<I, R, S>(v, count) == (
            v,
            ReadAction::<I>::Return(Ok(ReadOutcome::EndOfInput)),
        ),
{
}

/// After a failed move to the next resource a retried read opens the same
/// resource again: it neither polls nor closes the retired delegate, and skips
/// no resource.
pub proof fn failed_open_is_retried_at_the_same_resource<I, R, S>(
    v: ReaderView<R, S>,
    count: nat,
)
    requires
        v.started,
        v.transitioning,
        v.handle is Some,
        v.handle->0.index + 1 < count,
    ensures
        read_begins::<I, R, S>(v, count) == (
            v,
            ReadAction::<I>::OpenResource((v.handle->0.index + 1) as u32),
        ),
{
}

/// A position prepared over one resource set is refused by a reader or writer
/// over a set with another revision.
pub proof fn other_resource_set_is_refused(bytes: Seq<u8>, state: StateView, revision: Seq<u8>)
    requires
        spells(bytes, state),
        state.resource_set_revision != revision,
    ensures
        inherited_position(Some(bytes), revision) == Err::<StateView, StreamOpenError>(
            StreamOpenError { category: FailureCategory::UnsupportedCapability },
        ),
{
}

/// A position prepared from a delegate's candidate resumes at the same resource
/// and hands the delegate exactly the envelope that it reported.
pub proof fn restart_resumes_the_committed_position(
    bytes: Seq<u8>,
    revision: Seq<u8>,
    identity: Seq<char>,
    index: u32,
    envelope: EnvelopeView,
    batches: u64,
)
    requires
        envelope.payload matches crate::component_state::PayloadView::External { content_id, .. }
            ==> content_id.len() == 32,
        candidate_position(
            revision,
            identity,
            index,
            Ok::<EnvelopeView, StreamUpdateError>(envelope),
            batches,
        ) is Ok,
        spells(
            bytes,
            candidate_position(
                revision,
                identity,
                index,
                Ok::<EnvelopeView, StreamUpdateError>(envelope),
                batches,
            )->Ok_0,
        ),
    ensures
        inherited_position(Some(bytes), revision) is Ok,
        inherited_position(Some(bytes), revision)->Ok_0.resource_index == index,
        inherited_position(Some(bytes), revision)->Ok_0.resource_batches_written == batches,
        delegate_inheritance(
            inherited_position(Some(bytes), revision)->Ok_0.delegate,
            identity,
        ) == Ok::<Option<EnvelopeView>, StreamOpenError>(Some(envelope)),
{
    super::state::envelope_round_trip(envelope);
}

/// The first read takes over the delegate that opening has left; a read then goes
/// on with an unfinished move, reads from the delegate, or reports the end of the
/// set if there is none.
pub proof fn a_read_goes_on_where_the_reader_is<I, R, S>(
    reader: &mut MultiResourceReader<R, S>,
    r: ReadAction<I>,
)
    requires
        call_ensures(MultiResourceReader::<R, S>::read::<I>, (reader,), r),
        old(reader)@.transitioning ==> old(reader)@.started,
    ensures
        ({
            let before = old(reader)@;
            let after = final(reader)@;
            &&& after.started
            &&& !before.started && before.pending is None ==> r == ReadAction::<I>::Return(
                Ok(ReadOutcome::EndOfInput),
            )
            &&& !before.started && before.pending is Some ==> after.reader == before.pending
                && after.pending is None && r is ReadDelegate
            &&& before.started && !before.transitioning ==> after == before && (if before.reader
                is Some {
                r is ReadDelegate
            } else {
                r == ReadAction::<I>::Return(Ok(ReadOutcome::EndOfInput))
            })
            &&& before.transitioning && before.handle is Some
                && before.handle->0.index + 1 < old(reader).count() ==> after == before && r
                    == ReadAction::<I>::OpenResource(
                (before.handle->0.index + 1) as u32,
            )
            &&& before.transitioning && before.handle is Some && before.handle->0.index + 1
                >= old(reader).count() ==> after.handle is None && !after.transitioning && r
                == ReadAction::<I>::Return(Ok(ReadOutcome::EndOfInput))
        }),
{
}

/// What a delegate answers is the reader's answer, but for the end of its
/// resource: then its stream is closed at the resource's boundary, which is no
/// proof of a commit.
pub proof fn a_delegates_answer_is_passed_on<I, R, S>(
    reader: &mut MultiResourceReader<R, S>,
    result: Result<ReadOutcome<I>, ReaderError>,
    r: ReadAction<I>,
)
    requires
        call_ensures(MultiResourceReader::<R, S>::delegate_read::<I>, (reader, result), r),
        old(reader)@.handle is Some,
    ensures
        *final(reader) == *old(reader),
        result matches Ok(ReadOutcome::EndOfInput) ==> r == ReadAction::<I>::CloseDelegate(
            StreamRuntimeOutcome::ResourceBoundary,
        ),
        !(result matches Ok(ReadOutcome::EndOfInput)) ==> r == ReadAction::<I>::Return(result),
{
}

/// Once a delegate's stream is closed, the delegate is retired and the next
/// resource is opened, or the set is at its end. A failed close keeps its category
/// and changes nothing.
pub proof fn a_closed_delegate_is_followed_by_the_next<I, R, S>(
    reader: &mut MultiResourceReader<R, S>,
    result: Result<(), StreamCloseError>,
    r: ReadAction<I>,
)
    requires
        call_ensures(MultiResourceReader::<R, S>::delegate_closed::<I>, (reader, result), r),
        old(reader)@.handle is Some,
    ensures
        ({
            let current = old(reader)@.handle->0;
            let after = final(reader)@;
            &&& result matches Err(error) ==> after == old(reader)@ && (
            r matches ReadAction::Return(Err(failure)) && failure.category == error.category
                && !failure.checkpoint_advanced)
            &&& result is Ok ==> after.reader is None
            &&& result is Ok && current.index + 1 < old(reader).count() ==> r
                == ReadAction::<I>::OpenResource((current.index + 1) as u32) && after.transitioning
                && (after.handle matches Some(handle) && handle.retired && handle.index
                == current.index && handle.stream == current.stream)
            &&& result is Ok && current.index + 1 >= old(reader).count() ==> r
                == ReadAction::<I>::Return(Ok(ReadOutcome::EndOfInput)) && after.handle is None
        }),
{
}

/// An opened resource is read from its beginning, as the one behind the current
/// one. A resource that cannot be opened keeps its category and changes nothing.
pub proof fn the_next_resource_is_entered<I, R, S>(
    reader: &mut MultiResourceReader<R, S>,
    result: Result<(R, S), EnterFailure>,
    r: ReadAction<I>,
)
    requires
        call_ensures(MultiResourceReader::<R, S>::resource_opened::<I>, (reader, result), r),
        old(reader)@.handle is Some,
        old(reader)@.handle->0.index < u32::MAX,
    ensures
        result matches Ok((delegate, stream)) ==> r is ReadDelegate && final(reader)@.reader
            == Some(
            delegate,
        ) && !final(reader)@.transitioning && (final(reader)@.handle matches Some(handle)
            && handle.index == old(reader)@.handle->0.index + 1 && handle.stream == stream
            && !handle.retired),
        result is Err ==> *final(reader) == *old(reader),
        result matches Err(EnterFailure::Resource(error)) ==> (
        r matches ReadAction::Return(Err(failure)) && failure.category == error.category_view()
            && !failure.checkpoint_advanced),
        result matches Err(EnterFailure::Stream(_)) ==> (
        r matches ReadAction::Return(Err(failure)) && failure.category
            == FailureCategory::UserComponent && !failure.checkpoint_advanced),
{
}

/// Without inherited state a set is opened at its first resource. Bytes that spell
/// no position are refused, a position of another set is not supported, and a
/// position of this set is taken as it is.
pub proof fn a_position_belongs_to_its_set(
    inherited: Option<Seq<u8>>,
    revision: Seq<u8>,
    state: StateView,
)
    ensures
        inherited is None ==> (inherited_position(inherited, revision) matches Ok(start)
            && start.resource_index == 0 && start.delegate is None
            && start.resource_batches_written == 0 && start.resource_set_revision == revision),
        inherited matches Some(bytes) && state_of_bytes(bytes) is None ==> inherited_position(
            inherited,
            revision,
        ) == Err::<StateView, StreamOpenError>(
            StreamOpenError { category: FailureCategory::UserComponent },
        ),
        inherited matches Some(bytes) && state_of_bytes(bytes) == Some(state) ==> (
        inherited_position(inherited, revision) == (if state.resource_set_revision == revision {
            Ok::<StateView, StreamOpenError>(state)
        } else {
            Err(StreamOpenError { category: FailureCategory::UnsupportedCapability })
        })),
{
}

/// A delegate is opened with its own committed envelope and with no other one: one
/// of another namespace breaks an invariant, and one that cannot be put together
/// is refused.
pub proof fn a_delegate_inherits_its_own_envelope(
    columns: ColumnsView,
    identity: Seq<char>,
)
    ensures
        delegate_inheritance(None, identity) == Ok::<Option<EnvelopeView>, StreamOpenError>(None),
        columns.namespace != identity ==> delegate_inheritance(Some(columns), identity) == Err::<
            Option<EnvelopeView>,
            StreamOpenError,
        >(StreamOpenError { category: FailureCategory::Invariant }),
        columns.namespace == identity && envelope_of(columns, identity) is None
            ==> delegate_inheritance(Some(columns), identity) == Err::<
            Option<EnvelopeView>,
            StreamOpenError,
        >(StreamOpenError { category: FailureCategory::UserComponent }),
        columns.namespace == identity && envelope_of(columns, identity) is Some
            ==> delegate_inheritance(Some(columns), identity) == Ok::<
            Option<EnvelopeView>,
            StreamOpenError,
        >(envelope_of(columns, identity)),
{
}

/// A delegate's candidate is embedded as it is reported, under the current
/// resource, and only if the delegate reported the namespace that it was given.
pub proof fn a_candidate_embeds_the_delegate(
    revision: Seq<u8>,
    identity: Seq<char>,
    index: u32,
    delegate: Result<EnvelopeView, StreamUpdateError>,
    batches: u64,
)
    ensures
        ({
            let r = candidate_position(revision, identity, index, delegate, batches);
            &&& delegate is Err ==> r == Err::<StateView, StreamUpdateError>(
                StreamUpdateError { category: FailureCategory::UserComponent },
            )
            &&& delegate is Ok && delegate->Ok_0.namespace != identity ==> r == Err::<
                StateView,
                StreamUpdateError,
            >(StreamUpdateError { category: FailureCategory::Invariant })
            &&& delegate is Ok && delegate->Ok_0.namespace == identity ==> (r matches Ok(state)
                && state.resource_set_revision == revision && state.resource_index == index
                && state.delegate == Some(columns_of(delegate->Ok_0))
                && state.resource_batches_written == batches)
        }),
{
}

/// A reader is opened at the resource that its position names. A position behind
/// the last resource has nothing left to read, and one further on breaks an
/// invariant.
pub proof fn a_reader_is_opened_at_its_position<R, S>(
    reader: &mut MultiResourceReader<R, S>,
    inherited: Option<&[u8]>,
    r: OpenAction,
    state: StateView,
)
    requires
        call_ensures(MultiResourceReader::<R, S>::open, (reader, inherited), r),
        old(reader).count() > 0,
    ensures
        inherited is None ==> (r matches OpenAction::OpenResource(point) && point.index == 0
            && point.delegate is None && !point.restored),
        inherited is Some && state_of_bytes(inherited->0@) is None ==> r == OpenAction::Return(
            Err(StreamOpenError { category: FailureCategory::UserComponent }),
        ),
        inherited is Some && state_of_bytes(inherited->0@) == Some(state) ==> {
            &&& state.resource_set_revision != old(reader).revision() ==> r == OpenAction::Return(
                Err(StreamOpenError { category: FailureCategory::UnsupportedCapability }),
            )
            &&& state.resource_set_revision == old(reader).revision() ==> {
                &&& state.resource_index < old(reader).count() ==> r is OpenResource
                    && r->OpenResource_0@.index == state.resource_index
                    && r->OpenResource_0@.delegate == state.delegate && r->OpenResource_0@.restored
                &&& state.resource_index == old(reader).count() ==> r == OpenAction::Return(
                    Ok(StreamOpenOutcome::Restored),
                ) && final(reader)@.handle is None && final(reader)@.pending is None
                &&& state.resource_index > old(reader).count() ==> r == OpenAction::Return(
                    Err(StreamOpenError { category: FailureCategory::Invariant }),
                )
            }
        },
{
    assert(r is OpenResource ==> r->OpenResource_0@.index == r->OpenResource_0.index);
    assert(r is OpenResource ==> (r->OpenResource_0@.delegate is None
        <==> r->OpenResource_0.delegate is None));
    assert(r is OpenResource ==> r->OpenResource_0@.restored == r->OpenResource_0.restored);
}

/// A resumed resource is handed to the first read, at its ordinal; one whose stream
/// cannot be opened changes nothing.
pub proof fn a_resumed_resource_is_read_first<R, S>(
    reader: &mut MultiResourceReader<R, S>,
    point: &ResumePoint,
    result: Result<(R, S), StreamOpenError>,
    r: Result<StreamOpenOutcome, StreamOpenError>,
)
    requires
        call_ensures(MultiResourceReader::<R, S>::resumed, (reader, point, result), r),
    ensures
        r is Ok <==> result is Ok,
        result is Err ==> *final(reader) == *old(reader) && r->Err_0.category
            == FailureCategory::UserComponent,
        result matches Ok((delegate, stream)) ==> final(reader)@.pending == Some(delegate)
            && (final(reader)@.handle matches Some(handle) && handle.index == point.index
                && handle.stream == stream
            && !handle.retired),
        r == Ok::<StreamOpenOutcome, StreamOpenError>(StreamOpenOutcome::Restored) <==> result is Ok
            && point.restored,
{
    assert(point@.index == point.index && point@.restored == point.restored);
}

/// A resumed delegate's stream is opened with what the position holds of it, once
/// its resource is open.
pub proof fn a_resumed_stream_inherits_its_position<R, S>(
    reader: &MultiResourceReader<R, S>,
    point: &ResumePoint,
    result: Result<(), MultiResourceOpenError>,
    r: ResumeAction,
)
    requires
        call_ensures(
            MultiResourceReader::<R, S>::resumed_resource_opened,
            (reader, point, result),
            r,
        ),
    ensures
        result is Err ==> r == ResumeAction::Return(
            Err(StreamOpenError { category: FailureCategory::UserComponent }),
        ),
        result is Ok && point.delegate is None ==> r == ResumeAction::OpenStream(None),
        result is Ok && point.delegate is Some && point.delegate->0.namespace@
            != reader.identity_view() ==> r == ResumeAction::Return(
            Err(StreamOpenError { category: FailureCategory::Invariant }),
        ),
        r matches ResumeAction::OpenStream(Some(envelope)) ==> result is Ok
            && point.delegate is Some
            && envelope_of(point.delegate->0@, reader.identity_view()) == Some(envelope@),
{
    match point.delegate {
        Some(columns) => {
            assert(point@.delegate == Some(columns@));
            assert(columns@.namespace == columns.namespace@);
        },
        None => {},
    }
}

/// A candidate names the resource that is read, and past the last resource the
/// number of resources, so that a restart has nothing left to read.
pub proof fn a_finished_set_stays_finished<R, S>(
    reader: &MultiResourceReader<R, S>,
    delegate: Option<Result<ComponentStateEnvelope, StreamUpdateError>>,
    r: Result<Vec<u8>, StreamUpdateError>,
)
    requires
        call_ensures(MultiResourceReader::<R, S>::update, (reader, delegate), r),
        reader.count() <= u32::MAX,
        delegate is Some <==> reader@.handle is Some,
    ensures
        reader@.handle is None ==> r is Ok && (state_of_bytes(r->Ok_0@) matches Some(state)
            && state.resource_index == reader.count() && state.delegate is None
            && state.resource_set_revision == reader.revision()),
        reader@.handle is Some && r is Ok ==> (state_of_bytes(r->Ok_0@) matches Some(state)
            && state.resource_index == reader@.handle->0.index && state.delegate is Some
            && state.resource_set_revision == reader.revision()),
        reader@.handle is Some && delegate->0 is Err ==> r == Err::<Vec<u8>, StreamUpdateError>(
            StreamUpdateError { category: FailureCategory::UserComponent },
        ),
        reader@.handle is Some && delegate->0 is Ok ==> (r is Ok <==> delegate->0->Ok_0.namespace@
            == reader.identity_view()),
{
    if delegate is Some && delegate->0 is Ok {
        assert(delegate->0->Ok_0@.namespace == delegate->0->Ok_0.namespace@);
    }
}

/// The terminal close reports a failed delegate as the component's own failure.
pub proof fn a_failed_close_is_reported(
    delegate: Result<(), StreamCloseError>,
    r: Result<(), StreamCloseError>,
)
    requires
        call_ensures(close_result, (delegate,), r),
    ensures
        r is Ok <==> delegate is Ok,
        r matches Err(error) ==> error.category == FailureCategory::UserComponent,
{
}

/// The terminal close is left exactly with the stream of a delegate that was not
/// closed at its boundary.
pub proof fn a_reader_closes_what_is_still_open<R, S>(
    reader: &MultiResourceReader<R, S>,
    r: Option<&S>,
)
    requires
        call_ensures(MultiResourceReader::<R, S>::close, (reader,), r),
    ensures
        r is Some <==> reader@.handle is Some && !reader@.handle->0.retired,
        r matches Some(stream) ==> *stream == reader@.handle->0.stream,
{
}

/// A resource is found by its ordinal in the declared order.
pub proof fn a_reader_finds_resources_by_ordinal<R, S>(
    reader: &MultiResourceReader<R, S>,
    index: u32,
    r: Option<&ResourceIdentity>,
)
    requires
        call_ensures(MultiResourceReader::<R, S>::resource, (reader, index), r),
    ensures
        r is Some <==> index < reader.names().len(),
        r matches Some(resource) ==> *resource == reader.names()[index as int],
{
}

/// A reader starts before its first resource, over the set that it was built of.
pub proof fn a_reader_keeps_its_set<R, S>(
    resources: ResourceSet,
    identity: ComponentStreamIdentity,
    r: MultiResourceReader<R, S>,
)
    requires
        call_ensures(multi_resource_reader::<R, S>, (resources, identity), r),
    ensures
        r.names() == resources.identities(),
        r.revision() == resources.revision_view(),
        r.identity_view() == identity@,
        r@.reader is None && r@.pending is None && r@.handle is None,
        !r@.started && !r@.transitioning,
{
}

} // verus!
