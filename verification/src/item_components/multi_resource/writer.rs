//! Writing one logical output across an ordered set of resources.
//!
//! As for the reader, [`MultiResourceWriter`] decides and its caller acts.

use super::error::{MultiResourceOpenError, WriterConfigError};
use super::identity::{ResourceIdentity, ResourceSet};
use super::lifecycle::{one_at_a_time, one_more_step, LifecycleEvent};
use super::reader::{
    candidate_position, candidate_view, decode_inherited, delegate_inheritance, encode_candidate,
    inherited_position, open_failure, open_outcome, resume_delegate, spells, EnterFailure,
    OpenAction, ResumeAction, ResumePoint, ResumeView,
};
use super::state::{state_of_bytes, MultiResourceState, StateView};
use crate::component_state::ComponentStateEnvelope;
use crate::item_stream::{
    StreamCloseError, StreamOpenError, StreamOpenOutcome, StreamRuntimeOutcome, StreamUpdateError,
};
use crate::runtime::{FailureCategory, StopToken, WriteOutcome, WriterError};
use crate::tokens::ComponentStreamIdentity;
use vstd::prelude::*;

verus! {

/// Decides, before each batch is written, whether the current output resource
/// should roll over to the next one first.
///
/// A batch is never split across two resources: the decision is made once,
/// before the batch is written.
pub trait RolloverPolicy {
    /// The decision for a resource that holds the given number of batches.
    spec fn rolls_over(&self, resource_batches_written: u64) -> bool;

    /// Returns whether the current resource should roll over before the next
    /// batch is written, given the number of batches already written to it.
    fn should_roll_over(&self, resource_batches_written: u64) -> (r: bool)
        ensures
            r == self.rolls_over(resource_batches_written),
    ;
}

/// Rolls over after a fixed number of batches have been written to the current
/// resource.
#[derive(Clone, Copy, Debug)]
pub struct BatchCountRollover {
    max_batches_per_resource: u64,
}

impl BatchCountRollover {
    /// The number of batches that a resource holds before it rolls over.
    pub closed spec fn limit(&self) -> u64 {
        self.max_batches_per_resource
    }

    /// Rolls over once `max_batches_per_resource` batches have been written to
    /// the current resource.
    pub fn new(max_batches_per_resource: u64) -> (r: Self)
        ensures
            r.limit() == max_batches_per_resource,
    {
        BatchCountRollover { max_batches_per_resource }
    }
}

impl RolloverPolicy for BatchCountRollover {
    open spec fn rolls_over(&self, resource_batches_written: u64) -> bool {
        resource_batches_written >= self.limit()
    }

    fn should_roll_over(&self, resource_batches_written: u64) -> (r: bool) {
        resource_batches_written >= self.max_batches_per_resource
    }
}

/// Never rolls over: exactly one output resource is used.
#[derive(Clone, Copy, Debug)]
pub struct NoRollover;

impl RolloverPolicy for NoRollover {
    open spec fn rolls_over(&self, resource_batches_written: u64) -> bool {
        false
    }

    fn should_roll_over(&self, resource_batches_written: u64) -> (r: bool) {
        false
    }
}

impl Default for NoRollover {
    fn default() -> (r: Self)
        ensures
            r == NoRollover,
    {
        NoRollover
    }
}

/// The delegate of the current output resource.
pub struct ActiveWriteResource<W, S> {
    /// The ordinal of the resource.
    pub index: u32,
    /// The delegate writer.
    pub writer: W,
    /// The delegate's stream.
    pub stream: S,
    /// The number of batches written to the resource.
    pub batches_written: u64,
    /// The stream has been closed at its boundary, and the rollover is not
    /// complete yet.
    pub retired: bool,
}

/// What to do next within one write call.
pub enum WriteAction {
    /// The call is over.
    Return(Result<WriteOutcome, WriterError>),
    /// Close the delegate's stream with this outcome.
    CloseDelegate(StreamRuntimeOutcome),
    /// Open the resource with this ordinal, and then its stream without
    /// inherited state.
    OpenResource(u32),
    /// Write the whole batch to the delegate writer.
    WriteDelegate,
}

/// A write failure of the given category.
pub open spec fn write_failure(category: FailureCategory) -> WriteAction {
    WriteAction::Return(Err(WriterError { category, rolled_back_output: None }))
}

/// What a write call does first. `rolls` is the rollover policy's decision for
/// the current resource, and `count` the number of resources: the last resource
/// keeps taking batches, for there is none to roll over into.
pub open spec fn write_begins<W, S>(
    active: Option<ActiveWriteResource<W, S>>,
    count: nat,
    rolls: bool,
    stop: bool,
) -> WriteAction {
    if stop {
        WriteAction::Return(Ok(WriteOutcome::Stopped))
    } else {
        match active {
            None => write_failure(FailureCategory::Invariant),
            Some(current) => if rolls && current.index + 1 < count {
                if current.retired {
                    WriteAction::OpenResource((current.index + 1) as u32)
                } else {
                    WriteAction::CloseDelegate(StreamRuntimeOutcome::ResourceBoundary)
                }
            } else {
                WriteAction::WriteDelegate
            },
        }
    }
}

/// Writes a logical output partitioned across an ordered set of physical
/// resources, through delegates of the writer type `W` with streams of the type
/// `S`.
///
/// Resources are filled in declared order, and one batch never spans two of
/// them. A rollover closes the outgoing resource's stream before the next one is
/// opened.
pub struct MultiResourceWriter<W, S, P> {
    resources: ResourceSet,
    identity: ComponentStreamIdentity,
    rollover: P,
    active: Option<ActiveWriteResource<W, S>>,
    // The ordinal that the attempt resumed at.
    first: Ghost<int>,
    // The lifecycle steps since then.
    log: Ghost<Seq<LifecycleEvent>>,
}

impl<W, S, P> View for MultiResourceWriter<W, S, P> {
    type V = Option<ActiveWriteResource<W, S>>;

    closed spec fn view(&self) -> Option<ActiveWriteResource<W, S>> {
        self.active
    }
}

impl<W, S, P> MultiResourceWriter<W, S, P> {
    /// The identities of the resources, in order.
    pub closed spec fn names(&self) -> Seq<ResourceIdentity> {
        self.resources.identities()
    }

    /// The number of resources.
    pub open spec fn count(&self) -> nat {
        self.names().len()
    }

    /// The revision of the resource set.
    pub closed spec fn revision(&self) -> Seq<u8> {
        self.resources.revision_view()
    }

    /// The namespace of the component and of its delegates.
    pub closed spec fn identity_view(&self) -> Seq<char> {
        self.identity@
    }

    /// The rollover policy.
    pub closed spec fn policy(&self) -> P {
        self.rollover
    }

    /// The ordinal that the attempt resumed at.
    pub closed spec fn first_ordinal(&self) -> int {
        self.first@
    }

    /// The lifecycle steps since the attempt resumed.
    pub closed spec fn steps(&self) -> Seq<LifecycleEvent> {
        self.log@
    }

    /// The parts that no call changes.
    pub open spec fn same_set(&self, other: &Self) -> bool {
        &&& self.names() == other.names()
        &&& self.revision() == other.revision()
        &&& self.identity_view() == other.identity_view()
        &&& self.policy() == other.policy()
    }

    /// The state is one that the calls of an attempt lead to.
    pub closed spec fn wf(&self) -> bool {
        &&& 0 < self.resources.identities().len() <= u32::MAX
        &&& self.log@ == one_at_a_time(self.first@, self.log@.len())
        &&& match self.active {
            None => self.log@.len() == 0,
            Some(current) => {
                &&& current.index < self.resources.identities().len()
                &&& self.log@.len() > 0
                &&& current.index == self.first@ + (self.log@.len() as int - 1) / 2
                &&& current.retired == (self.log@.len() % 2 == 0)
            },
        }
    }

    /// Takes what came of closing the outgoing delegate's stream: a failure is
    /// passed on and changes nothing, so that a retry closes it again.
    pub fn delegate_closed(&mut self, result: Result<(), StreamCloseError>) -> (r: WriteAction)
        requires
            old(self).wf(),
            old(self)@ is Some,
            !old(self)@->0.retired,
            old(self)@->0.index + 1 < old(self).count(),
        ensures
            final(self).wf(),
            final(self).same_set(old(self)),
            final(self).first_ordinal() == old(self).first_ordinal(),
            match result {
                Err(error) => {
                    &&& *final(self) == *old(self)
                    &&& r == write_failure(error.category)
                },
                Ok(_) => {
                    &&& final(self)@ == Some(ActiveWriteResource { retired: true, ..old(self)@->0 })
                    &&& r == WriteAction::OpenResource((old(self)@->0.index + 1) as u32)
                    &&& final(self).steps() == old(self).steps().push(
                        LifecycleEvent::Closed(old(self)@->0.index as int),
                    )
                },
            },
    {
        match result {
            Err(error) => WriteAction::Return(Err(WriterError::with_category(error.category()))),
            Ok(_) => {
                proof {
                    one_more_step(self.first@, self.log@.len());
                }
                let mut index: u32 = 0;
                match self.active.take() {
                    Some(current) => {
                        index = current.index;
                        self.log = Ghost(self.log@.push(LifecycleEvent::Closed(index as int)));
                        self.active = Some(
                            ActiveWriteResource {
                                index: current.index,
                                writer: current.writer,
                                stream: current.stream,
                                batches_written: current.batches_written,
                                retired: true,
                            },
                        );
                    },
                    None => {},
                }
                WriteAction::OpenResource(index + 1)
            },
        }
    }

    /// Takes what came of opening the next resource and its stream: a failure
    /// leaves everything for a retry that opens the same resource.
    pub fn resource_opened(&mut self, result: Result<(W, S), EnterFailure>) -> (r: WriteAction)
        requires
            old(self).wf(),
            old(self)@ is Some,
            old(self)@->0.retired,
            old(self)@->0.index + 1 < old(self).count(),
        ensures
            final(self).wf(),
            final(self).same_set(old(self)),
            final(self).first_ordinal() == old(self).first_ordinal(),
            match result {
                Err(_) => {
                    &&& *final(self) == *old(self)
                    &&& r == write_failure(FailureCategory::UserComponent)
                },
                Ok((writer, stream)) => {
                    &&& final(self)@ == Some(
                        ActiveWriteResource {
                            index: (old(self)@->0.index + 1) as u32,
                            writer,
                            stream,
                            batches_written: 0,
                            retired: false,
                        },
                    )
                    &&& r == WriteAction::WriteDelegate
                    &&& final(self).steps() == old(self).steps().push(
                        LifecycleEvent::Opened(old(self)@->0.index + 1),
                    )
                },
            },
    {
        match result {
            Err(_) => WriteAction::Return(Err(WriterError::new())),
            Ok((writer, stream)) => {
                proof {
                    one_more_step(self.first@, self.log@.len());
                }
                let index: u32 = match &self.active {
                    Some(current) => current.index,
                    None => 0,
                };
                self.log = Ghost(self.log@.push(LifecycleEvent::Opened(index + 1)));
                self.active = Some(
                    ActiveWriteResource {
                        index: index + 1,
                        writer,
                        stream,
                        batches_written: 0,
                        retired: false,
                    },
                );
                WriteAction::WriteDelegate
            },
        }
    }

    /// Takes the delegate writer's answer and passes it on; a written batch is
    /// counted, and a failure changes nothing.
    pub fn delegate_wrote(&mut self, result: Result<WriteOutcome, WriterError>) -> (r: Result<
        WriteOutcome,
        WriterError,
    >)
        requires
            old(self).wf(),
            old(self)@ is Some,
            result == Ok::<WriteOutcome, WriterError>(WriteOutcome::Written)
                ==> old(self)@->0.batches_written < u64::MAX,
        ensures
            final(self).wf(),
            final(self).same_set(old(self)),
            final(self).first_ordinal() == old(self).first_ordinal(),
            final(self).steps() == old(self).steps(),
            r == result,
            final(self)@ == (if result == Ok::<WriteOutcome, WriterError>(WriteOutcome::Written) {
                Some(
                    ActiveWriteResource {
                        batches_written: (old(self)@->0.batches_written + 1) as u64,
                        ..old(self)@->0
                    },
                )
            } else {
                old(self)@
            }),
    {
        match result {
            Ok(WriteOutcome::Written) => {
                match self.active.take() {
                    Some(current) => {
                        self.active = Some(
                            ActiveWriteResource {
                                index: current.index,
                                writer: current.writer,
                                stream: current.stream,
                                batches_written: current.batches_written + 1,
                                retired: current.retired,
                            },
                        );
                    },
                    None => {},
                }
            },
            _ => {},
        }
        result
    }

    /// Borrows the current delegate.
    pub fn active(&self) -> (r: Option<&ActiveWriteResource<W, S>>)
        ensures
            match r {
                Some(current) => self@ == Some(*current),
                None => self@ is None,
            },
    {
        match &self.active {
            Some(current) => Some(current),
            None => None,
        }
    }

    /// The identity of the resource with the given ordinal, for opening it.
    pub fn resource(&self, index: u32) -> (r: Option<&ResourceIdentity>)
        ensures
            match r {
                Some(resource) => index < self.count() && *resource == self.names()[index as int],
                None => index >= self.count(),
            },
    {
        if (index as usize) < self.resources.len() {
            Some(&self.resources.resources()[index as usize])
        } else {
            None
        }
    }

    /// The namespace that delegates are opened under.
    pub fn identity(&self) -> (r: &ComponentStreamIdentity)
        ensures
            r@ == self.identity_view(),
    {
        &self.identity
    }

    /// Begins opening the stream from the committed position in `inherited`, or
    /// from the first resource when there is none.
    pub fn open(&self, inherited: Option<&[u8]>) -> (r: OpenAction)
        requires
            self.wf(),
        ensures
            ({
                let bytes = match inherited {
                    Some(bytes) => Some(bytes@),
                    None => None,
                };
                match inherited_position(bytes, self.revision()) {
                    Err(error) => r == OpenAction::Return(Err(error)),
                    Ok(state) => if state.resource_index >= self.count() {
                        r == OpenAction::Return(
                            Err(StreamOpenError { category: FailureCategory::Invariant }),
                        )
                    } else {
                        &&& r is OpenResource
                        &&& r->OpenResource_0@ == (ResumeView {
                            index: state.resource_index,
                            delegate: state.delegate,
                            batches: state.resource_batches_written,
                            restored: inherited is Some,
                        })
                    },
                }
            }),
    {
        let restored: bool = inherited.is_some();
        let state: MultiResourceState = match decode_inherited(inherited, &self.resources) {
            Ok(state) => state,
            Err(error) => return OpenAction::Return(Err(error)),
        };
        if state.resource_index as usize >= self.resources.len() {
            return OpenAction::Return(
                Err(StreamOpenError::with_category(FailureCategory::Invariant)),
            );
        }
        OpenAction::OpenResource(
            ResumePoint {
                index: state.resource_index,
                delegate: state.delegate,
                batches: state.resource_batches_written,
                restored,
            },
        )
    }

    /// Takes what came of opening the resumed resource, and says what its stream
    /// is to be opened with.
    pub fn resumed_resource_opened(
        &self,
        point: &ResumePoint,
        result: Result<(), MultiResourceOpenError>,
    ) -> (r: ResumeAction)
        ensures
            match result {
                Err(_) => r == ResumeAction::Return(Err(open_failure())),
                Ok(_) => match delegate_inheritance(point@.delegate, self.identity_view()) {
                    Err(error) => r == ResumeAction::Return(Err(error)),
                    Ok(None) => r is OpenStream && r->OpenStream_0 is None,
                    Ok(Some(envelope)) => r is OpenStream && r->OpenStream_0 is Some
                        && r->OpenStream_0->0@ == envelope,
                },
            },
    {
        match result {
            Err(_) => ResumeAction::Return(Err(StreamOpenError::new())),
            Ok(_) => match resume_delegate(&point.delegate, &self.identity) {
                Err(error) => ResumeAction::Return(Err(error)),
                Ok(inherited) => ResumeAction::OpenStream(inherited),
            },
        }
    }

    /// Takes what came of opening the resumed resource's stream, and ends the
    /// opening: the delegate becomes the current one with its committed batch
    /// count, or nothing changes.
    pub fn resumed(&mut self, point: &ResumePoint, result: Result<(W, S), StreamOpenError>) -> (r:
        Result<StreamOpenOutcome, StreamOpenError>)
        requires
            old(self).wf(),
            point@.index < old(self).count(),
        ensures
            final(self).wf(),
            final(self).same_set(old(self)),
            match result {
                Err(_) => {
                    &&& *final(self) == *old(self)
                    &&& r == Err::<StreamOpenOutcome, StreamOpenError>(open_failure())
                },
                Ok((writer, stream)) => {
                    &&& final(self)@ == Some(
                        ActiveWriteResource {
                            index: point@.index,
                            writer,
                            stream,
                            batches_written: point@.batches,
                            retired: false,
                        },
                    )
                    &&& r == Ok::<StreamOpenOutcome, StreamOpenError>(
                        open_outcome(point@.restored),
                    )
                    &&& final(self).first_ordinal() == point@.index
                    &&& final(self).steps() == seq![LifecycleEvent::Opened(point@.index as int)]
                },
            },
    {
        match result {
            Err(_) => Err(StreamOpenError::new()),
            Ok((writer, stream)) => {
                self.active = Some(
                    ActiveWriteResource {
                        index: point.index,
                        writer,
                        stream,
                        batches_written: point.batches,
                        retired: false,
                    },
                );
                self.first = Ghost(point.index as int);
                self.log = Ghost(Seq::empty().push(LifecycleEvent::Opened(point.index as int)));
                assert(self.log@ =~= one_at_a_time(self.first@, 1));
                if point.restored {
                    Ok(StreamOpenOutcome::Restored)
                } else {
                    Ok(StreamOpenOutcome::Initial)
                }
            },
        }
    }

    /// Prepares the candidate position from what the delegate's stream reported.
    /// Without a current resource there is none to prepare.
    pub fn update(&self, delegate: Option<Result<ComponentStateEnvelope, StreamUpdateError>>) -> (r:
        Result<Vec<u8>, StreamUpdateError>)
        requires
            self.wf(),
            delegate is Some == self@ is Some,
        ensures
            ({
                let candidate = match self@ {
                    Some(current) => candidate_position(
                        self.revision(),
                        self.identity_view(),
                        current.index,
                        candidate_view(delegate->0),
                        current.batches_written,
                    ),
                    None => Err(StreamUpdateError { category: FailureCategory::Invariant }),
                };
                match r {
                    Ok(bytes) => candidate is Ok && spells(bytes@, candidate->Ok_0),
                    Err(error) => candidate == Err::<StateView, StreamUpdateError>(error),
                }
            }),
    {
        match (&self.active, delegate) {
            (Some(current), Some(reported)) => encode_candidate(
                &self.resources,
                &self.identity,
                current.index,
                reported,
                current.batches_written,
            ),
            _ => Err(StreamUpdateError::with_category(FailureCategory::Invariant)),
        }
    }

    /// The stream that the terminal close is still to close: the delegate's,
    /// unless it was closed at its boundary already.
    pub fn close(&self) -> (r: Option<&S>)
        ensures
            match r {
                Some(stream) => {
                    &&& self@ matches Some(current)
                    &&& !current.retired
                    &&& current.stream == *stream
                },
                None => self@ matches Some(current) ==> current.retired,
            },
    {
        match &self.active {
            Some(current) => if current.retired {
                None
            } else {
                Some(&current.stream)
            },
            None => None,
        }
    }
}

impl<W, S, P: RolloverPolicy> MultiResourceWriter<W, S, P> {
    /// Begins a write call.
    pub fn write(&self, stop: &StopToken) -> (r: WriteAction)
        requires
            self.wf(),
        ensures
            r == write_begins(
                self@,
                self.count(),
                self@ is Some && self.policy().rolls_over(self@->0.batches_written),
                stop.requested,
            ),
    {
        if stop.is_stop_requested() {
            return WriteAction::Return(Ok(WriteOutcome::Stopped));
        }
        match &self.active {
            None => WriteAction::Return(
                Err(WriterError::with_category(FailureCategory::Invariant)),
            ),
            Some(current) => {
                if self.rollover.should_roll_over(current.batches_written) && (
                current.index as usize) + 1 < self.resources.len() {
                    if current.retired {
                        WriteAction::OpenResource(current.index + 1)
                    } else {
                        WriteAction::CloseDelegate(StreamRuntimeOutcome::ResourceBoundary)
                    }
                } else {
                    WriteAction::WriteDelegate
                }
            },
        }
    }
}

/// Builds a writer over an ordered resource set, namespaced under `identity`.
/// The set must not be empty: a writer always has a current output resource.
pub fn multi_resource_writer<W, S, P>(
    resources: ResourceSet,
    identity: ComponentStreamIdentity,
    rollover: P,
) -> (r: Result<MultiResourceWriter<W, S, P>, WriterConfigError>)
    requires
        resources.identities().len() <= u32::MAX,
    ensures
        match r {
            Ok(writer) => {
                &&& resources.identities().len() > 0
                &&& writer.wf()
                &&& writer.names() == resources.identities()
                &&& writer.revision() == resources.revision_view()
                &&& writer.identity_view() == identity@
                &&& writer.policy() == rollover
                &&& writer@ is None
                &&& writer.steps().len() == 0
            },
            Err(error) => resources.identities().len() == 0 && error
                == WriterConfigError::EmptyResourceSet,
        },
{
    if resources.is_empty() {
        return Err(WriterConfigError::EmptyResourceSet);
    }
    let writer = MultiResourceWriter {
        resources,
        identity,
        rollover,
        active: None,
        first: Ghost(0),
        log: Ghost(Seq::empty()),
    };
    assert(writer.log@ =~= one_at_a_time(0, 0));
    Ok(writer)
}

/// Whatever the delegates, openers and streams answer, an attempt opens its
/// resources one at a time and in order, closing each at its boundary before
/// the next is opened; and the terminal close is left with exactly the one that
/// is still open.
pub proof fn writer_closes_each_resource_once<W, S, P>(writer: MultiResourceWriter<W, S, P>)
    requires
        writer.wf(),
    ensures
        writer.steps() == one_at_a_time(writer.first_ordinal(), writer.steps().len()),
        writer@ matches Some(current) && !current.retired <==> writer.steps().len() % 2 == 1,
        writer@ matches Some(current) ==> (!current.retired ==> writer.steps().last()
            == LifecycleEvent::Opened(current.index as int)),
{
}

/// A batch-count rollover keeps its limit: a write call without a rollover goes
/// to a resource that is not the last of the set only while that resource holds
/// fewer batches than the limit.
pub proof fn batch_limit_is_kept<W, S>(
    policy: BatchCountRollover,
    current: ActiveWriteResource<W, S>,
    count: nat,
)
    requires
        current.index + 1 < count,
        write_begins(
            Some(current),
            count,
            policy.rolls_over(current.batches_written),
            false,
        ) == WriteAction::WriteDelegate,
    ensures
        current.batches_written + 1 <= policy.limit(),
{
}

/// A retried rollover whose resource failed to open does not close the outgoing
/// delegate again: it opens the same next resource.
pub proof fn retired_delegate_is_not_closed_again<W, S>(
    current: ActiveWriteResource<W, S>,
    count: nat,
)
    requires
        current.retired,
        current.index + 1 < count,
    ensures
        write_begins(Some(current), count, true, false) == WriteAction::OpenResource(
            (current.index + 1) as u32,
        ),
{
}

/// A counted rollover comes with the limit and not before it; without a rollover
/// it never comes.
pub proof fn a_rollover_comes_with_its_limit(
    limit: u64,
    policy: BatchCountRollover,
    batches: u64,
    counted: bool,
    never: bool,
)
    requires
        call_ensures(BatchCountRollover::new, (limit,), policy),
        call_ensures(
            <BatchCountRollover as RolloverPolicy>::should_roll_over,
            (&policy, batches),
            counted,
        ),
        call_ensures(<NoRollover as RolloverPolicy>::should_roll_over, (&NoRollover, batches), never),
    ensures
        counted <==> batches >= limit,
        !never,
{
}

/// A batch is written to the current resource unless it is to roll over into a next
/// one; then its stream is closed at its boundary, once, before the next one is
/// opened. A write that is to stop does nothing, and one before the opening breaks
/// an invariant.
pub proof fn a_write_rolls_over_first<W, S, P: RolloverPolicy>(
    writer: &MultiResourceWriter<W, S, P>,
    stop: &StopToken,
    r: WriteAction,
)
    requires
        call_ensures(MultiResourceWriter::<W, S, P>::write, (writer, stop), r),
    ensures
        stop.requested ==> r == WriteAction::Return(Ok(WriteOutcome::Stopped)),
        !stop.requested && writer@ is None ==> r == WriteAction::Return(
            Err(
                WriterError {
                    category: FailureCategory::Invariant,
                    rolled_back_output: None,
                },
            ),
        ),
        !stop.requested && writer@ is Some ==> {
            let current = writer@->0;
            let rolls = writer.policy().rolls_over(current.batches_written);
            &&& r is WriteDelegate <==> !rolls || current.index + 1 >= writer.count()
            &&& rolls && current.index + 1 < writer.count() && !current.retired ==> r
                == WriteAction::CloseDelegate(StreamRuntimeOutcome::ResourceBoundary)
            &&& rolls && current.index + 1 < writer.count() && current.retired ==> r
                == WriteAction::OpenResource((current.index + 1) as u32)
        },
{
}

/// A closed delegate is retired and the next resource opened; a failed close keeps
/// its category and changes nothing.
pub proof fn a_closed_output_is_followed_by_the_next<W, S, P>(
    writer: &mut MultiResourceWriter<W, S, P>,
    result: Result<(), StreamCloseError>,
    r: WriteAction,
)
    requires
        call_ensures(MultiResourceWriter::<W, S, P>::delegate_closed, (writer, result), r),
        old(writer)@ is Some,
    ensures
        result matches Err(error) ==> *final(writer) == *old(writer) && r == WriteAction::Return(
            Err(WriterError { category: error.category, rolled_back_output: None }),
        ),
        result is Ok ==> r == WriteAction::OpenResource((old(writer)@->0.index + 1) as u32) && (
        final(writer)@ matches Some(current) && current.retired && current.index
            == old(writer)@->0.index && current.batches_written == old(writer)@->0.batches_written),
{
}

/// The next resource takes over with no batches written; one that cannot be opened
/// changes nothing, so that a retry opens the same one.
pub proof fn the_next_output_starts_empty<W, S, P>(
    writer: &mut MultiResourceWriter<W, S, P>,
    result: Result<(W, S), EnterFailure>,
    r: WriteAction,
)
    requires
        call_ensures(MultiResourceWriter::<W, S, P>::resource_opened, (writer, result), r),
        old(writer)@ is Some,
        old(writer)@->0.index < u32::MAX,
    ensures
        result is Err ==> *final(writer) == *old(writer) && r == WriteAction::Return(
            Err(
                WriterError {
                    category: FailureCategory::UserComponent,
                    rolled_back_output: None,
                },
            ),
        ),
        result matches Ok((delegate, stream)) ==> r is WriteDelegate
            && (final(writer)@ matches Some(current) && current.index
                == old(writer)@->0.index + 1 && current.writer
            == delegate && current.stream == stream && current.batches_written == 0
            && !current.retired),
{
}

/// A written batch counts once, on the resource that it was written to; a stop and
/// a failure do not count. The delegate's answer is the writer's.
pub proof fn only_written_batches_count<W, S, P>(
    writer: &mut MultiResourceWriter<W, S, P>,
    result: Result<WriteOutcome, WriterError>,
    r: Result<WriteOutcome, WriterError>,
)
    requires
        call_ensures(MultiResourceWriter::<W, S, P>::delegate_wrote, (writer, result), r),
        old(writer)@ is Some,
        old(writer)@->0.batches_written < u64::MAX,
    ensures
        r == result,
        final(writer)@ is Some,
        final(writer)@->0.index == old(writer)@->0.index,
        final(writer)@->0.retired == old(writer)@->0.retired,
        final(writer)@->0.batches_written == old(writer)@->0.batches_written + (if result == Ok::<
            WriteOutcome,
            WriterError,
        >(WriteOutcome::Written) {
            1int
        } else {
            0
        }),
{
}

/// A writer is opened at the resource that its position names, with the batches
/// that were committed there; a position past the last resource breaks an
/// invariant.
pub proof fn a_writer_is_opened_at_its_position<W, S, P>(
    writer: &MultiResourceWriter<W, S, P>,
    inherited: Option<&[u8]>,
    r: OpenAction,
    state: StateView,
)
    requires
        call_ensures(MultiResourceWriter::<W, S, P>::open, (writer, inherited), r),
        writer.count() > 0,
    ensures
        inherited is None ==> r is OpenResource && r->OpenResource_0@.index == 0
            && r->OpenResource_0@.delegate is None && r->OpenResource_0@.batches == 0
            && !r->OpenResource_0@.restored,
        inherited is Some && state_of_bytes(inherited->0@) is None ==> r == OpenAction::Return(
            Err(StreamOpenError { category: FailureCategory::UserComponent }),
        ),
        inherited is Some && state_of_bytes(inherited->0@) == Some(state) ==> {
            &&& state.resource_set_revision != writer.revision() ==> r == OpenAction::Return(
                Err(StreamOpenError { category: FailureCategory::UnsupportedCapability }),
            )
            &&& state.resource_set_revision == writer.revision() ==> {
                &&& state.resource_index < writer.count() ==> r is OpenResource
                    && r->OpenResource_0@.index == state.resource_index
                    && r->OpenResource_0@.delegate == state.delegate && r->OpenResource_0@.batches
                    == state.resource_batches_written && r->OpenResource_0@.restored
                &&& state.resource_index >= writer.count() ==> r == OpenAction::Return(
                    Err(StreamOpenError { category: FailureCategory::Invariant }),
                )
            }
        },
{
}

/// A resumed resource goes on with its committed batches; one whose stream cannot
/// be opened changes nothing.
pub proof fn a_resumed_output_keeps_its_batches<W, S, P>(
    writer: &mut MultiResourceWriter<W, S, P>,
    point: &ResumePoint,
    result: Result<(W, S), StreamOpenError>,
    r: Result<StreamOpenOutcome, StreamOpenError>,
)
    requires
        call_ensures(MultiResourceWriter::<W, S, P>::resumed, (writer, point, result), r),
    ensures
        r is Ok <==> result is Ok,
        result is Err ==> *final(writer) == *old(writer) && r->Err_0.category
            == FailureCategory::UserComponent,
        result matches Ok((delegate, stream)) ==> (final(writer)@ matches Some(current)
            && current.index == point.index && current.batches_written == point.batches
            && current.writer == delegate && current.stream == stream && !current.retired),
        r == Ok::<StreamOpenOutcome, StreamOpenError>(StreamOpenOutcome::Restored) <==> result is Ok
            && point.restored,
{
    assert(point@.index == point.index && point@.restored == point.restored && point@.batches
        == point.batches);
}

/// A candidate names the current resource and counts its batches, so that a restart
/// sees the true count; without a current resource there is none.
pub proof fn a_candidate_counts_the_batches<W, S, P>(
    writer: &MultiResourceWriter<W, S, P>,
    delegate: Option<Result<ComponentStateEnvelope, StreamUpdateError>>,
    r: Result<Vec<u8>, StreamUpdateError>,
)
    requires
        call_ensures(MultiResourceWriter::<W, S, P>::update, (writer, delegate), r),
        delegate is Some <==> writer@ is Some,
    ensures
        writer@ is None ==> r == Err::<Vec<u8>, StreamUpdateError>(
            StreamUpdateError { category: FailureCategory::Invariant },
        ),
        writer@ is Some && r is Ok ==> (state_of_bytes(r->Ok_0@) matches Some(state)
            && state.resource_index == writer@->0.index && state.resource_batches_written
            == writer@->0.batches_written && state.delegate is Some && state.resource_set_revision
            == writer.revision()),
        writer@ is Some && delegate->0 is Err ==> r == Err::<Vec<u8>, StreamUpdateError>(
            StreamUpdateError { category: FailureCategory::UserComponent },
        ),
        writer@ is Some && delegate->0 is Ok ==> (r is Ok <==> delegate->0->Ok_0.namespace@
            == writer.identity_view()),
{
    if delegate is Some && delegate->0 is Ok {
        assert(delegate->0->Ok_0@.namespace == delegate->0->Ok_0.namespace@);
    }
}

/// A writer needs a resource to write to, and keeps what it was built of.
pub proof fn a_writer_needs_a_resource<W, S, P>(
    resources: ResourceSet,
    identity: ComponentStreamIdentity,
    rollover: P,
    r: Result<MultiResourceWriter<W, S, P>, WriterConfigError>,
)
    requires
        call_ensures(multi_resource_writer::<W, S, P>, (resources, identity, rollover), r),
    ensures
        r is Ok <==> resources.identities().len() > 0,
        r matches Ok(writer) ==> writer.names() == resources.identities() && writer.identity_view()
            == identity@ && writer.policy() == rollover && writer@ is None && writer.revision()
            == resources.revision_view(),
{
}

/// The terminal close is left exactly with the stream of a delegate that was not
/// closed at its boundary.
pub proof fn a_writer_closes_what_is_still_open<W, S, P>(
    writer: &MultiResourceWriter<W, S, P>,
    r: Option<&S>,
)
    requires
        call_ensures(MultiResourceWriter::<W, S, P>::close, (writer,), r),
    ensures
        r is Some <==> writer@ is Some && !writer@->0.retired,
        r matches Some(stream) ==> *stream == writer@->0.stream,
{
}

/// A resource is found by its ordinal in the declared order.
pub proof fn a_writer_finds_resources_by_ordinal<W, S, P>(
    writer: &MultiResourceWriter<W, S, P>,
    index: u32,
    r: Option<&ResourceIdentity>,
)
    requires
        call_ensures(MultiResourceWriter::<W, S, P>::resource, (writer, index), r),
    ensures
        r is Some <==> index < writer.names().len(),
        r matches Some(resource) ==> *resource == writer.names()[index as int],
{
}

/// A resumed delegate's stream is opened with what the position holds of it, once
/// its resource is open.
pub proof fn a_resumed_output_inherits_its_position<W, S, P>(
    writer: &MultiResourceWriter<W, S, P>,
    point: &ResumePoint,
    result: Result<(), MultiResourceOpenError>,
    r: ResumeAction,
)
    requires
        call_ensures(
            MultiResourceWriter::<W, S, P>::resumed_resource_opened,
            (writer, point, result),
            r,
        ),
    ensures
        result is Err ==> r == ResumeAction::Return(
            Err(StreamOpenError { category: FailureCategory::UserComponent }),
        ),
        result is Ok && point.delegate is None ==> r == ResumeAction::OpenStream(None),
        result is Ok && point.delegate is Some && point.delegate->0.namespace@
            != writer.identity_view() ==> r == ResumeAction::Return(
            Err(StreamOpenError { category: FailureCategory::Invariant }),
        ),
{
    match point.delegate {
        Some(columns) => {
            assert(point@.delegate == Some(columns@));
            assert(columns@.namespace == columns.namespace@);
        },
        None => {},
    }
}

} // verus!
