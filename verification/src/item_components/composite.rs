//! Composite readers, processors and writers.
//!
//! A composite's capability is the meet of its delegates', never their union: it
//! keeps their order, adds no durable state, and hands a delegate's failure or
//! stop on unchanged, without calling a later delegate.

use crate::runtime::{
    ProcessOutcome, ProcessorError, ReadOutcome, ReaderError, StopToken, WriteOutcome, WriterError,
};
use vstd::prelude::*;

verus! {

/// The next step of a composite read.
pub enum CompositeAction<I> {
    /// Read the current delegate and hand over what came of it.
    ReadDelegate,
    /// The read is over.
    Return(Result<ReadOutcome<I>, ReaderError>),
}

/// Reads from an ordered sequence of delegate readers, going on to the next one
/// only once the current one has ended. A failing call does not move on, so that
/// a retry reads the same delegate.
pub struct CompositeReader<R> {
    /// The delegates, in order.
    pub delegates: Vec<R>,
    /// The index of the delegate that is read.
    pub current: usize,
}

impl<R> CompositeReader<R> {
    /// The current index is that of a delegate, or past the last one.
    pub open spec fn wf(&self) -> bool {
        self.current <= self.delegates@.len()
    }

    /// Builds a composite over delegates read in the given order.
    pub fn new(delegates: Vec<R>) -> (r: Self)
        ensures
            r.wf(),
            r.delegates == delegates,
            r.current == 0,
    {
        CompositeReader { delegates, current: 0 }
    }

    /// The step that a read takes: past the last delegate the input has ended.
    pub open spec fn step<I>(&self) -> CompositeAction<I> {
        if self.current < self.delegates@.len() {
            CompositeAction::ReadDelegate
        } else {
            CompositeAction::Return(Ok(ReadOutcome::EndOfInput))
        }
    }

    /// Starts a read.
    pub fn read<I>(&self) -> (r: CompositeAction<I>)
        requires
            self.wf(),
        ensures
            r == self.step::<I>(),
    {
        if self.current < self.delegates.len() {
            CompositeAction::ReadDelegate
        } else {
            CompositeAction::Return(Ok(ReadOutcome::EndOfInput))
        }
    }

    /// Takes what came of reading the current delegate.
    pub fn delegate_read<I>(&mut self, outcome: Result<ReadOutcome<I>, ReaderError>) -> (r:
        CompositeAction<I>)
        requires
            old(self).wf(),
            old(self).current < old(self).delegates@.len(),
        ensures
            final(self).wf(),
            final(self).delegates == old(self).delegates,
            match outcome {
                Ok(ReadOutcome::EndOfInput) => {
                    &&& final(self).current == old(self).current + 1
                    &&& r == final(self).step::<I>()
                },
                _ => {
                    &&& final(self).current == old(self).current
                    &&& r == CompositeAction::Return(outcome)
                },
            },
    {
        let count: usize = self.delegates.len();
        assert(self.current < count);
        match outcome {
            Ok(ReadOutcome::EndOfInput) => {
                self.current = self.current + 1;
                self.read()
            },
            _ => CompositeAction::Return(outcome),
        }
    }
}

/// What a composite over delegates with these items gives, from a delegate and a
/// place in it on: each delegate's items in turn.
pub open spec fn concatenated<I>(inputs: Seq<Seq<I>>, current: int, consumed: int) -> Seq<I>
    decreases inputs.len() - current,
{
    if current < 0 || current >= inputs.len() {
        Seq::empty()
    } else {
        inputs[current].skip(consumed) + concatenated(inputs, current + 1, 0)
    }
}

/// A composite reads its delegates one after the other: while the current one has
/// items, its next item is the composite's next one; once it has ended, the
/// composite goes on with the next delegate's first item.
pub proof fn composite_concatenates<I>(inputs: Seq<Seq<I>>, current: int, consumed: int)
    requires
        0 <= current < inputs.len(),
        0 <= consumed <= inputs[current].len(),
    ensures
        consumed < inputs[current].len() ==> concatenated(inputs, current, consumed) == seq![
            inputs[current][consumed],
        ] + concatenated(inputs, current, consumed + 1),
        consumed == inputs[current].len() ==> concatenated(inputs, current, consumed)
            == concatenated(inputs, current + 1, 0),
{
    let rest = concatenated(inputs, current + 1, 0);
    if consumed < inputs[current].len() {
        assert(inputs[current].skip(consumed) + rest =~= seq![inputs[current][consumed]] + (
        inputs[current].skip(consumed + 1) + rest));
    } else {
        assert(inputs[current].skip(consumed) + rest =~= rest);
    }
}

/// The next step of a chained call.
pub enum ChainAction<M, O> {
    /// Hand the first stage's item to the second stage; what comes of it is what
    /// comes of the call.
    Second(M),
    /// The call is over.
    Return(Result<ProcessOutcome<O>, ProcessorError>),
}

/// Chains two processors: the output of `P1` feeds the input of `P2`.
pub struct ChainProcessor<P1, P2> {
    /// The first stage.
    pub first: P1,
    /// The second stage.
    pub second: P2,
}

impl<P1, P2> ChainProcessor<P1, P2> {
    /// Chains `first` into `second`.
    pub fn new(first: P1, second: P2) -> (r: Self)
        ensures
            r == (ChainProcessor { first, second }),
    {
        ChainProcessor { first, second }
    }

    /// Takes what came of the first stage. Only an item reaches the second stage;
    /// a filtered item, a stop and a failure end the call.
    pub fn first_processed<M, O>(&self, outcome: Result<ProcessOutcome<M>, ProcessorError>) -> (r:
        ChainAction<M, O>)
        ensures
            r == (match outcome {
                Ok(ProcessOutcome::Item(item)) => ChainAction::<M, O>::Second(item),
                Ok(ProcessOutcome::Filtered) => ChainAction::Return(Ok(ProcessOutcome::Filtered)),
                Ok(ProcessOutcome::Stopped) => ChainAction::Return(Ok(ProcessOutcome::Stopped)),
                Err(error) => ChainAction::Return(Err(error)),
            }),
    {
        match outcome {
            Ok(ProcessOutcome::Item(item)) => ChainAction::Second(item),
            Ok(ProcessOutcome::Filtered) => ChainAction::Return(Ok(ProcessOutcome::Filtered)),
            Ok(ProcessOutcome::Stopped) => ChainAction::Return(Ok(ProcessOutcome::Stopped)),
            Err(error) => ChainAction::Return(Err(error)),
        }
    }
}

/// The next step of a fanned-out write.
#[derive(Clone, Copy, Debug, PartialEq, Eq)]
pub enum FanOutAction {
    /// Write the batch to the delegate of this index and report what came of it.
    Write(usize),
    /// The write is over.
    Return(Result<WriteOutcome, WriterError>),
}

/// Fans a batch out to an ordered sequence of delegate writers. The delegates are
/// called one after the other, so that no two of them hold an enlisted
/// transaction at once.
pub struct FanOutWriter<W> {
    /// The delegates, in order.
    pub delegates: Vec<W>,
}

impl<W> FanOutWriter<W> {
    /// Builds a fan-out writer over delegates invoked in the given order.
    pub fn new(delegates: Vec<W>) -> (r: Self)
        ensures
            r.delegates == delegates,
    {
        FanOutWriter { delegates }
    }

    /// The step from a delegate on: past the last one the batch is written.
    pub open spec fn step(&self, index: int) -> FanOutAction {
        if index < self.delegates@.len() {
            FanOutAction::Write(index as usize)
        } else {
            FanOutAction::Return(Ok(WriteOutcome::Written))
        }
    }

    /// Starts a write, unless it is to stop.
    pub fn write(&self, stop: &StopToken) -> (r: FanOutAction)
        ensures
            r == (if stop.requested {
                FanOutAction::Return(Ok(WriteOutcome::Stopped))
            } else {
                self.step(0)
            }),
    {
        if stop.is_stop_requested() {
            return FanOutAction::Return(Ok(WriteOutcome::Stopped));
        }
        if self.delegates.len() > 0 {
            FanOutAction::Write(0)
        } else {
            FanOutAction::Return(Ok(WriteOutcome::Written))
        }
    }

    /// Takes what came of a delegate's write. A stop or a failure ends the
    /// fan-out; later delegates are not called.
    pub fn delegate_wrote(&self, index: usize, outcome: Result<WriteOutcome, WriterError>) -> (r:
        FanOutAction)
        requires
            index < self.delegates@.len(),
        ensures
            r == (if outcome == Ok::<WriteOutcome, WriterError>(WriteOutcome::Written) {
                self.step(index + 1)
            } else {
                FanOutAction::Return(outcome)
            }),
    {
        let count: usize = self.delegates.len();
        match outcome {
            Ok(WriteOutcome::Written) => {
                if index + 1 < count {
                    FanOutAction::Write(index + 1)
                } else {
                    FanOutAction::Return(Ok(WriteOutcome::Written))
                }
            },
            _ => FanOutAction::Return(outcome),
        }
    }
}

/// Each step takes what it gives from what is to come: a composite gives its
/// delegates' items one delegate after the other, and ends where the last one
/// does.
pub proof fn steps_give_the_concatenation<I, R>(
    reader: &mut CompositeReader<R>,
    outcome: Result<ReadOutcome<I>, ReaderError>,
    r: CompositeAction<I>,
    inputs: Seq<Seq<I>>,
    consumed: int,
)
    requires
        call_ensures(CompositeReader::<R>::delegate_read::<I>, (reader, outcome), r),
        inputs.len() == old(reader).delegates@.len(),
        old(reader).current < inputs.len(),
        0 <= consumed <= inputs[old(reader).current as int].len(),
    ensures
        ({
            let at = old(reader).current as int;
            let to_come = concatenated(inputs, at, consumed);
            let later = concatenated(inputs, final(reader).current as int, consumed + 1);
            let ended = concatenated(inputs, final(reader).current as int, 0);
            &&& final(reader).delegates == old(reader).delegates
            &&& outcome is Ok && outcome->Ok_0 is Item && (consumed < inputs[at].len()) && (
            outcome->Ok_0->Item_0 == inputs[at][consumed]) ==> {
                &&& to_come == seq![inputs[at][consumed]] + later
                &&& r == CompositeAction::<I>::Return(outcome)
            }
            &&& outcome is Ok && outcome->Ok_0 is EndOfInput && (consumed == inputs[at].len()) ==> {
                &&& to_come == ended
                &&& r is ReadDelegate <==> final(reader).current < inputs.len()
                &&& !(r is ReadDelegate) ==> to_come.len() == 0
                &&& !(r is ReadDelegate) ==> r == CompositeAction::<I>::Return(
                    Ok(ReadOutcome::EndOfInput),
                )
            }
        }),
{
    composite_concatenates(inputs, old(reader).current as int, consumed);
}

/// What a delegate fails or stops with is what the composite fails or stops with,
/// and the next read asks the same delegate.
pub proof fn a_failing_delegate_is_read_again<I, R>(
    reader: &mut CompositeReader<R>,
    outcome: Result<ReadOutcome<I>, ReaderError>,
    r: CompositeAction<I>,
    again: &CompositeReader<R>,
    next: CompositeAction<I>,
)
    requires
        old(reader).current < old(reader).delegates@.len(),
        call_ensures(CompositeReader::<R>::delegate_read::<I>, (reader, outcome), r),
        *again == *final(reader),
        call_ensures(CompositeReader::<R>::read::<I>, (again,), next),
        !(outcome matches Ok(ReadOutcome::EndOfInput)),
    ensures
        r == CompositeAction::<I>::Return(outcome),
        next is ReadDelegate,
        again.current == old(reader).current,
{
}

/// Only an item reaches the second stage, and it reaches it unchanged. Whatever
/// else the first stage comes to is what the chain comes to.
pub proof fn a_chain_ends_with_its_first_stage<M, O, P1, P2>(
    chain: &ChainProcessor<P1, P2>,
    outcome: Result<ProcessOutcome<M>, ProcessorError>,
    r: ChainAction<M, O>,
)
    requires
        call_ensures(ChainProcessor::<P1, P2>::first_processed::<M, O>, (chain, outcome), r),
    ensures
        r is Second <==> (outcome matches Ok(ProcessOutcome::Item(_))),
        outcome matches Ok(ProcessOutcome::Item(item)) ==> r->Second_0 == item,
        outcome matches Err(error) ==> r->Return_0 == Err::<ProcessOutcome<O>, ProcessorError>(
            error,
        ),
        outcome matches Ok(ProcessOutcome::Filtered) ==> r->Return_0 == Ok::<
            ProcessOutcome<O>,
            ProcessorError,
        >(ProcessOutcome::Filtered),
        outcome matches Ok(ProcessOutcome::Stopped) ==> r->Return_0 == Ok::<
            ProcessOutcome<O>,
            ProcessorError,
        >(ProcessOutcome::Stopped),
{
}

/// A fanned-out batch goes to the first delegate, then from each delegate that has
/// written it to the next one; it is written once the last one has written it, and
/// ends with what a delegate ended with otherwise.
pub proof fn delegates_are_written_in_order<W>(
    writer: &FanOutWriter<W>,
    stop: &StopToken,
    first: FanOutAction,
    index: usize,
    outcome: Result<WriteOutcome, WriterError>,
    next: FanOutAction,
)
    requires
        call_ensures(FanOutWriter::<W>::write, (writer, stop), first),
        call_ensures(FanOutWriter::<W>::delegate_wrote, (writer, index, outcome), next),
        writer.delegates@.len() <= usize::MAX,
    ensures
        stop.requested ==> first == FanOutAction::Return(Ok(WriteOutcome::Stopped)),
        !stop.requested && writer.delegates@.len() > 0 ==> first == FanOutAction::Write(0),
        !stop.requested && writer.delegates@.len() == 0 ==> first == FanOutAction::Return(
            Ok(WriteOutcome::Written),
        ),
        !(outcome matches Ok(WriteOutcome::Written)) ==> next == FanOutAction::Return(outcome),
        outcome matches Ok(WriteOutcome::Written) && index + 1 < writer.delegates@.len() ==> next
            == FanOutAction::Write((index + 1) as usize),
        outcome matches Ok(WriteOutcome::Written) && index + 1 >= writer.delegates@.len() ==> next
            == FanOutAction::Return(Ok(WriteOutcome::Written)),
{
}

} // verus!
