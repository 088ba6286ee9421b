//! Looking ahead at the next item without consuming it.
//!
//! At most one outcome of the delegate is buffered, so that looking ahead again
//! never reads the delegate again, and the next read consumes exactly that
//! outcome.

use crate::runtime::{ReadOutcome, ReaderError};
use vstd::prelude::*;

verus! {

/// The outcome of looking ahead, borrowing the buffered item.
#[derive(Clone, Copy, Debug, PartialEq, Eq)]
#[non_exhaustive]
pub enum PeekOutcome<'a, I> {
    /// The next item, not yet consumed by a read.
    Item(&'a I),
    /// The delegate reader is exhausted.
    EndOfInput,
    /// Cooperative stop was observed while looking ahead.
    Stopped,
}

/// What looking ahead shows of an outcome.
pub open spec fn shows<I>(outcome: ReadOutcome<I>, peeked: PeekOutcome<I>) -> bool {
    match (outcome, peeked) {
        (ReadOutcome::Item(item), PeekOutcome::Item(borrowed)) => *borrowed == item,
        (ReadOutcome::EndOfInput, PeekOutcome::EndOfInput) => true,
        (ReadOutcome::Stopped, PeekOutcome::Stopped) => true,
        _ => false,
    }
}

fn borrowed<'a, I>(outcome: &'a ReadOutcome<I>) -> (r: PeekOutcome<'a, I>)
    ensures
        shows(*outcome, r),
{
    match outcome {
        ReadOutcome::Item(item) => PeekOutcome::Item(item),
        ReadOutcome::EndOfInput => PeekOutcome::EndOfInput,
        ReadOutcome::Stopped => PeekOutcome::Stopped,
    }
}

/// A reader decorator that can look ahead at the next item of its delegate `R`.
pub struct PeekReader<I, R> {
    /// The delegate.
    pub inner: R,
    /// The outcome that was looked at and not yet read.
    pub buffered: Option<ReadOutcome<I>>,
}

impl<I, R> PeekReader<I, R> {
    /// Wraps a delegate reader with one-outcome lookahead.
    pub fn new(inner: R) -> (r: Self)
        ensures
            r.inner == inner,
            r.buffered is None,
    {
        PeekReader { inner, buffered: None }
    }

    /// The buffered outcome, if there is one; if not, the delegate is to be read
    /// and its outcome handed to [`Self::looked_ahead`].
    pub fn peek(&self) -> (r: Option<PeekOutcome<'_, I>>)
        ensures
            match self.buffered {
                Some(outcome) => r is Some && shows(outcome, r->0),
                None => r is None,
            },
    {
        match &self.buffered {
            Some(outcome) => Some(borrowed(outcome)),
            None => None,
        }
    }

    /// Buffers the delegate's outcome. An error is never buffered, so that the
    /// next call reads the delegate again.
    pub fn looked_ahead(&mut self, outcome: Result<ReadOutcome<I>, ReaderError>) -> (r: Result<
        (),
        ReaderError,
    >)
        requires
            old(self).buffered is None,
        ensures
            final(self).inner == old(self).inner,
            match outcome {
                Ok(outcome) => final(self).buffered == Some(outcome) && r is Ok,
                Err(error) => final(self).buffered is None && r == Err::<(), ReaderError>(error),
            },
    {
        match outcome {
            Ok(outcome) => {
                self.buffered = Some(outcome);
                Ok(())
            },
            Err(error) => Err(error),
        }
    }

    /// Takes the buffered outcome, if there is one; if not, the delegate is to be
    /// read, and what it gives is the outcome.
    pub fn read(&mut self) -> (r: Option<ReadOutcome<I>>)
        ensures
            r == old(self).buffered,
            final(self).buffered is None,
            final(self).inner == old(self).inner,
    {
        self.buffered.take()
    }
}

/// What is looked at is what is read next, and it is read once: a read after
/// looking ahead gives the outcome that was shown, and leaves nothing buffered.
pub proof fn read_gives_what_was_peeked<I, R>(
    peeking: PeekReader<I, R>,
    peeked: PeekOutcome<I>,
    read: Option<ReadOutcome<I>>,
)
    requires
        peeking.buffered is Some,
        shows(peeking.buffered->0, peeked),
        read == peeking.buffered,
    ensures
        read is Some,
        peeked matches PeekOutcome::Item(item) ==> read->0 == ReadOutcome::Item(*item),
        peeked is EndOfInput ==> read->0 == ReadOutcome::<I>::EndOfInput,
        peeked is Stopped ==> read->0 == ReadOutcome::<I>::Stopped,
{
}

/// Looking ahead reads the delegate at most once before the next read, which gives
/// the outcome that was looked at and forgets it. A failure is not kept.
pub proof fn what_is_looked_at_is_read_once<I, R>(
    reader: &mut PeekReader<I, R>,
    outcome: Result<ReadOutcome<I>, ReaderError>,
    looked: Result<(), ReaderError>,
    between: &PeekReader<I, R>,
    peeked: Option<PeekOutcome<'_, I>>,
    taking: &mut PeekReader<I, R>,
    read: Option<ReadOutcome<I>>,
)
    requires
        call_ensures(PeekReader::<I, R>::looked_ahead, (reader, outcome), looked),
        *between == *final(reader),
        call_ensures(PeekReader::<I, R>::peek, (between,), peeked),
        *old(taking) == *between,
        call_ensures(PeekReader::<I, R>::read, (taking,), read),
    ensures
        outcome is Ok <==> looked is Ok,
        outcome matches Err(error) ==> looked == Err::<(), ReaderError>(error) && peeked is None
            && read is None,
        outcome matches Ok(shown) ==> read == Some(shown) && peeked is Some,
        outcome matches Ok(ReadOutcome::Item(item)) ==> (peeked->0 matches PeekOutcome::Item(seen)
            && *seen == item),
        outcome matches Ok(ReadOutcome::EndOfInput) ==> peeked->0 is EndOfInput,
        outcome matches Ok(ReadOutcome::Stopped) ==> peeked->0 is Stopped,
        final(taking).buffered is None,
{
}

} // verus!
