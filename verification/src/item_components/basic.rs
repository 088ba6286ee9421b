//! Basic readers, processors and writers: an iterator as a reader, a
//! pass-through processor, and a writer that discards.

use crate::runtime::{
    ProcessOutcome, ProcessorError, ReadOutcome, ReaderError, StopToken, WriteOutcome, WriterError,
};
use vstd::prelude::*;
use vstd::std_specs::iter::IteratorSpec;

verus! {

/// A basic reader over any iterator. It is not restartable: a restart builds the
/// iterator again and reads from its start.
pub struct IterReader<It> {
    /// The items to come.
    pub iter: It,
}

impl<It: Iterator> IterReader<It> {
    /// Wraps an iterator as a basic in-memory reader.
    pub fn new(iter: It) -> (r: Self)
        ensures
            r.iter == iter,
    {
        IterReader { iter }
    }

    /// Reads the iterator's next item, in the iterator's own order, or finds that
    /// it has ended. Of an iterator that keeps to the laws of one, these are the
    /// items that it will give.
    pub fn read(&mut self) -> (r: Result<ReadOutcome<It::Item>, ReaderError>)
        ensures
            r is Ok,
            old(self).iter.obeys_prophetic_iter_laws() ==> {
                if old(self).iter.remaining().len() > 0 {
                    &&& r->Ok_0 == ReadOutcome::Item(old(self).iter.remaining()[0])
                    &&& final(self).iter.remaining() == old(self).iter.remaining().drop_first()
                } else {
                    &&& r->Ok_0 == ReadOutcome::<It::Item>::EndOfInput
                    &&& final(self).iter.remaining() == old(self).iter.remaining()
                }
            },
    {
        match self.iter.next() {
            Some(item) => Ok(ReadOutcome::Item(item)),
            None => Ok(ReadOutcome::EndOfInput),
        }
    }
}

/// A basic pass-through processor that returns a copy of its input.
#[derive(Clone, Copy, Debug, PartialEq, Eq, Structural)]
pub struct IdentityProcessor;

impl IdentityProcessor {
    /// Copies the item, unless the call is to stop. It never filters or fails.
    pub fn process<I: Clone>(&self, item: &I, stop: &StopToken) -> (r: Result<
        ProcessOutcome<I>,
        ProcessorError,
    >)
        ensures
            if stop.requested {
                r == Ok::<ProcessOutcome<I>, ProcessorError>(ProcessOutcome::Stopped)
            } else {
                r matches Ok(ProcessOutcome::Item(copy)) && cloned(*item, copy)
            },
    {
        if stop.is_stop_requested() {
            return Ok(ProcessOutcome::Stopped);
        }
        Ok(ProcessOutcome::Item(item.clone()))
    }
}

/// A basic writer that accepts and discards every item.
#[derive(Clone, Copy, Debug, PartialEq, Eq, Structural)]
pub struct NoopWriter;

impl NoopWriter {
    /// Accepts the items, unless the call is to stop.
    pub fn write<O>(&self, items: &[O], stop: &StopToken) -> (r: Result<WriteOutcome, WriterError>)
        ensures
            r == Ok::<WriteOutcome, WriterError>(
                if stop.requested {
                    WriteOutcome::Stopped
                } else {
                    WriteOutcome::Written
                },
            ),
    {
        let _ = items;
        if stop.is_stop_requested() {
            return Ok(WriteOutcome::Stopped);
        }
        Ok(WriteOutcome::Written)
    }
}

/// A call that is to stop neither processes nor accepts anything, and one that is
/// not to stop never filters, stops or fails.
pub proof fn a_requested_stop_comes_first<I: Clone, O>(
    item: &I,
    items: &[O],
    stop: &StopToken,
    p: Result<ProcessOutcome<I>, ProcessorError>,
    w: Result<WriteOutcome, WriterError>,
)
    requires
        call_ensures(IdentityProcessor::process::<I>, (&IdentityProcessor, item, stop), p),
        call_ensures(NoopWriter::write::<O>, (&NoopWriter, items, stop), w),
    ensures
        p is Ok,
        w is Ok,
        stop.requested <==> p->Ok_0 is Stopped,
        stop.requested <==> w->Ok_0 is Stopped,
        !stop.requested ==> p->Ok_0 is Item && cloned(*item, p->Ok_0->Item_0),
{
}

/// An iterator is read from its first item to its last, each once.
pub proof fn an_iterator_is_read_in_order<It: Iterator>(
    reader: &mut IterReader<It>,
    r: Result<ReadOutcome<It::Item>, ReaderError>,
)
    requires
        call_ensures(IterReader::<It>::read, (reader,), r),
        old(reader).iter.obeys_prophetic_iter_laws(),
    ensures
        r is Ok,
        r->Ok_0 is EndOfInput <==> old(reader).iter.remaining().len() == 0,
        r matches Ok(ReadOutcome::Item(item)) ==> old(reader).iter.remaining() == seq![item]
            + final(reader).iter.remaining(),
        !(r->Ok_0 is Stopped),
{
    if r->Ok_0 is Item {
        assert(old(reader).iter.remaining()
            =~= seq![r->Ok_0->Item_0] + final(reader).iter.remaining());
    }
}

} // verus!
