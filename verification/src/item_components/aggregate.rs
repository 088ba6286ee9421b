//! Aggregating a bounded number of items into one.

use crate::plan::node::ChunkSize;
use crate::runtime::{ReadOutcome, ReaderError};
use vstd::prelude::*;

verus! {

/// The next step of a read.
pub enum AggregateAction<I> {
    /// Read the delegate and hand over what came of it.
    ReadDelegate,
    /// The read is over; a group is to be aggregated into one item.
    Return(Result<ReadOutcome<Vec<I>>, ReaderError>),
}

/// A reader decorator that aggregates up to a bounded number of items of its
/// delegate `R` into one with `F`.
///
/// The buffer is in memory only. A failure keeps it, for a retry goes on with the
/// same reader and must not lose what was read; a stop discards it, for a stopped
/// attempt is not retried.
pub struct AggregatingReader<I, R, F> {
    /// The delegate.
    pub inner: R,
    /// How many items make a group.
    pub bound: ChunkSize,
    /// Combines a group into one item.
    pub aggregate: F,
    /// The items of the group so far.
    pub buffer: Vec<I>,
    /// The delegate has ended.
    pub exhausted: bool,
}

/// A read that is over with a group.
pub open spec fn gives_group<I>(action: AggregateAction<I>, group: Seq<I>) -> bool {
    action matches AggregateAction::Return(Ok(ReadOutcome::Item(items))) && items@ == group
}

/// A group is complete once it holds the bound.
pub open spec fn completes(items: nat, bound: u32) -> bool {
    items >= bound
}

impl<I, R, F> AggregatingReader<I, R, F> {
    /// The group in the making is not complete.
    pub open spec fn wf(&self) -> bool {
        self.buffer@.len() == 0 || !completes(self.buffer@.len(), self.bound@)
    }

    /// Only the buffer and the end of input differ.
    pub open spec fn same_parts(&self, other: &Self) -> bool {
        self.inner == other.inner && self.bound == other.bound && self.aggregate == other.aggregate
    }

    /// Wraps `inner`, combining up to `bound` items per aggregate.
    pub fn new(inner: R, bound: ChunkSize, aggregate: F) -> (r: Self)
        ensures
            r.wf(),
            r.inner == inner,
            r.bound == bound,
            r.aggregate == aggregate,
            r.buffer@.len() == 0,
            !r.exhausted,
    {
        AggregatingReader { inner, bound, aggregate, buffer: Vec::new(), exhausted: false }
    }

    /// Starts a read: past the end of the delegate, with nothing buffered, the
    /// input has ended.
    pub fn read(&self) -> (r: AggregateAction<I>)
        ensures
            r == (if self.exhausted && self.buffer@.len() == 0 {
                AggregateAction::<I>::Return(Ok(ReadOutcome::EndOfInput))
            } else {
                AggregateAction::<I>::ReadDelegate
            }),
    {
        if self.exhausted && self.buffer.len() == 0 {
            return AggregateAction::Return(Ok(ReadOutcome::EndOfInput));
        }
        AggregateAction::ReadDelegate
    }

    /// Takes what came of reading the delegate. A complete group is given out, a
    /// last one also where the delegate ends; a stop discards the group, and a
    /// failure keeps it.
    pub fn delegate_read(&mut self, outcome: Result<ReadOutcome<I>, ReaderError>) -> (r:
        AggregateAction<I>)
        requires
            old(self).wf(),
        ensures
            final(self).wf(),
            final(self).same_parts(old(self)),
            match outcome {
                Ok(ReadOutcome::Item(item)) => {
                    &&& final(self).exhausted == old(self).exhausted
                    &&& if completes(old(self).buffer@.len() + 1, old(self).bound@) {
                        &&& final(self).buffer@ == Seq::<I>::empty()
                        &&& gives_group(r, old(self).buffer@.push(item))
                    } else {
                        &&& final(self).buffer@ == old(self).buffer@.push(item)
                        &&& r == AggregateAction::<I>::ReadDelegate
                    }
                },
                Ok(ReadOutcome::EndOfInput) => {
                    &&& final(self).exhausted
                    &&& final(self).buffer@ == Seq::<I>::empty()
                    &&& if old(self).buffer@.len() == 0 {
                        r == AggregateAction::<I>::Return(Ok(ReadOutcome::EndOfInput))
                    } else {
                        gives_group(r, old(self).buffer@)
                    }
                },
                Ok(ReadOutcome::Stopped) => {
                    &&& final(self).exhausted == old(self).exhausted
                    &&& final(self).buffer@ == Seq::<I>::empty()
                    &&& r == AggregateAction::<I>::Return(Ok(ReadOutcome::Stopped))
                },
                Err(error) => {
                    &&& *final(self) == *old(self)
                    &&& r == AggregateAction::<I>::Return(Err(error))
                },
            },
    {
        match outcome {
            Ok(ReadOutcome::Item(item)) => {
                self.buffer.push(item);
                if self.buffer.len() >= self.bound.get() as usize {
                    let mut group: Vec<I> = Vec::new();
                    std::mem::swap(&mut group, &mut self.buffer);
                    return AggregateAction::Return(Ok(ReadOutcome::Item(group)));
                }
                AggregateAction::ReadDelegate
            },
            Ok(ReadOutcome::EndOfInput) => {
                self.exhausted = true;
                if self.buffer.len() == 0 {
                    return AggregateAction::Return(Ok(ReadOutcome::EndOfInput));
                }
                let mut group: Vec<I> = Vec::new();
                std::mem::swap(&mut group, &mut self.buffer);
                AggregateAction::Return(Ok(ReadOutcome::Item(group)))
            },
            Ok(ReadOutcome::Stopped) => {
                self.buffer.clear();
                AggregateAction::Return(Ok(ReadOutcome::Stopped))
            },
            Err(error) => AggregateAction::Return(Err(error)),
        }
    }
}

/// The groups that a delegate's items are given out in, when it gives them all
/// and then ends: as they become complete, and the rest at the end.
pub open spec fn groups<I>(buffer: Seq<I>, items: Seq<I>, bound: u32) -> Seq<Seq<I>>
    decreases items.len(),
{
    if items.len() == 0 {
        if buffer.len() == 0 {
            Seq::empty()
        } else {
            seq![buffer]
        }
    } else {
        let longer = buffer.push(items[0]);
        if completes(longer.len(), bound) {
            seq![longer] + groups(Seq::empty(), items.drop_first(), bound)
        } else {
            groups(longer, items.drop_first(), bound)
        }
    }
}

/// The items of some groups, in order.
pub open spec fn ungrouped<I>(groups: Seq<Seq<I>>) -> Seq<I>
    decreases groups.len(),
{
    if groups.len() == 0 {
        Seq::empty()
    } else {
        groups[0] + ungrouped(groups.drop_first())
    }
}

/// Aggregation neither loses nor reorders items. No group holds more than the
/// bound, and every group but the last holds exactly that many.
pub proof fn groups_hold_every_item<I>(buffer: Seq<I>, items: Seq<I>, bound: u32)
    requires
        bound > 0,
        buffer.len() < bound,
    ensures
        ungrouped(groups(buffer, items, bound)) == buffer + items,
        forall|i: int|
            0 <= i < groups(buffer, items, bound).len() ==> 0 < (#[trigger] groups(
                buffer,
                items,
                bound,
            )[i]).len() <= bound,
        forall|i: int|
            0 <= i < groups(buffer, items, bound).len() - 1 ==> (#[trigger] groups(
                buffer,
                items,
                bound,
            )[i]).len() == bound,
    decreases items.len(),
{
    let all = groups(buffer, items, bound);
    if items.len() == 0 {
        if buffer.len() > 0 {
            assert(all.drop_first() =~= Seq::<Seq<I>>::empty());
            assert(ungrouped(all.drop_first()) =~= Seq::<I>::empty());
        }
        assert(ungrouped(all) =~= buffer + items);
    } else {
        let longer = buffer.push(items[0]);
        let rest = items.drop_first();
        assert(longer + rest =~= buffer + items);
        if completes(longer.len(), bound) {
            let later = groups(Seq::<I>::empty(), rest, bound);
            groups_hold_every_item(Seq::<I>::empty(), rest, bound);
            assert(all.drop_first() =~= later);
            assert(Seq::<I>::empty() + rest =~= rest);
            assert forall|i: int| 0 <= i < all.len() implies 0 < (#[trigger] all[i]).len()
                <= bound by {
                if i > 0 {
                    assert(all[i] == later[i - 1]);
                }
            }
            assert forall|i: int| 0 <= i < all.len() - 1 implies (#[trigger] all[i]).len()
                == bound by {
                if i > 0 {
                    assert(all[i] == later[i - 1]);
                }
            }
        } else {
            groups_hold_every_item(longer, rest, bound);
        }
    }
}

/// Each step gives out what it takes from the groups that are to come: reading the
/// delegate's items one after the other gives exactly their groups, in order.
pub proof fn steps_give_the_groups<I, R, F>(
    reader: &mut AggregatingReader<I, R, F>,
    outcome: Result<ReadOutcome<I>, ReaderError>,
    r: AggregateAction<I>,
    later: Seq<I>,
)
    requires
        call_ensures(AggregatingReader::<I, R, F>::delegate_read, (reader, outcome), r),
    ensures
        ({
            let bound = old(reader).bound@;
            let held = old(reader).buffer@;
            let to_come = groups(final(reader).buffer@, later, bound);
            &&& outcome matches Ok(ReadOutcome::Item(item)) ==> groups(
                held,
                seq![item] + later,
                bound,
            ) == (match r {
                AggregateAction::Return(Ok(ReadOutcome::Item(group))) => seq![group@] + to_come,
                _ => to_come,
            }) && (r is ReadDelegate || gives_some_group(r))
            &&& outcome matches Ok(ReadOutcome::EndOfInput) ==> groups(
                held,
                Seq::<I>::empty(),
                bound,
            ) == (match r {
                AggregateAction::Return(Ok(ReadOutcome::Item(group))) => seq![group@],
                _ => Seq::<Seq<I>>::empty(),
            }) && final(reader).exhausted && final(reader).buffer@.len() == 0 && !(
            r is ReadDelegate)
        }),
{
    match outcome {
        Ok(ReadOutcome::Item(item)) => {
            assert((seq![item] + later).drop_first() =~= later);
        },
        _ => {},
    }
}

/// A read that is over with some group.
pub open spec fn gives_some_group<I>(action: AggregateAction<I>) -> bool {
    action matches AggregateAction::Return(Ok(ReadOutcome::Item(_)))
}

/// A failure loses nothing and a stop gives nothing out: the one keeps every item
/// that was buffered, and the other drops them all.
pub proof fn a_failure_keeps_the_group<I, R, F>(
    reader: &mut AggregatingReader<I, R, F>,
    outcome: Result<ReadOutcome<I>, ReaderError>,
    r: AggregateAction<I>,
)
    requires
        call_ensures(AggregatingReader::<I, R, F>::delegate_read, (reader, outcome), r),
    ensures
        outcome matches Err(error) ==> final(reader).buffer@ == old(reader).buffer@
            && final(reader).exhausted == old(reader).exhausted && r
                == AggregateAction::<I>::Return(Err(error)),
        outcome matches Ok(ReadOutcome::Stopped) ==> final(reader).buffer@.len() == 0
            && final(reader).exhausted == old(reader).exhausted && r
                == AggregateAction::<I>::Return(
            Ok(ReadOutcome::Stopped),
        ),
{
}

/// Once the delegate has ended and its last group is out, it is not read again.
pub proof fn the_end_is_final<I, R, F>(reader: &AggregatingReader<I, R, F>, r: AggregateAction<I>)
    requires
        call_ensures(AggregatingReader::<I, R, F>::read, (reader,), r),
    ensures
        r is ReadDelegate <==> !reader.exhausted || reader.buffer@.len() > 0,
        !(r is ReadDelegate) ==> r == AggregateAction::<I>::Return(Ok(ReadOutcome::EndOfInput)),
{
}

} // verus!
