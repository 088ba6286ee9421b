//! Filtering items by a predicate.

use crate::runtime::{ProcessOutcome, ProcessorError, StopToken};
use vstd::prelude::*;

verus! {

/// A predicate deciding whether an item is kept. Every `Fn(&I) -> bool` is one.
pub trait ItemFilter<I> {
    /// The predicate can be asked about the item.
    spec fn accepts(&self, item: &I) -> bool;

    /// The predicate can answer so about the item.
    spec fn answers(&self, item: &I, kept: bool) -> bool;

    /// Returns `true` to keep the item, `false` to filter it.
    fn keep(&self, item: &I) -> (r: bool)
        requires
            self.accepts(item),
        ensures
            self.answers(item, r),
    ;
}

impl<I, F: Fn(&I) -> bool> ItemFilter<I> for F {
    open spec fn accepts(&self, item: &I) -> bool {
        call_requires(*self, (item,))
    }

    open spec fn answers(&self, item: &I, kept: bool) -> bool {
        call_ensures(*self, (item,), kept)
    }

    fn keep(&self, item: &I) -> (r: bool) {
        self(item)
    }
}

/// A closure is asked about the items that it can be called with, and answers
/// what it returns for them.
pub proof fn closure_filters_by_its_result<I, F: Fn(&I) -> bool>(predicate: F)
    ensures
        forall|item: &I| #[trigger]
            predicate.accepts(item) == call_requires(predicate, (item,)),
        forall|item: &I, kept: bool| #[trigger]
            predicate.answers(item, kept) == call_ensures(predicate, (item,), kept),
{
}

/// A processor that keeps or filters an item by predicate, with an outcome of its
/// own for a filtered item rather than an error or a sentinel value.
pub struct FilterProcessor<F> {
    /// The predicate.
    pub predicate: F,
}

impl<F> FilterProcessor<F> {
    /// Wraps a keep/filter predicate as a processor.
    pub fn new(predicate: F) -> (r: Self)
        ensures
            r.predicate == predicate,
    {
        FilterProcessor { predicate }
    }

    /// Copies the item if the predicate keeps it, and filters it if not. A call
    /// that is to stop asks nothing.
    pub fn process<I: Clone>(&self, item: &I, stop: &StopToken) -> (r: Result<
        ProcessOutcome<I>,
        ProcessorError,
    >) where F: ItemFilter<I>,
        requires
            self.predicate.accepts(item),
        ensures
            if stop.requested {
                r == Ok::<ProcessOutcome<I>, ProcessorError>(ProcessOutcome::Stopped)
            } else {
                match r {
                    Ok(ProcessOutcome::Item(copy)) => cloned(*item, copy) && self.predicate.answers(
                        item,
                        true,
                    ),
                    Ok(ProcessOutcome::Filtered) => self.predicate.answers(item, false),
                    _ => false,
                }
            },
    {
        if stop.is_stop_requested() {
            return Ok(ProcessOutcome::Stopped);
        }
        if self.predicate.keep(item) {
            Ok(ProcessOutcome::Item(item.clone()))
        } else {
            Ok(ProcessOutcome::Filtered)
        }
    }
}

/// An item is filtered exactly if the predicate does not keep it; a kept one is
/// passed on as a copy, and a call that is to stop stops.
pub proof fn an_item_is_kept_or_filtered<F: ItemFilter<I>, I: Clone>(
    processor: &FilterProcessor<F>,
    item: &I,
    stop: &StopToken,
    r: Result<ProcessOutcome<I>, ProcessorError>,
    kept: bool,
)
    requires
        call_ensures(FilterProcessor::<F>::process::<I>, (processor, item, stop), r),
        forall|other: bool| #[trigger] processor.predicate.answers(item, other) ==> other == kept,
    ensures
        r is Ok,
        stop.requested <==> r->Ok_0 is Stopped,
        !stop.requested ==> (r->Ok_0 is Item <==> kept),
        !stop.requested ==> (r->Ok_0 is Filtered <==> !kept),
        r->Ok_0 is Item ==> cloned(*item, r->Ok_0->Item_0),
{
}

} // verus!
