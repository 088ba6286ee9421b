//! Validating items.
//!
//! An invalid item is a processor failure like any other; it is never filtered
//! silently.

use crate::runtime::{ProcessOutcome, ProcessorError, StopToken};
use vstd::prelude::*;

verus! {

/// A synchronous validation rule over a borrowed item. Every
/// `Fn(&I) -> Result<(), ProcessorError>` is one.
pub trait ItemValidator<I> {
    /// The rule can be asked about the item.
    spec fn accepts(&self, item: &I) -> bool;

    /// The rule can answer so about the item.
    spec fn answers(&self, item: &I, verdict: Result<(), ProcessorError>) -> bool;

    /// Validates one borrowed item, returning a typed failure when invalid.
    fn validate(&self, item: &I) -> (r: Result<(), ProcessorError>)
        requires
            self.accepts(item),
        ensures
            self.answers(item, r),
    ;
}

impl<I, F: Fn(&I) -> Result<(), ProcessorError>> ItemValidator<I> for F {
    open spec fn accepts(&self, item: &I) -> bool {
        call_requires(*self, (item,))
    }

    open spec fn answers(&self, item: &I, verdict: Result<(), ProcessorError>) -> bool {
        call_ensures(*self, (item,), verdict)
    }

    fn validate(&self, item: &I) -> (r: Result<(), ProcessorError>) {
        self(item)
    }
}

/// A closure is asked about the items that it can be called with, and its
/// verdict is what it returns for them.
pub proof fn closure_validates_by_its_result<I, F: Fn(&I) -> Result<(), ProcessorError>>(rule: F)
    ensures
        forall|item: &I| #[trigger] rule.accepts(item) == call_requires(rule, (item,)),
        forall|item: &I, verdict: Result<(), ProcessorError>| #[trigger]
            rule.answers(item, verdict) == call_ensures(rule, (item,), verdict),
{
}

/// A processor that validates its input and passes a copy of it through when it
/// is valid.
pub struct ValidatingProcessor<V> {
    /// The rule.
    pub validator: V,
}

impl<V> ValidatingProcessor<V> {
    /// Wraps a validation rule as a processor.
    pub fn new(validator: V) -> (r: Self)
        ensures
            r.validator == validator,
    {
        ValidatingProcessor { validator }
    }

    /// Copies the item if the rule accepts it, and fails as the rule does if not.
    /// A call that is to stop asks nothing.
    pub fn process<I: Clone>(&self, item: &I, stop: &StopToken) -> (r: Result<
        ProcessOutcome<I>,
        ProcessorError,
    >) where V: ItemValidator<I>,
        requires
            self.validator.accepts(item),
        ensures
            if stop.requested {
                r == Ok::<ProcessOutcome<I>, ProcessorError>(ProcessOutcome::Stopped)
            } else {
                match r {
                    Ok(ProcessOutcome::Item(copy)) => cloned(*item, copy) && self.validator.answers(
                        item,
                        Ok(()),
                    ),
                    Err(error) => self.validator.answers(item, Err(error)),
                    _ => false,
                }
            },
    {
        if stop.is_stop_requested() {
            return Ok(ProcessOutcome::Stopped);
        }
        match self.validator.validate(item) {
            Ok(valid) => {
                assert(valid == ());
                Ok(ProcessOutcome::Item(item.clone()))
            },
            Err(error) => Err(error),
        }
    }
}

/// An item fails exactly as its rule does, and passes as a copy if the rule finds
/// nothing; it is never filtered, and a call that is to stop stops.
pub proof fn an_item_passes_or_fails<V: ItemValidator<I>, I: Clone>(
    processor: &ValidatingProcessor<V>,
    item: &I,
    stop: &StopToken,
    r: Result<ProcessOutcome<I>, ProcessorError>,
    verdict: Result<(), ProcessorError>,
)
    requires
        call_ensures(ValidatingProcessor::<V>::process::<I>, (processor, item, stop), r),
        forall|other: Result<(), ProcessorError>| #[trigger]
            processor.validator.answers(item, other) ==> other == verdict,
    ensures
        stop.requested <==> (r matches Ok(ProcessOutcome::Stopped)),
        !(r matches Ok(ProcessOutcome::Filtered)),
        !stop.requested ==> (r is Err <==> verdict is Err),
        !stop.requested && verdict is Err ==> r->Err_0 == verdict->Err_0,
        r matches Ok(ProcessOutcome::Item(copy)) ==> cloned(*item, copy),
{
}

} // verus!
