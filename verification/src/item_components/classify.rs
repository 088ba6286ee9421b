//! Classifier-selected delegates.
//!
//! A classifier picks one delegate from a bounded, configured set, keyed by a
//! value derived from the item. Every delegate has the one type `D`, so that the
//! wrapper never claims a capability that the selected delegate lacks. A
//! delegate's failure or stop is handed on unchanged.

use crate::runtime::{
    FailureCategory, ProcessOutcome, ProcessorError, StopToken, WriteOutcome, WriterError,
};
use std::collections::HashMap;
use std::hash::Hash;
use vstd::prelude::*;
use vstd::std_specs::hash::obeys_key_model;

verus! {

/// Derives a delegate-selection key from a borrowed item. Every `Fn(&I) -> K` is
/// one.
pub trait Classifier<I, K> {
    /// The classifier can be asked about the item.
    spec fn accepts(&self, item: &I) -> bool;

    /// The classifier can answer so about the item.
    spec fn answers(&self, item: &I, key: K) -> bool;

    /// Returns the key selecting this item's delegate.
    fn classify(&self, item: &I) -> (r: K)
        requires
            self.accepts(item),
        ensures
            self.answers(item, r),
    ;
}

impl<I, K, F: Fn(&I) -> K> Classifier<I, K> for F {
    open spec fn accepts(&self, item: &I) -> bool {
        call_requires(*self, (item,))
    }

    open spec fn answers(&self, item: &I, key: K) -> bool {
        call_ensures(*self, (item,), key)
    }

    fn classify(&self, item: &I) -> (r: K) {
        self(item)
    }
}

/// A closure is asked about the items that it can be called with, and the key
/// is what it returns for them.
pub proof fn closure_classifies_by_its_result<I, K, F: Fn(&I) -> K>(classifier: F)
    ensures
        forall|item: &I| #[trigger]
            Classifier::<I, K>::accepts(&classifier, item) == call_requires(classifier, (item,)),
        forall|item: &I, key: K| #[trigger]
            Classifier::<I, K>::answers(&classifier, item, key) == call_ensures(
                classifier,
                (item,),
                key,
            ),
{
}

/// The next step of a classified call: `Delegate` borrows the delegate to call,
/// and what comes of that call is what comes of this one.
pub enum ClassifiedCall<'a, D, O> {
    /// Call this delegate with the item.
    Delegate(&'a D),
    /// The call is over.
    Return(Result<ProcessOutcome<O>, ProcessorError>),
}

/// Routes each item to one of a bounded, configured set of delegate processors.
pub struct ClassifyingProcessor<K, D, C> {
    /// The delegates, by key.
    pub delegates: HashMap<K, D>,
    /// Picks the key of an item.
    pub classifier: C,
}

impl<K: Eq + Hash, D, C> ClassifyingProcessor<K, D, C> {
    /// Builds a classifying processor over a bounded, keyed delegate set.
    pub fn new(delegates: HashMap<K, D>, classifier: C) -> (r: Self)
        ensures
            r.delegates == delegates,
            r.classifier == classifier,
    {
        ClassifyingProcessor { delegates, classifier }
    }

    /// Selects the delegate of the item's key, unless the call is to stop. A key
    /// without a delegate is a failure. (The selection is that of the map for key
    /// types whose equality and hash agree.)
    pub fn process<I, O>(&self, item: &I, stop: &StopToken) -> (r: ClassifiedCall<
        '_,
        D,
        O,
    >) where C: Classifier<I, K>,
        requires
            self.classifier.accepts(item),
        ensures
            if stop.requested {
                r == ClassifiedCall::<D, O>::Return(Ok(ProcessOutcome::Stopped))
            } else {
                obeys_key_model::<K>() ==> exists|key: K| #[trigger]
                    self.classifier.answers(item, key) && match r {
                        ClassifiedCall::Delegate(delegate) => {
                            &&& self.delegates@.contains_key(key)
                            &&& *delegate == self.delegates@[key]
                        },
                        ClassifiedCall::Return(outcome) => {
                            &&& !self.delegates@.contains_key(key)
                            &&& outcome == Err::<ProcessOutcome<O>, ProcessorError>(
                                ProcessorError {
                                    category: FailureCategory::UserComponent,
                                },
                            )
                        },
                    }
            },
    {
        if stop.is_stop_requested() {
            return ClassifiedCall::Return(Ok(ProcessOutcome::Stopped));
        }
        let key: K = self.classifier.classify(item);
        match self.delegates.get(&key) {
            Some(delegate) => ClassifiedCall::Delegate(delegate),
            None => ClassifiedCall::Return(Err(ProcessorError::new())),
        }
    }
}

/// The next step of a classified write.
pub enum ClassifiedWrite<'a, D> {
    /// Write the item of this index to this delegate, as a batch of its own, and
    /// report what came of it.
    Write {
        /// The index of the item.
        index: usize,
        /// The delegate.
        delegate: &'a D,
    },
    /// The write is over.
    Return(Result<WriteOutcome, WriterError>),
}

/// Routes each item of a batch to one of a bounded, configured set of delegate
/// writers, one item at a time and in the batch's order.
pub struct ClassifyingWriter<K, D, C> {
    /// The delegates, by key.
    pub delegates: HashMap<K, D>,
    /// Picks the key of an item.
    pub classifier: C,
}

impl<K: Eq + Hash, D, C> ClassifyingWriter<K, D, C> {
    /// Builds a classifying writer over a bounded, keyed delegate set.
    pub fn new(delegates: HashMap<K, D>, classifier: C) -> (r: Self)
        ensures
            r.delegates == delegates,
            r.classifier == classifier,
    {
        ClassifyingWriter { delegates, classifier }
    }

    /// What a write does from an item on: past the last item the batch is
    /// written; else the item goes to its delegate, and fails without one.
    pub open spec fn goes_on<O>(&self, items: Seq<O>, index: int, action: ClassifiedWrite<D>) -> bool
     where C: Classifier<O, K> {
        if index >= items.len() {
            action == ClassifiedWrite::<D>::Return(Ok(WriteOutcome::Written))
        } else {
            obeys_key_model::<K>() ==> exists|key: K| #[trigger]
                self.classifier.answers(&items[index], key) && match action {
                    ClassifiedWrite::Write { index: at, delegate } => {
                        &&& at == index
                        &&& self.delegates@.contains_key(key)
                        &&& *delegate == self.delegates@[key]
                    },
                    ClassifiedWrite::Return(outcome) => {
                        &&& !self.delegates@.contains_key(key)
                        &&& outcome == Err::<WriteOutcome, WriterError>(
                            WriterError {
                                category: FailureCategory::UserComponent,
                                rolled_back_output: None,
                            },
                        )
                    },
                }
        }
    }

    fn route<O>(&self, items: &[O], index: usize) -> (r: ClassifiedWrite<'_, D>) where
        C: Classifier<O, K>,

        requires
            index <= items@.len(),
            forall|item: &O| #[trigger] self.classifier.accepts(item),
        ensures
            self.goes_on(items@, index as int, r),
    {
        if index >= items.len() {
            return ClassifiedWrite::Return(Ok(WriteOutcome::Written));
        }
        let key: K = self.classifier.classify(&items[index]);
        match self.delegates.get(&key) {
            Some(delegate) => ClassifiedWrite::Write { index, delegate },
            None => ClassifiedWrite::Return(Err(WriterError::new())),
        }
    }

    /// Starts a write, unless it is to stop.
    pub fn write<O>(&self, items: &[O], stop: &StopToken) -> (r: ClassifiedWrite<'_, D>) where
        C: Classifier<O, K>,

        requires
            forall|item: &O| #[trigger] self.classifier.accepts(item),
        ensures
            if stop.requested {
                r == ClassifiedWrite::<D>::Return(Ok(WriteOutcome::Stopped))
            } else {
                self.goes_on(items@, 0, r)
            },
    {
        if stop.is_stop_requested() {
            return ClassifiedWrite::Return(Ok(WriteOutcome::Stopped));
        }
        self.route(items, 0)
    }

    /// Takes what came of writing an item. A stop or a failure ends the write;
    /// else it goes on with the next item.
    pub fn delegate_wrote<O>(
        &self,
        items: &[O],
        index: usize,
        outcome: Result<WriteOutcome, WriterError>,
    ) -> (r: ClassifiedWrite<'_, D>) where C: Classifier<O, K>,
        requires
            index < items@.len(),
            forall|item: &O| #[trigger] self.classifier.accepts(item),
        ensures
            if outcome == Ok::<WriteOutcome, WriterError>(WriteOutcome::Written) {
                self.goes_on(items@, index + 1, r)
            } else {
                r == ClassifiedWrite::<D>::Return(outcome)
            },
    {
        let count: usize = items.len();
        assert(index < count);
        match outcome {
            Ok(WriteOutcome::Written) => self.route(items, index + 1),
            _ => ClassifiedWrite::Return(outcome),
        }
    }
}

/// A call that is to stop asks no classifier. Any other call goes to the delegate
/// of the item's key, and fails exactly if the key has none.
pub proof fn an_item_goes_to_the_delegate_of_its_key<K: Eq + Hash, D, C: Classifier<I, K>, I, O>(
    processor: &ClassifyingProcessor<K, D, C>,
    item: &I,
    stop: &StopToken,
    r: ClassifiedCall<'_, D, O>,
    key: K,
)
    requires
        call_ensures(
            ClassifyingProcessor::<K, D, C>::process::<I, O>,
            (processor, item, stop),
            r,
        ),
        obeys_key_model::<K>(),
        forall|other: K| #[trigger] processor.classifier.answers(item, other) ==> other == key,
    ensures
        stop.requested ==> r == ClassifiedCall::<D, O>::Return(Ok(ProcessOutcome::Stopped)),
        !stop.requested && processor.delegates@.contains_key(key) ==> (
        r matches ClassifiedCall::Delegate(delegate) && *delegate == processor.delegates@[key]),
        !stop.requested && !processor.delegates@.contains_key(key) ==> (
        r matches ClassifiedCall::Return(Err(error)) && error.category
            == FailureCategory::UserComponent),
{
}

/// The items of a batch are written in order, each to the delegate of its key: a
/// write starts with the first item, and a written item is followed by the next
/// one. What ends it is the end of the batch, an item without a delegate, or what
/// a delegate ended with.
pub proof fn items_are_written_in_order<K: Eq + Hash, D, C: Classifier<O, K>, O>(
    writer: &ClassifyingWriter<K, D, C>,
    items: &[O],
    stop: &StopToken,
    first: ClassifiedWrite<'_, D>,
    index: usize,
    outcome: Result<WriteOutcome, WriterError>,
    next: ClassifiedWrite<'_, D>,
)
    requires
        call_ensures(ClassifyingWriter::<K, D, C>::write::<O>, (writer, items, stop), first),
        call_ensures(
            ClassifyingWriter::<K, D, C>::delegate_wrote::<O>,
            (writer, items, index, outcome),
            next,
        ),
        obeys_key_model::<K>(),
    ensures
        stop.requested ==> first == ClassifiedWrite::<D>::Return(Ok(WriteOutcome::Stopped)),
        !stop.requested && items@.len() == 0 ==> first == ClassifiedWrite::<D>::Return(
            Ok(WriteOutcome::Written),
        ),
        first matches ClassifiedWrite::Write { index: at, .. } ==> at == 0 && !stop.requested
            && items@.len() > 0,
        !(outcome matches Ok(WriteOutcome::Written)) ==> next == ClassifiedWrite::<D>::Return(
            outcome,
        ),
        next matches ClassifiedWrite::Write { index: at, .. } ==> at == index + 1 && at
            < items@.len() && outcome == Ok::<WriteOutcome, WriterError>(WriteOutcome::Written),
        next == ClassifiedWrite::<D>::Return(Ok(WriteOutcome::Written)) && outcome == Ok::<
            WriteOutcome,
            WriterError,
        >(WriteOutcome::Written) ==> index + 1 >= items@.len(),
        outcome == Ok::<WriteOutcome, WriterError>(WriteOutcome::Written) && index + 1
            >= items@.len() ==> next == ClassifiedWrite::<D>::Return(Ok(WriteOutcome::Written)),
{
}

/// An item of a batch goes to the delegate of its key, and fails exactly if the
/// key has none.
pub proof fn a_written_item_goes_to_the_delegate_of_its_key<K: Eq + Hash, D, C: Classifier<O, K>, O>(
    writer: &ClassifyingWriter<K, D, C>,
    items: Seq<O>,
    index: int,
    action: ClassifiedWrite<'_, D>,
    key: K,
)
    requires
        writer.goes_on(items, index, action),
        0 <= index < items.len(),
        obeys_key_model::<K>(),
        forall|other: K| #[trigger] writer.classifier.answers(&items[index], other) ==> other
            == key,
    ensures
        writer.delegates@.contains_key(key) ==> (action matches ClassifiedWrite::Write {
            index: at,
            delegate,
        } && at == index && *delegate == writer.delegates@[key]),
        !writer.delegates@.contains_key(key) ==> (action matches ClassifiedWrite::Return(Err(error))
            && error.category == FailureCategory::UserComponent && error.rolled_back_output
            is None),
{
}

} // verus!
