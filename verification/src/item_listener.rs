//! Item, retry and skip listener registration, and the order in which listener
//! callbacks run.
//!
//! Before callbacks run in registration order and stop at the first failure.
//! Completion callbacks run for the listeners that were entered, in reverse,
//! and every failure is kept. A panic is classified exactly like a returned
//! error.

use crate::listener::ListenerFailureKind;
use crate::runtime::StopToken;
use crate::text::{concat3, decimal, decimal_text};
use vstd::prelude::*;

verus! {

/// The largest accepted number of listeners in one family.
pub const MAX_LISTENERS: usize = 32;

/// Read-only execution data supplied at an item, retry, or skip callback.
///
/// The context deliberately excludes job parameters, execution-context values,
/// and durable state so a listener cannot copy them into diagnostics.
#[derive(Debug)]
pub struct ItemListenerContext<'a, C> {
    correlation: &'a C,
    chunk_sequence: u64,
    stop: &'a StopToken,
}

impl<'a, C> Clone for ItemListenerContext<'a, C> {
    fn clone(&self) -> (r: Self)
        ensures
            r == *self,
    {
        *self
    }
}

impl<'a, C> Copy for ItemListenerContext<'a, C> {

}

impl<'a, C> ItemListenerContext<'a, C> {
    /// The execution correlation.
    pub closed spec fn correlation_view(self) -> C {
        *self.correlation
    }

    /// The chunk sequence.
    pub closed spec fn chunk_view(self) -> u64 {
        self.chunk_sequence
    }

    /// The stop token.
    pub closed spec fn stop_view(self) -> StopToken {
        *self.stop
    }

    /// Constructs the borrowed callback scope.
    pub fn new(correlation: &'a C, chunk_sequence: u64, stop: &'a StopToken) -> (r: Self)
        ensures
            r.correlation_view() == *correlation,
            r.chunk_view() == chunk_sequence,
            r.stop_view() == *stop,
    {
        ItemListenerContext { correlation, chunk_sequence, stop }
    }

    /// Borrows the bounded execution correlation.
    pub fn correlation(self) -> (r: &'a C)
        ensures
            *r == self.correlation_view(),
    {
        self.correlation
    }

    /// Returns the zero-based chunk sequence within the step attempt.
    pub fn chunk_sequence(self) -> (r: u64)
        ensures
            r == self.chunk_view(),
    {
        self.chunk_sequence
    }

    /// Borrows the cooperative stop token.
    pub fn stop_token(self) -> (r: &'a StopToken)
        ensures
            *r == self.stop_view(),
    {
        self.stop
    }
}

/// The result visible to a retry-completion callback.
#[derive(Clone, Copy, Debug, PartialEq, Eq, PartialOrd, Ord, Hash, Structural)]
#[non_exhaustive]
pub enum RetryOutcome {
    /// A re-invocation succeeded.
    Recovered,
    /// A re-invocation failed again.
    Failed,
}

/// The callback boundary of an item, retry or skip listener.
#[derive(Clone, Copy, Debug, PartialEq, Eq, PartialOrd, Ord, Hash, Structural)]
#[non_exhaustive]
pub enum ItemListenerPhase {
    /// Before a reader call.
    BeforeRead,
    /// After a successful reader call.
    AfterRead,
    /// After a failed reader call.
    ReadError,
    /// Before a processor call.
    BeforeProcess,
    /// After a successful processor call.
    AfterProcess,
    /// After a failed processor call.
    ProcessError,
    /// Before a writer call.
    BeforeWrite,
    /// After a successful writer call.
    AfterWrite,
    /// After a failed writer call.
    WriteError,
    /// Before a re-invocation.
    BeforeRetry,
    /// After a re-invocation.
    AfterRetry,
    /// After the last permitted re-invocation failed.
    RetryExhausted,
    /// When an item is skipped.
    Skip,
}

impl ItemListenerPhase {
    /// The stable name.
    pub open spec fn name(self) -> Seq<char> {
        match self {
            ItemListenerPhase::BeforeRead => "before_read"@,
            ItemListenerPhase::AfterRead => "after_read"@,
            ItemListenerPhase::ReadError => "read_error"@,
            ItemListenerPhase::BeforeProcess => "before_process"@,
            ItemListenerPhase::AfterProcess => "after_process"@,
            ItemListenerPhase::ProcessError => "process_error"@,
            ItemListenerPhase::BeforeWrite => "before_write"@,
            ItemListenerPhase::AfterWrite => "after_write"@,
            ItemListenerPhase::WriteError => "write_error"@,
            ItemListenerPhase::BeforeRetry => "before_retry"@,
            ItemListenerPhase::AfterRetry => "after_retry"@,
            ItemListenerPhase::RetryExhausted => "retry_exhausted"@,
            ItemListenerPhase::Skip => "skip"@,
        }
    }

    /// Returns the stable name.
    pub fn as_str(self) -> (r: &'static str)
        ensures
            r@ == self.name(),
    {
        match self {
            ItemListenerPhase::BeforeRead => "before_read",
            ItemListenerPhase::AfterRead => "after_read",
            ItemListenerPhase::ReadError => "read_error",
            ItemListenerPhase::BeforeProcess => "before_process",
            ItemListenerPhase::AfterProcess => "after_process",
            ItemListenerPhase::ProcessError => "process_error",
            ItemListenerPhase::BeforeWrite => "before_write",
            ItemListenerPhase::AfterWrite => "after_write",
            ItemListenerPhase::WriteError => "write_error",
            ItemListenerPhase::BeforeRetry => "before_retry",
            ItemListenerPhase::AfterRetry => "after_retry",
            ItemListenerPhase::RetryExhausted => "retry_exhausted",
            ItemListenerPhase::Skip => "skip",
        }
    }
}

/// One value-redacted item, retry, or skip listener failure.
#[derive(Clone, Copy, Debug, PartialEq, Eq, PartialOrd, Ord, Hash, Structural)]
pub struct ItemListenerFailure {
    /// The callback boundary.
    pub phase: ItemListenerPhase,
    /// The zero-based listener registration index.
    pub registration_index: usize,
    /// Whether the boundary returned an error or panicked.
    pub kind: ListenerFailureKind,
}

impl ItemListenerFailure {
    /// Constructs a classified callback failure.
    pub fn new(
        phase: ItemListenerPhase,
        registration_index: usize,
        kind: ListenerFailureKind,
    ) -> (r: Self)
        ensures
            r == (ItemListenerFailure { phase, registration_index, kind }),
    {
        ItemListenerFailure { phase, registration_index, kind }
    }

    /// Returns the callback boundary.
    pub fn phase(self) -> (r: ItemListenerPhase)
        ensures
            r == self.phase,
    {
        self.phase
    }

    /// Returns the zero-based listener registration index.
    pub fn registration_index(self) -> (r: usize)
        ensures
            r == self.registration_index,
    {
        self.registration_index
    }

    /// Returns whether the boundary returned an error or panicked.
    pub fn kind(self) -> (r: ListenerFailureKind)
        ensures
            r == self.kind,
    {
        self.kind
    }
}

/// The outcome of one registration-order before-callback pass.
#[derive(Clone, Copy, Debug, PartialEq, Eq, PartialOrd, Ord, Hash, Structural)]
pub struct BeforeCallbackOutcome {
    entered: usize,
    failure: Option<ItemListenerFailure>,
}

impl BeforeCallbackOutcome {
    /// How many listeners completed their before callback.
    pub closed spec fn entered_view(self) -> usize {
        self.entered
    }

    /// The first failure.
    pub closed spec fn failure_view(self) -> Option<ItemListenerFailure> {
        self.failure
    }

    /// Returns how many listeners completed their before callback.
    ///
    /// The matching reverse pass runs exactly these listeners, so a listener
    /// that failed or never ran receives no completion callback.
    pub fn entered(self) -> (r: usize)
        ensures
            r == self.entered_view(),
    {
        self.entered
    }

    /// Returns the first failure, when the pass stopped early.
    pub fn failure(self) -> (r: Option<ItemListenerFailure>)
        ensures
            r == self.failure_view(),
    {
        self.failure
    }

    /// Returns whether every registered listener completed.
    pub fn is_ok(self) -> (r: bool)
        ensures
            r == (self.failure_view() is None),
    {
        self.failure.is_none()
    }
}

/// Failure to register a bounded listener family.
#[derive(Clone, Copy, Debug, PartialEq, Eq, Structural)]
#[non_exhaustive]
pub enum ItemListenerError {
    /// One listener family exceeded its registration bound.
    TooManyListeners {
        /// The largest accepted number of listeners in one family.
        max: usize,
    },
}

impl ItemListenerError {
    /// The displayed text.
    pub fn to_text(&self) -> (r: String)
        ensures
            r@ == "a listener family exceeds "@ + decimal(self->max as nat) + " listeners"@,
    {
        match self {
            ItemListenerError::TooManyListeners { max } => concat3(
                "a listener family exceeds ",
                decimal_text(*max as u64).as_str(),
                " listeners",
            ),
        }
    }
}

/// Adds a listener to a family that still has room.
fn push_bounded<T>(listeners: &mut Vec<T>, listener: T) -> (r: Result<(), ItemListenerError>)
    ensures
        match r {
            Ok(_) => old(listeners)@.len() != MAX_LISTENERS && final(listeners)@ == old(
                listeners,
            )@.push(listener),
            Err(error) => {
                &&& old(listeners)@.len() == MAX_LISTENERS
                &&& final(listeners)@ == old(listeners)@
                &&& error == ItemListenerError::TooManyListeners { max: MAX_LISTENERS }
            },
        },
{
    if listeners.len() == MAX_LISTENERS {
        return Err(ItemListenerError::TooManyListeners { max: MAX_LISTENERS });
    }
    listeners.push(listener);
    Ok(())
}

/// What one listener call came to.
pub type CallResult = Result<(), ListenerFailureKind>;

/// The outcome of a before pass over `count` listeners of which the first
/// `results.len()` have been called: the first failure ends it.
pub open spec fn forward_outcome(
    phase: ItemListenerPhase,
    results: Seq<CallResult>,
) -> (nat, Option<ItemListenerFailure>)
    decreases results.len(),
{
    if results.len() == 0 {
        (0, None)
    } else {
        let (entered, failure) = forward_outcome(phase, results.drop_last());
        match failure {
            Some(_) => (entered, failure),
            None => match results.last() {
                Ok(_) => (results.len(), None),
                Err(kind) => (
                    (results.len() - 1) as nat,
                    Some(
                        ItemListenerFailure {
                            phase,
                            registration_index: (results.len() - 1) as usize,
                            kind,
                        },
                    ),
                ),
            },
        }
    }
}

/// The failures of a pass, in the order of its calls: the call numbered `k` was
/// made to the listener `indices[k]`.
pub open spec fn pass_failures(
    phase: ItemListenerPhase,
    indices: Seq<usize>,
    results: Seq<CallResult>,
) -> Seq<ItemListenerFailure>
    decreases results.len(),
{
    if results.len() == 0 {
        Seq::empty()
    } else {
        let earlier = pass_failures(phase, indices, results.drop_last());
        match results.last() {
            Ok(_) => earlier,
            Err(kind) => earlier.push(
                ItemListenerFailure {
                    phase,
                    registration_index: indices[results.len() - 1],
                    kind,
                },
            ),
        }
    }
}

/// The numbers below `count`, from the last to the first.
pub open spec fn downward(count: usize) -> Seq<usize> {
    Seq::new(count as nat, |k: int| (count - 1 - k) as usize)
}

/// The numbers below `count`, from the first to the last.
pub open spec fn upward(count: usize) -> Seq<usize> {
    Seq::new(count as nat, |k: int| k as usize)
}

/// A registration-order pass of before callbacks that has not ended yet.
///
/// The caller asks for the next listener, calls it, and records what came of
/// it, until there is none.
pub struct ForwardPass {
    count: usize,
    phase: ItemListenerPhase,
    index: usize,
    failure: Option<ItemListenerFailure>,
    history: Ghost<Seq<CallResult>>,
}

impl ForwardPass {
    #[verifier::type_invariant]
    spec fn well_formed(self) -> bool {
        &&& self.index <= self.count
        &&& forward_outcome(self.phase, self.history@) == (self.index as nat, self.failure)
        &&& self.failure is None ==> self.history@.len() == self.index
        &&& self.failure is Some ==> self.index < self.count && self.history@.len() == self.index
            + 1
    }

    /// The number of listeners of the family.
    pub closed spec fn count_view(&self) -> usize {
        self.count
    }

    /// The callback boundary.
    pub closed spec fn phase_view(&self) -> ItemListenerPhase {
        self.phase
    }

    /// What the calls made so far came to.
    pub closed spec fn results(&self) -> Seq<CallResult> {
        self.history@
    }

    /// The pass has ended: a call failed or every listener was called.
    pub closed spec fn ended(&self) -> bool {
        self.failure is Some || self.index == self.count
    }

    /// Starts a pass over `count` listeners.
    fn new(count: usize, phase: ItemListenerPhase) -> (r: Self)
        ensures
            r.count_view() == count,
            r.phase_view() == phase,
            r.results().len() == 0,
            r.ended() == (count == 0),
    {
        ForwardPass { count, phase, index: 0, failure: None, history: Ghost(Seq::empty()) }
    }

    /// The listener to call next.
    pub fn next(&self) -> (r: Option<usize>)
        ensures
            match r {
                Some(index) => !self.ended() && index == self.results().len() && index
                    < self.count_view(),
                None => self.ended(),
            },
    {
        proof {
            use_type_invariant(self);
        }
        if self.failure.is_none() && self.index < self.count {
            Some(self.index)
        } else {
            None
        }
    }

    /// Records what the call to the next listener came to.
    pub fn record(self, result: CallResult) -> (r: Self)
        requires
            !self.ended(),
        ensures
            r.count_view() == self.count_view(),
            r.phase_view() == self.phase_view(),
            r.results() == self.results().push(result),
            r.ended() == (result is Err || r.results().len() == r.count_view()),
    {
        proof {
            use_type_invariant(&self);
            assert(self.history@.push(result).drop_last() =~= self.history@);
        }
        match result {
            Ok(_) => ForwardPass {
                count: self.count,
                phase: self.phase,
                index: self.index + 1,
                failure: None,
                history: Ghost(self.history@.push(result)),
            },
            Err(kind) => ForwardPass {
                count: self.count,
                phase: self.phase,
                index: self.index,
                failure: Some(ItemListenerFailure::new(self.phase, self.index, kind)),
                history: Ghost(self.history@.push(result)),
            },
        }
    }

    /// The outcome of an ended pass.
    pub fn finish(self) -> (r: BeforeCallbackOutcome)
        requires
            self.ended(),
        ensures
            (r.entered_view() as nat, r.failure_view()) == forward_outcome(
                self.phase_view(),
                self.results(),
            ),
    {
        proof {
            use_type_invariant(&self);
        }
        BeforeCallbackOutcome { entered: self.index, failure: self.failure }
    }
}

/// A pass that calls every listener it covers, whatever the calls come to, and
/// keeps every failure.
pub struct CompletionPass {
    count: usize,
    phase: ItemListenerPhase,
    reversed: bool,
    done: usize,
    failures: Vec<ItemListenerFailure>,
    history: Ghost<Seq<CallResult>>,
}

impl CompletionPass {
    #[verifier::type_invariant]
    spec fn well_formed(self) -> bool {
        &&& self.done <= self.count
        &&& self.history@.len() == self.done
        &&& self.failures@ == pass_failures(self.phase, self.order(), self.history@)
    }

    /// The listeners to call, in order.
    pub closed spec fn order(&self) -> Seq<usize> {
        if self.reversed {
            downward(self.count)
        } else {
            upward(self.count)
        }
    }

    /// The callback boundary.
    pub closed spec fn phase_view(&self) -> ItemListenerPhase {
        self.phase
    }

    /// What the calls made so far came to.
    pub closed spec fn results(&self) -> Seq<CallResult> {
        self.history@
    }

    /// Starts a pass from the last entered listener to the first.
    fn reverse(entered: usize, phase: ItemListenerPhase) -> (r: Self)
        ensures
            r.order() == downward(entered),
            r.phase_view() == phase,
            r.results().len() == 0,
    {
        let failures: Vec<ItemListenerFailure> = Vec::new();
        assert(failures@ =~= Seq::empty());
        CompletionPass {
            count: entered,
            phase,
            reversed: true,
            done: 0,
            failures,
            history: Ghost(Seq::empty()),
        }
    }

    /// Starts a pass over all listeners in registration order.
    fn ordered(count: usize) -> (r: Self)
        ensures
            r.order() == upward(count),
            r.phase_view() == ItemListenerPhase::Skip,
            r.results().len() == 0,
    {
        let failures: Vec<ItemListenerFailure> = Vec::new();
        assert(failures@ =~= Seq::empty());
        CompletionPass {
            count,
            phase: ItemListenerPhase::Skip,
            reversed: false,
            done: 0,
            failures,
            history: Ghost(Seq::empty()),
        }
    }

    /// The listener to call next.
    pub fn next(&self) -> (r: Option<usize>)
        ensures
            match r {
                Some(index) => self.results().len() < self.order().len() && index
                    == self.order()[self.results().len() as int],
                None => self.results().len() == self.order().len(),
            },
    {
        proof {
            use_type_invariant(self);
        }
        if self.done == self.count {
            None
        } else if self.reversed {
            Some(self.count - 1 - self.done)
        } else {
            Some(self.done)
        }
    }

    /// Records what the call to the next listener came to.
    pub fn record(self, result: CallResult) -> (r: Self)
        requires
            self.results().len() < self.order().len(),
        ensures
            r.order() == self.order(),
            r.phase_view() == self.phase_view(),
            r.results() == self.results().push(result),
    {
        proof {
            use_type_invariant(&self);
            assert(self.history@.push(result).drop_last() =~= self.history@);
        }
        let index: usize = if self.reversed {
            self.count - 1 - self.done
        } else {
            self.done
        };
        let CompletionPass { count, phase, reversed, done, failures, history } = self;
        let mut kept: Vec<ItemListenerFailure> = failures;
        match result {
            Ok(_) => {},
            Err(kind) => {
                kept.push(ItemListenerFailure::new(phase, index, kind));
            },
        }
        CompletionPass {
            count,
            phase,
            reversed,
            done: done + 1,
            failures: kept,
            history: Ghost(history@.push(result)),
        }
    }

    /// The failures of a pass that has called every listener it covers.
    pub fn finish(self) -> (r: Vec<ItemListenerFailure>)
        requires
            self.results().len() == self.order().len(),
        ensures
            r@ == pass_failures(self.phase_view(), self.order(), self.results()),
    {
        proof {
            use_type_invariant(&self);
        }
        self.failures
    }
}

/// A bounded, ordered registration of item listener families: read, process,
/// write, retry and skip listeners, each of one type.
pub struct ItemListenerSet<R, P, W, T, S> {
    read: Vec<R>,
    process: Vec<P>,
    write: Vec<W>,
    retry: Vec<T>,
    skip: Vec<S>,
}

/// Every listener of `copies` is a clone of the one in its place.
pub open spec fn all_cloned<L: Clone>(listeners: Seq<L>, copies: Seq<L>) -> bool {
    &&& copies.len() == listeners.len()
    &&& forall|i: int|
        0 <= i < listeners.len() ==> cloned::<L>(listeners[i], #[trigger] copies[i])
}

impl<R: Clone, P: Clone, W: Clone, T: Clone, S: Clone> Clone for ItemListenerSet<R, P, W, T, S> {
    fn clone(&self) -> (r: Self)
        ensures
            all_cloned(self.read_seq(), r.read_seq()),
            all_cloned(self.process_seq(), r.process_seq()),
            all_cloned(self.write_seq(), r.write_seq()),
            all_cloned(self.retry_seq(), r.retry_seq()),
            all_cloned(self.skip_seq(), r.skip_seq()),
    {
        proof {
            use_type_invariant(self);
        }
        ItemListenerSet {
            read: self.read.clone(),
            process: self.process.clone(),
            write: self.write.clone(),
            retry: self.retry.clone(),
            skip: self.skip.clone(),
        }
    }
}

/// The smaller of two numbers.
pub open spec fn least(a: usize, b: nat) -> usize {
    if a <= b {
        a
    } else {
        b as usize
    }
}

fn min_of(a: usize, b: usize) -> (r: usize)
    ensures
        r == least(a, b as nat),
{
    if a <= b {
        a
    } else {
        b
    }
}

impl<R, P, W, T, S> ItemListenerSet<R, P, W, T, S> {
    #[verifier::type_invariant]
    spec fn well_formed(self) -> bool {
        &&& self.read@.len() <= MAX_LISTENERS
        &&& self.process@.len() <= MAX_LISTENERS
        &&& self.write@.len() <= MAX_LISTENERS
        &&& self.retry@.len() <= MAX_LISTENERS
        &&& self.skip@.len() <= MAX_LISTENERS
    }

    /// The read listeners, in registration order.
    pub closed spec fn read_seq(&self) -> Seq<R> {
        self.read@
    }

    /// The process listeners, in registration order.
    pub closed spec fn process_seq(&self) -> Seq<P> {
        self.process@
    }

    /// The write listeners, in registration order.
    pub closed spec fn write_seq(&self) -> Seq<W> {
        self.write@
    }

    /// The retry listeners, in registration order.
    pub closed spec fn retry_seq(&self) -> Seq<T> {
        self.retry@
    }

    /// The skip listeners, in registration order.
    pub closed spec fn skip_seq(&self) -> Seq<S> {
        self.skip@
    }

    /// Constructs an empty registration.
    pub fn new() -> (r: Self)
        ensures
            r.read_seq().len() == 0,
            r.process_seq().len() == 0,
            r.write_seq().len() == 0,
            r.retry_seq().len() == 0,
            r.skip_seq().len() == 0,
    {
        ItemListenerSet {
            read: Vec::new(),
            process: Vec::new(),
            write: Vec::new(),
            retry: Vec::new(),
            skip: Vec::new(),
        }
    }

    /// Registers one more read listener; a full family is refused.
    pub fn with_read_listener(self, listener: R) -> (r: Result<Self, ItemListenerError>)
        ensures
            match r {
                Ok(set) => {
                    &&& self.read_seq().len() < MAX_LISTENERS
                    &&& set.read_seq() == self.read_seq().push(listener)
                    &&& set.process_seq() == self.process_seq()
                    &&& set.write_seq() == self.write_seq()
                    &&& set.retry_seq() == self.retry_seq()
                    &&& set.skip_seq() == self.skip_seq()
                },
                Err(error) => {
                    &&& self.read_seq().len() == MAX_LISTENERS
                    &&& error == ItemListenerError::TooManyListeners { max: MAX_LISTENERS }
                },
            },
    {
        proof {
            use_type_invariant(&self);
        }
        let ItemListenerSet { read, process, write, retry, skip } = self;
        let mut listeners: Vec<R> = read;
        match push_bounded(&mut listeners, listener) {
            Ok(_) => {},
            Err(error) => return Err(error),
        }
        Ok(ItemListenerSet { read: listeners, process, write, retry, skip })
    }

    /// Registers one more process listener; a full family is refused.
    pub fn with_process_listener(self, listener: P) -> (r: Result<Self, ItemListenerError>)
        ensures
            match r {
                Ok(set) => {
                    &&& self.process_seq().len() < MAX_LISTENERS
                    &&& set.process_seq() == self.process_seq().push(listener)
                    &&& set.read_seq() == self.read_seq()
                    &&& set.write_seq() == self.write_seq()
                    &&& set.retry_seq() == self.retry_seq()
                    &&& set.skip_seq() == self.skip_seq()
                },
                Err(error) => {
                    &&& self.process_seq().len() == MAX_LISTENERS
                    &&& error == ItemListenerError::TooManyListeners { max: MAX_LISTENERS }
                },
            },
    {
        proof {
            use_type_invariant(&self);
        }
        let ItemListenerSet { read, process, write, retry, skip } = self;
        let mut listeners: Vec<P> = process;
        match push_bounded(&mut listeners, listener) {
            Ok(_) => {},
            Err(error) => return Err(error),
        }
        Ok(ItemListenerSet { read, process: listeners, write, retry, skip })
    }

    /// Registers one more write listener; a full family is refused.
    pub fn with_write_listener(self, listener: W) -> (r: Result<Self, ItemListenerError>)
        ensures
            match r {
                Ok(set) => {
                    &&& self.write_seq().len() < MAX_LISTENERS
                    &&& set.write_seq() == self.write_seq().push(listener)
                    &&& set.read_seq() == self.read_seq()
                    &&& set.process_seq() == self.process_seq()
                    &&& set.retry_seq() == self.retry_seq()
                    &&& set.skip_seq() == self.skip_seq()
                },
                Err(error) => {
                    &&& self.write_seq().len() == MAX_LISTENERS
                    &&& error == ItemListenerError::TooManyListeners { max: MAX_LISTENERS }
                },
            },
    {
        proof {
            use_type_invariant(&self);
        }
        let ItemListenerSet { read, process, write, retry, skip } = self;
        let mut listeners: Vec<W> = write;
        match push_bounded(&mut listeners, listener) {
            Ok(_) => {},
            Err(error) => return Err(error),
        }
        Ok(ItemListenerSet { read, process, write: listeners, retry, skip })
    }

    /// Registers one more retry listener; a full family is refused.
    pub fn with_retry_listener(self, listener: T) -> (r: Result<Self, ItemListenerError>)
        ensures
            match r {
                Ok(set) => {
                    &&& self.retry_seq().len() < MAX_LISTENERS
                    &&& set.retry_seq() == self.retry_seq().push(listener)
                    &&& set.read_seq() == self.read_seq()
                    &&& set.process_seq() == self.process_seq()
                    &&& set.write_seq() == self.write_seq()
                    &&& set.skip_seq() == self.skip_seq()
                },
                Err(error) => {
                    &&& self.retry_seq().len() == MAX_LISTENERS
                    &&& error == ItemListenerError::TooManyListeners { max: MAX_LISTENERS }
                },
            },
    {
        proof {
            use_type_invariant(&self);
        }
        let ItemListenerSet { read, process, write, retry, skip } = self;
        let mut listeners: Vec<T> = retry;
        match push_bounded(&mut listeners, listener) {
            Ok(_) => {},
            Err(error) => return Err(error),
        }
        Ok(ItemListenerSet { read, process, write, retry: listeners, skip })
    }

    /// Registers one more skip listener; a full family is refused.
    pub fn with_skip_listener(self, listener: S) -> (r: Result<Self, ItemListenerError>)
        ensures
            match r {
                Ok(set) => {
                    &&& self.skip_seq().len() < MAX_LISTENERS
                    &&& set.skip_seq() == self.skip_seq().push(listener)
                    &&& set.read_seq() == self.read_seq()
                    &&& set.process_seq() == self.process_seq()
                    &&& set.write_seq() == self.write_seq()
                    &&& set.retry_seq() == self.retry_seq()
                },
                Err(error) => {
                    &&& self.skip_seq().len() == MAX_LISTENERS
                    &&& error == ItemListenerError::TooManyListeners { max: MAX_LISTENERS }
                },
            },
    {
        proof {
            use_type_invariant(&self);
        }
        let ItemListenerSet { read, process, write, retry, skip } = self;
        let mut listeners: Vec<S> = skip;
        match push_bounded(&mut listeners, listener) {
            Ok(_) => {},
            Err(error) => return Err(error),
        }
        Ok(ItemListenerSet { read, process, write, retry, skip: listeners })
    }

    /// Returns whether no listener is registered.
    pub fn is_empty(&self) -> (r: bool)
        ensures
            r == (self.read_seq().len() == 0 && self.process_seq().len() == 0
                && self.write_seq().len() == 0 && self.retry_seq().len() == 0
                    && self.skip_seq().len() == 0),
    {
        self.read.len() == 0 && self.process.len() == 0 && self.write.len() == 0
            && self.retry.len() == 0 && self.skip.len() == 0
    }

    /// Returns the number of read listeners.
    pub fn read_listeners(&self) -> (r: usize)
        ensures
            r == self.read_seq().len(),
            r <= MAX_LISTENERS,
    {
        proof {
            use_type_invariant(self);
        }
        self.read.len()
    }

    /// Borrows the read listener registered at `index`.
    pub fn read_listener(&self, index: usize) -> (r: Option<&R>)
        ensures
            match r {
                Some(listener) => index < self.read_seq().len() && *listener
                    == self.read_seq()[index as int],
                None => index >= self.read_seq().len(),
            },
    {
        if index < self.read.len() {
            Some(&self.read[index])
        } else {
            None
        }
    }

    /// Returns the number of process listeners.
    pub fn process_listeners(&self) -> (r: usize)
        ensures
            r == self.process_seq().len(),
            r <= MAX_LISTENERS,
    {
        proof {
            use_type_invariant(self);
        }
        self.process.len()
    }

    /// Borrows the process listener registered at `index`.
    pub fn process_listener(&self, index: usize) -> (r: Option<&P>)
        ensures
            match r {
                Some(listener) => index < self.process_seq().len() && *listener
                    == self.process_seq()[index as int],
                None => index >= self.process_seq().len(),
            },
    {
        if index < self.process.len() {
            Some(&self.process[index])
        } else {
            None
        }
    }

    /// Returns the number of write listeners.
    pub fn write_listeners(&self) -> (r: usize)
        ensures
            r == self.write_seq().len(),
            r <= MAX_LISTENERS,
    {
        proof {
            use_type_invariant(self);
        }
        self.write.len()
    }

    /// Borrows the write listener registered at `index`.
    pub fn write_listener(&self, index: usize) -> (r: Option<&W>)
        ensures
            match r {
                Some(listener) => index < self.write_seq().len() && *listener
                    == self.write_seq()[index as int],
                None => index >= self.write_seq().len(),
            },
    {
        if index < self.write.len() {
            Some(&self.write[index])
        } else {
            None
        }
    }

    /// Returns the number of retry listeners.
    pub fn retry_listeners(&self) -> (r: usize)
        ensures
            r == self.retry_seq().len(),
            r <= MAX_LISTENERS,
    {
        proof {
            use_type_invariant(self);
        }
        self.retry.len()
    }

    /// Borrows the retry listener registered at `index`.
    pub fn retry_listener(&self, index: usize) -> (r: Option<&T>)
        ensures
            match r {
                Some(listener) => index < self.retry_seq().len() && *listener
                    == self.retry_seq()[index as int],
                None => index >= self.retry_seq().len(),
            },
    {
        if index < self.retry.len() {
            Some(&self.retry[index])
        } else {
            None
        }
    }

    /// Returns the number of skip listeners.
    pub fn skip_listeners(&self) -> (r: usize)
        ensures
            r == self.skip_seq().len(),
            r <= MAX_LISTENERS,
    {
        proof {
            use_type_invariant(self);
        }
        self.skip.len()
    }

    /// Borrows the skip listener registered at `index`.
    pub fn skip_listener(&self, index: usize) -> (r: Option<&S>)
        ensures
            match r {
                Some(listener) => index < self.skip_seq().len() && *listener
                    == self.skip_seq()[index as int],
                None => index >= self.skip_seq().len(),
            },
    {
        if index < self.skip.len() {
            Some(&self.skip[index])
        } else {
            None
        }
    }

    /// Starts the before pass over the read listeners.
    pub fn before_read(&self) -> (r: ForwardPass)
        ensures
            r.count_view() == self.read_seq().len(),
            r.phase_view() == ItemListenerPhase::BeforeRead,
            r.results().len() == 0,
            r.ended() == (self.read_seq().len() == 0),
    {
        ForwardPass::new(self.read.len(), ItemListenerPhase::BeforeRead)
    }

    /// Starts the before pass over the process listeners.
    pub fn before_process(&self) -> (r: ForwardPass)
        ensures
            r.count_view() == self.process_seq().len(),
            r.phase_view() == ItemListenerPhase::BeforeProcess,
            r.results().len() == 0,
            r.ended() == (self.process_seq().len() == 0),
    {
        ForwardPass::new(self.process.len(), ItemListenerPhase::BeforeProcess)
    }

    /// Starts the before pass over the write listeners.
    pub fn before_write(&self) -> (r: ForwardPass)
        ensures
            r.count_view() == self.write_seq().len(),
            r.phase_view() == ItemListenerPhase::BeforeWrite,
            r.results().len() == 0,
            r.ended() == (self.write_seq().len() == 0),
    {
        ForwardPass::new(self.write.len(), ItemListenerPhase::BeforeWrite)
    }

    /// Starts the before pass over the retry listeners.
    pub fn before_retry(&self) -> (r: ForwardPass)
        ensures
            r.count_view() == self.retry_seq().len(),
            r.phase_view() == ItemListenerPhase::BeforeRetry,
            r.results().len() == 0,
            r.ended() == (self.retry_seq().len() == 0),
    {
        ForwardPass::new(self.retry.len(), ItemListenerPhase::BeforeRetry)
    }

    /// Starts the reverse pass over the first `entered` read listeners after an item was read.
    pub fn after_read(&self, entered: usize) -> (r: CompletionPass)
        ensures
            r.order() == downward(least(entered, self.read_seq().len())),
            r.phase_view() == ItemListenerPhase::AfterRead,
            r.results().len() == 0,
    {
        CompletionPass::reverse(min_of(entered, self.read.len()), ItemListenerPhase::AfterRead)
    }

    /// Starts the reverse pass over the first `entered` read listeners after a failed reader call.
    pub fn on_read_error(&self, entered: usize) -> (r: CompletionPass)
        ensures
            r.order() == downward(least(entered, self.read_seq().len())),
            r.phase_view() == ItemListenerPhase::ReadError,
            r.results().len() == 0,
    {
        CompletionPass::reverse(min_of(entered, self.read.len()), ItemListenerPhase::ReadError)
    }

    /// Starts the reverse pass over the first `entered` process listeners after the processor returned.
    pub fn after_process(&self, entered: usize) -> (r: CompletionPass)
        ensures
            r.order() == downward(least(entered, self.process_seq().len())),
            r.phase_view() == ItemListenerPhase::AfterProcess,
            r.results().len() == 0,
    {
        CompletionPass::reverse(min_of(entered, self.process.len()), ItemListenerPhase::AfterProcess)
    }

    /// Starts the reverse pass over the first `entered` process listeners after a failed processor call.
    pub fn on_process_error(&self, entered: usize) -> (r: CompletionPass)
        ensures
            r.order() == downward(least(entered, self.process_seq().len())),
            r.phase_view() == ItemListenerPhase::ProcessError,
            r.results().len() == 0,
    {
        CompletionPass::reverse(min_of(entered, self.process.len()), ItemListenerPhase::ProcessError)
    }

    /// Starts the reverse pass over the first `entered` write listeners after the batch was written.
    pub fn after_write(&self, entered: usize) -> (r: CompletionPass)
        ensures
            r.order() == downward(least(entered, self.write_seq().len())),
            r.phase_view() == ItemListenerPhase::AfterWrite,
            r.results().len() == 0,
    {
        CompletionPass::reverse(min_of(entered, self.write.len()), ItemListenerPhase::AfterWrite)
    }

    /// Starts the reverse pass over the first `entered` write listeners after a failed writer call.
    pub fn on_write_error(&self, entered: usize) -> (r: CompletionPass)
        ensures
            r.order() == downward(least(entered, self.write_seq().len())),
            r.phase_view() == ItemListenerPhase::WriteError,
            r.results().len() == 0,
    {
        CompletionPass::reverse(min_of(entered, self.write.len()), ItemListenerPhase::WriteError)
    }

    /// Starts the reverse pass over the first `entered` retry listeners after a re-invocation.
    pub fn after_retry(&self, entered: usize) -> (r: CompletionPass)
        ensures
            r.order() == downward(least(entered, self.retry_seq().len())),
            r.phase_view() == ItemListenerPhase::AfterRetry,
            r.results().len() == 0,
    {
        CompletionPass::reverse(min_of(entered, self.retry.len()), ItemListenerPhase::AfterRetry)
    }

    /// Starts the reverse pass over the first `entered` retry listeners after the last permitted re-invocation failed.
    pub fn on_retry_exhausted(&self, entered: usize) -> (r: CompletionPass)
        ensures
            r.order() == downward(least(entered, self.retry_seq().len())),
            r.phase_view() == ItemListenerPhase::RetryExhausted,
            r.results().len() == 0,
    {
        CompletionPass::reverse(min_of(entered, self.retry.len()), ItemListenerPhase::RetryExhausted)
    }

    /// Starts the registration-order pass over the skip listeners for an item
    /// skipped in its read call.
    pub fn on_skip_in_read(&self) -> (r: CompletionPass)
        ensures
            r.order() == upward(self.skip_seq().len() as usize),
            r.phase_view() == ItemListenerPhase::Skip,
            r.results().len() == 0,
    {
        CompletionPass::ordered(self.skip.len())
    }

    /// Starts the registration-order pass over the skip listeners for an item
    /// skipped in its process call.
    pub fn on_skip_in_process(&self) -> (r: CompletionPass)
        ensures
            r.order() == upward(self.skip_seq().len() as usize),
            r.phase_view() == ItemListenerPhase::Skip,
            r.results().len() == 0,
    {
        CompletionPass::ordered(self.skip.len())
    }

    /// Starts the registration-order pass over the skip listeners for an item
    /// skipped in its write call.
    pub fn on_skip_in_write(&self) -> (r: CompletionPass)
        ensures
            r.order() == upward(self.skip_seq().len() as usize),
            r.phase_view() == ItemListenerPhase::Skip,
            r.results().len() == 0,
    {
        CompletionPass::ordered(self.skip.len())
    }
}

impl<R, P, W, T, S> Default for ItemListenerSet<R, P, W, T, S> {
    fn default() -> (r: Self)
        ensures
            r.read_seq().len() == 0,
            r.process_seq().len() == 0,
            r.write_seq().len() == 0,
            r.retry_seq().len() == 0,
            r.skip_seq().len() == 0,
    {
        Self::new()
    }
}

/// A before pass without a failure entered every listener it called; one with a
/// failure entered those called before it, names the listener that failed, and
/// called no further one.
pub proof fn forward_pass_stops_at_first_failure(
    phase: ItemListenerPhase,
    results: Seq<CallResult>,
)
    requires
        results.len() <= usize::MAX,
    ensures
        ({
            let (entered, failure) = forward_outcome(phase, results);
            &&& entered <= results.len()
            &&& forall|i: int| 0 <= i < entered ==> #[trigger] results[i] is Ok
            &&& failure is None ==> entered == results.len()
            &&& failure matches Some(f) ==> entered < results.len() && results[entered as int]
                == Err::<(), ListenerFailureKind>(f.kind) && f.phase == phase
                && f.registration_index == entered
        }),
    decreases results.len(),
{
    if results.len() > 0 {
        forward_pass_stops_at_first_failure(phase, results.drop_last());
        let (entered, failure) = forward_outcome(phase, results.drop_last());
        assert forall|i: int| 0 <= i < entered implies #[trigger] results[i] is Ok by {
            assert(results.drop_last()[i] == results[i]);
        }
        if failure is Some {
            assert(results.drop_last()[entered as int] == results[entered as int]);
        }
    }
}

/// A completion pass keeps one failure for each failed call, in call order, and
/// none for a call that succeeded.
pub proof fn completion_pass_keeps_every_failure(
    phase: ItemListenerPhase,
    indices: Seq<usize>,
    results: Seq<CallResult>,
    k: int,
)
    requires
        0 <= k < results.len(),
    ensures
        results[k] matches Err(kind) ==> pass_failures(phase, indices, results).contains(
            (ItemListenerFailure { phase, registration_index: indices[k], kind }),
        ),
        pass_failures(phase, indices, results).len() <= results.len(),
        (forall|i: int| 0 <= i < results.len() ==> #[trigger] results[i] is Ok) ==> pass_failures(
            phase,
            indices,
            results,
        ).len() == 0,
    decreases results.len(),
{
    let shorter = results.drop_last();
    let all = pass_failures(phase, indices, results);
    let earlier = pass_failures(phase, indices, shorter);
    if shorter.len() > 0 {
        let j = if k < shorter.len() {
            k
        } else {
            0
        };
        completion_pass_keeps_every_failure(phase, indices, shorter, j);
    }
    if forall|i: int| 0 <= i < results.len() ==> #[trigger] results[i] is Ok {
        assert(results[results.len() - 1] is Ok);
        assert forall|i: int| 0 <= i < shorter.len() implies #[trigger] shorter[i] is Ok by {
            assert(shorter[i] == results[i]);
        }
    }
    match results[k] {
        Ok(_) => {},
        Err(kind) => {
            let f = ItemListenerFailure { phase, registration_index: indices[k], kind };
            if k < shorter.len() {
                assert(shorter[k] == results[k]);
                let q = choose|q: int| 0 <= q < earlier.len() && earlier[q] == f;
                assert(all[q] == f);
            } else {
                assert(all[all.len() - 1] == f);
            }
        },
    }
}

/// The reverse pass that follows a before pass calls exactly the listeners that
/// the before pass entered, the last entered one first.
pub proof fn reverse_pass_mirrors_entry(entered: usize, k: int)
    requires
        0 <= k < entered,
    ensures
        downward(entered).len() == entered,
        downward(entered)[k] == entered - 1 - k,
        downward(entered)[entered - 1 - k] == k,
        downward(entered).no_duplicates(),
{
}

/// The name of each callback boundary.
pub proof fn phases_have_these_names(phase: ItemListenerPhase, r: &'static str)
    requires
        call_ensures(ItemListenerPhase::as_str, (phase,), r),
    ensures
        phase is BeforeRead ==> r@ == "before_read"@,
        phase is AfterRead ==> r@ == "after_read"@,
        phase is ReadError ==> r@ == "read_error"@,
        phase is BeforeProcess ==> r@ == "before_process"@,
        phase is AfterProcess ==> r@ == "after_process"@,
        phase is ProcessError ==> r@ == "process_error"@,
        phase is BeforeWrite ==> r@ == "before_write"@,
        phase is AfterWrite ==> r@ == "after_write"@,
        phase is WriteError ==> r@ == "write_error"@,
        phase is BeforeRetry ==> r@ == "before_retry"@,
        phase is AfterRetry ==> r@ == "after_retry"@,
        phase is RetryExhausted ==> r@ == "retry_exhausted"@,
        phase is Skip ==> r@ == "skip"@,
{
}

/// No two callback boundaries have one name.
pub proof fn phases_are_told_by_their_names(a: ItemListenerPhase, b: ItemListenerPhase)
    ensures
        a.name() == b.name() <==> a == b,
{
    reveal_strlit("before_read");
    reveal_strlit("after_read");
    reveal_strlit("read_error");
    reveal_strlit("before_process");
    reveal_strlit("after_process");
    reveal_strlit("process_error");
    reveal_strlit("before_write");
    reveal_strlit("after_write");
    reveal_strlit("write_error");
    reveal_strlit("before_retry");
    reveal_strlit("after_retry");
    reveal_strlit("retry_exhausted");
    reveal_strlit("skip");
    assert("before_read"@.len() == 11 && "before_read"@[0] == 'b' && "before_read"@[9] == 'a');
    assert("after_read"@.len() == 10 && "after_read"@[0] == 'a' && "after_read"@[8] == 'a');
    assert("read_error"@.len() == 10 && "read_error"@[0] == 'r' && "read_error"@[8] == 'o');
    assert("before_process"@.len() == 14 && "before_process"@[0] == 'b' && "before_process"@[12]
        == 's');
    assert("after_process"@.len() == 13 && "after_process"@[0] == 'a' && "after_process"@[11]
        == 's');
    assert("process_error"@.len() == 13 && "process_error"@[0] == 'p' && "process_error"@[11]
        == 'o');
    assert("before_write"@.len() == 12 && "before_write"@[0] == 'b' && "before_write"@[10] == 't');
    assert("after_write"@.len() == 11 && "after_write"@[0] == 'a' && "after_write"@[9] == 't');
    assert("write_error"@.len() == 11 && "write_error"@[0] == 'w' && "write_error"@[9] == 'o');
    assert("before_retry"@.len() == 12 && "before_retry"@[0] == 'b' && "before_retry"@[10] == 'r');
    assert("after_retry"@.len() == 11 && "after_retry"@[0] == 'a' && "after_retry"@[9] == 'r');
    assert("retry_exhausted"@.len() == 15 && "retry_exhausted"@[0] == 'r'
        && "retry_exhausted"@[13] == 'e');
    assert("skip"@.len() == 4);
}

/// A listener is added behind those that its family has, up to thirty-two, and
/// touches no other family.
pub proof fn read_listeners_are_added_last<R, P, W, T, S>(
    set: ItemListenerSet<R, P, W, T, S>,
    listener: R,
    r: Result<ItemListenerSet<R, P, W, T, S>, ItemListenerError>,
)
    requires
        call_ensures(
            ItemListenerSet::<R, P, W, T, S>::with_read_listener,
            (set, listener),
            r,
        ),
        set.read_seq().len() <= 32,
    ensures
        r is Ok <==> set.read_seq().len() < 32,
        r matches Ok(after) ==> after.read_seq() == set.read_seq().push(listener)
            && after.process_seq() == set.process_seq()
            && after.write_seq() == set.write_seq()
            && after.retry_seq() == set.retry_seq()
            && after.skip_seq() == set.skip_seq(),
        r matches Err(error) ==> error == (ItemListenerError::TooManyListeners { max: 32 }),
{
}

/// The same of the process listeners.
pub proof fn process_listeners_are_added_last<R, P, W, T, S>(
    set: ItemListenerSet<R, P, W, T, S>,
    listener: P,
    r: Result<ItemListenerSet<R, P, W, T, S>, ItemListenerError>,
)
    requires
        call_ensures(
            ItemListenerSet::<R, P, W, T, S>::with_process_listener,
            (set, listener),
            r,
        ),
        set.process_seq().len() <= 32,
    ensures
        r is Ok <==> set.process_seq().len() < 32,
        r matches Ok(after) ==> after.process_seq() == set.process_seq().push(listener)
            && after.read_seq() == set.read_seq()
            && after.write_seq() == set.write_seq()
            && after.retry_seq() == set.retry_seq()
            && after.skip_seq() == set.skip_seq(),
        r matches Err(error) ==> error == (ItemListenerError::TooManyListeners { max: 32 }),
{
}

/// The same of the write listeners.
pub proof fn write_listeners_are_added_last<R, P, W, T, S>(
    set: ItemListenerSet<R, P, W, T, S>,
    listener: W,
    r: Result<ItemListenerSet<R, P, W, T, S>, ItemListenerError>,
)
    requires
        call_ensures(
            ItemListenerSet::<R, P, W, T, S>::with_write_listener,
            (set, listener),
            r,
        ),
        set.write_seq().len() <= 32,
    ensures
        r is Ok <==> set.write_seq().len() < 32,
        r matches Ok(after) ==> after.write_seq() == set.write_seq().push(listener)
            && after.read_seq() == set.read_seq()
            && after.process_seq() == set.process_seq()
            && after.retry_seq() == set.retry_seq()
            && after.skip_seq() == set.skip_seq(),
        r matches Err(error) ==> error == (ItemListenerError::TooManyListeners { max: 32 }),
{
}

/// The same of the retry listeners.
pub proof fn retry_listeners_are_added_last<R, P, W, T, S>(
    set: ItemListenerSet<R, P, W, T, S>,
    listener: T,
    r: Result<ItemListenerSet<R, P, W, T, S>, ItemListenerError>,
)
    requires
        call_ensures(
            ItemListenerSet::<R, P, W, T, S>::with_retry_listener,
            (set, listener),
            r,
        ),
        set.retry_seq().len() <= 32,
    ensures
        r is Ok <==> set.retry_seq().len() < 32,
        r matches Ok(after) ==> after.retry_seq() == set.retry_seq().push(listener)
            && after.read_seq() == set.read_seq()
            && after.process_seq() == set.process_seq()
            && after.write_seq() == set.write_seq()
            && after.skip_seq() == set.skip_seq(),
        r matches Err(error) ==> error == (ItemListenerError::TooManyListeners { max: 32 }),
{
}

/// The same of the skip listeners.
pub proof fn skip_listeners_are_added_last<R, P, W, T, S>(
    set: ItemListenerSet<R, P, W, T, S>,
    listener: S,
    r: Result<ItemListenerSet<R, P, W, T, S>, ItemListenerError>,
)
    requires
        call_ensures(
            ItemListenerSet::<R, P, W, T, S>::with_skip_listener,
            (set, listener),
            r,
        ),
        set.skip_seq().len() <= 32,
    ensures
        r is Ok <==> set.skip_seq().len() < 32,
        r matches Ok(after) ==> after.skip_seq() == set.skip_seq().push(listener)
            && after.read_seq() == set.read_seq()
            && after.process_seq() == set.process_seq()
            && after.write_seq() == set.write_seq()
            && after.retry_seq() == set.retry_seq(),
        r matches Err(error) ==> error == (ItemListenerError::TooManyListeners { max: 32 }),
{
}

/// A before pass calls the listeners of its own family and boundary, the first one
/// first.
pub proof fn before_passes_start_at_the_first_listener<R, P, W, T, S>(
    set: &ItemListenerSet<R, P, W, T, S>,
    read: ForwardPass,
    process: ForwardPass,
    write: ForwardPass,
    retry: ForwardPass,
)
    requires
        call_ensures(ItemListenerSet::<R, P, W, T, S>::before_read, (set,), read),
        call_ensures(ItemListenerSet::<R, P, W, T, S>::before_process, (set,), process),
        call_ensures(ItemListenerSet::<R, P, W, T, S>::before_write, (set,), write),
        call_ensures(ItemListenerSet::<R, P, W, T, S>::before_retry, (set,), retry),
    ensures
        read.count_view() == set.read_seq().len() && read.phase_view() is BeforeRead,
        process.count_view() == set.process_seq().len() && process.phase_view() is BeforeProcess,
        write.count_view() == set.write_seq().len() && write.phase_view() is BeforeWrite,
        retry.count_view() == set.retry_seq().len() && retry.phase_view() is BeforeRetry,
        read.results().len() == 0 && process.results().len() == 0,
        write.results().len() == 0 && retry.results().len() == 0,
{
}

/// A before pass calls one listener after the other until one fails or all have
/// been called, and reports how many completed and which one failed.
pub proof fn a_before_pass_goes_on_until_a_failure(
    pass: ForwardPass,
    result: CallResult,
    r: ForwardPass,
    next: Option<usize>,
    outcome: BeforeCallbackOutcome,
)
    requires
        call_ensures(ForwardPass::record, (pass, result), r),
        call_ensures(ForwardPass::next, (&r,), next),
        call_ensures(ForwardPass::finish, (r,), outcome),
        forall|i: int| 0 <= i < pass.results().len() ==> #[trigger] pass.results()[i] is Ok,
        pass.results().len() < usize::MAX,
    ensures
        next is Some ==> result is Ok && next == Some((pass.results().len() + 1) as usize)
            && next->0
            < pass.count_view(),
        result is Err ==> next is None && outcome.entered_view() == pass.results().len() && (
        outcome.failure_view() matches Some(failure) && failure.kind == result->Err_0
            && failure.registration_index == pass.results().len() && failure.phase
            == pass.phase_view()),
        result is Ok ==> outcome.entered_view() == pass.results().len() + 1
            && outcome.failure_view() is None,
        result is Ok && next is None ==> pass.results().len() + 1 == pass.count_view(),
        r.phase_view() == pass.phase_view() && r.count_view() == pass.count_view(),
{
    let all = r.results();
    assert(all.drop_last() =~= pass.results());
    all_entered(pass.phase_view(), pass.results());
}

proof fn all_entered(phase: ItemListenerPhase, results: Seq<CallResult>)
    requires
        forall|i: int| 0 <= i < results.len() ==> #[trigger] results[i] is Ok,
    ensures
        forward_outcome(phase, results) == (results.len(), None::<ItemListenerFailure>),
    decreases results.len(),
{
    if results.len() > 0 {
        let shorter = results.drop_last();
        assert forall|i: int| 0 <= i < shorter.len() implies #[trigger] shorter[i] is Ok by {
            assert(shorter[i] == results[i]);
        }
        all_entered(phase, shorter);
        assert(results[results.len() - 1] is Ok);
    }
}

/// A completion pass calls the entered listeners of its family, the last entered
/// one first, and never more than the family has.
pub proof fn read_completion_mirrors_entry<R, P, W, T, S>(
    set: &ItemListenerSet<R, P, W, T, S>,
    entered: usize,
    succeeded: CompletionPass,
    failed: CompletionPass,
    k: int,
)
    requires
        call_ensures(ItemListenerSet::<R, P, W, T, S>::after_read, (set, entered), succeeded),
        call_ensures(ItemListenerSet::<R, P, W, T, S>::on_read_error, (set, entered), failed),
    ensures
        succeeded.phase_view() is AfterRead && failed.phase_view() is ReadError,
        succeeded.results().len() == 0 && failed.results().len() == 0,
        succeeded.order() == failed.order(),
        entered <= set.read_seq().len() ==> succeeded.order().len() == entered,
        entered > set.read_seq().len() ==> succeeded.order().len() == set.read_seq().len(),
        0 <= k < succeeded.order().len() ==> succeeded.order()[k] == succeeded.order().len() - 1
            - k,
{
}

/// The same of the process listeners.
pub proof fn process_completion_mirrors_entry<R, P, W, T, S>(
    set: &ItemListenerSet<R, P, W, T, S>,
    entered: usize,
    succeeded: CompletionPass,
    failed: CompletionPass,
    k: int,
)
    requires
        call_ensures(ItemListenerSet::<R, P, W, T, S>::after_process, (set, entered), succeeded),
        call_ensures(ItemListenerSet::<R, P, W, T, S>::on_process_error, (set, entered), failed),
    ensures
        succeeded.phase_view() is AfterProcess && failed.phase_view() is ProcessError,
        succeeded.results().len() == 0 && failed.results().len() == 0,
        succeeded.order() == failed.order(),
        entered <= set.process_seq().len() ==> succeeded.order().len() == entered,
        entered > set.process_seq().len() ==> succeeded.order().len() == set.process_seq().len(),
        0 <= k < succeeded.order().len() ==> succeeded.order()[k] == succeeded.order().len() - 1
            - k,
{
}

/// The same of the write listeners.
pub proof fn write_completion_mirrors_entry<R, P, W, T, S>(
    set: &ItemListenerSet<R, P, W, T, S>,
    entered: usize,
    succeeded: CompletionPass,
    failed: CompletionPass,
    k: int,
)
    requires
        call_ensures(ItemListenerSet::<R, P, W, T, S>::after_write, (set, entered), succeeded),
        call_ensures(ItemListenerSet::<R, P, W, T, S>::on_write_error, (set, entered), failed),
    ensures
        succeeded.phase_view() is AfterWrite && failed.phase_view() is WriteError,
        succeeded.results().len() == 0 && failed.results().len() == 0,
        succeeded.order() == failed.order(),
        entered <= set.write_seq().len() ==> succeeded.order().len() == entered,
        entered > set.write_seq().len() ==> succeeded.order().len() == set.write_seq().len(),
        0 <= k < succeeded.order().len() ==> succeeded.order()[k] == succeeded.order().len() - 1
            - k,
{
}

/// The same of the retry listeners.
pub proof fn retry_completion_mirrors_entry<R, P, W, T, S>(
    set: &ItemListenerSet<R, P, W, T, S>,
    entered: usize,
    succeeded: CompletionPass,
    failed: CompletionPass,
    k: int,
)
    requires
        call_ensures(ItemListenerSet::<R, P, W, T, S>::after_retry, (set, entered), succeeded),
        call_ensures(ItemListenerSet::<R, P, W, T, S>::on_retry_exhausted, (set, entered), failed),
    ensures
        succeeded.phase_view() is AfterRetry && failed.phase_view() is RetryExhausted,
        succeeded.results().len() == 0 && failed.results().len() == 0,
        succeeded.order() == failed.order(),
        entered <= set.retry_seq().len() ==> succeeded.order().len() == entered,
        entered > set.retry_seq().len() ==> succeeded.order().len() == set.retry_seq().len(),
        0 <= k < succeeded.order().len() ==> succeeded.order()[k] == succeeded.order().len() - 1
            - k,
{
}

/// A skip is reported to every skip listener, in registration order, whichever
/// call the item was skipped in.
pub proof fn skips_are_reported_in_order<R, P, W, T, S>(
    set: &ItemListenerSet<R, P, W, T, S>,
    read: CompletionPass,
    process: CompletionPass,
    write: CompletionPass,
    k: int,
)
    requires
        call_ensures(ItemListenerSet::<R, P, W, T, S>::on_skip_in_read, (set,), read),
        call_ensures(ItemListenerSet::<R, P, W, T, S>::on_skip_in_process, (set,), process),
        call_ensures(ItemListenerSet::<R, P, W, T, S>::on_skip_in_write, (set,), write),
        set.skip_seq().len() <= 32,
    ensures
        read.phase_view() is Skip && process.phase_view() is Skip && write.phase_view() is Skip,
        read.results().len() == 0 && process.results().len() == 0 && write.results().len() == 0,
        read.order() == process.order() && read.order() == write.order(),
        read.order().len() == set.skip_seq().len(),
        0 <= k < read.order().len() ==> read.order()[k] == k,
{
}

/// A completion pass calls on whatever a call comes to, and keeps a failure for
/// each call that failed, in order, and for no other one.
pub proof fn a_completion_pass_goes_on_after_a_failure(
    pass: CompletionPass,
    result: CallResult,
    r: CompletionPass,
    next: Option<usize>,
    failures: Vec<ItemListenerFailure>,
)
    requires
        call_ensures(CompletionPass::record, (pass, result), r),
        call_ensures(CompletionPass::next, (&r,), next),
        call_ensures(CompletionPass::finish, (r,), failures),
    ensures
        r.order() == pass.order(),
        r.results() == pass.results().push(result),
        next is Some <==> pass.results().len() + 1 < pass.order().len(),
        next is Some ==> next->0 == pass.order()[(pass.results().len() + 1) as int],
        result is Ok ==> failures@ == pass_failures(
            pass.phase_view(),
            pass.order(),
            pass.results(),
        ),
        result matches Err(kind) ==> failures@ == pass_failures(
            pass.phase_view(),
            pass.order(),
            pass.results(),
        ).push(
            (ItemListenerFailure {
                phase: pass.phase_view(),
                registration_index: pass.order()[pass.results().len() as int],
                kind,
            }),
        ),
{
    assert(r.results().drop_last() =~= pass.results());
}

/// A pass without calls has no failures.
pub proof fn no_calls_no_failures(phase: ItemListenerPhase, indices: Seq<usize>)
    ensures
        pass_failures(phase, indices, Seq::<CallResult>::empty()).len() == 0,
{
}

/// A listener is found by its registration index, and there are as many as were
/// registered.
pub proof fn read_listeners_are_found_by_index<R, P, W, T, S>(
    set: &ItemListenerSet<R, P, W, T, S>,
    index: usize,
    r: Option<&R>,
    count: usize,
)
    requires
        call_ensures(ItemListenerSet::<R, P, W, T, S>::read_listener, (set, index), r),
        call_ensures(ItemListenerSet::<R, P, W, T, S>::read_listeners, (set,), count),
    ensures
        count == set.read_seq().len(),
        r is Some <==> index < count,
        r matches Some(listener) ==> *listener == set.read_seq()[index as int],
{
}

/// The same of the process listeners.
pub proof fn process_listeners_are_found_by_index<R, P, W, T, S>(
    set: &ItemListenerSet<R, P, W, T, S>,
    index: usize,
    r: Option<&P>,
    count: usize,
)
    requires
        call_ensures(ItemListenerSet::<R, P, W, T, S>::process_listener, (set, index), r),
        call_ensures(ItemListenerSet::<R, P, W, T, S>::process_listeners, (set,), count),
    ensures
        count == set.process_seq().len(),
        r is Some <==> index < count,
        r matches Some(listener) ==> *listener == set.process_seq()[index as int],
{
}

/// The same of the write listeners.
pub proof fn write_listeners_are_found_by_index<R, P, W, T, S>(
    set: &ItemListenerSet<R, P, W, T, S>,
    index: usize,
    r: Option<&W>,
    count: usize,
)
    requires
        call_ensures(ItemListenerSet::<R, P, W, T, S>::write_listener, (set, index), r),
        call_ensures(ItemListenerSet::<R, P, W, T, S>::write_listeners, (set,), count),
    ensures
        count == set.write_seq().len(),
        r is Some <==> index < count,
        r matches Some(listener) ==> *listener == set.write_seq()[index as int],
{
}

/// The same of the retry listeners.
pub proof fn retry_listeners_are_found_by_index<R, P, W, T, S>(
    set: &ItemListenerSet<R, P, W, T, S>,
    index: usize,
    r: Option<&T>,
    count: usize,
)
    requires
        call_ensures(ItemListenerSet::<R, P, W, T, S>::retry_listener, (set, index), r),
        call_ensures(ItemListenerSet::<R, P, W, T, S>::retry_listeners, (set,), count),
    ensures
        count == set.retry_seq().len(),
        r is Some <==> index < count,
        r matches Some(listener) ==> *listener == set.retry_seq()[index as int],
{
}

/// The same of the skip listeners.
pub proof fn skip_listeners_are_found_by_index<R, P, W, T, S>(
    set: &ItemListenerSet<R, P, W, T, S>,
    index: usize,
    r: Option<&S>,
    count: usize,
)
    requires
        call_ensures(ItemListenerSet::<R, P, W, T, S>::skip_listener, (set, index), r),
        call_ensures(ItemListenerSet::<R, P, W, T, S>::skip_listeners, (set,), count),
    ensures
        count == set.skip_seq().len(),
        r is Some <==> index < count,
        r matches Some(listener) ==> *listener == set.skip_seq()[index as int],
{
}

/// A set is empty exactly if no family has a listener, as a new one is.
pub proof fn a_new_set_is_empty<R, P, W, T, S>(
    new: ItemListenerSet<R, P, W, T, S>,
    fresh: bool,
    set: &ItemListenerSet<R, P, W, T, S>,
    r: bool,
)
    requires
        call_ensures(ItemListenerSet::<R, P, W, T, S>::new, (), new),
        call_ensures(ItemListenerSet::<R, P, W, T, S>::is_empty, (&new,), fresh),
        call_ensures(ItemListenerSet::<R, P, W, T, S>::is_empty, (set,), r),
    ensures
        fresh,
        r <==> set.read_seq().len() + set.process_seq().len() + set.write_seq().len()
            + set.retry_seq().len() + set.skip_seq().len() == 0,
{
}

/// What a full family says.
pub proof fn a_full_family_says_this(error: &ItemListenerError, r: String)
    requires
        call_ensures(ItemListenerError::to_text, (error,), r),
    ensures
        error matches ItemListenerError::TooManyListeners { max } ==> r@
            == "a listener family exceeds "@ + decimal(*max as nat) + " listeners"@,
{
}

} // verus!
