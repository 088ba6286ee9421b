//! The values of the stream open, update and close contract.

use crate::runtime::{FailureCategory, StopToken};
use crate::text::copy_text;
use vstd::prelude::*;

verus! {

/// Borrowed call state for opening a stream, with the last committed state of
/// type `E` for the stream's namespace.
#[derive(Debug)]
pub struct StreamOpenContext<'a, E> {
    inherited: Option<&'a E>,
    stop: &'a StopToken,
}

impl<'a, E> Clone for StreamOpenContext<'a, E> {
    fn clone(&self) -> (r: Self)
        ensures
            r == *self,
    {
        *self
    }
}

impl<'a, E> Copy for StreamOpenContext<'a, E> {

}

impl<'a, E> StreamOpenContext<'a, E> {
    /// The last committed state.
    pub closed spec fn inherited_view(self) -> Option<E> {
        match self.inherited {
            Some(state) => Some(*state),
            None => None,
        }
    }

    /// The stop token.
    pub closed spec fn stop_view(self) -> StopToken {
        *self.stop
    }

    /// Constructs a stream-open call scope. No inherited state means initial
    /// execution, not corruption.
    pub fn new(inherited: Option<&'a E>, stop: &'a StopToken) -> (r: Self)
        ensures
            r.inherited_view() == (match inherited {
                Some(state) => Some(*state),
                None => None,
            }),
            r.stop_view() == *stop,
    {
        StreamOpenContext { inherited, stop }
    }

    /// Borrows the last committed state for this stream's namespace, if any.
    pub fn inherited_state(self) -> (r: Option<&'a E>)
        ensures
            match r {
                Some(state) => self.inherited_view() == Some(*state),
                None => self.inherited_view() is None,
            },
    {
        self.inherited
    }

    /// Borrows the cooperative stop token.
    pub fn stop_token(self) -> (r: &'a StopToken)
        ensures
            *r == self.stop_view(),
    {
        self.stop
    }
}

/// One stream-open call outcome.
#[derive(Clone, Copy, Debug, PartialEq, Eq, Structural)]
#[non_exhaustive]
pub enum StreamOpenOutcome {
    /// A last committed envelope was restored.
    Restored,
    /// No committed state existed: initial execution, not corruption.
    Initial,
}

/// Borrowed call state for preparing a stream's candidate state.
#[derive(Clone, Copy, Debug)]
pub struct StreamUpdateContext<'a> {
    stop: &'a StopToken,
}

impl<'a> StreamUpdateContext<'a> {
    /// The stop token.
    pub closed spec fn stop_view(self) -> StopToken {
        *self.stop
    }

    /// Constructs a stream-update call scope.
    pub fn new(stop: &'a StopToken) -> (r: Self)
        ensures
            r.stop_view() == *stop,
    {
        StreamUpdateContext { stop }
    }

    /// Borrows the cooperative stop token.
    pub fn stop_token(self) -> (r: &'a StopToken)
        ensures
            *r == self.stop_view(),
    {
        self.stop
    }
}

/// The coarse, non-sensitive runtime outcome a stream observes at close.
#[derive(Clone, Copy, Debug, PartialEq, Eq, Structural)]
#[non_exhaustive]
pub enum StreamRuntimeOutcome {
    /// The step attempt's work committed durably.
    Committed,
    /// The step attempt ended in a known, typed failure.
    Failed,
    /// Cooperative stop ended the step attempt.
    Stopped,
    /// The step attempt's commit outcome is unknown.
    Unknown,
    /// A nested resource this stream owns reached its own logical boundary (a
    /// delegate reader exhausted, or a delegate writer rolled over) while the
    /// enclosing step attempt's terminal outcome is not yet known. It is no
    /// proof of a durable commit.
    ResourceBoundary,
}

/// Borrowed call state for closing a stream.
#[derive(Clone, Copy, Debug)]
pub struct StreamCloseContext<'a> {
    stop: &'a StopToken,
    outcome: StreamRuntimeOutcome,
}

impl<'a> StreamCloseContext<'a> {
    /// The stop token.
    pub closed spec fn stop_view(self) -> StopToken {
        *self.stop
    }

    /// The coarse outcome.
    pub closed spec fn outcome_view(self) -> StreamRuntimeOutcome {
        self.outcome
    }

    /// Constructs a stream-close call scope.
    pub fn new(stop: &'a StopToken, outcome: StreamRuntimeOutcome) -> (r: Self)
        ensures
            r.stop_view() == *stop,
            r.outcome_view() == outcome,
    {
        StreamCloseContext { stop, outcome }
    }

    /// Borrows the cooperative stop token.
    pub fn stop_token(self) -> (r: &'a StopToken)
        ensures
            *r == self.stop_view(),
    {
        self.stop
    }

    /// Returns the step attempt's coarse terminal outcome.
    pub fn outcome(self) -> (r: StreamRuntimeOutcome)
        ensures
            r == self.outcome_view(),
    {
        self.outcome
    }
}

/// One stream-close call outcome.
#[derive(Clone, Copy, Debug, PartialEq, Eq, Structural)]
#[non_exhaustive]
pub enum StreamCloseOutcome {
    /// The stream closed.
    Closed,
}

/// A stream that could not be opened.
///
/// Only a stable category is kept: payload, text and source of the underlying
/// failure are dropped.
#[derive(Clone, Copy, Debug, PartialEq, Eq, Structural)]
pub struct StreamOpenError {
    /// The stable category.
    pub category: FailureCategory,
}

impl StreamOpenError {
    /// Constructs a value-redacted user-component failure.
    pub fn new() -> (r: Self)
        ensures
            r.category == FailureCategory::UserComponent,
    {
        StreamOpenError { category: FailureCategory::UserComponent }
    }

    /// Constructs a failure that declares its own stable category.
    pub fn with_category(category: FailureCategory) -> (r: Self)
        ensures
            r.category == category,
    {
        StreamOpenError { category }
    }

    /// Classifies an arbitrary user error without retaining its payload or
    /// text.
    pub fn from_error<E>(error: E) -> (r: Self)
        ensures
            r.category == FailureCategory::UserComponent,
    {
        Self::new()
    }

    /// Returns the stable category.
    pub fn category(self) -> (r: FailureCategory)
        ensures
            r == self.category,
    {
        self.category
    }

    /// The displayed text.
    pub fn to_text(&self) -> (r: String)
        ensures
            r@ == "item stream open failed"@,
    {
        copy_text("item stream open failed")
    }
}

impl Default for StreamOpenError {
    fn default() -> (r: Self)
        ensures
            r.category == FailureCategory::UserComponent,
    {
        Self::new()
    }
}

/// A stream whose candidate state could not be prepared.
///
/// Only a stable category is kept: payload, text and source of the underlying
/// failure are dropped.
#[derive(Clone, Copy, Debug, PartialEq, Eq, Structural)]
pub struct StreamUpdateError {
    /// The stable category.
    pub category: FailureCategory,
}

impl StreamUpdateError {
    /// Constructs a value-redacted user-component failure.
    pub fn new() -> (r: Self)
        ensures
            r.category == FailureCategory::UserComponent,
    {
        StreamUpdateError { category: FailureCategory::UserComponent }
    }

    /// Constructs a failure that declares its own stable category.
    pub fn with_category(category: FailureCategory) -> (r: Self)
        ensures
            r.category == category,
    {
        StreamUpdateError { category }
    }

    /// Classifies an arbitrary user error without retaining its payload or
    /// text.
    pub fn from_error<E>(error: E) -> (r: Self)
        ensures
            r.category == FailureCategory::UserComponent,
    {
        Self::new()
    }

    /// Returns the stable category.
    pub fn category(self) -> (r: FailureCategory)
        ensures
            r == self.category,
    {
        self.category
    }

    /// The displayed text.
    pub fn to_text(&self) -> (r: String)
        ensures
            r@ == "item stream update failed"@,
    {
        copy_text("item stream update failed")
    }
}

impl Default for StreamUpdateError {
    fn default() -> (r: Self)
        ensures
            r.category == FailureCategory::UserComponent,
    {
        Self::new()
    }
}

/// A stream that could not be closed.
///
/// Only a stable category is kept: payload, text and source of the underlying
/// failure are dropped.
#[derive(Clone, Copy, Debug, PartialEq, Eq, Structural)]
pub struct StreamCloseError {
    /// The stable category.
    pub category: FailureCategory,
}

impl StreamCloseError {
    /// Constructs a value-redacted user-component failure.
    pub fn new() -> (r: Self)
        ensures
            r.category == FailureCategory::UserComponent,
    {
        StreamCloseError { category: FailureCategory::UserComponent }
    }

    /// Constructs a failure that declares its own stable category.
    pub fn with_category(category: FailureCategory) -> (r: Self)
        ensures
            r.category == category,
    {
        StreamCloseError { category }
    }

    /// Classifies an arbitrary user error without retaining its payload or
    /// text.
    pub fn from_error<E>(error: E) -> (r: Self)
        ensures
            r.category == FailureCategory::UserComponent,
    {
        Self::new()
    }

    /// Returns the stable category.
    pub fn category(self) -> (r: FailureCategory)
        ensures
            r == self.category,
    {
        self.category
    }

    /// The displayed text.
    pub fn to_text(&self) -> (r: String)
        ensures
            r@ == "item stream close failed"@,
    {
        copy_text("item stream close failed")
    }
}

impl Default for StreamCloseError {
    fn default() -> (r: Self)
        ensures
            r.category == FailureCategory::UserComponent,
    {
        Self::new()
    }
}

/// A stream failure of which nothing else is known is the component's own, and one
/// that declares its category keeps it.
pub proof fn stream_failures_keep_their_category(
    category: FailureCategory,
    open: StreamOpenError,
    update: StreamUpdateError,
    close: StreamCloseError,
    new_open: StreamOpenError,
    new_update: StreamUpdateError,
    new_close: StreamCloseError,
)
    requires
        call_ensures(StreamOpenError::with_category, (category,), open),
        call_ensures(StreamUpdateError::with_category, (category,), update),
        call_ensures(StreamCloseError::with_category, (category,), close),
        call_ensures(StreamOpenError::new, (), new_open),
        call_ensures(StreamUpdateError::new, (), new_update),
        call_ensures(StreamCloseError::new, (), new_close),
    ensures
        open.category == category,
        update.category == category,
        close.category == category,
        new_open.category == FailureCategory::UserComponent,
        new_update.category == FailureCategory::UserComponent,
        new_close.category == FailureCategory::UserComponent,
{
}

/// A call's scope hands out what it was made with.
pub proof fn scopes_hand_out_what_they_hold<'a, E>(
    inherited: Option<&'a E>,
    stop: &'a StopToken,
    scope: StreamOpenContext<'a, E>,
    state: Option<&'a E>,
    token: &'a StopToken,
    outcome: StreamRuntimeOutcome,
    closing: StreamCloseContext<'a>,
    seen: StreamRuntimeOutcome,
)
    requires
        call_ensures(StreamOpenContext::<'a, E>::new, (inherited, stop), scope),
        call_ensures(StreamOpenContext::<'a, E>::inherited_state, (scope,), state),
        call_ensures(StreamOpenContext::<'a, E>::stop_token, (scope,), token),
        call_ensures(StreamCloseContext::<'a>::new, (stop, outcome), closing),
        call_ensures(StreamCloseContext::<'a>::outcome, (closing,), seen),
    ensures
        inherited is Some <==> state is Some,
        inherited is Some ==> *state->0 == *inherited->0,
        *token == *stop,
        seen == outcome,
{
}

/// What each stream failure says; a failure made of another error says no more.
pub proof fn stream_failures_say_this<E>(
    cause: E,
    open: StreamOpenError,
    o: String,
    update: StreamUpdateError,
    u: String,
    close: StreamCloseError,
    c: String,
)
    requires
        call_ensures(StreamOpenError::from_error::<E>, (cause,), open),
        call_ensures(StreamOpenError::to_text, (&open,), o),
        call_ensures(StreamUpdateError::from_error::<E>, (cause,), update),
        call_ensures(StreamUpdateError::to_text, (&update,), u),
        call_ensures(StreamCloseError::from_error::<E>, (cause,), close),
        call_ensures(StreamCloseError::to_text, (&close,), c),
    ensures
        o@ == "item stream open failed"@,
        u@ == "item stream update failed"@,
        c@ == "item stream close failed"@,
        open.category == FailureCategory::UserComponent,
        update.category == FailureCategory::UserComponent,
        close.category == FailureCategory::UserComponent,
{
}

} // verus!
