//! Job and step listener values with redacted failure diagnostics.

use crate::runtime::StopToken;
use crate::text::copy_text;
use vstd::prelude::*;

verus! {

/// Borrowed execution data supplied to job and step listeners: the execution
/// correlation, the launch parameters and the stop token.
#[derive(Debug)]
pub struct ListenerContext<'a, C, P> {
    correlation: &'a C,
    parameters: &'a P,
    stop: &'a StopToken,
}

impl<'a, C, P> Clone for ListenerContext<'a, C, P> {
    fn clone(&self) -> (r: Self)
        ensures
            r == *self,
    {
        *self
    }
}

impl<'a, C, P> Copy for ListenerContext<'a, C, P> {

}

impl<'a, C, P> ListenerContext<'a, C, P> {
    /// The execution correlation.
    pub closed spec fn correlation_view(&self) -> C {
        *self.correlation
    }

    /// The launch parameters.
    pub closed spec fn parameters_view(&self) -> P {
        *self.parameters
    }

    /// The stop token.
    pub closed spec fn stop_view(&self) -> StopToken {
        *self.stop
    }

    /// Constructs the borrowed callback scope.
    pub fn new(correlation: &'a C, parameters: &'a P, stop: &'a StopToken) -> (r: Self)
        ensures
            r.correlation_view() == *correlation,
            r.parameters_view() == *parameters,
            r.stop_view() == *stop,
    {
        ListenerContext { correlation, parameters, stop }
    }

    /// Borrows the complete bounded execution correlation.
    pub fn correlation(&self) -> (r: &'a C)
        ensures
            *r == self.correlation_view(),
    {
        self.correlation
    }

    /// Borrows launch parameters for authorized application use. They are never
    /// copied into listener diagnostics.
    pub fn parameters(&self) -> (r: &'a P)
        ensures
            *r == self.parameters_view(),
    {
        self.parameters
    }

    /// Borrows the cooperative stop token.
    pub fn stop_token(&self) -> (r: &'a StopToken)
        ensures
            *r == self.stop_view(),
    {
        self.stop
    }
}

/// A value-redacted listener failure.
#[derive(Clone, Copy, Debug, PartialEq, Eq, Structural)]
pub struct ListenerError;

impl ListenerError {
    /// Constructs a classified listener failure.
    pub fn new() -> (r: Self)
        ensures
            r == ListenerError,
    {
        ListenerError
    }

    /// Classifies an arbitrary user error without retaining its payload.
    pub fn from_error<E>(error: E) -> (r: Self)
        ensures
            r == ListenerError,
    {
        ListenerError
    }

    /// The displayed text.
    pub fn to_text(&self) -> (r: String)
        ensures
            r@ == "the execution listener failed"@,
    {
        copy_text("the execution listener failed")
    }
}

impl Default for ListenerError {
    fn default() -> (r: Self)
        ensures
            r == ListenerError,
    {
        ListenerError
    }
}

/// The listener callback boundary where a failure occurred.
#[derive(Clone, Copy, Debug, PartialEq, Eq, PartialOrd, Ord, Hash, Structural)]
#[non_exhaustive]
pub enum ListenerPhase {
    /// A job before-listener.
    BeforeJob,
    /// A step before-listener.
    BeforeStep,
    /// A step after-listener.
    AfterStep,
    /// A job after-listener.
    AfterJob,
}

/// Stable classification of a listener boundary failure.
#[derive(Clone, Copy, Debug, PartialEq, Eq, PartialOrd, Ord, Hash, Structural)]
#[non_exhaustive]
pub enum ListenerFailureKind {
    /// The listener returned [`ListenerError`].
    Error,
    /// The listener panicked before or while its future was polled.
    Panic,
}

/// One value-redacted listener failure retained by a launch report, with the
/// redacted summary of type `S` that the report gives it.
#[derive(Clone, Copy, Debug, PartialEq, Eq)]
pub struct ListenerFailure<S> {
    /// The callback phase.
    pub phase: ListenerPhase,
    /// The zero-based listener registration index.
    pub registration_index: usize,
    /// Whether the boundary returned an error or panicked.
    pub kind: ListenerFailureKind,
    /// The redacted failure category and opaque identifier.
    pub summary: S,
}

impl<S: Copy> ListenerFailure<S> {
    /// Records one listener failure.
    pub fn new(
        phase: ListenerPhase,
        registration_index: usize,
        kind: ListenerFailureKind,
        summary: S,
    ) -> (r: Self)
        ensures
            r == (ListenerFailure { phase, registration_index, kind, summary }),
    {
        ListenerFailure { phase, registration_index, kind, summary }
    }

    /// Returns the callback phase.
    pub fn phase(self) -> (r: ListenerPhase)
        ensures
            r == self.phase,
    {
        self.phase
    }

    /// Returns the zero-based listener registration index.
    pub fn registration_index(self) -> (r: usize)
        ensures
            r == self.registration_index,
    {
        self.registration_index
    }

    /// Returns whether the boundary returned an error or panicked.
    pub fn kind(self) -> (r: ListenerFailureKind)
        ensures
            r == self.kind,
    {
        self.kind
    }

    /// Returns the redacted failure category and opaque identifier.
    pub fn summary(self) -> (r: S)
        ensures
            r == self.summary,
    {
        self.summary
    }
}

/// A listener failure is kept as it was recorded.
pub proof fn a_listener_failure_is_kept<S: Copy>(
    phase: ListenerPhase,
    index: usize,
    kind: ListenerFailureKind,
    summary: S,
    failure: ListenerFailure<S>,
    p: ListenerPhase,
    i: usize,
    k: ListenerFailureKind,
    s: S,
)
    requires
        call_ensures(ListenerFailure::<S>::new, (phase, index, kind, summary), failure),
        call_ensures(ListenerFailure::<S>::phase, (failure,), p),
        call_ensures(ListenerFailure::<S>::registration_index, (failure,), i),
        call_ensures(ListenerFailure::<S>::kind, (failure,), k),
        call_ensures(ListenerFailure::<S>::summary, (failure,), s),
    ensures
        p == phase && i == index && k == kind && s == summary,
{
}

} // verus!
