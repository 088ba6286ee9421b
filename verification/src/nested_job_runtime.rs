//! Deterministic typed parameter resolution for nested-job boundaries.
//!
//! [`NestedJobResolution`] decides, mapping by mapping, what is to be looked up,
//! read, coerced and inserted; its caller does that and hands back what came of
//! it. Failures expose only stable categories; no mapped value is retained in
//! diagnostics.

use crate::hex::{hex_bytes, hex_encode, hex_round_trip, hex_text};
use crate::text::copy_text;
use crate::tokens::NodeId;
use vstd::array::array_as_slice;
use vstd::prelude::*;
use vstd::utf8::encode_utf8;

verus! {

/// Stable, value-redacted nested-job parameter-mapping failure.
#[derive(Clone, Copy, Debug, PartialEq, Eq, Structural)]
#[non_exhaustive]
pub enum NestedJobMappingFailure {
    /// The selected durable source did not contain the declared value.
    MissingSource,
    /// The selected durable context source is unavailable from this repository.
    SourceUnavailable,
    /// A committed context used another schema identity or version.
    SourceSchemaMismatch,
    /// The selected value did not have the type required by the mapping.
    SourceTypeMismatch,
    /// The declared coercion could not represent the selected value.
    CoercionFailed,
    /// A bounded framework value could not be represented as a parameter.
    InvalidValue,
}

impl NestedJobMappingFailure {
    /// The displayed text.
    pub open spec fn text(self) -> Seq<char> {
        match self {
            NestedJobMappingFailure::MissingSource => "nested-job mapping source is missing"@,
            NestedJobMappingFailure::SourceUnavailable => {
                "nested-job durable context source is unavailable"@
            },
            NestedJobMappingFailure::SourceSchemaMismatch => {
                "nested-job mapping source schema does not match"@
            },
            NestedJobMappingFailure::SourceTypeMismatch => {
                "nested-job mapping source type does not match"@
            },
            NestedJobMappingFailure::CoercionFailed => "nested-job parameter coercion failed"@,
            NestedJobMappingFailure::InvalidValue => "nested-job mapped parameter is invalid"@,
        }
    }

    /// The displayed text.
    pub fn to_text(&self) -> (r: String)
        ensures
            r@ == self.text(),
    {
        match self {
            NestedJobMappingFailure::MissingSource => copy_text(
                "nested-job mapping source is missing",
            ),
            NestedJobMappingFailure::SourceUnavailable => copy_text(
                "nested-job durable context source is unavailable",
            ),
            NestedJobMappingFailure::SourceSchemaMismatch => copy_text(
                "nested-job mapping source schema does not match",
            ),
            NestedJobMappingFailure::SourceTypeMismatch => copy_text(
                "nested-job mapping source type does not match",
            ),
            NestedJobMappingFailure::CoercionFailed => copy_text(
                "nested-job parameter coercion failed",
            ),
            NestedJobMappingFailure::InvalidValue => copy_text(
                "nested-job mapped parameter is invalid",
            ),
        }
    }
}

/// Why a value could not be selected, coerced or defaulted.
#[derive(Clone, Copy, Debug, PartialEq, Eq, Structural)]
pub enum SelectorFailure {
    /// The durable context source is unavailable.
    SourceUnavailable,
    /// The context has another schema identity or version.
    SourceSchemaMismatch,
    /// The value has another type.
    SourceTypeMismatch,
    /// The coercion cannot represent the value.
    CoercionFailed,
    /// The value is not a valid parameter.
    InvalidValue,
}

impl SelectorFailure {
    /// The mapping failure that this failure is reported as.
    pub open spec fn reported(self) -> NestedJobMappingFailure {
        match self {
            SelectorFailure::SourceUnavailable => NestedJobMappingFailure::SourceUnavailable,
            SelectorFailure::SourceSchemaMismatch => NestedJobMappingFailure::SourceSchemaMismatch,
            SelectorFailure::SourceTypeMismatch => NestedJobMappingFailure::SourceTypeMismatch,
            SelectorFailure::CoercionFailed => NestedJobMappingFailure::CoercionFailed,
            SelectorFailure::InvalidValue => NestedJobMappingFailure::InvalidValue,
        }
    }
}

impl From<SelectorFailure> for NestedJobMappingFailure {
    fn from(error: SelectorFailure) -> (r: Self) {
        match error {
            SelectorFailure::SourceUnavailable => NestedJobMappingFailure::SourceUnavailable,
            SelectorFailure::SourceSchemaMismatch => NestedJobMappingFailure::SourceSchemaMismatch,
            SelectorFailure::SourceTypeMismatch => NestedJobMappingFailure::SourceTypeMismatch,
            SelectorFailure::CoercionFailed => NestedJobMappingFailure::CoercionFailed,
            SelectorFailure::InvalidValue => NestedJobMappingFailure::InvalidValue,
        }
    }
}

impl vstd::std_specs::convert::FromSpecImpl<SelectorFailure> for NestedJobMappingFailure {
    open spec fn obeys_from_spec() -> bool {
        true
    }

    open spec fn from_spec(error: SelectorFailure) -> Self {
        error.reported()
    }
}

/// Why a nested job's parameters could not be resolved.
#[derive(Clone, Copy, Debug, PartialEq, Eq)]
pub enum NestedJobResolutionError<E> {
    /// The repository failed.
    Repository(E),
    /// A mapping failed.
    Mapping(NestedJobMappingFailure),
}

/// A value that the framework itself supplies.
#[derive(Clone, Copy, Debug, PartialEq, Eq, Structural)]
#[non_exhaustive]
pub enum FrameworkParameterSource {
    /// The parent job instance's identifier.
    ParentJobInstanceId,
    /// The parent job execution's identifier.
    ParentJobExecutionId,
    /// The parent's attempt number.
    ParentAttempt,
    /// The revision of the parent's definition.
    ParentDefinitionRevision,
    /// The fingerprint of the parent's definition.
    ParentDefinitionFingerprint,
    /// The identifier of the nested-job node.
    NestedJobNodeId,
    /// A source that this runtime does not know.
    Unsupported,
}

/// Where a mapping takes its value from.
#[derive(Debug, PartialEq, Eq)]
#[non_exhaustive]
pub enum NestedJobParameterSource {
    /// A parameter of the parent, by name.
    ParentParameter(String),
    /// The parent job's committed context.
    ParentJobContext,
    /// The committed context of the latest step of this node.
    ParentStepContext(NodeId),
    /// A value that the framework supplies.
    Framework(FrameworkParameterSource),
    /// A source that this runtime does not know.
    Unsupported,
}

/// What happens when a source holds no value.
#[derive(Clone, Copy, Debug, PartialEq, Eq, Structural)]
#[non_exhaustive]
pub enum MissingParameterPolicy {
    /// The mapping fails.
    Fail,
    /// The default of the expected type is taken.
    TypeDefault,
    /// A policy that this runtime does not know.
    Unsupported,
}

/// What the resolution reads of one parameter mapping.
#[derive(Debug, PartialEq, Eq)]
pub struct NestedJobParameterMapping {
    /// Where the value comes from.
    pub source: NestedJobParameterSource,
    /// What happens when the source holds no value.
    pub missing_policy: MissingParameterPolicy,
}

/// The framework values of one nested-job boundary.
#[derive(Debug, PartialEq, Eq)]
pub struct ParentFacts {
    /// The parent job instance's identifier.
    pub job_instance_id: u64,
    /// The parent job execution's identifier.
    pub job_execution_id: u64,
    /// The parent's attempt number.
    pub attempt: u64,
    /// The revision of the parent's definition.
    pub definition_revision: String,
    /// The fingerprint of the parent's definition.
    pub definition_fingerprint: [u8; 32],
    /// The identifier of the nested-job node.
    pub node_id: NodeId,
}

/// A framework value that is to be made a parameter value.
#[derive(Debug, PartialEq, Eq)]
pub enum FrameworkValue {
    /// A number.
    Number(u64),
    /// A text.
    Text(String),
}

/// The content of a [`FrameworkValue`].
pub enum FrameworkValueView {
    Number(u64),
    Text(Seq<char>),
}

impl View for FrameworkValue {
    type V = FrameworkValueView;

    open spec fn view(&self) -> FrameworkValueView {
        match self {
            FrameworkValue::Number(number) => FrameworkValueView::Number(*number),
            FrameworkValue::Text(text) => FrameworkValueView::Text(text@),
        }
    }
}

/// The value of a framework source, if this runtime knows the source.
pub open spec fn framework_value(
    source: FrameworkParameterSource,
    facts: ParentFacts,
) -> Option<FrameworkValueView> {
    match source {
        FrameworkParameterSource::ParentJobInstanceId => Some(
            FrameworkValueView::Number(facts.job_instance_id),
        ),
        FrameworkParameterSource::ParentJobExecutionId => Some(
            FrameworkValueView::Number(facts.job_execution_id),
        ),
        FrameworkParameterSource::ParentAttempt => Some(FrameworkValueView::Number(facts.attempt)),
        FrameworkParameterSource::ParentDefinitionRevision => Some(
            FrameworkValueView::Text(facts.definition_revision@),
        ),
        FrameworkParameterSource::ParentDefinitionFingerprint => Some(
            FrameworkValueView::Text(hex_text(facts.definition_fingerprint@)),
        ),
        FrameworkParameterSource::NestedJobNodeId => Some(FrameworkValueView::Text(facts.node_id@)),
        FrameworkParameterSource::Unsupported => None,
    }
}

/// Computes the value of a framework source.
pub fn resolve_framework_value(source: FrameworkParameterSource, facts: &ParentFacts) -> (r: Option<
    FrameworkValue,
>)
    ensures
        match r {
            Some(value) => framework_value(source, *facts) == Some(value@),
            None => framework_value(source, *facts) is None,
        },
{
    match source {
        FrameworkParameterSource::ParentJobInstanceId => Some(
            FrameworkValue::Number(facts.job_instance_id),
        ),
        FrameworkParameterSource::ParentJobExecutionId => Some(
            FrameworkValue::Number(facts.job_execution_id),
        ),
        FrameworkParameterSource::ParentAttempt => Some(FrameworkValue::Number(facts.attempt)),
        FrameworkParameterSource::ParentDefinitionRevision => Some(
            FrameworkValue::Text(copy_text(facts.definition_revision.as_str())),
        ),
        FrameworkParameterSource::ParentDefinitionFingerprint => Some(
            FrameworkValue::Text(hex_encode(array_as_slice(&facts.definition_fingerprint))),
        ),
        FrameworkParameterSource::NestedJobNodeId => Some(
            FrameworkValue::Text(copy_text(facts.node_id.as_str())),
        ),
        FrameworkParameterSource::Unsupported => None,
    }
}

/// What to do next. `S` is the type of source values and `V` that of parameter
/// values; each action is about the current mapping.
pub enum ResolutionAction<S, V> {
    /// Look up the parent parameter that the mapping names.
    LookUpParameter,
    /// Read the parent job's committed context.
    ReadJobContext,
    /// Read the committed context of the latest step of the mapping's node.
    ReadStepContext,
    /// Select the mapping's value from the context that was read.
    SelectFromContext,
    /// Make a source value from this framework value.
    MakeValue(FrameworkValue),
    /// Coerce this source value as the mapping declares.
    Coerce(S),
    /// Make the default of the type that the mapping expects.
    MakeDefault,
    /// Insert this value under the mapping's target and role.
    Insert(V),
    /// Roll the unit of work back.
    Rollback,
}

/// How far a resolution has come.
pub struct ResolutionView<V, E> {
    /// The number of mappings resolved and inserted.
    pub index: nat,
    /// What stopped the resolution, if anything did.
    pub failure: Option<NestedJobResolutionError<E>>,
    /// The inserted values, in mapping order.
    pub inserted: Seq<V>,
}

/// The first step of finding a mapping's source, or why it cannot be found.
/// Context sources need a repository that keeps contexts durably.
pub enum SourceStep {
    LookUpParameter,
    ReadJobContext,
    ReadStepContext,
    MakeValue(FrameworkValueView),
    Fail(NestedJobMappingFailure),
}

/// How a mapping's source is found.
pub open spec fn source_step(
    mapping: NestedJobParameterMapping,
    durable_context_sources: bool,
    facts: ParentFacts,
) -> SourceStep {
    match mapping.source {
        NestedJobParameterSource::ParentParameter(_) => SourceStep::LookUpParameter,
        NestedJobParameterSource::ParentJobContext => if durable_context_sources {
            SourceStep::ReadJobContext
        } else {
            SourceStep::Fail(NestedJobMappingFailure::SourceUnavailable)
        },
        NestedJobParameterSource::ParentStepContext(_) => if durable_context_sources {
            SourceStep::ReadStepContext
        } else {
            SourceStep::Fail(NestedJobMappingFailure::SourceUnavailable)
        },
        NestedJobParameterSource::Framework(source) => match framework_value(source, facts) {
            Some(value) => SourceStep::MakeValue(value),
            None => SourceStep::Fail(NestedJobMappingFailure::InvalidValue),
        },
        NestedJobParameterSource::Unsupported => SourceStep::Fail(
            NestedJobMappingFailure::InvalidValue,
        ),
    }
}

/// An action that carries out a source step.
pub open spec fn carries_out<S, V>(action: ResolutionAction<S, V>, step: SourceStep) -> bool {
    match step {
        SourceStep::LookUpParameter => action is LookUpParameter,
        SourceStep::ReadJobContext => action is ReadJobContext,
        SourceStep::ReadStepContext => action is ReadStepContext,
        SourceStep::MakeValue(value) => action is MakeValue && action->MakeValue_0@ == value,
        SourceStep::Fail(_) => action is Rollback,
    }
}

/// The resolution of one nested job's parameter mappings.
pub struct NestedJobResolution<V, E> {
    mappings: Vec<NestedJobParameterMapping>,
    durable_context_sources: bool,
    facts: ParentFacts,
    index: usize,
    failure: Option<NestedJobResolutionError<E>>,
    // The values that were inserted.
    inserted: Ghost<Seq<V>>,
    // The value that is being inserted.
    offered: Ghost<Option<V>>,
}

impl<V, E> View for NestedJobResolution<V, E> {
    type V = ResolutionView<V, E>;

    closed spec fn view(&self) -> ResolutionView<V, E> {
        ResolutionView {
            index: self.index as nat,
            failure: self.failure,
            inserted: self.inserted@,
        }
    }
}

impl<V, E> NestedJobResolution<V, E> {
    /// The mappings, in declared order.
    pub closed spec fn mapping_seq(&self) -> Seq<NestedJobParameterMapping> {
        self.mappings@
    }

    /// Whether the repository keeps contexts durably.
    pub closed spec fn durable(&self) -> bool {
        self.durable_context_sources
    }

    /// The framework values.
    pub closed spec fn facts_view(&self) -> ParentFacts {
        self.facts
    }

    /// The value that is being inserted.
    pub closed spec fn offered_value(&self) -> Option<V> {
        self.offered@
    }

    /// Each resolved mapping has had its value inserted.
    pub closed spec fn wf(&self) -> bool {
        &&& self.index <= self.mappings@.len()
        &&& self.inserted@.len() == self.index
        &&& self.failure is Some ==> self.index < self.mappings@.len()
    }

    /// The resolution is at a mapping, and nothing has failed.
    pub open spec fn at_mapping(&self) -> bool {
        self.wf() && self@.failure is None && self@.index < self.mapping_seq().len()
    }

    /// The parts that no call changes.
    pub open spec fn same_boundary(&self, other: &Self) -> bool {
        &&& self.mapping_seq() == other.mapping_seq()
        &&& self.durable() == other.durable()
        &&& self.facts_view() == other.facts_view()
    }

    /// The resolution stopped with a failure and goes on to roll back.
    pub open spec fn fails_with<S>(
        &self,
        before: ResolutionView<V, E>,
        action: ResolutionAction<S, V>,
        failure: NestedJobResolutionError<E>,
    ) -> bool {
        &&& self@ == (ResolutionView { failure: Some(failure), ..before })
        &&& action is Rollback
    }

    /// What follows from what a mapping's source holds: a value is coerced, and
    /// a missing one is handled as the mapping's policy says.
    pub open spec fn source_settles<S>(
        &self,
        before: ResolutionView<V, E>,
        source: Option<S>,
        action: ResolutionAction<S, V>,
    ) -> bool {
        let mapping = self.mapping_seq()[before.index as int];
        match source {
            Some(value) => self@ == before && action == ResolutionAction::<S, V>::Coerce(value),
            None => match mapping.missing_policy {
                MissingParameterPolicy::Fail => self.fails_with(
                    before,
                    action,
                    NestedJobResolutionError::Mapping(NestedJobMappingFailure::MissingSource),
                ),
                MissingParameterPolicy::TypeDefault => self@ == before && action is MakeDefault,
                MissingParameterPolicy::Unsupported => self.fails_with(
                    before,
                    action,
                    NestedJobResolutionError::Mapping(NestedJobMappingFailure::InvalidValue),
                ),
            },
        }
    }

    /// What the resolution does at its current mapping, or that it rolls back
    /// once nothing is left to resolve.
    pub open spec fn proceeds<S>(
        &self,
        before: ResolutionView<V, E>,
        action: ResolutionAction<S, V>,
    ) -> bool {
        if before.index == self.mapping_seq().len() {
            self@ == before && action is Rollback
        } else {
            let step = source_step(
                self.mapping_seq()[before.index as int],
                self.durable(),
                self.facts_view(),
            );
            &&& carries_out(action, step)
            &&& match step {
                SourceStep::Fail(failure) => self.fails_with(
                    before,
                    action,
                    NestedJobResolutionError::Mapping(failure),
                ),
                _ => self@ == before,
            }
        }
    }

    /// Starts a resolution.
    pub fn new(
        mappings: Vec<NestedJobParameterMapping>,
        durable_context_sources: bool,
        facts: ParentFacts,
    ) -> (r: Self)
        ensures
            r.wf(),
            r.mapping_seq() == mappings@,
            r.durable() == durable_context_sources,
            r.facts_view() == facts,
            r@ == (ResolutionView::<V, E> { index: 0, failure: None, inserted: Seq::empty() }),
    {
        NestedJobResolution {
            mappings,
            durable_context_sources,
            facts,
            index: 0,
            failure: None,
            inserted: Ghost(Seq::empty()),
            offered: Ghost(None),
        }
    }

    /// The number of the current mapping.
    pub fn current(&self) -> (r: usize)
        ensures
            r == self@.index,
    {
        self.index
    }

    fn fail<S>(&mut self, failure: NestedJobResolutionError<E>) -> (r: ResolutionAction<S, V>)
        requires
            old(self).at_mapping(),
        ensures
            final(self).wf(),
            final(self).same_boundary(old(self)),
            final(self).fails_with(old(self)@, r, failure),
    {
        self.failure = Some(failure);
        ResolutionAction::Rollback
    }

    /// Says what to do at the current mapping.
    pub fn resolve_source<S>(&mut self) -> (r: ResolutionAction<S, V>)
        requires
            old(self).wf(),
            old(self)@.failure is None,
        ensures
            final(self).wf(),
            final(self).same_boundary(old(self)),
            final(self).proceeds(old(self)@, r),
    {
        if self.index == self.mappings.len() {
            return ResolutionAction::Rollback;
        }
        let mapping: &NestedJobParameterMapping = &self.mappings[self.index];
        match &mapping.source {
            NestedJobParameterSource::ParentParameter(_) => ResolutionAction::LookUpParameter,
            NestedJobParameterSource::ParentJobContext => {
                if self.durable_context_sources {
                    ResolutionAction::ReadJobContext
                } else {
                    self.fail(
                        NestedJobResolutionError::Mapping(
                            NestedJobMappingFailure::SourceUnavailable,
                        ),
                    )
                }
            },
            NestedJobParameterSource::ParentStepContext(_) => {
                if self.durable_context_sources {
                    ResolutionAction::ReadStepContext
                } else {
                    self.fail(
                        NestedJobResolutionError::Mapping(
                            NestedJobMappingFailure::SourceUnavailable,
                        ),
                    )
                }
            },
            NestedJobParameterSource::Framework(source) => {
                match resolve_framework_value(*source, &self.facts) {
                    Some(value) => ResolutionAction::MakeValue(value),
                    None => self.fail(
                        NestedJobResolutionError::Mapping(NestedJobMappingFailure::InvalidValue),
                    ),
                }
            },
            NestedJobParameterSource::Unsupported => self.fail(
                NestedJobResolutionError::Mapping(NestedJobMappingFailure::InvalidValue),
            ),
        }
    }

    /// Takes what the mapping's source holds.
    pub fn source_resolved<S>(&mut self, source: Option<S>) -> (r: ResolutionAction<S, V>)
        requires
            old(self).at_mapping(),
        ensures
            final(self).wf(),
            final(self).same_boundary(old(self)),
            final(self).source_settles(old(self)@, source, r),
    {
        match source {
            Some(value) => ResolutionAction::Coerce(value),
            None => match self.mappings[self.index].missing_policy {
                MissingParameterPolicy::Fail => self.fail(
                    NestedJobResolutionError::Mapping(NestedJobMappingFailure::MissingSource),
                ),
                MissingParameterPolicy::TypeDefault => ResolutionAction::MakeDefault,
                MissingParameterPolicy::Unsupported => self.fail(
                    NestedJobResolutionError::Mapping(NestedJobMappingFailure::InvalidValue),
                ),
            },
        }
    }

    /// Takes what came of reading a context: whether there is one.
    pub fn context_read<S>(&mut self, result: Result<bool, E>) -> (r: ResolutionAction<S, V>)
        requires
            old(self).at_mapping(),
        ensures
            final(self).wf(),
            final(self).same_boundary(old(self)),
            match result {
                Err(error) => final(self).fails_with(
                    old(self)@,
                    r,
                    NestedJobResolutionError::Repository(error),
                ),
                Ok(true) => final(self)@ == old(self)@ && r is SelectFromContext,
                Ok(false) => final(self).source_settles(old(self)@, None::<S>, r),
            },
    {
        match result {
            Err(error) => self.fail(NestedJobResolutionError::Repository(error)),
            Ok(present) => if present {
                ResolutionAction::SelectFromContext
            } else {
                self.source_resolved(None)
            },
        }
    }

    /// Takes what came of selecting the mapping's value from a context.
    pub fn context_selected<S>(&mut self, result: Result<Option<S>, SelectorFailure>) -> (r:
        ResolutionAction<S, V>)
        requires
            old(self).at_mapping(),
        ensures
            final(self).wf(),
            final(self).same_boundary(old(self)),
            match result {
                Err(error) => final(self).fails_with(
                    old(self)@,
                    r,
                    NestedJobResolutionError::Mapping(error.reported()),
                ),
                Ok(source) => final(self).source_settles(old(self)@, source, r),
            },
    {
        match result {
            Err(error) => self.fail(
                NestedJobResolutionError::Mapping(NestedJobMappingFailure::from(error)),
            ),
            Ok(source) => self.source_resolved(source),
        }
    }

    /// Takes what came of making a source value from a framework value, which
    /// fails where the value is not a valid parameter.
    pub fn value_made<S>(&mut self, made: Option<S>) -> (r: ResolutionAction<S, V>)
        requires
            old(self).at_mapping(),
        ensures
            final(self).wf(),
            final(self).same_boundary(old(self)),
            match made {
                None => final(self).fails_with(
                    old(self)@,
                    r,
                    NestedJobResolutionError::Mapping(NestedJobMappingFailure::InvalidValue),
                ),
                Some(source) => final(self).source_settles(old(self)@, Some(source), r),
            },
    {
        match made {
            None => self.fail(
                NestedJobResolutionError::Mapping(NestedJobMappingFailure::InvalidValue),
            ),
            Some(source) => self.source_resolved(Some(source)),
        }
    }

    /// Takes what came of coercing the source value, or of making the default.
    pub fn value_ready<S>(&mut self, result: Result<V, SelectorFailure>) -> (r: ResolutionAction<
        S,
        V,
    >)
        requires
            old(self).at_mapping(),
        ensures
            final(self).wf(),
            final(self).same_boundary(old(self)),
            match result {
                Err(error) => final(self).fails_with(
                    old(self)@,
                    r,
                    NestedJobResolutionError::Mapping(error.reported()),
                ),
                Ok(value) => {
                    &&& final(self)@ == old(self)@
                    &&& final(self).offered_value() == Some(value)
                    &&& r == ResolutionAction::<S, V>::Insert(value)
                },
            },
    {
        match result {
            Err(error) => self.fail(
                NestedJobResolutionError::Mapping(NestedJobMappingFailure::from(error)),
            ),
            Ok(value) => {
                self.offered = Ghost(Some(value));
                ResolutionAction::Insert(value)
            },
        }
    }

    /// Takes whether the offered value was inserted, and goes on with the next
    /// mapping.
    pub fn value_inserted<S>(&mut self, accepted: bool) -> (r: ResolutionAction<S, V>)
        requires
            old(self).at_mapping(),
            old(self).offered_value() is Some,
        ensures
            final(self).wf(),
            final(self).same_boundary(old(self)),
            if accepted {
                final(self).proceeds(
                    (ResolutionView {
                        index: old(self)@.index + 1,
                        inserted: old(self)@.inserted.push(old(self).offered_value()->0),
                        ..old(self)@
                    }),
                    r,
                )
            } else {
                final(self).fails_with(
                    old(self)@,
                    r,
                    NestedJobResolutionError::Mapping(NestedJobMappingFailure::InvalidValue),
                )
            },
    {
        if !accepted {
            return self.fail(
                NestedJobResolutionError::Mapping(NestedJobMappingFailure::InvalidValue),
            );
        }
        let count: usize = self.mappings.len();
        self.inserted = Ghost(self.inserted@.push(self.offered@->0));
        self.index = self.index + 1;
        assert(self.index <= count);
        self.resolve_source()
    }

    /// Ends the resolution after the rollback. A failed rollback takes
    /// precedence over what stopped the resolution.
    pub fn rolled_back(self, result: Result<(), E>) -> (r: Result<(), NestedJobResolutionError<E>>)
        requires
            self.wf(),
            self@.failure is Some || self@.index == self.mapping_seq().len(),
        ensures
            match result {
                Err(error) => r == Err::<(), NestedJobResolutionError<E>>(
                    NestedJobResolutionError::Repository(error),
                ),
                Ok(_) => match self@.failure {
                    Some(failure) => r == Err::<(), NestedJobResolutionError<E>>(failure),
                    None => r is Ok && self@.inserted.len() == self.mapping_seq().len(),
                },
            },
    {
        match result {
            Err(error) => Err(NestedJobResolutionError::Repository(error)),
            Ok(_) => match self.failure {
                Some(failure) => Err(failure),
                None => Ok(()),
            },
        }
    }
}

/// A resolution succeeds only with one inserted value per mapping, and one that
/// was stopped has inserted a value for each mapping before the one that stopped
/// it and for no other.
pub proof fn every_mapping_is_inserted_once<V, E>(resolution: NestedJobResolution<V, E>)
    requires
        resolution.wf(),
    ensures
        resolution@.inserted.len() == resolution@.index,
        resolution@.index <= resolution.mapping_seq().len(),
        resolution@.failure is Some ==> resolution@.index < resolution.mapping_seq().len(),
{
}

/// Whatever a mapping's source is, a value that the source does not hold is a
/// failure under the policy `Fail`: the resolution rolls back, and ends with the
/// source missing. Only under `TypeDefault` is a default asked for, and a policy
/// that is not known is an invalid value. Nothing is inserted either way.
pub proof fn a_missing_source_follows_the_policy<S, V, E>(
    after: NestedJobResolution<V, E>,
    before: ResolutionView<V, E>,
    action: ResolutionAction<S, V>,
)
    requires
        after.source_settles(before, None::<S>, action),
    ensures
        ({
            let policy = after.mapping_seq()[before.index as int].missing_policy;
            &&& policy == MissingParameterPolicy::Fail ==> action is Rollback && after@.failure
                == Some(
                NestedJobResolutionError::<E>::Mapping(NestedJobMappingFailure::MissingSource),
            )
            &&& policy == MissingParameterPolicy::TypeDefault ==> action is MakeDefault
                && after@.failure == before.failure
            &&& policy == MissingParameterPolicy::Unsupported ==> action is Rollback
                && after@.failure == Some(
                NestedJobResolutionError::<E>::Mapping(NestedJobMappingFailure::InvalidValue),
            )
            &&& action is MakeDefault <==> policy == MissingParameterPolicy::TypeDefault
            &&& after@.index == before.index
            &&& after@.inserted == before.inserted
        }),
{
}

/// A value that a source holds is coerced, whatever the policy for missing ones
/// says, and nothing else changes.
pub proof fn a_present_source_is_coerced<S, V, E>(
    after: NestedJobResolution<V, E>,
    before: ResolutionView<V, E>,
    value: S,
    action: ResolutionAction<S, V>,
)
    requires
        after.source_settles(before, Some(value), action),
    ensures
        action is Coerce && action->Coerce_0 == value,
        after@ == before,
{
}

/// A mapping is looked up where its source says: a parent parameter always, a
/// context only in a repository that keeps contexts durably, and a source that is
/// not known never. Only context sources depend on the repository.
pub proof fn each_source_is_looked_up_in_its_place(
    mapping: NestedJobParameterMapping,
    durable: bool,
    facts: ParentFacts,
)
    ensures
        ({
            let step = source_step(mapping, durable, facts);
            &&& step is LookUpParameter <==> mapping.source is ParentParameter
            &&& step is ReadJobContext <==> mapping.source is ParentJobContext && durable
            &&& step is ReadStepContext <==> mapping.source is ParentStepContext && durable
            &&& step is MakeValue ==> mapping.source is Framework
            &&& !durable && (mapping.source is ParentJobContext
                || mapping.source is ParentStepContext) ==> step == SourceStep::Fail(
                NestedJobMappingFailure::SourceUnavailable,
            )
            &&& mapping.source is Unsupported ==> step == SourceStep::Fail(
                NestedJobMappingFailure::InvalidValue,
            )
            &&& !(mapping.source is ParentJobContext || mapping.source is ParentStepContext)
                ==> step == source_step(mapping, !durable, facts)
            &&& mapping.source == NestedJobParameterSource::Framework(
                FrameworkParameterSource::Unsupported,
            ) ==> step == SourceStep::Fail(NestedJobMappingFailure::InvalidValue)
            &&& mapping.source is Framework && mapping.source->Framework_0
                != FrameworkParameterSource::Unsupported ==> step is MakeValue
        }),
{
}

/// Each framework source gives the fact it names: numbers as they are, texts as
/// they are, and the fingerprint in lower-case hexadecimal digits that spell it.
pub proof fn framework_sources_name_their_facts(facts: ParentFacts)
    ensures
        framework_value(FrameworkParameterSource::ParentJobInstanceId, facts) == Some(
            FrameworkValueView::Number(facts.job_instance_id),
        ),
        framework_value(FrameworkParameterSource::ParentJobExecutionId, facts) == Some(
            FrameworkValueView::Number(facts.job_execution_id),
        ),
        framework_value(FrameworkParameterSource::ParentAttempt, facts) == Some(
            FrameworkValueView::Number(facts.attempt),
        ),
        framework_value(FrameworkParameterSource::ParentDefinitionRevision, facts) == Some(
            FrameworkValueView::Text(facts.definition_revision@),
        ),
        framework_value(FrameworkParameterSource::NestedJobNodeId, facts) == Some(
            FrameworkValueView::Text(facts.node_id@),
        ),
        framework_value(
            FrameworkParameterSource::ParentDefinitionFingerprint,
            facts,
        ) matches Some(FrameworkValueView::Text(text)) && text.len() == 64 && hex_bytes(
            encode_utf8(text),
        ) == facts.definition_fingerprint@,
{
    hex_round_trip(facts.definition_fingerprint@);
}

/// A selector's failure is reported as the mapping failure of the same meaning,
/// and never as a missing source.
pub proof fn selector_failures_keep_their_meaning(a: SelectorFailure, b: SelectorFailure)
    ensures
        a.reported() == b.reported() ==> a == b,
        a.reported() != NestedJobMappingFailure::MissingSource,
        a == SelectorFailure::SourceUnavailable <==> a.reported()
            == NestedJobMappingFailure::SourceUnavailable,
        a == SelectorFailure::SourceSchemaMismatch <==> a.reported()
            == NestedJobMappingFailure::SourceSchemaMismatch,
        a == SelectorFailure::SourceTypeMismatch <==> a.reported()
            == NestedJobMappingFailure::SourceTypeMismatch,
        a == SelectorFailure::CoercionFailed <==> a.reported()
            == NestedJobMappingFailure::CoercionFailed,
        a == SelectorFailure::InvalidValue <==> a.reported()
            == NestedJobMappingFailure::InvalidValue,
{
}

/// At a mapping the resolution either acts on it, with nothing changed, or stops
/// with a failure and rolls back; behind the last mapping it rolls back without
/// one.
pub proof fn a_resolution_rolls_back_at_a_failure_or_the_end<S, V, E>(
    after: NestedJobResolution<V, E>,
    before: ResolutionView<V, E>,
    action: ResolutionAction<S, V>,
)
    requires
        after.proceeds(before, action),
        before.failure is None,
        before.index <= after.mapping_seq().len(),
    ensures
        after@.index == before.index,
        after@.inserted == before.inserted,
        action is Rollback <==> (before.index == after.mapping_seq().len()
            || after@.failure is Some),
        before.index == after.mapping_seq().len() ==> after@.failure is None,
        !(action is Insert || action is Coerce || action is MakeDefault
            || action is SelectFromContext),
{
}

/// A context that does not exist holds no value: the mapping's policy decides, as
/// for every other source. A failed read stops the resolution with the
/// repository's error.
pub proof fn an_absent_context_is_a_missing_source<S, V, E>(
    resolution: &mut NestedJobResolution<V, E>,
    result: Result<bool, E>,
    action: ResolutionAction<S, V>,
)
    requires
        call_ensures(NestedJobResolution::<V, E>::context_read::<S>, (resolution, result), action),
        old(resolution)@.failure is None,
    ensures
        ({
            let policy = old(resolution).mapping_seq()[old(resolution)@.index as int].missing_policy;
            &&& result == Ok::<bool, E>(false) && policy == MissingParameterPolicy::Fail
                ==> action is Rollback && final(resolution)@.failure == Some(
                NestedJobResolutionError::<E>::Mapping(NestedJobMappingFailure::MissingSource),
            )
            &&& action is MakeDefault <==> result == Ok::<bool, E>(false) && policy
                == MissingParameterPolicy::TypeDefault
            &&& action is SelectFromContext <==> result == Ok::<bool, E>(true)
            &&& result matches Err(error) ==> action is Rollback && final(resolution)@.failure
                == Some(NestedJobResolutionError::<E>::Repository(error))
            &&& final(resolution)@.index == old(resolution)@.index
            &&& final(resolution)@.inserted == old(resolution)@.inserted
            &&& final(resolution)@.failure is Some <==> action is Rollback
        }),
{
}

/// The policy decides on a missing value alike for every kind of source.
pub proof fn every_source_is_missed_alike<S, V, E>(
    resolution: &mut NestedJobResolution<V, E>,
    source: Option<S>,
    action: ResolutionAction<S, V>,
)
    requires
        call_ensures(
            NestedJobResolution::<V, E>::source_resolved::<S>,
            (resolution, source),
            action,
        ),
        old(resolution)@.failure is None,
    ensures
        ({
            let policy = old(resolution).mapping_seq()[old(resolution)@.index as int].missing_policy;
            &&& source matches Some(value) ==> action is Coerce && action->Coerce_0 == value
            &&& source is None && policy == MissingParameterPolicy::Fail ==> action is Rollback
                && final(resolution)@.failure == Some(
                NestedJobResolutionError::<E>::Mapping(NestedJobMappingFailure::MissingSource),
            )
            &&& action is MakeDefault <==> source is None && policy
                == MissingParameterPolicy::TypeDefault
            &&& final(resolution)@.failure is Some <==> action is Rollback
            &&& final(resolution)@.inserted == old(resolution)@.inserted
            &&& final(resolution)@.index == old(resolution)@.index
        }),
{
}

/// What was selected from a context is coerced or missed as any other source; a
/// selector's failure stops the resolution with the failure of its meaning.
pub proof fn a_selection_is_a_source<S, V, E>(
    resolution: &mut NestedJobResolution<V, E>,
    result: Result<Option<S>, SelectorFailure>,
    action: ResolutionAction<S, V>,
)
    requires
        call_ensures(
            NestedJobResolution::<V, E>::context_selected::<S>,
            (resolution, result),
            action,
        ),
        old(resolution)@.failure is None,
    ensures
        ({
            let policy = old(resolution).mapping_seq()[old(resolution)@.index as int].missing_policy;
            &&& result matches Ok(Some(value)) ==> action is Coerce && action->Coerce_0 == value
            &&& (result is Ok && result->Ok_0 is None && policy == MissingParameterPolicy::Fail)
                ==> action is Rollback && final(resolution)@.failure == Some(
                NestedJobResolutionError::<E>::Mapping(NestedJobMappingFailure::MissingSource),
            )
            &&& action is MakeDefault <==> (result is Ok && result->Ok_0 is None && policy
                == MissingParameterPolicy::TypeDefault)
            &&& result matches Err(error) ==> action is Rollback && final(resolution)@.failure
                == Some(NestedJobResolutionError::<E>::Mapping(error.reported()))
            &&& final(resolution)@.inserted == old(resolution)@.inserted
            &&& final(resolution)@.index == old(resolution)@.index
        }),
{
}

/// A framework value that is no valid parameter stops the resolution; one that is
/// goes on to its coercion.
pub proof fn a_framework_value_must_be_valid<S, V, E>(
    resolution: &mut NestedJobResolution<V, E>,
    made: Option<S>,
    action: ResolutionAction<S, V>,
)
    requires
        call_ensures(NestedJobResolution::<V, E>::value_made::<S>, (resolution, made), action),
        old(resolution)@.failure is None,
    ensures
        made matches Some(value) ==> action is Coerce && action->Coerce_0 == value
            && final(resolution)@ == old(resolution)@,
        made is None ==> action is Rollback && final(resolution)@.failure == Some(
            NestedJobResolutionError::<E>::Mapping(NestedJobMappingFailure::InvalidValue),
        ) && final(resolution)@.inserted == old(resolution)@.inserted,
{
}

/// A coerced or default value is inserted as it is. Once inserted it counts, and
/// the resolution is at the next mapping; a refused one stops the resolution as
/// invalid, and does not count.
pub proof fn a_ready_value_is_inserted_once<S, V, E>(
    resolution: &mut NestedJobResolution<V, E>,
    result: Result<V, SelectorFailure>,
    action: ResolutionAction<S, V>,
)
    requires
        call_ensures(NestedJobResolution::<V, E>::value_ready::<S>, (resolution, result), action),
        old(resolution)@.failure is None,
    ensures
        result matches Ok(value) ==> action is Insert && action->Insert_0 == value
            && final(resolution).offered_value() == Some(value) && final(resolution)@
                == old(resolution)@,
        result matches Err(error) ==> action is Rollback && final(resolution)@.failure == Some(
            NestedJobResolutionError::<E>::Mapping(error.reported()),
        ) && final(resolution)@.inserted == old(resolution)@.inserted,
{
}

/// See [`a_ready_value_is_inserted_once`].
pub proof fn an_inserted_value_counts<S, V, E>(
    resolution: &mut NestedJobResolution<V, E>,
    accepted: bool,
    action: ResolutionAction<S, V>,
)
    requires
        call_ensures(
            NestedJobResolution::<V, E>::value_inserted::<S>,
            (resolution, accepted),
            action,
        ),
        old(resolution).at_mapping(),
        old(resolution).offered_value() is Some,
    ensures
        accepted ==> final(resolution)@.index == old(resolution)@.index + 1
            && final(resolution)@.inserted
                == old(resolution)@.inserted.push(old(resolution).offered_value()->0),
        accepted && old(resolution)@.index + 1 == old(resolution).mapping_seq().len()
            ==> action is Rollback && final(resolution)@.failure is None,
        !accepted ==> action is Rollback && final(resolution)@.failure == Some(
            NestedJobResolutionError::<E>::Mapping(NestedJobMappingFailure::InvalidValue),
        ) && final(resolution)@.inserted == old(resolution)@.inserted && final(resolution)@.index
            == old(resolution)@.index,
        final(resolution).mapping_seq() == old(resolution).mapping_seq(),
{
}

/// A failed rollback takes precedence over what stopped the resolution, which
/// takes precedence over success.
pub proof fn a_failed_rollback_takes_precedence<V, E>(
    resolution: NestedJobResolution<V, E>,
    result: Result<(), E>,
    r: Result<(), NestedJobResolutionError<E>>,
)
    requires
        call_ensures(NestedJobResolution::<V, E>::rolled_back, (resolution, result), r),
    ensures
        result matches Err(error) ==> r == Err::<(), NestedJobResolutionError<E>>(
            NestedJobResolutionError::Repository(error),
        ),
        result is Ok && resolution@.failure is Some ==> r == Err::<
            (),
            NestedJobResolutionError<E>,
        >(resolution@.failure->0),
        r is Ok <==> result is Ok && resolution@.failure is None,
{
}

/// A resolution asks for each mapping's source in its place: a parameter is looked
/// up, a durable context read if the boundary has one, and a framework fact made
/// into a value. What can give no value stops it.
pub proof fn a_mapping_is_resolved_at_its_source<S, V, E>(
    resolution: &mut NestedJobResolution<V, E>,
    action: ResolutionAction<S, V>,
)
    requires
        call_ensures(NestedJobResolution::<V, E>::resolve_source::<S>, (resolution,), action),
        old(resolution)@.failure is None,
        old(resolution)@.index < old(resolution).mapping_seq().len(),
    ensures
        ({
            let source = old(resolution).mapping_seq()[old(resolution)@.index as int].source;
            let durable = old(resolution).durable();
            &&& source is ParentParameter <==> action is LookUpParameter
            &&& source is ParentJobContext && durable <==> action is ReadJobContext
            &&& source is ParentStepContext && durable <==> action is ReadStepContext
            &&& (source is ParentJobContext || source is ParentStepContext) && !durable
                ==> final(resolution)@.failure == Some(
                NestedJobResolutionError::<E>::Mapping(NestedJobMappingFailure::SourceUnavailable),
            )
            &&& source is Unsupported ==> final(resolution)@.failure == Some(
                NestedJobResolutionError::<E>::Mapping(NestedJobMappingFailure::InvalidValue),
            )
            &&& final(resolution)@.failure is Some <==> action is Rollback
            &&& final(resolution)@.index == old(resolution)@.index
            &&& final(resolution)@.inserted == old(resolution)@.inserted
            &&& final(resolution).mapping_seq() == old(resolution).mapping_seq()
        }),
{
}

/// Once nothing is left to resolve, a resolution rolls back without a failure.
pub proof fn a_finished_resolution_rolls_back<S, V, E>(
    resolution: &mut NestedJobResolution<V, E>,
    action: ResolutionAction<S, V>,
)
    requires
        call_ensures(NestedJobResolution::<V, E>::resolve_source::<S>, (resolution,), action),
        old(resolution)@.failure is None,
        old(resolution)@.index == old(resolution).mapping_seq().len(),
    ensures
        action is Rollback,
        final(resolution)@ == old(resolution)@,
{
}

/// What each mapping failure says.
pub proof fn mapping_failures_say_this(failure: &NestedJobMappingFailure, r: String)
    requires
        call_ensures(NestedJobMappingFailure::to_text, (failure,), r),
    ensures
        failure is MissingSource ==> r@ == "nested-job mapping source is missing"@,
        failure is SourceUnavailable ==> r@ == "nested-job durable context source is unavailable"@,
        failure is SourceSchemaMismatch ==> r@
            == "nested-job mapping source schema does not match"@,
        failure is SourceTypeMismatch ==> r@ == "nested-job mapping source type does not match"@,
        failure is CoercionFailed ==> r@ == "nested-job parameter coercion failed"@,
        failure is InvalidValue ==> r@ == "nested-job mapped parameter is invalid"@,
{
}

/// A framework source gives the parent's own fact: numbers as they are, texts as
/// they are, and the fingerprint in hexadecimal.
pub proof fn framework_values_are_the_parents_own(
    source: FrameworkParameterSource,
    facts: &ParentFacts,
    r: Option<FrameworkValue>,
)
    requires
        call_ensures(resolve_framework_value, (source, facts), r),
    ensures
        source is Unsupported <==> r is None,
        source is ParentJobInstanceId ==> r == Some(FrameworkValue::Number(facts.job_instance_id)),
        source is ParentJobExecutionId ==> r == Some(
            FrameworkValue::Number(facts.job_execution_id),
        ),
        source is ParentAttempt ==> r == Some(FrameworkValue::Number(facts.attempt)),
        source is ParentDefinitionRevision ==> (r matches Some(FrameworkValue::Text(text)) && text@
            == facts.definition_revision@),
        source is ParentDefinitionFingerprint ==> (r matches Some(FrameworkValue::Text(text))
            && text@ == hex_text(facts.definition_fingerprint@)),
        source is NestedJobNodeId ==> (r matches Some(FrameworkValue::Text(text)) && text@
            == facts.node_id@),
{
    if r is Some {
        assert(framework_value(source, *facts) == Some(r->0@));
    }
}

/// A resolution starts at its first mapping, with nothing inserted and no failure.
pub proof fn a_resolution_starts_at_its_first_mapping<V, E>(
    mappings: Vec<NestedJobParameterMapping>,
    durable: bool,
    facts: ParentFacts,
    r: NestedJobResolution<V, E>,
    current: usize,
)
    requires
        call_ensures(NestedJobResolution::<V, E>::new, (mappings, durable, facts), r),
        call_ensures(NestedJobResolution::<V, E>::current, (&r,), current),
    ensures
        current == 0,
        r.mapping_seq() == mappings@,
        r.durable() == durable,
        r.facts_view() == facts,
        r@.failure is None && r@.inserted.len() == 0,
{
}

} // verus!
