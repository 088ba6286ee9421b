//! Listener passes, execution listeners, streams, nested-job parameters and
//! partition rows.

use oxide_batch::hex::{hex_decode, hex_encode, to_array_32};
use oxide_batch::item_listener::{
    CallResult, CompletionPass, ForwardPass, ItemListenerContext, ItemListenerError,
    ItemListenerFailure, ItemListenerPhase, ItemListenerSet, MAX_LISTENERS,
};
use oxide_batch::item_stream::{
    StreamCloseContext, StreamCloseError, StreamOpenContext, StreamOpenError, StreamRuntimeOutcome,
    StreamUpdateContext, StreamUpdateError,
};
use oxide_batch::listener::{
    ListenerContext, ListenerError, ListenerFailure, ListenerFailureKind, ListenerPhase,
};
use oxide_batch::nested_job_runtime::{
    resolve_framework_value, FrameworkParameterSource, FrameworkValue, MissingParameterPolicy,
    NestedJobMappingFailure, NestedJobParameterMapping, NestedJobParameterSource,
    NestedJobResolution, NestedJobResolutionError, ParentFacts, ResolutionAction, SelectorFailure,
};
use oxide_batch::partition::{
    ExecutionContext, ExitStatus, PartitionKey, PartitionMutationError, PartitionPlanEntry,
    PartitionResult, PartitionValueError, StepPartition,
};
use oxide_batch::runtime::{
    BatchStatus, ExecutionCounts, ExecutionVersion, FailureCategory, StepExecutionId,
    StepPartitionId, StopToken,
};
use oxide_batch::tokens::{ExitCode, NodeId};

const GO: StopToken = StopToken { requested: false };

type Listeners = ItemListenerSet<u8, u8, u8, u8, u8>;

const FAILED: CallResult = Err(ListenerFailureKind::Error);
const PANICKED: CallResult = Err(ListenerFailureKind::Panic);

/// Runs a before pass and records the listeners it calls.
fn forward(mut pass: ForwardPass, results: &[CallResult]) -> (Vec<usize>, ForwardPass) {
    let mut called = Vec::new();
    while let Some(index) = pass.next() {
        called.push(index);
        pass = pass.record(results[index]);
    }
    (called, pass)
}

/// Runs a completion pass and records the listeners it calls.
fn completion(
    mut pass: CompletionPass,
    results: &[CallResult],
) -> (Vec<usize>, Vec<ItemListenerFailure>) {
    let mut called = Vec::new();
    while let Some(index) = pass.next() {
        called.push(index);
        pass = pass.record(results[index]);
    }
    (called, pass.finish())
}

fn three() -> Listeners {
    let mut set = Listeners::new();
    for listener in 0..3 {
        set = set
            .with_read_listener(listener)
            .unwrap()
            .with_process_listener(listener)
            .unwrap()
            .with_write_listener(listener)
            .unwrap()
            .with_retry_listener(listener)
            .unwrap()
            .with_skip_listener(listener)
            .unwrap();
    }
    set
}

#[test]
fn a_before_pass_stops_at_the_first_failure() {
    let set = three();
    let (called, pass) = forward(set.before_read(), &[Ok(()), FAILED, Ok(())]);
    assert_eq!(called, [0, 1]);
    let outcome = pass.finish();
    assert!(!outcome.is_ok());
    assert_eq!(outcome.entered(), 1);
    let failure = outcome.failure().unwrap();
    assert_eq!(
        failure,
        ItemListenerFailure::new(ItemListenerPhase::BeforeRead, 1, ListenerFailureKind::Error)
    );
    let (called, pass) = forward(set.before_write(), &[Ok(()); 3]);
    assert_eq!(called, [0, 1, 2]);
    assert!(pass.finish().is_ok());
    assert_eq!(pass_phase(set.before_process()), ItemListenerPhase::BeforeProcess);
    assert_eq!(pass_phase(set.before_retry()), ItemListenerPhase::BeforeRetry);
}

fn pass_phase(pass: ForwardPass) -> ItemListenerPhase {
    let (_, pass) = forward(pass, &[PANICKED; 3]);
    pass.finish().failure().unwrap().phase()
}

#[test]
fn a_completion_pass_mirrors_the_entered_listeners_and_keeps_every_failure() {
    let set = three();
    let (called, failures) = completion(set.after_read(2), &[PANICKED, FAILED, Ok(())]);
    assert_eq!(called, [1, 0]);
    assert_eq!(
        failures,
        [
            ItemListenerFailure::new(ItemListenerPhase::AfterRead, 1, ListenerFailureKind::Error),
            ItemListenerFailure::new(ItemListenerPhase::AfterRead, 0, ListenerFailureKind::Panic),
        ]
    );
    let all_fail = [FAILED; 3];
    for (pass, phase, reversed) in [
        (set.on_read_error(3), ItemListenerPhase::ReadError, true),
        (set.after_process(3), ItemListenerPhase::AfterProcess, true),
        (set.on_process_error(3), ItemListenerPhase::ProcessError, true),
        (set.after_write(3), ItemListenerPhase::AfterWrite, true),
        (set.on_write_error(3), ItemListenerPhase::WriteError, true),
        (set.after_retry(3), ItemListenerPhase::AfterRetry, true),
        (set.on_retry_exhausted(3), ItemListenerPhase::RetryExhausted, true),
        (set.on_skip_in_read(), ItemListenerPhase::Skip, false),
        (set.on_skip_in_process(), ItemListenerPhase::Skip, false),
        (set.on_skip_in_write(), ItemListenerPhase::Skip, false),
    ] {
        let (called, failures) = completion(pass, &all_fail);
        let mut expected = vec![0, 1, 2];
        if reversed {
            expected.reverse();
        }
        assert_eq!(called, expected, "{phase:?}");
        assert_eq!(failures.len(), 3);
        assert!(failures.iter().all(|failure| failure.phase() == phase));
        assert_eq!(failures[0].registration_index(), expected[0]);
        assert_eq!(failures[0].kind(), ListenerFailureKind::Error);
    }
}

#[test]
fn listener_families_are_bounded() {
    assert!(Listeners::default().is_empty());
    let mut set = Listeners::new();
    for listener in 0..MAX_LISTENERS {
        set = set.with_skip_listener(listener as u8).unwrap();
    }
    assert!(!set.is_empty());
    assert_eq!((set.skip_listeners(), set.read_listeners()), (MAX_LISTENERS, 0));
    assert_eq!(set.skip_listener(3), Some(&3));
    assert_eq!(set.skip_listener(MAX_LISTENERS), None);
    let error = set.with_skip_listener(9).err().unwrap();
    assert_eq!(error, ItemListenerError::TooManyListeners { max: MAX_LISTENERS });
    assert_eq!(error.to_text(), "a listener family exceeds 32 listeners");
    assert_eq!(ItemListenerPhase::RetryExhausted.as_str(), "retry_exhausted");
}

#[test]
fn contexts_and_failures_hand_back_what_they_were_given() {
    let context = ItemListenerContext::new(&7u8, 5, &GO);
    assert_eq!((*context.correlation(), context.chunk_sequence()), (7, 5));
    assert!(!context.stop_token().is_stop_requested());
    let context = ListenerContext::new(&1u8, &2u8, &GO);
    assert_eq!((*context.correlation(), *context.parameters()), (1, 2));
    assert_eq!(ListenerError::new().to_text(), "the execution listener failed");
    assert_eq!(ListenerError::from_error("secret"), ListenerError::default());
    let failure =
        ListenerFailure::new(ListenerPhase::AfterStep, 4, ListenerFailureKind::Panic, 'x');
    assert_eq!(failure.phase(), ListenerPhase::AfterStep);
    assert_eq!((failure.registration_index(), failure.summary()), (4, 'x'));
    assert_eq!(failure.kind(), ListenerFailureKind::Panic);

    let inherited = 3u8;
    let open = StreamOpenContext::new(Some(&inherited), &GO);
    assert_eq!(open.inherited_state(), Some(&3));
    assert!(!StreamUpdateContext::new(&GO).stop_token().is_stop_requested());
    let close = StreamCloseContext::new(&GO, StreamRuntimeOutcome::Stopped);
    assert_eq!(close.outcome(), StreamRuntimeOutcome::Stopped);
    assert_eq!(StreamOpenError::from_error("secret"), StreamOpenError::new());
    assert_eq!(StreamOpenError::new().to_text(), "item stream open failed");
    assert_eq!(StreamUpdateError::default().to_text(), "item stream update failed");
    assert_eq!(StreamCloseError::new().to_text(), "item stream close failed");
    assert_eq!(
        StreamCloseError::with_category(FailureCategory::Timeout).category(),
        FailureCategory::Timeout
    );
}

fn facts() -> ParentFacts {
    ParentFacts {
        job_instance_id: 1,
        job_execution_id: 2,
        attempt: 3,
        definition_revision: "r4".to_owned(),
        definition_fingerprint: [0xab; 32],
        node_id: NodeId::new("n5"),
    }
}

fn mapping(
    source: NestedJobParameterSource,
    missing_policy: MissingParameterPolicy,
) -> NestedJobParameterMapping {
    NestedJobParameterMapping { source, missing_policy }
}

#[test]
fn framework_values_come_from_the_parent() {
    let value = |source| resolve_framework_value(source, &facts());
    let number = |source, expected| {
        assert!(matches!(value(source), Some(FrameworkValue::Number(found)) if found == expected));
    };
    let text = |source, expected: &str| {
        assert!(matches!(value(source), Some(FrameworkValue::Text(found)) if found == expected));
    };
    number(FrameworkParameterSource::ParentJobInstanceId, 1);
    number(FrameworkParameterSource::ParentJobExecutionId, 2);
    number(FrameworkParameterSource::ParentAttempt, 3);
    text(FrameworkParameterSource::ParentDefinitionRevision, "r4");
    text(FrameworkParameterSource::ParentDefinitionFingerprint, &"ab".repeat(32));
    text(FrameworkParameterSource::NestedJobNodeId, "n5");
    assert!(value(FrameworkParameterSource::Unsupported).is_none());
}

type Resolution = NestedJobResolution<String, &'static str>;
type Action = ResolutionAction<u32, String>;

#[test]
fn every_mapping_is_resolved_and_inserted_in_order() {
    let mut resolution = Resolution::new(
        vec![
            mapping(
                NestedJobParameterSource::ParentParameter("p".to_owned()),
                MissingParameterPolicy::Fail,
            ),
            mapping(NestedJobParameterSource::ParentJobContext, MissingParameterPolicy::TypeDefault),
            mapping(
                NestedJobParameterSource::Framework(FrameworkParameterSource::ParentAttempt),
                MissingParameterPolicy::Fail,
            ),
        ],
        true,
        facts(),
    );
    let action: Action = resolution.resolve_source();
    assert!(matches!(action, ResolutionAction::LookUpParameter));
    let action: Action = resolution.source_resolved(Some(8));
    assert!(matches!(action, ResolutionAction::Coerce(8)));
    let action: Action = resolution.value_ready(Ok("eight".to_owned()));
    assert!(matches!(action, ResolutionAction::Insert(value) if value == "eight"));
    let action: Action = resolution.value_inserted(true);
    assert!(matches!(action, ResolutionAction::ReadJobContext));
    let action: Action = resolution.context_read(Ok(true));
    assert!(matches!(action, ResolutionAction::SelectFromContext));
    let action: Action = resolution.context_selected(Ok(None));
    assert!(matches!(action, ResolutionAction::MakeDefault));
    let _: Action = resolution.value_ready(Ok(String::new()));
    let action: Action = resolution.value_inserted(true);
    assert!(matches!(action, ResolutionAction::MakeValue(FrameworkValue::Number(3))));
    assert_eq!(resolution.current(), 2);
    let action: Action = resolution.value_made(Some(3));
    assert!(matches!(action, ResolutionAction::Coerce(3)));
    let _: Action = resolution.value_ready(Ok("three".to_owned()));
    let action: Action = resolution.value_inserted(true);
    assert!(matches!(action, ResolutionAction::Rollback));
    assert!(matches!(resolution.rolled_back(Ok(())), Ok(())));
}

/// The failure that a resolution of one mapping ends with.
fn failure(
    source: NestedJobParameterSource,
    policy: MissingParameterPolicy,
    durable: bool,
    drive: impl Fn(&mut Resolution) -> Action,
) -> NestedJobMappingFailure {
    let mut resolution = Resolution::new(vec![mapping(source, policy)], durable, facts());
    let action = drive(&mut resolution);
    assert!(matches!(action, ResolutionAction::Rollback));
    match resolution.rolled_back(Ok(())) {
        Err(NestedJobResolutionError::Mapping(failure)) => failure,
        _ => panic!("no mapping failure"),
    }
}

#[test]
fn every_failure_of_a_mapping_is_rolled_back() {
    let parameter = || NestedJobParameterSource::ParentParameter("p".to_owned());
    let step = || NestedJobParameterSource::ParentStepContext(NodeId::new("s"));
    assert_eq!(
        failure(parameter(), MissingParameterPolicy::Fail, true, |resolution| {
            let _: Action = resolution.resolve_source();
            resolution.source_resolved(None)
        }),
        NestedJobMappingFailure::MissingSource
    );
    assert_eq!(
        failure(parameter(), MissingParameterPolicy::Unsupported, true, |resolution| {
            let _: Action = resolution.resolve_source();
            resolution.source_resolved(None)
        }),
        NestedJobMappingFailure::InvalidValue
    );
    assert_eq!(
        failure(step(), MissingParameterPolicy::Fail, false, |resolution| {
            resolution.resolve_source()
        }),
        NestedJobMappingFailure::SourceUnavailable
    );
    assert_eq!(
        failure(step(), MissingParameterPolicy::Fail, true, |resolution| {
            let action: Action = resolution.resolve_source();
            assert!(matches!(action, ResolutionAction::ReadStepContext));
            let _: Action = resolution.context_read(Ok(true));
            resolution.context_selected(Err(SelectorFailure::SourceSchemaMismatch))
        }),
        NestedJobMappingFailure::SourceSchemaMismatch
    );
    assert_eq!(
        failure(parameter(), MissingParameterPolicy::Fail, true, |resolution| {
            let _: Action = resolution.resolve_source();
            let _: Action = resolution.source_resolved(Some(1));
            resolution.value_ready(Err(SelectorFailure::CoercionFailed))
        }),
        NestedJobMappingFailure::CoercionFailed
    );
    assert_eq!(
        failure(parameter(), MissingParameterPolicy::Fail, true, |resolution| {
            let _: Action = resolution.resolve_source();
            let _: Action = resolution.source_resolved(Some(1));
            let _: Action = resolution.value_ready(Ok("x".to_owned()));
            resolution.value_inserted(false)
        }),
        NestedJobMappingFailure::InvalidValue
    );
    assert_eq!(
        failure(
            NestedJobParameterSource::Unsupported,
            MissingParameterPolicy::Fail,
            true,
            |resolution| resolution.resolve_source(),
        ),
        NestedJobMappingFailure::InvalidValue
    );
    for (selector, failed, text) in [
        (
            SelectorFailure::SourceUnavailable,
            NestedJobMappingFailure::SourceUnavailable,
            "nested-job durable context source is unavailable",
        ),
        (
            SelectorFailure::SourceTypeMismatch,
            NestedJobMappingFailure::SourceTypeMismatch,
            "nested-job mapping source type does not match",
        ),
        (
            SelectorFailure::InvalidValue,
            NestedJobMappingFailure::InvalidValue,
            "nested-job mapped parameter is invalid",
        ),
    ] {
        assert_eq!(NestedJobMappingFailure::from(selector), failed);
        assert_eq!(failed.to_text(), text);
    }
}

#[test]
fn a_failed_rollback_takes_precedence() {
    let mut resolution = Resolution::new(
        vec![mapping(NestedJobParameterSource::ParentJobContext, MissingParameterPolicy::Fail)],
        true,
        facts(),
    );
    let _: Action = resolution.resolve_source();
    let action: Action = resolution.context_read(Err("read"));
    assert!(matches!(action, ResolutionAction::Rollback));
    assert!(matches!(
        resolution.rolled_back(Err("rollback")),
        Err(NestedJobResolutionError::Repository("rollback"))
    ));
}

fn row() -> StepPartition {
    let Ok(key) = PartitionKey::new("k") else { panic!("a valid key") };
    let entry = PartitionPlanEntry::new(key, ExecutionContext { encoded: b"{}".to_vec() });
    let Ok(entry) = entry else { panic!("a valid entry") };
    assert!(entry.key().as_str() == "k" && entry.context().encoded_len() == 2);
    StepPartition::starting(
        StepPartitionId { number: 1 },
        StepExecutionId { number: 2 },
        3,
        entry,
        ExecutionVersion::new(1),
    )
}

#[test]
fn a_partition_is_assigned_once_and_completed_once() {
    let mut row = row();
    assert_eq!(row.status(), BatchStatus::Starting);
    assert_eq!((row.ordinal(), row.version().get()), (3, 1));
    let worker = StepExecutionId { number: 9 };
    assert!(matches!(
        row.assign(ExecutionVersion::new(5), worker),
        Err(PartitionMutationError::StaleVersion { .. })
    ));
    row.assign(ExecutionVersion::new(1), worker).unwrap();
    assert_eq!(row.worker_step_execution_id(), Some(worker));
    assert_eq!(row.status(), BatchStatus::Started);
    assert_eq!(row.version().get(), 2);
    assert_eq!(
        row.assign(ExecutionVersion::new(2), worker),
        Err(PartitionMutationError::InvalidState { status: BatchStatus::Started })
    );
    let counts = ExecutionCounts { read: 4, ..ExecutionCounts::default() };
    let status = ExitStatus::with_code(ExitCode::new("DONE"));
    let result = PartitionResult::new(BatchStatus::Completed, status, counts).unwrap();
    assert_eq!((result.status(), result.counts().read), (BatchStatus::Completed, 4));
    assert!(row.complete(ExecutionVersion::new(1), &result).is_err());
    row.complete(ExecutionVersion::new(2), &result).unwrap();
    assert_eq!(row.status(), BatchStatus::Completed);
    assert_eq!(row.counts().read, 4);
    assert!(row.exit_status() == result.exit_status());
    assert_eq!(
        row.complete(ExecutionVersion::new(3), &result),
        Err(PartitionMutationError::InvalidState { status: BatchStatus::Completed })
    );
}

#[test]
fn a_partition_version_does_not_wrap() {
    let mut row = row();
    row.version = ExecutionVersion::new(u64::MAX);
    assert_eq!(
        row.assign(ExecutionVersion::new(u64::MAX), StepExecutionId { number: 9 }),
        Err(PartitionMutationError::VersionExhausted)
    );
}

#[test]
fn partition_keys_are_redacted_and_bounded() {
    let Ok(key) = PartitionKey::new("secret") else { panic!("a valid key") };
    assert_eq!(key.redacted(), "PartitionKey(<redacted>)");
    assert_eq!(PartitionValueError::EmptyKey.to_text(), "partition key must not be empty");
    assert_eq!(
        PartitionValueError::KeyTooLong { max_bytes: 128 }.to_text(),
        "partition key exceeds 128 UTF-8 bytes"
    );
    let row = row();
    let copy = StepPartition::from_snapshot(
        row.id(),
        row.step_execution_id(),
        None,
        PartitionKey::new("other").ok().unwrap(),
        row.ordinal(),
        row.status(),
        ExitStatus::unknown(),
        row.counts(),
        ExecutionContext { encoded: Vec::new() },
        row.version(),
    );
    assert_eq!(copy.key().as_str(), "other");
    assert_eq!(copy.context().encoded_len(), 0);
}

#[test]
fn hex_round_trips_and_rejects_other_text() {
    assert_eq!(hex_encode(&[0x00, 0xff, 0x1a]), "00ff1a");
    assert_eq!(hex_decode("00ff1a"), Some(vec![0x00, 0xff, 0x1a]));
    for text in ["0", "0g", "\u{e9}"] {
        assert_eq!(hex_decode(text), None);
    }
    assert_eq!(to_array_32(&[1; 32]), Some([1; 32]));
    assert_eq!(to_array_32(&[1; 31]), None);
}

#[test]
fn a_cloned_set_holds_the_same_listeners() {
    let Ok(set) = Listeners::new().with_read_listener(7) else { panic!("room for one") };
    let Ok(set) = set.with_skip_listener(9) else { panic!("room for one") };
    let copy = set.clone();
    assert_eq!((copy.read_listeners(), copy.skip_listeners(), copy.write_listeners()), (1, 1, 0));
    assert_eq!((copy.read_listener(0), copy.skip_listener(0)), (Some(&7), Some(&9)));
}
