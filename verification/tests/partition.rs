//! Partition keys, plan entries, results and rows.

use oxide_batch::partition::{
    ExecutionContext, ExitStatus, PartitionKey, PartitionPlanEntry, PartitionResult,
    PartitionValueError, MAX_PARTITION_CONTEXT_BYTES, MAX_PARTITION_KEY_BYTES,
};
use oxide_batch::runtime::{BatchStatus, ExecutionCounts};

#[test]
fn partition_key_and_context_bounds_fail_before_persistence() {
    assert!(PartitionKey::new("") == Err(PartitionValueError::EmptyKey));
    assert!(
        PartitionKey::new(&"x".repeat(MAX_PARTITION_KEY_BYTES + 1))
            == Err(PartitionValueError::KeyTooLong { max_bytes: MAX_PARTITION_KEY_BYTES })
    );

    let oversized = format!(
        "{{\"format\":\"oxide-batch.execution-context\",\"format_version\":1,\
         \"schema\":\"partition.test\",\"schema_version\":1,\
         \"payload\":{{\"value\":\"{}\"}}}}",
        "x".repeat(MAX_PARTITION_CONTEXT_BYTES)
    );
    assert!(oversized.len() <= 8 * 1024);
    let context = ExecutionContext { encoded: oversized.into_bytes() };
    let Ok(key) = PartitionKey::new("partition-1") else { panic!("a valid key") };
    assert!(
        PartitionPlanEntry::new(key, context)
            == Err(PartitionValueError::ContextTooLarge { max_bytes: MAX_PARTITION_CONTEXT_BYTES })
    );
}

#[test]
fn partition_result_accepts_only_runtime_terminal_outcomes() {
    assert_eq!(
        PartitionResult::new(
            BatchStatus::Started,
            ExitStatus::unknown(),
            ExecutionCounts::default(),
        ),
        Err(PartitionValueError::NonTerminalResult { status: BatchStatus::Started })
    );
    assert!(PartitionResult::new(
        BatchStatus::Unknown,
        ExitStatus::unknown(),
        ExecutionCounts::default(),
    )
    .is_ok());
}

#[test]
fn partition_values_are_cloned_whole() {
    let Ok(key) = PartitionKey::new("partition-1") else { panic!("a valid key") };
    assert!(key.clone() == key);
    let context = ExecutionContext { encoded: b"{}".to_vec() };
    let Ok(entry) = PartitionPlanEntry::new(key, context) else { panic!("a valid entry") };
    assert!(entry.clone() == entry);
    let result = PartitionResult::new(
        BatchStatus::Unknown,
        ExitStatus::unknown(),
        ExecutionCounts::default(),
    );
    assert_eq!(result.clone(), result);
}
