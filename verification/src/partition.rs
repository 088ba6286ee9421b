//! Durable local-partition plan and result values.

use crate::runtime::{
    BatchStatus, ExecutionCounts, ExecutionVersion, StepExecutionId, StepPartitionId,
};
use crate::text::{byte_len, concat3, copy_text, decimal, decimal_text};
use crate::tokens::ExitCode;
use vstd::prelude::*;
use vstd::string::*;
use vstd::utf8::encode_utf8;

verus! {

/// Maximum UTF-8 byte length of one durable partition key.
pub const MAX_PARTITION_KEY_BYTES: usize = 128;

/// Maximum serialized byte length of one durable partition context.
pub const MAX_PARTITION_CONTEXT_BYTES: usize = 4096;

/// A stable exit status: an outcome code, or none while it is not known.
#[derive(Debug, PartialEq, Eq)]
pub struct ExitStatus {
    /// The outcome code, once known.
    pub code: Option<ExitCode>,
}

impl ExitStatus {
    /// The status of work whose outcome is not known.
    pub fn unknown() -> (r: Self)
        ensures
            r.code is None,
    {
        ExitStatus { code: None }
    }

    /// The status of work that ended with `code`.
    pub fn with_code(code: ExitCode) -> (r: Self)
        ensures
            r.code == Some(code),
    {
        ExitStatus { code: Some(code) }
    }
}

impl Clone for ExitStatus {
    fn clone(&self) -> (r: Self)
        ensures
            r == *self,
    {
        match &self.code {
            Some(code) => ExitStatus { code: Some(code.clone()) },
            None => ExitStatus { code: None },
        }
    }
}

/// A durable execution context, held as its serialized form.
#[derive(PartialEq, Eq)]
pub struct ExecutionContext {
    /// The serialized form.
    pub encoded: Vec<u8>,
}

impl Clone for ExecutionContext {
    fn clone(&self) -> (r: Self)
        ensures
            r.encoded@ == self.encoded@,
    {
        let encoded: Vec<u8> = self.encoded.clone();
        assert(encoded@ =~= self.encoded@);
        ExecutionContext { encoded }
    }
}

impl ExecutionContext {
    /// Returns the serialized length in bytes.
    pub fn encoded_len(&self) -> (r: usize)
        ensures
            r == self.encoded@.len(),
    {
        self.encoded.len()
    }
}

/// Invalid public partition input.
#[derive(Clone, Copy, Debug, PartialEq, Eq, Structural)]
#[non_exhaustive]
pub enum PartitionValueError {
    /// A partition key was empty.
    EmptyKey,
    /// A partition key exceeded the durable byte bound.
    KeyTooLong {
        /// Maximum accepted UTF-8 bytes.
        max_bytes: usize,
    },
    /// A partition context exceeded its bound.
    ContextTooLarge {
        /// Maximum accepted serialized bytes.
        max_bytes: usize,
    },
    /// A worker result used a non-terminal status.
    NonTerminalResult {
        /// Rejected status.
        status: BatchStatus,
    },
}

impl PartitionValueError {
    /// The displayed text.
    pub open spec fn text(self) -> Seq<char> {
        match self {
            PartitionValueError::EmptyKey => "partition key must not be empty"@,
            PartitionValueError::KeyTooLong { max_bytes } => "partition key exceeds "@ + decimal(
                max_bytes as nat,
            ) + " UTF-8 bytes"@,
            PartitionValueError::ContextTooLarge { max_bytes } => "partition context exceeds "@
                + decimal(max_bytes as nat) + " bytes"@,
            PartitionValueError::NonTerminalResult { status } => "partition result status "@
                + status.name() + " is not terminal"@,
        }
    }

    /// The displayed text.
    pub fn to_text(&self) -> (r: String)
        ensures
            r@ == self.text(),
    {
        match self {
            PartitionValueError::EmptyKey => copy_text("partition key must not be empty"),
            PartitionValueError::KeyTooLong { max_bytes } => concat3(
                "partition key exceeds ",
                decimal_text(*max_bytes as u64).as_str(),
                " UTF-8 bytes",
            ),
            PartitionValueError::ContextTooLarge { max_bytes } => concat3(
                "partition context exceeds ",
                decimal_text(*max_bytes as u64).as_str(),
                " bytes",
            ),
            PartitionValueError::NonTerminalResult { status } => concat3(
                "partition result status ",
                status.as_str(),
                " is not terminal",
            ),
        }
    }
}

/// A stable byte-compared key within one partitioned step execution.
#[derive(PartialEq, Eq, PartialOrd, Ord, Hash)]
pub struct PartitionKey {
    text: String,
}

impl View for PartitionKey {
    type V = Seq<char>;

    closed spec fn view(&self) -> Seq<char> {
        self.text@
    }
}

impl Clone for PartitionKey {
    fn clone(&self) -> (r: Self)
        ensures
            r@ == self@,
            r == *self,
    {
        proof {
            use_type_invariant(self);
        }
        PartitionKey { text: self.text.clone() }
    }
}

impl PartitionKey {
    #[verifier::type_invariant]
    spec fn well_formed(self) -> bool {
        0 < self.text@.len() && encode_utf8(self.text@).len() <= MAX_PARTITION_KEY_BYTES
    }

    /// Validates a nonempty bounded UTF-8 partition key.
    ///
    /// White space and punctuation are retained because partition identity is
    /// byte-exact and application-defined.
    pub fn new(value: &str) -> (r: Result<Self, PartitionValueError>)
        ensures
            r == (if value@.len() == 0 {
                Err::<PartitionKey, _>(PartitionValueError::EmptyKey)
            } else if encode_utf8(value@).len() > MAX_PARTITION_KEY_BYTES {
                Err(
                    PartitionValueError::KeyTooLong { max_bytes: MAX_PARTITION_KEY_BYTES },
                )
            } else {
                Ok(r->Ok_0)
            }),
            r matches Ok(key) ==> key@ == value@,
    {
        if value.is_empty() {
            return Err(PartitionValueError::EmptyKey);
        }
        if byte_len(value) > MAX_PARTITION_KEY_BYTES {
            return Err(PartitionValueError::KeyTooLong { max_bytes: MAX_PARTITION_KEY_BYTES });
        }
        Ok(PartitionKey { text: copy_text(value) })
    }

    /// Borrows the byte-compared key.
    pub fn as_str(&self) -> (r: &str)
        ensures
            r@ == self@,
            0 < r@.len(),
            encode_utf8(r@).len() <= MAX_PARTITION_KEY_BYTES,
    {
        proof {
            use_type_invariant(self);
        }
        self.text.as_str()
    }

    /// The text shown in diagnostics, which never holds the key itself.
    pub fn redacted(&self) -> (r: String)
        ensures
            r@ == "PartitionKey(<redacted>)"@,
    {
        copy_text("PartitionKey(<redacted>)")
    }
}

/// One validated entry in a partition plan before durable identity assignment.
#[derive(PartialEq, Eq)]
pub struct PartitionPlanEntry {
    key: PartitionKey,
    context: ExecutionContext,
}

impl Clone for PartitionPlanEntry {
    fn clone(&self) -> (r: Self)
        ensures
            r.key_view() == self.key_view(),
            r.context_view().encoded@ == self.context_view().encoded@,
    {
        proof {
            use_type_invariant(self);
        }
        PartitionPlanEntry { key: self.key.clone(), context: self.context.clone() }
    }
}

impl PartitionPlanEntry {
    #[verifier::type_invariant]
    spec fn well_formed(self) -> bool {
        self.context.encoded@.len() <= MAX_PARTITION_CONTEXT_BYTES
    }

    /// The partition key.
    pub closed spec fn key_view(&self) -> PartitionKey {
        self.key
    }

    /// The durable context.
    pub closed spec fn context_view(&self) -> ExecutionContext {
        self.context
    }

    /// Constructs one bounded partition-plan entry: the serialized context may
    /// have at most 4 KiB.
    pub fn new(key: PartitionKey, context: ExecutionContext) -> (r: Result<
        Self,
        PartitionValueError,
    >)
        ensures
            match r {
                Ok(entry) => {
                    &&& context.encoded@.len() <= MAX_PARTITION_CONTEXT_BYTES
                    &&& entry.key_view() == key
                    &&& entry.context_view() == context
                },
                Err(error) => {
                    &&& context.encoded@.len() > MAX_PARTITION_CONTEXT_BYTES
                    &&& error == PartitionValueError::ContextTooLarge {
                        max_bytes: MAX_PARTITION_CONTEXT_BYTES,
                    }
                },
            },
    {
        if context.encoded_len() > MAX_PARTITION_CONTEXT_BYTES {
            return Err(
                PartitionValueError::ContextTooLarge { max_bytes: MAX_PARTITION_CONTEXT_BYTES },
            );
        }
        Ok(PartitionPlanEntry { key, context })
    }

    /// Borrows the stable partition key.
    pub fn key(&self) -> (r: &PartitionKey)
        ensures
            *r == self.key_view(),
    {
        &self.key
    }

    /// Borrows the durable context.
    pub fn context(&self) -> (r: &ExecutionContext)
        ensures
            *r == self.context_view(),
            r.encoded@.len() <= MAX_PARTITION_CONTEXT_BYTES,
    {
        proof {
            use_type_invariant(self);
        }
        &self.context
    }
}

/// A change that a partition row does not accept.
#[derive(Clone, Copy, Debug, PartialEq, Eq, Structural)]
pub enum PartitionMutationError {
    /// The caller saw another version of the row.
    StaleVersion {
        /// The version that the caller saw.
        expected: ExecutionVersion,
        /// The row's version.
        actual: ExecutionVersion,
    },
    /// The row's status does not allow the change.
    InvalidState {
        /// The row's status.
        status: BatchStatus,
    },
    /// The row's version cannot grow any further.
    VersionExhausted,
}

/// A durable partition plan row and its latest result snapshot.
#[derive(PartialEq, Eq)]
pub struct StepPartition {
    /// The durable partition-row identifier.
    pub id: StepPartitionId,
    /// The parent partitioned step execution.
    pub step_execution_id: StepExecutionId,
    /// The assigned worker attempt, when one has started.
    pub worker_step_execution_id: Option<StepExecutionId>,
    /// The stable partition key.
    pub key: PartitionKey,
    /// The one-based partition-plan ordinal.
    pub ordinal: u32,
    /// The current framework status.
    pub status: BatchStatus,
    /// The latest stable exit status.
    pub exit_status: ExitStatus,
    /// The latest durable counters.
    pub counts: ExecutionCounts,
    /// The partition context.
    pub context: ExecutionContext,
    /// The optimistic-lock version.
    pub version: ExecutionVersion,
}

impl Clone for StepPartition {
    fn clone(&self) -> (r: Self)
        ensures
            r.context.encoded@ == self.context.encoded@,
            r == (StepPartition { context: r.context, ..*self }),
    {
        StepPartition {
            id: self.id,
            step_execution_id: self.step_execution_id,
            worker_step_execution_id: self.worker_step_execution_id,
            key: self.key.clone(),
            ordinal: self.ordinal,
            status: self.status,
            exit_status: self.exit_status.clone(),
            counts: self.counts,
            context: self.context.clone(),
            version: self.version,
        }
    }
}

impl StepPartition {
    /// A row that waits for its first worker.
    pub open spec fn awaits_first_worker(self) -> bool {
        self.status == BatchStatus::Starting && self.worker_step_execution_id is None
    }

    /// A row whose worker ended in a way that may be tried again.
    pub open spec fn awaits_retry(self) -> bool {
        (self.status == BatchStatus::Failed || self.status == BatchStatus::Stopped)
            && self.worker_step_execution_id is Some
    }

    /// A row that a worker may be assigned to.
    pub open spec fn assignable(self) -> bool {
        self.awaits_first_worker() || self.awaits_retry()
    }

    /// A row whose worker is running.
    pub open spec fn completable(self) -> bool {
        self.status == BatchStatus::Started && self.worker_step_execution_id is Some
    }

    /// The row after a worker took it over, at its old version.
    pub open spec fn assigned_to(
        self,
        worker: StepExecutionId,
        exit_status: ExitStatus,
    ) -> StepPartition {
        StepPartition {
            worker_step_execution_id: Some(worker),
            status: BatchStatus::Started,
            exit_status,
            counts: ExecutionCounts {
                read: 0,
                written: 0,
                filtered: 0,
                commits: 0,
                rollbacks: 0,
                skips: 0,
            },
            ..self
        }
    }

    /// Restores a row from its durable columns.
    pub fn from_snapshot(
        id: StepPartitionId,
        step_execution_id: StepExecutionId,
        worker_step_execution_id: Option<StepExecutionId>,
        key: PartitionKey,
        ordinal: u32,
        status: BatchStatus,
        exit_status: ExitStatus,
        counts: ExecutionCounts,
        context: ExecutionContext,
        version: ExecutionVersion,
    ) -> (r: Self)
        ensures
            r == (StepPartition {
                id,
                step_execution_id,
                worker_step_execution_id,
                key,
                ordinal,
                status,
                exit_status,
                counts,
                context,
                version,
            }),
    {
        StepPartition {
            id,
            step_execution_id,
            worker_step_execution_id,
            key,
            ordinal,
            status,
            exit_status,
            counts,
            context,
            version,
        }
    }

    /// A new row for one entry of a partition plan, at the version that new rows
    /// have.
    pub fn starting(
        id: StepPartitionId,
        step_execution_id: StepExecutionId,
        ordinal: u32,
        entry: PartitionPlanEntry,
        initial_version: ExecutionVersion,
    ) -> (r: Self)
        ensures
            r.id == id,
            r.step_execution_id == step_execution_id,
            r.ordinal == ordinal,
            r.key == entry.key_view(),
            r.context == entry.context_view(),
            r.awaits_first_worker(),
            r.exit_status.code is None,
            r.counts == r.assigned_to(step_execution_id, r.exit_status).counts,
            r.version == initial_version,
    {
        Self::from_snapshot(
            id,
            step_execution_id,
            None,
            entry.key,
            ordinal,
            BatchStatus::Starting,
            ExitStatus::unknown(),
            ExecutionCounts::default(),
            entry.context,
            initial_version,
        )
    }

    /// Returns the durable partition-row identifier.
    pub fn id(&self) -> (r: StepPartitionId)
        ensures
            r == self.id,
    {
        self.id
    }

    /// Returns the parent partitioned step execution.
    pub fn step_execution_id(&self) -> (r: StepExecutionId)
        ensures
            r == self.step_execution_id,
    {
        self.step_execution_id
    }

    /// Returns the assigned worker attempt, when one has started.
    pub fn worker_step_execution_id(&self) -> (r: Option<StepExecutionId>)
        ensures
            r == self.worker_step_execution_id,
    {
        self.worker_step_execution_id
    }

    /// Borrows the stable partition key.
    pub fn key(&self) -> (r: &PartitionKey)
        ensures
            *r == self.key,
    {
        &self.key
    }

    /// Returns the one-based partition-plan ordinal.
    pub fn ordinal(&self) -> (r: u32)
        ensures
            r == self.ordinal,
    {
        self.ordinal
    }

    /// Returns the current framework status.
    pub fn status(&self) -> (r: BatchStatus)
        ensures
            r == self.status,
    {
        self.status
    }

    /// Borrows the latest stable exit status.
    pub fn exit_status(&self) -> (r: &ExitStatus)
        ensures
            *r == self.exit_status,
    {
        &self.exit_status
    }

    /// Returns the latest durable counters.
    pub fn counts(&self) -> (r: ExecutionCounts)
        ensures
            r == self.counts,
    {
        self.counts
    }

    /// Borrows the partition context.
    pub fn context(&self) -> (r: &ExecutionContext)
        ensures
            *r == self.context,
    {
        &self.context
    }

    /// Returns the optimistic-lock version.
    pub fn version(&self) -> (r: ExecutionVersion)
        ensures
            r == self.version,
    {
        self.version
    }

    /// Hands the row to a worker: one that waits for its first worker, or one
    /// whose worker failed or stopped. The version is checked before the state.
    ///
    /// A row whose version cannot grow is refused with
    /// [`PartitionMutationError::VersionExhausted`] after its other columns
    /// changed; such a row must not be persisted.
    pub fn assign(
        &mut self,
        expected_version: ExecutionVersion,
        worker_step_execution_id: StepExecutionId,
    ) -> (r: Result<(), PartitionMutationError>)
        ensures
            match r {
                Ok(_) => {
                    &&& expected_version == old(self).version
                    &&& old(self).assignable()
                    &&& old(self).version.number < u64::MAX
                    &&& final(self).exit_status.code is None
                    &&& *final(self) == (StepPartition {
                        version: ExecutionVersion {
                            number: (old(self).version.number + 1) as u64,
                        },
                        ..old(self).assigned_to(
                            worker_step_execution_id,
                            final(self).exit_status,
                        )
                    })
                },
                Err(PartitionMutationError::StaleVersion { expected, actual }) => {
                    &&& expected_version != old(self).version
                    &&& expected == expected_version
                    &&& actual == old(self).version
                    &&& *final(self) == *old(self)
                },
                Err(PartitionMutationError::InvalidState { status }) => {
                    &&& expected_version == old(self).version
                    &&& !old(self).assignable()
                    &&& status == old(self).status
                    &&& *final(self) == *old(self)
                },
                Err(PartitionMutationError::VersionExhausted) => {
                    &&& expected_version == old(self).version
                    &&& old(self).assignable()
                    &&& old(self).version.number == u64::MAX
                    &&& final(self).exit_status.code is None
                    &&& *final(self) == old(self).assigned_to(
                        worker_step_execution_id,
                        final(self).exit_status,
                    )
                },
            },
    {
        match self.ensure_version(expected_version) {
            Ok(_) => {},
            Err(error) => return Err(error),
        }
        let first_assignment: bool = self.status == BatchStatus::Starting
            && self.worker_step_execution_id.is_none();
        let retry_assignment: bool = (self.status == BatchStatus::Failed || self.status
            == BatchStatus::Stopped) && self.worker_step_execution_id.is_some();
        if !first_assignment && !retry_assignment {
            return Err(PartitionMutationError::InvalidState { status: self.status });
        }
        self.worker_step_execution_id = Some(worker_step_execution_id);
        self.status = BatchStatus::Started;
        self.exit_status = ExitStatus::unknown();
        self.counts = ExecutionCounts::default();
        match self.next_version() {
            Ok(version) => {
                self.version = version;
            },
            Err(error) => return Err(error),
        }
        Ok(())
    }

    /// Publishes the result of the running worker. The version is checked
    /// before the state.
    ///
    /// A row whose version cannot grow is refused with
    /// [`PartitionMutationError::VersionExhausted`] after its other columns
    /// changed; such a row must not be persisted.
    pub fn complete(
        &mut self,
        expected_version: ExecutionVersion,
        result: &PartitionResult,
    ) -> (r: Result<(), PartitionMutationError>)
        ensures
            match r {
                Ok(_) => {
                    &&& expected_version == old(self).version
                    &&& old(self).completable()
                    &&& old(self).version.number < u64::MAX
                    &&& *final(self) == (StepPartition {
                        status: result.status_view(),
                        exit_status: result.exit_status_view(),
                        counts: result.counts_view(),
                        version: ExecutionVersion {
                            number: (old(self).version.number + 1) as u64,
                        },
                        ..*old(self)
                    })
                },
                Err(PartitionMutationError::StaleVersion { expected, actual }) => {
                    &&& expected_version != old(self).version
                    &&& expected == expected_version
                    &&& actual == old(self).version
                    &&& *final(self) == *old(self)
                },
                Err(PartitionMutationError::InvalidState { status }) => {
                    &&& expected_version == old(self).version
                    &&& !old(self).completable()
                    &&& status == old(self).status
                    &&& *final(self) == *old(self)
                },
                Err(PartitionMutationError::VersionExhausted) => {
                    &&& expected_version == old(self).version
                    &&& old(self).completable()
                    &&& old(self).version.number == u64::MAX
                    &&& *final(self) == (StepPartition {
                        status: result.status_view(),
                        exit_status: result.exit_status_view(),
                        counts: result.counts_view(),
                        ..*old(self)
                    })
                },
            },
    {
        match self.ensure_version(expected_version) {
            Ok(_) => {},
            Err(error) => return Err(error),
        }
        if self.status != BatchStatus::Started || self.worker_step_execution_id.is_none() {
            return Err(PartitionMutationError::InvalidState { status: self.status });
        }
        self.status = result.status;
        self.exit_status = result.exit_status.clone();
        self.counts = result.counts;
        match self.next_version() {
            Ok(version) => {
                self.version = version;
            },
            Err(error) => return Err(error),
        }
        Ok(())
    }

    fn ensure_version(&self, expected_version: ExecutionVersion) -> (r: Result<
        (),
        PartitionMutationError,
    >)
        ensures
            r == (if expected_version != self.version {
                Err::<(), _>(
                    PartitionMutationError::StaleVersion {
                        expected: expected_version,
                        actual: self.version,
                    },
                )
            } else {
                Ok(())
            }),
    {
        if expected_version != self.version {
            return Err(
                PartitionMutationError::StaleVersion {
                    expected: expected_version,
                    actual: self.version,
                },
            );
        }
        Ok(())
    }

    fn next_version(&self) -> (r: Result<ExecutionVersion, PartitionMutationError>)
        ensures
            r == (if self.version.number == u64::MAX {
                Err::<ExecutionVersion, _>(PartitionMutationError::VersionExhausted)
            } else {
                Ok(ExecutionVersion { number: (self.version.number + 1) as u64 })
            }),
    {
        match self.version.get().checked_add(1) {
            Some(number) => Ok(ExecutionVersion::new(number)),
            None => Err(PartitionMutationError::VersionExhausted),
        }
    }
}

/// A status that a worker may publish.
pub open spec fn is_worker_result(status: BatchStatus) -> bool {
    ||| status == BatchStatus::Completed
    ||| status == BatchStatus::Failed
    ||| status == BatchStatus::Stopped
    ||| status == BatchStatus::Unknown
}

/// A validated terminal result published by one assigned partition worker.
#[derive(Debug, PartialEq, Eq)]
pub struct PartitionResult {
    status: BatchStatus,
    exit_status: ExitStatus,
    counts: ExecutionCounts,
}

impl Clone for PartitionResult {
    fn clone(&self) -> (r: Self)
        ensures
            r == *self,
    {
        proof {
            use_type_invariant(self);
        }
        PartitionResult {
            status: self.status,
            exit_status: self.exit_status.clone(),
            counts: self.counts,
        }
    }
}

impl PartitionResult {
    #[verifier::type_invariant]
    spec fn well_formed(self) -> bool {
        is_worker_result(self.status)
    }

    /// The terminal framework status.
    pub closed spec fn status_view(&self) -> BatchStatus {
        self.status
    }

    /// The terminal exit status.
    pub closed spec fn exit_status_view(&self) -> ExitStatus {
        self.exit_status
    }

    /// The terminal counters.
    pub closed spec fn counts_view(&self) -> ExecutionCounts {
        self.counts
    }

    /// Validates one known or explicitly ambiguous terminal worker result. An
    /// active or abandoned status is rejected.
    pub fn new(status: BatchStatus, exit_status: ExitStatus, counts: ExecutionCounts) -> (r: Result<
        Self,
        PartitionValueError,
    >)
        ensures
            match r {
                Ok(result) => {
                    &&& is_worker_result(status)
                    &&& result.status_view() == status
                    &&& result.exit_status_view() == exit_status
                    &&& result.counts_view() == counts
                },
                Err(error) => {
                    &&& !is_worker_result(status)
                    &&& error == PartitionValueError::NonTerminalResult { status }
                },
            },
    {
        if status == BatchStatus::Completed || status == BatchStatus::Failed || status
            == BatchStatus::Stopped || status == BatchStatus::Unknown {
            Ok(PartitionResult { status, exit_status, counts })
        } else {
            Err(PartitionValueError::NonTerminalResult { status })
        }
    }

    /// Returns the terminal framework status.
    pub fn status(&self) -> (r: BatchStatus)
        ensures
            r == self.status_view(),
            is_worker_result(r),
    {
        proof {
            use_type_invariant(self);
        }
        self.status
    }

    /// Borrows the terminal exit status.
    pub fn exit_status(&self) -> (r: &ExitStatus)
        ensures
            *r == self.exit_status_view(),
    {
        &self.exit_status
    }

    /// Returns the terminal counters.
    pub fn counts(&self) -> (r: ExecutionCounts)
        ensures
            r == self.counts_view(),
    {
        self.counts
    }
}

/// A worker's row, once assigned, is open to its result and to nothing else;
/// once completed or left unknown it is closed for good; and once failed or
/// stopped it is open to a new worker alone.
pub proof fn partition_life_cycle(
    row: StepPartition,
    worker: StepExecutionId,
    exit_status: ExitStatus,
    result: BatchStatus,
)
    requires
        is_worker_result(result),
    ensures
        ({
            let running = row.assigned_to(worker, exit_status);
            let ended = StepPartition { status: result, ..running };
            &&& running.completable() && !running.assignable()
            &&& !ended.completable()
            &&& ended.assignable() == (result == BatchStatus::Failed || result
                == BatchStatus::Stopped)
        }),
{
}

/// A worker may publish that it completed, failed, stopped or left its outcome
/// unknown. A status of work that is still to begin, under way, being stopped or
/// given up is no result.
pub proof fn worker_results_are_these(status: BatchStatus)
    ensures
        is_worker_result(BatchStatus::Completed),
        is_worker_result(BatchStatus::Failed),
        is_worker_result(BatchStatus::Stopped),
        is_worker_result(BatchStatus::Unknown),
        !is_worker_result(BatchStatus::Starting),
        !is_worker_result(BatchStatus::Started),
        !is_worker_result(BatchStatus::Stopping),
        !is_worker_result(BatchStatus::Abandoned),
        is_worker_result(status) ==> status == BatchStatus::Completed || status
            == BatchStatus::Failed || status == BatchStatus::Stopped || status
            == BatchStatus::Unknown,
{
}

/// Which rows a worker may take over: one that is starting and has no worker, or
/// one that failed or stopped under an earlier one. Which rows a result may be
/// published for: those that are started and have a worker. No row is open to
/// both.
pub proof fn rows_are_open_to_one_change(row: StepPartition)
    ensures
        row.status == BatchStatus::Starting ==> row.assignable()
            == row.worker_step_execution_id is None,
        row.status == BatchStatus::Failed || row.status == BatchStatus::Stopped
            ==> row.assignable() == row.worker_step_execution_id is Some,
        row.status == BatchStatus::Started ==> row.completable()
            == row.worker_step_execution_id is Some,
        row.assignable() ==> row.status == BatchStatus::Starting || row.status
            == BatchStatus::Failed || row.status == BatchStatus::Stopped,
        row.completable() ==> row.status == BatchStatus::Started,
        !(row.assignable() && row.completable()),
{
}

/// A row that a worker takes over is started under that worker with its counters
/// at zero. Its identity, its place in the plan, its key, its context and its
/// version stay.
pub proof fn taking_a_row_over_keeps_its_identity(
    row: StepPartition,
    worker: StepExecutionId,
    exit_status: ExitStatus,
)
    ensures
        ({
            let taken = row.assigned_to(worker, exit_status);
            &&& taken.worker_step_execution_id == Some(worker)
            &&& taken.status == BatchStatus::Started
            &&& taken.exit_status == exit_status
            &&& taken.counts.read == 0 && taken.counts.written == 0 && taken.counts.filtered == 0
            &&& taken.counts.commits == 0 && taken.counts.rollbacks == 0 && taken.counts.skips == 0
            &&& taken.id == row.id
            &&& taken.step_execution_id == row.step_execution_id
            &&& taken.key == row.key
            &&& taken.ordinal == row.ordinal
            &&& taken.context == row.context
            &&& taken.version == row.version
        }),
{
}

/// A started row whose worker failed or stopped is open to another worker, and
/// one that completed or was left unknown is closed to every change.
pub proof fn a_failed_row_is_tried_again(row: StepPartition, result: BatchStatus)
    requires
        row.status == BatchStatus::Started,
        row.worker_step_execution_id is Some,
    ensures
        ({
            let ended = StepPartition { status: result, ..row };
            &&& row.completable()
            &&& result == BatchStatus::Failed ==> is_worker_result(result) && ended.assignable()
            &&& result == BatchStatus::Stopped ==> is_worker_result(result) && ended.assignable()
            &&& result == BatchStatus::Completed || result == BatchStatus::Unknown
                ==> is_worker_result(result) && !ended.assignable() && !ended.completable()
        }),
{
}

/// The limits of a partition's durable columns.
pub proof fn partition_limits_are_these()
    ensures
        MAX_PARTITION_KEY_BYTES == 128,
        MAX_PARTITION_CONTEXT_BYTES == 4 * 1024,
{
}

/// A result is accepted for each of the four statuses that a worker may publish,
/// with its parts as given, and refused by its status for every other one.
pub proof fn results_are_validated_by_their_status(
    status: BatchStatus,
    exit_status: ExitStatus,
    counts: ExecutionCounts,
    r: Result<PartitionResult, PartitionValueError>,
)
    requires
        call_ensures(PartitionResult::new, (status, exit_status, counts), r),
    ensures
        r is Ok <==> (status == BatchStatus::Completed || status == BatchStatus::Failed || status
            == BatchStatus::Stopped || status == BatchStatus::Unknown),
        r matches Ok(result) ==> result.status_view() == status && result.exit_status_view()
            == exit_status && result.counts_view() == counts,
        r matches Err(error) ==> error == (PartitionValueError::NonTerminalResult { status }),
{
}

/// Assigning succeeds exactly for a caller that saw the row's version, on a row
/// that no worker has begun or whose last worker failed or stopped. It then starts
/// the row afresh under the worker, at the next version; a refused one leaves the
/// row as it was, unless its version was the last there is.
pub proof fn assigning_starts_the_row(
    row: &mut StepPartition,
    expected: ExecutionVersion,
    worker: StepExecutionId,
    r: Result<(), PartitionMutationError>,
)
    requires
        call_ensures(StepPartition::assign, (row, expected, worker), r),
    ensures
        ({
            let idle = (old(row).status == BatchStatus::Starting
                && old(row).worker_step_execution_id is None) || ((old(row).status
                    == BatchStatus::Failed || old(row).status == BatchStatus::Stopped)
                        && old(row).worker_step_execution_id is Some);
            &&& r is Ok <==> expected == old(row).version && idle && old(row).version.number
                < u64::MAX
            &&& r is Ok ==> {
                &&& final(row).status == BatchStatus::Started
                &&& final(row).worker_step_execution_id == Some(worker)
                &&& final(row).exit_status.code is None
                &&& final(row).counts.read == 0 && final(row).counts.written == 0
                &&& final(row).counts.filtered == 0 && final(row).counts.commits == 0
                &&& final(row).counts.rollbacks == 0 && final(row).counts.skips == 0
                &&& final(row).version.number == old(row).version.number + 1
                &&& final(row).key == old(row).key && final(row).context == old(row).context
                &&& final(row).id == old(row).id && final(row).ordinal == old(row).ordinal
                &&& final(row).step_execution_id == old(row).step_execution_id
            }
            &&& expected != old(row).version ==> r == Err::<(), PartitionMutationError>(
                PartitionMutationError::StaleVersion { expected, actual: old(row).version },
            ) && *final(row) == *old(row)
            &&& expected == old(row).version && !idle ==> r == Err::<(), PartitionMutationError>(
                PartitionMutationError::InvalidState { status: old(row).status },
            ) && *final(row) == *old(row)
        }),
{
}

/// Completing succeeds exactly for a caller that saw the version of a started row
/// with a worker. It then publishes the result's status, exit status and counters
/// at the next version, and changes nothing else.
pub proof fn completing_publishes_the_result(
    row: &mut StepPartition,
    expected: ExecutionVersion,
    result: &PartitionResult,
    r: Result<(), PartitionMutationError>,
)
    requires
        call_ensures(StepPartition::complete, (row, expected, result), r),
    ensures
        ({
            let running = old(row).status == BatchStatus::Started
                && old(row).worker_step_execution_id is Some;
            &&& r is Ok <==> expected == old(row).version && running && old(row).version.number
                < u64::MAX
            &&& r is Ok ==> {
                &&& final(row).status == result.status_view()
                &&& final(row).exit_status == result.exit_status_view()
                &&& final(row).counts == result.counts_view()
                &&& final(row).version.number == old(row).version.number + 1
                &&& final(row).worker_step_execution_id == old(row).worker_step_execution_id
                &&& final(row).key == old(row).key && final(row).context == old(row).context
                &&& final(row).id == old(row).id && final(row).ordinal == old(row).ordinal
                &&& final(row).step_execution_id == old(row).step_execution_id
            }
            &&& expected != old(row).version ==> r == Err::<(), PartitionMutationError>(
                PartitionMutationError::StaleVersion { expected, actual: old(row).version },
            ) && *final(row) == *old(row)
            &&& expected == old(row).version && !running ==> r == Err::<
                (),
                PartitionMutationError,
            >(PartitionMutationError::InvalidState { status: old(row).status }) && *final(row)
                == *old(row)
        }),
{
}

/// A key is accepted, as it is, exactly if it has one to 128 bytes.
pub proof fn keys_are_bounded(value: &str, r: Result<PartitionKey, PartitionValueError>)
    requires
        call_ensures(PartitionKey::new, (value,), r),
    ensures
        r is Ok <==> value@.len() > 0 && encode_utf8(value@).len() <= 128,
        r matches Ok(key) ==> key@ == value@,
        value@.len() == 0 ==> r == Err::<PartitionKey, PartitionValueError>(
            PartitionValueError::EmptyKey,
        ),
        r is Err && value@.len() > 0 ==> r == Err::<PartitionKey, PartitionValueError>(
            PartitionValueError::KeyTooLong { max_bytes: 128 },
        ),
{
}

/// An entry is accepted, with its key and context as given, exactly if the
/// serialized context has at most 4096 bytes.
pub proof fn contexts_are_bounded(
    key: PartitionKey,
    context: ExecutionContext,
    r: Result<PartitionPlanEntry, PartitionValueError>,
)
    requires
        call_ensures(PartitionPlanEntry::new, (key, context), r),
    ensures
        r is Ok <==> context.encoded@.len() <= 4096,
        r matches Ok(entry) ==> entry.key_view() == key && entry.context_view() == context,
        r matches Err(error) ==> error == (PartitionValueError::ContextTooLarge {
            max_bytes: 4096,
        }),
{
}

/// A new row has no worker, no exit status and no counts, and takes its key and
/// context from the plan entry.
pub proof fn a_new_row_awaits_its_first_worker(
    id: StepPartitionId,
    step: StepExecutionId,
    ordinal: u32,
    entry: PartitionPlanEntry,
    version: ExecutionVersion,
    r: StepPartition,
)
    requires
        call_ensures(StepPartition::starting, (id, step, ordinal, entry, version), r),
    ensures
        r.status == BatchStatus::Starting,
        r.worker_step_execution_id is None,
        r.exit_status.code is None,
        r.counts.read == 0 && r.counts.written == 0 && r.counts.filtered == 0,
        r.counts.commits == 0 && r.counts.rollbacks == 0 && r.counts.skips == 0,
        r.id == id && r.step_execution_id == step && r.ordinal == ordinal,
        r.key == entry.key_view() && r.context == entry.context_view(),
        r.version == version,
{
}

/// What each refused value says.
pub proof fn refused_values_say_this(error: &PartitionValueError, r: String)
    requires
        call_ensures(PartitionValueError::to_text, (error,), r),
    ensures
        error is EmptyKey ==> r@ == "partition key must not be empty"@,
        error matches PartitionValueError::KeyTooLong { max_bytes } ==> r@
            == "partition key exceeds "@ + decimal(*max_bytes as nat) + " UTF-8 bytes"@,
        error matches PartitionValueError::ContextTooLarge { max_bytes } ==> r@
            == "partition context exceeds "@ + decimal(*max_bytes as nat) + " bytes"@,
        error matches PartitionValueError::NonTerminalResult { status } ==> r@
            == "partition result status "@ + status.name() + " is not terminal"@,
{
}

/// No two keys are told apart by what diagnostics show of them.
pub proof fn keys_are_not_shown(a: &PartitionKey, b: &PartitionKey, x: String, y: String)
    requires
        call_ensures(PartitionKey::redacted, (a,), x),
        call_ensures(PartitionKey::redacted, (b,), y),
    ensures
        x@ == y@,
        x@ == "PartitionKey(<redacted>)"@,
{
}

/// A restored row is the stored one, column by column.
pub proof fn a_restored_row_is_the_stored_one(
    id: StepPartitionId,
    step_execution_id: StepExecutionId,
    worker: Option<StepExecutionId>,
    key: PartitionKey,
    ordinal: u32,
    status: BatchStatus,
    exit_status: ExitStatus,
    counts: ExecutionCounts,
    context: ExecutionContext,
    version: ExecutionVersion,
    r: StepPartition,
)
    requires
        call_ensures(
            StepPartition::from_snapshot,
            (
                id,
                step_execution_id,
                worker,
                key,
                ordinal,
                status,
                exit_status,
                counts,
                context,
                version,
            ),
            r,
        ),
    ensures
        r.id == id && r.step_execution_id == step_execution_id,
        r.worker_step_execution_id == worker,
        r.key == key && r.ordinal == ordinal,
        r.status == status && r.exit_status == exit_status,
        r.counts == counts && r.context == context && r.version == version,
{
}

/// A row shows its columns as they are.
pub proof fn a_row_shows_its_columns(
    row: &StepPartition,
    id: StepPartitionId,
    parent: StepExecutionId,
    worker: Option<StepExecutionId>,
    ordinal: u32,
    status: BatchStatus,
    counts: ExecutionCounts,
    version: ExecutionVersion,
    key: &PartitionKey,
    exit_status: &ExitStatus,
    context: &ExecutionContext,
)
    requires
        call_ensures(StepPartition::id, (row,), id),
        call_ensures(StepPartition::step_execution_id, (row,), parent),
        call_ensures(StepPartition::worker_step_execution_id, (row,), worker),
        call_ensures(StepPartition::ordinal, (row,), ordinal),
        call_ensures(StepPartition::status, (row,), status),
        call_ensures(StepPartition::counts, (row,), counts),
        call_ensures(StepPartition::version, (row,), version),
        call_ensures(StepPartition::key, (row,), key),
        call_ensures(StepPartition::exit_status, (row,), exit_status),
        call_ensures(StepPartition::context, (row,), context),
    ensures
        id == row.id && parent == row.step_execution_id,
        worker == row.worker_step_execution_id && ordinal == row.ordinal,
        status == row.status && counts == row.counts && version == row.version,
        *key == row.key && *exit_status == row.exit_status && *context == row.context,
{
}

/// A result gives back what it was made of.
pub proof fn a_result_gives_back_its_parts(
    status: BatchStatus,
    exit_status: ExitStatus,
    counts: ExecutionCounts,
    result: PartitionResult,
    s: BatchStatus,
    e: &ExitStatus,
    c: ExecutionCounts,
)
    requires
        call_ensures(PartitionResult::new, (status, exit_status, counts), Ok(result)),
        call_ensures(PartitionResult::status, (&result,), s),
        call_ensures(PartitionResult::exit_status, (&result,), e),
        call_ensures(PartitionResult::counts, (&result,), c),
    ensures
        s == status && *e == exit_status && c == counts,
{
}

} // verus!
