//! The plain values that components and the runtime exchange: failure
//! categories, call outcomes, stop requests and execution bookkeeping.

use vstd::prelude::*;

verus! {

/// The stable category of a failure.
#[derive(Clone, Copy, Debug, PartialEq, Eq, PartialOrd, Ord, Hash, Structural)]
#[non_exhaustive]
pub enum FailureCategory {
    /// A user component failed.
    UserComponent,
    /// Infrastructure failed in a way that may pass.
    TransientInfrastructure,
    /// The selected mode lacks a capability that the call needs.
    UnsupportedCapability,
    /// An internal invariant does not hold.
    Invariant,
    /// The work was cancelled.
    Cancelled,
    /// The work ran out of time.
    Timeout,
}

/// Whether cooperative stop has been requested, as seen by one call.
#[derive(Clone, Copy, Debug, PartialEq, Eq, Structural)]
pub struct StopToken {
    /// Stop has been requested.
    pub requested: bool,
}

impl StopToken {
    /// Reports whether stop has been requested.
    pub fn is_stop_requested(&self) -> (r: bool)
        ensures
            r == self.requested,
    {
        self.requested
    }
}

/// A value-redacted reader failure.
#[derive(Clone, Copy, Debug, PartialEq, Eq, Structural)]
pub struct ReaderError {
    /// The stable category.
    pub category: FailureCategory,
    /// Whether the reader's checkpoint moved past the failing input.
    pub checkpoint_advanced: bool,
}

impl ReaderError {
    /// A user-component failure that leaves the checkpoint where it was.
    pub fn new() -> (r: Self)
        ensures
            r == (ReaderError {
                category: FailureCategory::UserComponent,
                checkpoint_advanced: false,
            }),
    {
        ReaderError { category: FailureCategory::UserComponent, checkpoint_advanced: false }
    }

    /// A failure of the given category that leaves the checkpoint where it was.
    pub fn with_category(category: FailureCategory) -> (r: Self)
        ensures
            r == (ReaderError { category, checkpoint_advanced: false }),
    {
        ReaderError { category, checkpoint_advanced: false }
    }

    /// The same failure, with the checkpoint moved past the failing input.
    pub fn with_checkpoint_advanced(self) -> (r: Self)
        ensures
            r == (ReaderError { category: self.category, checkpoint_advanced: true }),
    {
        ReaderError { category: self.category, checkpoint_advanced: true }
    }

    /// Returns the stable category.
    pub fn category(self) -> (r: FailureCategory)
        ensures
            r == self.category,
    {
        self.category
    }

    /// Reports whether the checkpoint moved past the failing input.
    pub fn has_checkpoint_advanced(self) -> (r: bool)
        ensures
            r == self.checkpoint_advanced,
    {
        self.checkpoint_advanced
    }
}

impl Default for ReaderError {
    fn default() -> (r: Self)
        ensures
            r == (ReaderError {
                category: FailureCategory::UserComponent,
                checkpoint_advanced: false,
            }),
    {
        Self::new()
    }
}

/// A value-redacted processor failure.
#[derive(Clone, Copy, Debug, PartialEq, Eq, Structural)]
pub struct ProcessorError {
    /// The stable category.
    pub category: FailureCategory,
}

impl ProcessorError {
    /// A user-component failure.
    pub fn new() -> (r: Self)
        ensures
            r == (ProcessorError { category: FailureCategory::UserComponent }),
    {
        ProcessorError { category: FailureCategory::UserComponent }
    }

    /// A failure of the given category.
    pub fn with_category(category: FailureCategory) -> (r: Self)
        ensures
            r == (ProcessorError { category }),
    {
        ProcessorError { category }
    }

    /// Returns the stable category.
    pub fn category(self) -> (r: FailureCategory)
        ensures
            r == self.category,
    {
        self.category
    }
}

impl Default for ProcessorError {
    fn default() -> (r: Self)
        ensures
            r == (ProcessorError { category: FailureCategory::UserComponent }),
    {
        Self::new()
    }
}

/// A value-redacted writer failure.
#[derive(Clone, Copy, Debug, PartialEq, Eq, Structural)]
pub struct WriterError {
    /// The stable category.
    pub category: FailureCategory,
    /// The index of the one output that caused a rolled-back write, if known.
    pub rolled_back_output: Option<usize>,
}

impl WriterError {
    /// A user-component failure.
    pub fn new() -> (r: Self)
        ensures
            r == (WriterError {
                category: FailureCategory::UserComponent,
                rolled_back_output: None,
            }),
    {
        WriterError { category: FailureCategory::UserComponent, rolled_back_output: None }
    }

    /// A failure of the given category.
    pub fn with_category(category: FailureCategory) -> (r: Self)
        ensures
            r == (WriterError { category, rolled_back_output: None }),
    {
        WriterError { category, rolled_back_output: None }
    }

    /// The same failure, attributed to one output.
    pub fn with_rolled_back_output(self, index: usize) -> (r: Self)
        ensures
            r == (WriterError { category: self.category, rolled_back_output: Some(index) }),
    {
        WriterError { category: self.category, rolled_back_output: Some(index) }
    }

    /// Returns the stable category.
    pub fn category(self) -> (r: FailureCategory)
        ensures
            r == self.category,
    {
        self.category
    }
}

impl Default for WriterError {
    fn default() -> (r: Self)
        ensures
            r == (WriterError {
                category: FailureCategory::UserComponent,
                rolled_back_output: None,
            }),
    {
        Self::new()
    }
}

/// One reader call's outcome.
#[derive(Clone, Debug, PartialEq, Eq)]
pub enum ReadOutcome<I> {
    /// The next item.
    Item(I),
    /// The input is exhausted.
    EndOfInput,
    /// Cooperative stop was observed.
    Stopped,
}

/// One processor call's outcome.
#[derive(Clone, Debug, PartialEq, Eq)]
pub enum ProcessOutcome<O> {
    /// The processed item.
    Item(O),
    /// The item was filtered out.
    Filtered,
    /// Cooperative stop was observed.
    Stopped,
}

/// One writer call's outcome.
#[derive(Clone, Copy, Debug, PartialEq, Eq, Structural)]
pub enum WriteOutcome {
    /// The batch was accepted.
    Written,
    /// Cooperative stop was observed.
    Stopped,
}

/// A durable payload that its schema does not accept.
#[derive(Clone, Copy, Debug, PartialEq, Eq, Structural)]
#[non_exhaustive]
pub enum StateCodecError {
    /// The payload is not the JSON that the schema describes.
    InvalidPayload,
}

/// Whether a component can continue from its committed state after a restart.
#[derive(Clone, Copy, Debug, PartialEq, Eq, Structural)]
pub enum RestartabilityDeclaration {
    /// The component continues from its committed state.
    Restartable,
    /// The component starts over.
    NotRestartable,
}

/// The framework status of an execution.
#[derive(Clone, Copy, Debug, PartialEq, Eq, PartialOrd, Ord, Hash, Structural)]
#[non_exhaustive]
pub enum BatchStatus {
    /// The execution is about to start.
    Starting,
    /// The execution has started.
    Started,
    /// The execution is stopping.
    Stopping,
    /// The execution stopped and can be restarted.
    Stopped,
    /// The execution failed.
    Failed,
    /// The execution completed.
    Completed,
    /// The execution was abandoned.
    Abandoned,
    /// The outcome is not known.
    Unknown,
}

impl BatchStatus {
    /// The stable name.
    pub open spec fn name(self) -> Seq<char> {
        match self {
            BatchStatus::Starting => "STARTING"@,
            BatchStatus::Started => "STARTED"@,
            BatchStatus::Stopping => "STOPPING"@,
            BatchStatus::Stopped => "STOPPED"@,
            BatchStatus::Failed => "FAILED"@,
            BatchStatus::Completed => "COMPLETED"@,
            BatchStatus::Abandoned => "ABANDONED"@,
            BatchStatus::Unknown => "UNKNOWN"@,
        }
    }

    /// Returns the stable name.
    pub fn as_str(self) -> (r: &'static str)
        ensures
            r@ == self.name(),
    {
        match self {
            BatchStatus::Starting => "STARTING",
            BatchStatus::Started => "STARTED",
            BatchStatus::Stopping => "STOPPING",
            BatchStatus::Stopped => "STOPPED",
            BatchStatus::Failed => "FAILED",
            BatchStatus::Completed => "COMPLETED",
            BatchStatus::Abandoned => "ABANDONED",
            BatchStatus::Unknown => "UNKNOWN",
        }
    }
}

/// The counters of an execution.
#[derive(Clone, Copy, Debug, PartialEq, Eq, Structural)]
pub struct ExecutionCounts {
    /// Items read.
    pub read: u64,
    /// Items written.
    pub written: u64,
    /// Items filtered out.
    pub filtered: u64,
    /// Chunks committed.
    pub commits: u64,
    /// Chunks rolled back.
    pub rollbacks: u64,
    /// Items skipped.
    pub skips: u64,
}

impl Default for ExecutionCounts {
    fn default() -> (r: Self)
        ensures
            r == (ExecutionCounts {
                read: 0,
                written: 0,
                filtered: 0,
                commits: 0,
                rollbacks: 0,
                skips: 0,
            }),
    {
        ExecutionCounts { read: 0, written: 0, filtered: 0, commits: 0, rollbacks: 0, skips: 0 }
    }
}

/// An optimistic-lock version.
#[derive(Clone, Copy, Debug, PartialEq, Eq, PartialOrd, Ord, Hash, Structural)]
pub struct ExecutionVersion {
    /// The version number.
    pub number: u64,
}

impl ExecutionVersion {
    /// Wraps a version number.
    pub fn new(number: u64) -> (r: Self)
        ensures
            r.number == number,
    {
        ExecutionVersion { number }
    }

    /// Returns the version number.
    pub fn get(self) -> (r: u64)
        ensures
            r == self.number,
    {
        self.number
    }
}

/// The durable identifier of a step execution.
#[derive(Clone, Copy, Debug, PartialEq, Eq, PartialOrd, Ord, Hash, Structural)]
pub struct StepExecutionId {
    /// The identifier.
    pub number: u64,
}

/// The durable identifier of a partition row.
#[derive(Clone, Copy, Debug, PartialEq, Eq, PartialOrd, Ord, Hash, Structural)]
pub struct StepPartitionId {
    /// The identifier.
    pub number: u64,
}

/// No two statuses have one name.
pub proof fn statuses_are_told_by_their_names(a: BatchStatus, b: BatchStatus)
    ensures
        a.name() == b.name() <==> a == b,
{
    reveal_strlit("STARTING");
    reveal_strlit("STARTED");
    reveal_strlit("STOPPING");
    reveal_strlit("STOPPED");
    reveal_strlit("FAILED");
    reveal_strlit("COMPLETED");
    reveal_strlit("ABANDONED");
    reveal_strlit("UNKNOWN");
    assert("STARTING"@.len() == 8 && "STARTING"@[2] == 'A');
    assert("STARTED"@.len() == 7 && "STARTED"@[2] == 'A');
    assert("STOPPING"@.len() == 8 && "STOPPING"@[2] == 'O');
    assert("STOPPED"@.len() == 7 && "STOPPED"@[2] == 'O');
    assert("FAILED"@.len() == 6);
    assert("COMPLETED"@.len() == 9 && "COMPLETED"@[0] == 'C');
    assert("ABANDONED"@.len() == 9 && "ABANDONED"@[0] == 'A');
    assert("UNKNOWN"@.len() == 7 && "UNKNOWN"@[2] == 'K');
}

/// The name that each status is stored under.
pub proof fn statuses_have_these_names(status: BatchStatus, r: &'static str)
    requires
        call_ensures(BatchStatus::as_str, (status,), r),
    ensures
        status is Starting <==> r@ == "STARTING"@,
        status is Started <==> r@ == "STARTED"@,
        status is Stopping <==> r@ == "STOPPING"@,
        status is Stopped <==> r@ == "STOPPED"@,
        status is Failed <==> r@ == "FAILED"@,
        status is Completed <==> r@ == "COMPLETED"@,
        status is Abandoned <==> r@ == "ABANDONED"@,
        status is Unknown <==> r@ == "UNKNOWN"@,
{
    statuses_are_told_by_their_names(status, BatchStatus::Starting);
    statuses_are_told_by_their_names(status, BatchStatus::Started);
    statuses_are_told_by_their_names(status, BatchStatus::Stopping);
    statuses_are_told_by_their_names(status, BatchStatus::Stopped);
    statuses_are_told_by_their_names(status, BatchStatus::Failed);
    statuses_are_told_by_their_names(status, BatchStatus::Completed);
    statuses_are_told_by_their_names(status, BatchStatus::Abandoned);
    statuses_are_told_by_their_names(status, BatchStatus::Unknown);
}

/// A failure keeps its category through everything that is added to it, and says
/// no more than was added.
pub proof fn failures_keep_their_category(
    category: FailureCategory,
    reader: ReaderError,
    advanced: ReaderError,
    writer: WriterError,
    index: usize,
    attributed: WriterError,
    processor: ProcessorError,
)
    requires
        call_ensures(ReaderError::with_category, (category,), reader),
        call_ensures(ReaderError::with_checkpoint_advanced, (reader,), advanced),
        call_ensures(WriterError::with_category, (category,), writer),
        call_ensures(WriterError::with_rolled_back_output, (writer, index), attributed),
        call_ensures(ProcessorError::with_category, (category,), processor),
    ensures
        reader.category == category && !reader.checkpoint_advanced,
        advanced.category == category && advanced.checkpoint_advanced,
        writer.category == category && writer.rolled_back_output is None,
        attributed.category == category && attributed.rolled_back_output == Some(index),
        processor.category == category,
{
}

/// A failure of which nothing else is known is the component's own.
pub proof fn failures_are_the_components_own(
    reader: ReaderError,
    writer: WriterError,
    processor: ProcessorError,
)
    requires
        call_ensures(ReaderError::new, (), reader),
        call_ensures(WriterError::new, (), writer),
        call_ensures(ProcessorError::new, (), processor),
    ensures
        reader.category == FailureCategory::UserComponent && !reader.checkpoint_advanced,
        writer.category == FailureCategory::UserComponent && writer.rolled_back_output is None,
        processor.category == FailureCategory::UserComponent,
{
}

/// Nothing has been counted at the start.
pub proof fn counters_start_at_zero(r: ExecutionCounts)
    requires
        call_ensures(<ExecutionCounts as Default>::default, (), r),
    ensures
        r.read == 0 && r.written == 0 && r.filtered == 0,
        r.commits == 0 && r.rollbacks == 0 && r.skips == 0,
{
}

/// Whether stop was requested, and what a failure says, is reported as it is.
pub proof fn what_is_asked_is_answered(
    stop: &StopToken,
    requested: bool,
    error: ReaderError,
    advanced: bool,
    category: FailureCategory,
)
    requires
        call_ensures(StopToken::is_stop_requested, (stop,), requested),
        call_ensures(ReaderError::has_checkpoint_advanced, (error,), advanced),
        call_ensures(ReaderError::category, (error,), category),
    ensures
        requested <==> stop.requested,
        advanced <==> error.checkpoint_advanced,
        category == error.category,
{
}

} // verus!
