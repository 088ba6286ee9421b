//! Committed output progress in a file.
//!
//! Progress is the file's length as of the last committed chunk. A restart
//! reconciles the file to exactly that length: bytes written but never committed
//! are cut off, and a file that is shorter is refused.

use super::position::{number_json, number_of_bytes, WriterPositionSchema};
use crate::item_stream::{StreamOpenError, StreamOpenOutcome, StreamUpdateError};
use crate::json::json_text;
use crate::runtime::{FailureCategory, StopToken, WriteOutcome, WriterError};
use vstd::prelude::*;

verus! {

/// The length that a file is to be reconciled to.
#[derive(Clone, Copy, Debug, PartialEq, Eq, Structural)]
pub struct OutputTarget {
    /// The committed length.
    pub length: u64,
    /// A committed length was inherited.
    pub restored: bool,
}

/// The target that inherited bytes spell; zero when nothing was inherited.
pub open spec fn inherited_target(inherited: Option<Seq<u8>>) -> Option<OutputTarget> {
    match inherited {
        None => Some(OutputTarget { length: 0, restored: false }),
        Some(bytes) => match number_of_bytes(bytes, "committed_bytes"@) {
            Some(length) => Some(OutputTarget { length, restored: true }),
            None => None,
        },
    }
}

/// What is to be done to a file of a known length.
#[derive(Clone, Copy, Debug, PartialEq, Eq, Structural)]
pub enum Reconciliation {
    /// The file has the target's length.
    Keep,
    /// The file is longer and is to be cut to the target's length.
    Truncate,
}

/// What is to be done to a file whose length could be read or not, so that it
/// holds the committed bytes and no others: a longer one is cut, a shorter one
/// is refused.
pub open spec fn reconciliation(committed: u64, actual: Option<u64>) -> Result<
    Reconciliation,
    StreamOpenError,
> {
    match actual {
        None => Err(StreamOpenError { category: FailureCategory::UserComponent }),
        Some(length) => if length < committed {
            Err(StreamOpenError { category: FailureCategory::Invariant })
        } else if length > committed {
            Ok(Reconciliation::Truncate)
        } else {
            Ok(Reconciliation::Keep)
        },
    }
}

/// A file's content after its reconciliation.
pub open spec fn reconciled(file: Seq<u8>, committed: u64, plan: Reconciliation) -> Seq<u8> {
    match plan {
        Reconciliation::Keep => file,
        Reconciliation::Truncate => file.take(committed as int),
    }
}

/// Decides what is to be done to a file.
pub(crate) fn reconcile_length(committed: u64, actual: Option<u64>) -> (r: Result<
    Reconciliation,
    StreamOpenError,
>)
    ensures
        r == reconciliation(committed, actual),
{
    match actual {
        None => Err(StreamOpenError::new()),
        Some(length) => {
            if length < committed {
                Err(StreamOpenError::with_category(FailureCategory::Invariant))
            } else if length != committed {
                Ok(Reconciliation::Truncate)
            } else {
                Ok(Reconciliation::Keep)
            }
        },
    }
}

/// After a restart the file holds exactly what was committed: whatever was
/// written behind the committed bytes and never committed is gone.
pub proof fn restart_keeps_exactly_the_committed_bytes(committed: Seq<u8>, uncommitted: Seq<u8>)
    requires
        committed.len() + uncommitted.len() <= u64::MAX,
    ensures
        reconciliation(
            committed.len() as u64,
            Some((committed + uncommitted).len() as u64),
        ) matches Ok(plan) && reconciled(
            committed + uncommitted,
            committed.len() as u64,
            plan,
        ) == committed,
{
    assert((committed + uncommitted).take(committed.len() as int) =~= committed);
    assert(uncommitted.len() == 0 ==> committed + uncommitted =~= committed);
}

/// A file that lost committed bytes is never resumed.
pub proof fn lost_bytes_are_refused(committed: Seq<u8>, kept: nat)
    requires
        kept < committed.len() <= u64::MAX,
    ensures
        reconciliation(committed.len() as u64, Some(kept as u64)) == Err::<
            Reconciliation,
            StreamOpenError,
        >(StreamOpenError { category: FailureCategory::Invariant }),
{
}

/// Output progress that a writer and its stream share.
#[derive(Clone, Copy, Debug, PartialEq, Eq, Structural)]
pub struct CommittedOutput {
    /// The committed length.
    pub committed_bytes: u64,
}

impl CommittedOutput {
    /// Progress of a fresh file.
    pub fn new() -> (r: Self)
        ensures
            r.committed_bytes == 0,
    {
        CommittedOutput { committed_bytes: 0 }
    }

    /// Whether a write call stops before it writes anything.
    pub fn stops(&self, stop: &StopToken) -> (r: Option<WriteOutcome>)
        ensures
            r == (if stop.requested {
                Some(WriteOutcome::Stopped)
            } else {
                None::<WriteOutcome>
            }),
    {
        if stop.is_stop_requested() {
            Some(WriteOutcome::Stopped)
        } else {
            None
        }
    }

    /// The length that the file is to be reconciled to.
    pub fn open(&self, inherited: Option<&[u8]>) -> (r: Result<OutputTarget, StreamOpenError>)
        ensures
            ({
                let target = inherited_target(
                    match inherited {
                        Some(bytes) => Some(bytes@),
                        None => None,
                    },
                );
                match r {
                    Ok(found) => target == Some(found),
                    Err(error) => target is None && error == (StreamOpenError {
                        category: FailureCategory::UserComponent,
                    }),
                }
            }),
    {
        match inherited {
            None => Ok(OutputTarget { length: 0, restored: false }),
            Some(bytes) => match WriterPositionSchema.decode(bytes) {
                Ok(length) => Ok(OutputTarget { length, restored: true }),
                Err(_) => Err(StreamOpenError::new()),
            },
        }
    }

    /// What is to be done to the file, whose length could be read or not.
    pub fn reconcile(&self, target: OutputTarget, actual: Option<u64>) -> (r: Result<
        Reconciliation,
        StreamOpenError,
    >)
        ensures
            r == reconciliation(target.length, actual),
    {
        reconcile_length(target.length, actual)
    }

    /// Ends the opening after the file was cut and positioned, or could not be.
    pub fn opened(&mut self, target: OutputTarget, reconciled: bool) -> (r: Result<
        StreamOpenOutcome,
        StreamOpenError,
    >)
        ensures
            if reconciled {
                &&& final(self).committed_bytes == target.length
                &&& r == Ok::<StreamOpenOutcome, StreamOpenError>(
                    if target.restored {
                        StreamOpenOutcome::Restored
                    } else {
                        StreamOpenOutcome::Initial
                    },
                )
            } else {
                &&& *final(self) == *old(self)
                &&& r == Err::<StreamOpenOutcome, StreamOpenError>(
                    StreamOpenError { category: FailureCategory::UserComponent },
                )
            },
    {
        if !reconciled {
            return Err(StreamOpenError::new());
        }
        self.committed_bytes = target.length;
        if target.restored {
            Ok(StreamOpenOutcome::Restored)
        } else {
            Ok(StreamOpenOutcome::Initial)
        }
    }

    /// Ends a write call whose bytes reached the file up to `position`, or did
    /// not.
    pub fn written_to(&mut self, position: Option<u64>) -> (r: Result<WriteOutcome, WriterError>)
        ensures
            match position {
                Some(length) => {
                    &&& final(self).committed_bytes == length
                    &&& r == Ok::<WriteOutcome, WriterError>(WriteOutcome::Written)
                },
                None => {
                    &&& *final(self) == *old(self)
                    &&& r == Err::<WriteOutcome, WriterError>(
                        WriterError {
                            category: FailureCategory::UserComponent,
                            rolled_back_output: None,
                        },
                    )
                },
            },
    {
        match position {
            Some(length) => {
                self.committed_bytes = length;
                Ok(WriteOutcome::Written)
            },
            None => Err(WriterError::new()),
        }
    }

    /// Prepares the candidate state.
    pub fn update(&self) -> (r: Result<Vec<u8>, StreamUpdateError>)
        ensures
            r is Ok,
            r->Ok_0@ == json_text(number_json("committed_bytes"@, self.committed_bytes)),
            inherited_target(Some(r->Ok_0@)) == Some(
                OutputTarget { length: self.committed_bytes, restored: true },
            ),
    {
        match WriterPositionSchema.encode(self.committed_bytes) {
            Ok(bytes) => Ok(bytes),
            Err(_) => Err(StreamUpdateError::new()),
        }
    }
}

impl Default for CommittedOutput {
    fn default() -> (r: Self)
        ensures
            r.committed_bytes == 0,
    {
        Self::new()
    }
}

/// A file is cut exactly if it is longer than committed, kept if it has the
/// committed length, and refused if it is shorter or its length is not known.
pub proof fn a_file_is_reconciled_to_its_committed_length(
    output: &CommittedOutput,
    target: OutputTarget,
    actual: Option<u64>,
    r: Result<Reconciliation, StreamOpenError>,
)
    requires
        call_ensures(CommittedOutput::reconcile, (output, target, actual), r),
    ensures
        actual is None ==> r is Err && r->Err_0.category == FailureCategory::UserComponent,
        actual matches Some(length) && length < target.length ==> r is Err
            && r->Err_0.category == FailureCategory::Invariant,
        actual == Some(target.length) ==> r == Ok::<Reconciliation, StreamOpenError>(
            Reconciliation::Keep,
        ),
        actual matches Some(length) && length > target.length ==> r == Ok::<
            Reconciliation,
            StreamOpenError,
        >(Reconciliation::Truncate),
{
}

/// An output that is opened with what another one had prepared is reconciled to
/// the length that was committed there; without inherited state, to nothing.
pub proof fn a_restart_targets_the_committed_length(
    before: &CommittedOutput,
    prepared: Result<Vec<u8>, StreamUpdateError>,
    output: &CommittedOutput,
    inherited: Option<&[u8]>,
    r: Result<OutputTarget, StreamOpenError>,
)
    requires
        call_ensures(CommittedOutput::update, (before,), prepared),
        call_ensures(CommittedOutput::open, (output, inherited), r),
    ensures
        prepared is Ok,
        inherited matches Some(bytes) && bytes@ == prepared->Ok_0@ ==> r == Ok::<
            OutputTarget,
            StreamOpenError,
        >(OutputTarget { length: before.committed_bytes, restored: true }),
        inherited is None ==> r == Ok::<OutputTarget, StreamOpenError>(
            OutputTarget { length: 0, restored: false },
        ),
{
}

/// What was opened is at its target, and what was written is at the file's
/// length; a failure of either leaves the progress as it was.
pub proof fn progress_is_the_files_length(
    opened: &mut CommittedOutput,
    target: OutputTarget,
    reconciled: bool,
    o: Result<StreamOpenOutcome, StreamOpenError>,
    written: &mut CommittedOutput,
    position: Option<u64>,
    w: Result<WriteOutcome, WriterError>,
)
    requires
        call_ensures(CommittedOutput::opened, (opened, target, reconciled), o),
        call_ensures(CommittedOutput::written_to, (written, position), w),
    ensures
        o is Ok <==> reconciled,
        reconciled ==> final(opened).committed_bytes == target.length,
        !reconciled ==> *final(opened) == *old(opened),
        o == Ok::<StreamOpenOutcome, StreamOpenError>(StreamOpenOutcome::Restored) <==> reconciled
            && target.restored,
        w is Ok <==> position is Some,
        position matches Some(length) ==> final(written).committed_bytes == length && w == Ok::<
            WriteOutcome,
            WriterError,
        >(WriteOutcome::Written),
        position is None ==> *final(written) == *old(written),
{
}

/// A write call stops exactly if it is to stop.
pub proof fn an_output_stops_when_asked_to(
    output: &CommittedOutput,
    stop: &StopToken,
    r: Option<WriteOutcome>,
)
    requires
        call_ensures(CommittedOutput::stops, (output, stop), r),
    ensures
        stop.requested <==> r is Some,
        r matches Some(outcome) ==> outcome == WriteOutcome::Stopped,
{
}

} // verus!
