//! Processing one file of a feed: what is asked for, in which order, and what is
//! recorded of its progress.
use crate::importer::batch::Checkpoint;
use crate::importer::commit::producer_checkpoint_is_committed;
use crate::importer::extract::{result_view, CsvExtractOutcome};
use crate::importer::fault::{D1Error, D1ErrorView, ProcessorError, ProcessorErrorView};
use crate::importer::upload::UploadOutcome;
use crate::number::{decimal, push_decimal};
use vstd::prelude::*;
use vstd::string::*;

verus! {

/// The status of a file that is complete.
pub const STATUS_COMPLETE: i64 = 0;

/// The status of a file that is not complete.
pub const STATUS_INCOMPLETE: i64 = 1;

/// The progress to record of a file.
#[derive(Clone, Copy, Debug, PartialEq, Eq, Structural)]
pub struct Progress {
    pub at: Checkpoint,
    pub status: i64,
}

/// What to record of a file, and what its processing gives.
pub struct Decision {
    pub progress: Progress,
    pub result: Result<CsvExtractOutcome, ProcessorErrorView>,
}

/// An error of the D1 API.
pub open spec fn api_fault(message: Seq<char>) -> ProcessorErrorView {
    ProcessorErrorView::D1(D1ErrorView::ApiError(message))
}

/// The text of the error of a producer that is ahead of what is committed.
pub open spec fn ahead_message(producer: Checkpoint, committed: Checkpoint) -> Seq<char> {
    "CSV producer reached row "@ + decimal(producer.line as nat) + " at byte "@ + decimal(
        producer.byte as nat,
    ) + ", but only row "@ + decimal(committed.line as nat) + " at byte "@ + decimal(
        committed.byte as nat,
    ) + " was committed"@
}

/// What to do when both the upload and the extraction of a file are over. Unless
/// both went well, the committed place is recorded, and the file is not complete.
pub open spec fn decision(
    upload: UploadOutcome,
    extraction: Result<CsvExtractOutcome, ProcessorErrorView>,
) -> Decision {
    let committed = Progress { at: upload.committed_through, status: STATUS_INCOMPLETE };
    if upload.had_error {
        Decision {
            progress: committed,
            result: match extraction {
                Err(error) => Err(error),
                Ok(_) => Err(api_fault("One or more D1 batch groups failed"@)),
            },
        }
    } else if upload.write_budget_exhausted {
        Decision {
            progress: committed,
            result: match extraction {
                Err(error) if error != ProcessorErrorView::UploaderClosed => Err(error),
                _ => Ok(
                    CsvExtractOutcome {
                        file_done: false,
                        checkpoint: upload.committed_through,
                        write_budget_exhausted: true,
                    },
                ),
            },
        }
    } else {
        match extraction {
            Err(error) => Decision { progress: committed, result: Err(error) },
            Ok(outcome) => if outcome.checkpoint.line == upload.committed_through.line
                && outcome.checkpoint.byte >= upload.committed_through.byte {
                Decision {
                    progress: Progress {
                        at: outcome.checkpoint,
                        status: if outcome.file_done {
                            STATUS_COMPLETE
                        } else {
                            STATUS_INCOMPLETE
                        },
                    },
                    result: Ok(outcome),
                }
            } else {
                Decision {
                    progress: committed,
                    result: Err(
                        api_fault(ahead_message(outcome.checkpoint, upload.committed_through)),
                    ),
                }
            },
        }
    }
}

/// Decides what to record of a file, and what its processing gives.
pub fn decide_file(
    upload: UploadOutcome,
    extraction: Result<CsvExtractOutcome, ProcessorError>,
) -> (decided: (Progress, Result<CsvExtractOutcome, ProcessorError>))
    ensures
        decided.0 == decision(upload, result_view(extraction)).progress,
        result_view(decided.1) == decision(upload, result_view(extraction)).result,
{
    let committed = Progress { at: upload.committed_through, status: STATUS_INCOMPLETE };
    if upload.had_error {
        return match extraction {
            Err(error) => (committed, Err(error)),
            Ok(_) => (
                committed,
                Err(ProcessorError::api("One or more D1 batch groups failed".to_owned())),
            ),
        };
    }
    if upload.write_budget_exhausted {
        let stopped = CsvExtractOutcome {
            file_done: false,
            checkpoint: upload.committed_through,
            write_budget_exhausted: true,
        };
        return match extraction {
            Ok(_) => (committed, Ok(stopped)),
            Err(ProcessorError::UploaderClosed) => (committed, Ok(stopped)),
            Err(error) => (committed, Err(error)),
        };
    }
    match extraction {
        Err(error) => (committed, Err(error)),
        Ok(outcome) => {
            if !producer_checkpoint_is_committed(outcome.checkpoint, upload.committed_through) {
                let mut message = "CSV producer reached row ".to_owned();
                push_decimal(&mut message, outcome.checkpoint.line as u128);
                message.append(" at byte ");
                push_decimal(&mut message, outcome.checkpoint.byte as u128);
                message.append(", but only row ");
                push_decimal(&mut message, upload.committed_through.line as u128);
                message.append(" at byte ");
                push_decimal(&mut message, upload.committed_through.byte as u128);
                message.append(" was committed");
                return (committed, Err(ProcessorError::api(message)));
            }
            let status: i64 = if outcome.file_done {
                STATUS_COMPLETE
            } else {
                STATUS_INCOMPLETE
            };
            (Progress { at: outcome.checkpoint, status }, Ok(outcome))
        },
    }
}

/// What is recorded of a file is committed: its row is the committed row, and its
/// byte lies no earlier. A file is recorded as complete only where the upload and
/// the extraction went well and the extraction reached the end.
pub proof fn law_recorded_progress_is_committed(
    upload: UploadOutcome,
    extraction: Result<CsvExtractOutcome, ProcessorErrorView>,
)
    ensures
        ({
            let decided = decision(upload, extraction);
            &&& decided.progress.at.line == upload.committed_through.line
            &&& decided.progress.at.byte >= upload.committed_through.byte
            &&& decided.progress.status == STATUS_COMPLETE ==> !upload.had_error
                && !upload.write_budget_exhausted && extraction is Ok && extraction->Ok_0.file_done
                && decided.result == extraction
        }),
{
}

// ---------------------------------------------------------------------------
// Step by step
// ---------------------------------------------------------------------------
/// Where the processing of a file stands: what it waits for.
#[derive(Debug)]
pub enum FilePhase {
    Starting,
    ReservingCheckpoint,
    AcquiringPermit,
    Transferring,
    RecordingProgress(Result<CsvExtractOutcome, ProcessorError>),
    Finished,
}

/// Something that a file waited for.
#[derive(Debug)]
pub enum FileEvent {
    /// The rows that the run has claimed so far.
    RowsClaimed(u64),
    /// Writes were reserved to record the progress, or not.
    CheckpointReserved(Result<(), D1Error>),
    /// The file may be read now, or not for some reason.
    PermitAcquired(Result<(), String>),
    /// The upload and the extraction are over.
    Transferred(UploadOutcome, Result<CsvExtractOutcome, ProcessorError>),
    /// The progress was recorded, or not.
    ProgressRecorded(Result<(), D1Error>),
}

/// What to do next for a file.
#[derive(Debug)]
pub enum FileAction {
    ReserveCheckpoint,
    AcquirePermit,
    /// Extract from the checkpoint on, and upload what comes.
    Transfer(Checkpoint),
    RecordProgress(Progress),
    Finish(Result<CsvExtractOutcome, ProcessorError>),
}

/// The processing of one file.
#[derive(Debug)]
pub struct FileTask {
    pub checkpoint: Checkpoint,
    pub max_rows: u64,
    pub phase: FilePhase,
}

/// A file that is left as it is.
pub open spec fn untouched(
    checkpoint: Checkpoint,
    write_budget_exhausted: bool,
) -> CsvExtractOutcome {
    CsvExtractOutcome { file_done: false, checkpoint, write_budget_exhausted }
}

/// The event is what the file waits for.
pub open spec fn awaited(phase: FilePhase, event: FileEvent) -> bool {
    match event {
        FileEvent::RowsClaimed(_) => phase is Starting,
        FileEvent::CheckpointReserved(_) => phase is ReservingCheckpoint,
        FileEvent::PermitAcquired(_) => phase is AcquiringPermit,
        FileEvent::Transferred(_, _) => phase is Transferring,
        FileEvent::ProgressRecorded(_) => phase is RecordingProgress,
    }
}

impl FileTask {
    pub fn new(checkpoint: Checkpoint, max_rows: u64) -> (task: FileTask)
        ensures
            task.checkpoint == checkpoint,
            task.max_rows == max_rows,
            task.phase is Starting,
    {
        FileTask { checkpoint, max_rows, phase: FilePhase::Starting }
    }

    /// What to do after an event. The file is left alone where the row limit is
    /// reached or no write is left for its progress; the progress is recorded
    /// before the processing ends.
    pub fn process_csv_file(&mut self, event: FileEvent) -> (action: FileAction)
        requires
            awaited(old(self).phase, event),
        ensures
            final(self).checkpoint == old(self).checkpoint,
            final(self).max_rows == old(self).max_rows,
            match event {
                FileEvent::RowsClaimed(claimed) => if claimed >= old(self).max_rows {
                    final(self).phase is Finished && (action matches FileAction::Finish(result)
                        && result_view(result) == Ok::<CsvExtractOutcome, ProcessorErrorView>(
                        untouched(old(self).checkpoint, false),
                    ))
                } else {
                    final(self).phase is ReservingCheckpoint && action
                        == FileAction::ReserveCheckpoint
                },
                FileEvent::CheckpointReserved(reserved) => match reserved {
                    Ok(()) => final(self).phase is AcquiringPermit && action
                        == FileAction::AcquirePermit,
                    Err(D1Error::WriteBudgetExhausted { .. }) => final(self).phase is Finished && (
                    action matches FileAction::Finish(result) && result_view(result) == Ok::<
                        CsvExtractOutcome,
                        ProcessorErrorView,
                    >(untouched(old(self).checkpoint, true))),
                    Err(error) => final(self).phase is Finished && (
                    action matches FileAction::Finish(result) && result_view(result) == Err::<
                        CsvExtractOutcome,
                        ProcessorErrorView,
                    >(ProcessorErrorView::D1(error@))),
                },
                FileEvent::PermitAcquired(permit) => match permit {
                    Ok(()) => final(self).phase is Transferring && action == FileAction::Transfer(
                        old(self).checkpoint,
                    ),
                    Err(reason) => final(self).phase is Finished && (
                    action matches FileAction::Finish(result) && result_view(result) == Err::<
                        CsvExtractOutcome,
                        ProcessorErrorView,
                    >(api_fault("Failed to acquire CSV producer permit: "@ + reason@))),
                },
                FileEvent::Transferred(upload, extraction) => {
                    let decided = decision(upload, result_view(extraction));
                    &&& action == FileAction::RecordProgress(decided.progress)
                    &&& final(self).phase matches FilePhase::RecordingProgress(result)
                        && result_view(result) == decided.result
                },
                FileEvent::ProgressRecorded(recorded) => final(self).phase is Finished && (
                action matches FileAction::Finish(result) && result_view(result) == match recorded {
                    Err(error) => Err(ProcessorErrorView::D1(error@)),
                    Ok(()) => result_view(old(self).phase->RecordingProgress_0),
                }),
            },
    {
        let mut phase = FilePhase::Finished;
        std::mem::swap(&mut phase, &mut self.phase);
        match event {
            FileEvent::RowsClaimed(claimed) => {
                if claimed >= self.max_rows {
                    return FileAction::Finish(
                        Ok(
                            CsvExtractOutcome {
                                file_done: false,
                                checkpoint: self.checkpoint,
                                write_budget_exhausted: false,
                            },
                        ),
                    );
                }
                self.phase = FilePhase::ReservingCheckpoint;
                FileAction::ReserveCheckpoint
            },
            FileEvent::CheckpointReserved(reserved) => match reserved {
                Ok(()) => {
                    self.phase = FilePhase::AcquiringPermit;
                    FileAction::AcquirePermit
                },
                Err(D1Error::WriteBudgetExhausted { .. }) => FileAction::Finish(
                    Ok(
                        CsvExtractOutcome {
                            file_done: false,
                            checkpoint: self.checkpoint,
                            write_budget_exhausted: true,
                        },
                    ),
                ),
                Err(error) => FileAction::Finish(Err(ProcessorError::D1(error))),
            },
            FileEvent::PermitAcquired(permit) => match permit {
                Ok(()) => {
                    self.phase = FilePhase::Transferring;
                    FileAction::Transfer(self.checkpoint)
                },
                Err(reason) => {
                    let mut message = "Failed to acquire CSV producer permit: ".to_owned();
                    message.append(reason.as_str());
                    FileAction::Finish(Err(ProcessorError::api(message)))
                },
            },
            FileEvent::Transferred(upload, extraction) => {
                let (progress, result) = decide_file(upload, extraction);
                self.phase = FilePhase::RecordingProgress(result);
                FileAction::RecordProgress(progress)
            },
            FileEvent::ProgressRecorded(recorded) => match recorded {
                Err(error) => FileAction::Finish(Err(ProcessorError::D1(error))),
                Ok(()) => match phase {
                    FilePhase::RecordingProgress(result) => FileAction::Finish(result),
                    _ => FileAction::Finish(Err(ProcessorError::UploaderClosed)),
                },
            },
        }
    }
}

} // verus!
