//! Which rows of a file are committed: the batches that succeeded, as far as
//! they follow each other without a gap.
use crate::importer::batch::Checkpoint;
use crate::importer::fault::{D1Error, ProcessorError};
use std::collections::BTreeMap;
use vstd::prelude::*;

verus! {

/// What became of a group of batches: where each starts and ends, and whether
/// the group was written.
#[derive(Debug)]
pub struct BatchTaskResult {
    pub ranges: Vec<(Checkpoint, Checkpoint)>,
    pub result: Result<(), ProcessorError>,
}

#[derive(Clone, Copy, Debug, PartialEq, Eq, Structural)]
pub enum BatchCompletion {
    Success,
    WriteBudgetExhausted,
    Failed,
}

/// How a group ended. To run out of the write budget is not to fail.
pub open spec fn completion(result: Result<(), ProcessorError>) -> BatchCompletion {
    match result {
        Ok(()) => BatchCompletion::Success,
        Err(ProcessorError::D1(D1Error::WriteBudgetExhausted { .. })) =>
            BatchCompletion::WriteBudgetExhausted,
        Err(_) => BatchCompletion::Failed,
    }
}

/// The end of each batch by the line where it starts, and whether it was written.
pub type Statuses = Map<u64, (Checkpoint, bool)>;

/// The statuses with those of some ranges.
pub open spec fn with_ranges(
    statuses: Statuses,
    ranges: Seq<(Checkpoint, Checkpoint)>,
    succeeded: bool,
) -> Statuses
    decreases ranges.len(),
{
    if ranges.len() == 0 {
        statuses
    } else {
        let (start, end) = ranges.last();
        with_ranges(statuses, ranges.drop_last(), succeeded).insert(start.line, (end, succeeded))
    }
}

/// The statuses after a task ended, or was lost.
pub open spec fn after_task(statuses: Statuses, task: Result<BatchTaskResult, String>) -> Statuses {
    match task {
        Ok(done) => with_ranges(
            statuses,
            done.ranges@,
            completion(done.result) == BatchCompletion::Success,
        ),
        Err(_) => statuses,
    }
}

/// How a task ended; one that was lost has failed.
pub open spec fn task_completion(task: Result<BatchTaskResult, String>) -> BatchCompletion {
    match task {
        Ok(done) => completion(done.result),
        Err(_) => BatchCompletion::Failed,
    }
}

/// Records the batches of a task, and tells how it ended.
pub fn record_task_result(
    result: Result<BatchTaskResult, String>,
    statuses: &mut BTreeMap<u64, (Checkpoint, bool)>,
) -> (ended: BatchCompletion)
    ensures
        ended == task_completion(result),
        final(statuses)@ == after_task(old(statuses)@, result),
{
    match result {
        Err(_) => BatchCompletion::Failed,
        Ok(done) => {
            let ended = match done.result {
                Ok(()) => BatchCompletion::Success,
                Err(ProcessorError::D1(D1Error::WriteBudgetExhausted { .. })) =>
                    BatchCompletion::WriteBudgetExhausted,
                Err(_) => BatchCompletion::Failed,
            };
            let succeeded = ended == BatchCompletion::Success;
            let ranges = done.ranges;
            let ghost before = statuses@;
            let mut i: usize = 0;
            while i < ranges.len()
                invariant
                    i <= ranges@.len(),
                    statuses@ == with_ranges(before, ranges@.take(i as int), succeeded),
                decreases ranges.len() - i,
            {
                assert(ranges@.take(i + 1).drop_last() =~= ranges@.take(i as int));
                let (start, end) = ranges[i];
                statuses.insert(start.line, (end, succeeded));
                i += 1;
            }
            assert(ranges@.take(ranges@.len() as int) =~= ranges@);
            ended
        },
    }
}

/// There is a batch at a place that was written and leads on.
pub open spec fn leads_on(at: Checkpoint, statuses: Statuses) -> bool {
    &&& statuses.contains_key(at.line)
    &&& statuses[at.line].1
    &&& statuses[at.line].0.line > at.line
    &&& statuses[at.line].0.byte >= at.byte
}

/// The place that is reached from another through batches that were written.
pub open spec fn committed(initial: Checkpoint, statuses: Statuses) -> Checkpoint
    decreases u64::MAX - initial.line,
{
    if leads_on(initial, statuses) {
        committed(statuses[initial.line].0, statuses)
    } else {
        initial
    }
}

/// The place up to which everything is committed.
pub fn contiguous_committed_checkpoint(
    initial: Checkpoint,
    statuses: &BTreeMap<u64, (Checkpoint, bool)>,
) -> (reached: Checkpoint)
    ensures
        reached == committed(initial, statuses@),
{
    let mut at = initial;
    loop
        invariant_except_break
            committed(initial, statuses@) == committed(at, statuses@),
        ensures
            at == committed(initial, statuses@),
        decreases u64::MAX - at.line,
    {
        match statuses.get(&at.line) {
            Some(status) => {
                let (end, succeeded) = *status;
                if !succeeded || end.line <= at.line || end.byte < at.byte {
                    break;
                }
                at = end;
            },
            None => {
                break;
            },
        }
    }
    at
}

/// The producer is no further than what is committed, but for bytes between
/// records.
pub fn producer_checkpoint_is_committed(producer: Checkpoint, committed_through: Checkpoint) -> (yes:
    bool)
    ensures
        yes == (producer.line == committed_through.line && producer.byte >= committed_through.byte),
{
    producer.line == committed_through.line && producer.byte >= committed_through.byte
}

// ---------------------------------------------------------------------------
// Laws
// ---------------------------------------------------------------------------
/// The lines from one place to another are covered by batches that were written.
pub open spec fn covered(from: Checkpoint, to: Checkpoint, statuses: Statuses) -> bool
    decreases to.line - from.line,
{
    from == to || (leads_on(from, statuses) && statuses[from.line].0.line <= to.line && covered(
        statuses[from.line].0,
        to,
        statuses,
    ))
}

/// Nothing is committed that was not written: every line up to the committed
/// place belongs to a batch that was written, without a gap, and the place stops
/// before the first gap or failure. It never lies before the initial place.
pub proof fn law_committed_stops_at_the_first_gap_or_failure(
    initial: Checkpoint,
    statuses: Statuses,
)
    ensures
        covered(initial, committed(initial, statuses), statuses),
        !leads_on(committed(initial, statuses), statuses),
        initial.line <= committed(initial, statuses).line,
        initial.byte <= committed(initial, statuses).byte,
    decreases u64::MAX - initial.line,
{
    if leads_on(initial, statuses) {
        law_committed_stops_at_the_first_gap_or_failure(statuses[initial.line].0, statuses);
    }
}

/// A batch that is written later only ever moves the committed place forward.
pub proof fn law_one_more_written_batch_never_moves_back(
    initial: Checkpoint,
    statuses: Statuses,
    start: u64,
    end: Checkpoint,
)
    requires
        !statuses.contains_key(start),
    ensures
        committed(initial, statuses).line <= committed(
            initial,
            statuses.insert(start, (end, true)),
        ).line,
        committed(initial, statuses).byte <= committed(
            initial,
            statuses.insert(start, (end, true)),
        ).byte,
    decreases u64::MAX - initial.line,
{
    let more = statuses.insert(start, (end, true));
    if leads_on(initial, statuses) {
        assert(initial.line != start);
        assert(leads_on(initial, more));
        law_one_more_written_batch_never_moves_back(
            statuses[initial.line].0,
            statuses,
            start,
            end,
        );
    } else {
        law_committed_stops_at_the_first_gap_or_failure(initial, more);
    }
}

} // verus!
