//! Uploading the batches of a file: they are grouped into requests, a bounded
//! number of requests runs at once, and each request reserves its writes.
use crate::importer::batch::{Checkpoint, SerializedBatch};
use crate::importer::budget::{
    after_settling, exceeded_message, floored_difference, D1WriteBudget, D1WriteReservation,
};
use crate::importer::commit::{
    after_task, committed, contiguous_committed_checkpoint, record_task_result, task_completion,
    BatchCompletion, BatchTaskResult, Statuses,
};
use crate::importer::d1::{values, D1Query, D1Result, SqlValue, SqlValueView};
use crate::importer::extract::BatchMessage;
use crate::importer::fault::{D1Error, D1ErrorView, ProcessorError, ProcessorErrorView};
use std::collections::BTreeMap;
use vstd::prelude::*;
use vstd::string::*;

verus! {

/// The writes that D1 counts for one row at most: one for the table, and one for
/// its only index.
pub const MAX_D1_WRITES_PER_LOGICAL_ROW: u64 = 2;

// ---------------------------------------------------------------------------
// One group of batches
// ---------------------------------------------------------------------------
/// The rows of some batches, by the lines where they start and end.
pub open spec fn logical_rows(batches: Seq<SerializedBatch>) -> nat
    decreases batches.len(),
{
    if batches.len() == 0 {
        0
    } else {
        logical_rows(batches.drop_last()) + floored_difference(
            batches.last().end.line as int,
            batches.last().start.line as int,
        ) as nat
    }
}

proof fn lemma_logical_rows_grow(batches: Seq<SerializedBatch>, i: int)
    requires
        0 <= i <= batches.len(),
    ensures
        logical_rows(batches.take(i)) <= logical_rows(batches),
    decreases batches.len() - i,
{
    if i < batches.len() {
        lemma_logical_rows_grow(batches, i + 1);
        assert(batches.take(i + 1).drop_last() =~= batches.take(i));
    } else {
        assert(batches.take(i) =~= batches);
    }
}

/// The rows of a group, and the writes to reserve for them.
pub fn group_reservation(batches: &Vec<SerializedBatch>) -> (reservation: Result<
    (u64, u64),
    ProcessorError,
>)
    ensures
        match reservation {
            Ok((rows, writes)) => rows == logical_rows(batches@) && writes == rows
                * MAX_D1_WRITES_PER_LOGICAL_ROW,
            Err(error) => error@ == ProcessorErrorView::D1(
                D1ErrorView::ApiError(
                    if logical_rows(batches@) > u64::MAX {
                        "D1 batch logical-row reservation overflowed u64"@
                    } else {
                        "D1 batch write reservation overflowed u64"@
                    },
                ),
            ) && logical_rows(batches@) * MAX_D1_WRITES_PER_LOGICAL_ROW > u64::MAX,
        },
{
    let mut total: u64 = 0;
    let mut i: usize = 0;
    while i < batches.len()
        invariant
            i <= batches@.len(),
            total == logical_rows(batches@.take(i as int)),
        decreases batches.len() - i,
    {
        proof {
            assert(batches@.take(i + 1).drop_last() =~= batches@.take(i as int));
            lemma_logical_rows_grow(batches@, i + 1);
        }
        let rows: u64 = batches[i].end.line.saturating_sub(batches[i].start.line);
        match total.checked_add(rows) {
            Some(sum) => {
                total = sum;
            },
            None => {
                return Err(
                    ProcessorError::api(
                        "D1 batch logical-row reservation overflowed u64".to_owned(),
                    ),
                );
            },
        }
        i += 1;
    }
    assert(batches@.take(batches@.len() as int) =~= batches@);
    match total.checked_mul(MAX_D1_WRITES_PER_LOGICAL_ROW) {
        Some(writes) => Ok((total, writes)),
        None => Err(
            ProcessorError::api("D1 batch write reservation overflowed u64".to_owned()),
        ),
    }
}

/// The statements of a group: the same for each batch, with its payload.
pub fn group_queries(insert_sql: &str, batches: &Vec<SerializedBatch>) -> (queries: Vec<D1Query>)
    ensures
        queries@.len() == batches@.len(),
        forall|i: int|
            0 <= i < batches@.len() ==> (#[trigger] queries@[i]).is(
                insert_sql@,
                seq![SqlValueView::Text(batches@[i].payload@)],
            ),
{
    let mut queries: Vec<D1Query> = Vec::new();
    let mut i: usize = 0;
    while i < batches.len()
        invariant
            i <= batches@.len(),
            queries@.len() == i,
            forall|k: int|
                0 <= k < i ==> (#[trigger] queries@[k]).is(
                    insert_sql@,
                    seq![SqlValueView::Text(batches@[k].payload@)],
                ),
        decreases batches.len() - i,
    {
        let params: Vec<SqlValue> = vec![SqlValue::Text(batches[i].payload.clone())];
        assert(values(params@) =~= seq![SqlValueView::Text(batches@[i as int].payload@)]);
        queries.push(D1Query { sql: insert_sql.to_owned(), params });
        i += 1;
    }
    queries
}

/// Where each batch of a group starts and ends.
pub open spec fn ranges_of(batches: Seq<SerializedBatch>) -> Seq<(Checkpoint, Checkpoint)> {
    batches.map_values(|b: SerializedBatch| (b.start, b.end))
}

pub fn group_ranges(batches: &Vec<SerializedBatch>) -> (ranges: Vec<(Checkpoint, Checkpoint)>)
    ensures
        ranges@ == ranges_of(batches@),
{
    let mut ranges: Vec<(Checkpoint, Checkpoint)> = Vec::new();
    let mut i: usize = 0;
    while i < batches.len()
        invariant
            i <= batches@.len(),
            ranges@.len() == i,
            forall|k: int|
                0 <= k < i ==> (#[trigger] ranges@[k]) == (batches@[k].start, batches@[k].end),
        decreases batches.len() - i,
    {
        ranges.push((batches[i].start, batches[i].end));
        i += 1;
    }
    assert(ranges@ =~= ranges_of(batches@));
    ranges
}

/// The writes of all answers, if each tells its writes.
pub open spec fn all_writes(results: Seq<D1Result>) -> Option<nat>
    decreases results.len(),
{
    if results.len() == 0 {
        Some(0)
    } else {
        match (all_writes(results.drop_last()), results.last().writes()) {
            (Some(front), Some(last)) => Some(front + last as nat),
            _ => None,
        }
    }
}

proof fn lemma_all_writes_grow(results: Seq<D1Result>, i: int)
    requires
        0 <= i <= results.len(),
        all_writes(results) is Some,
    ensures
        all_writes(results.take(i)) is Some,
        all_writes(results.take(i))->Some_0 <= all_writes(results)->Some_0,
    decreases results.len() - i,
{
    if i < results.len() {
        lemma_all_writes_grow(results, i + 1);
        assert(results.take(i + 1).drop_last() =~= results.take(i));
    } else {
        assert(results.take(i) =~= results);
    }
}

/// The writes of all answers, if they are known and can be counted.
pub open spec fn known_writes(results: Seq<D1Result>) -> Option<u64> {
    match all_writes(results) {
        Some(n) => if n <= u64::MAX {
            Some(n as u64)
        } else {
            None
        },
        None => None,
    }
}

fn sum_writes(results: &Vec<D1Result>) -> (writes: Option<u64>)
    ensures
        writes == known_writes(results@),
{
    let mut total: u64 = 0;
    let mut i: usize = 0;
    while i < results.len()
        invariant
            i <= results@.len(),
            all_writes(results@.take(i as int)) == Some(total as nat),
        decreases results.len() - i,
    {
        proof {
            assert(results@.take(i + 1).drop_last() =~= results@.take(i as int));
            if all_writes(results@) is Some {
                lemma_all_writes_grow(results@, i + 1);
            }
        }
        match results[i].rows_written() {
            None => {
                return None;
            },
            Some(writes) => match total.checked_add(writes) {
                None => {
                    return None;
                },
                Some(sum) => {
                    total = sum;
                },
            },
        }
        i += 1;
    }
    assert(results@.take(results@.len() as int) =~= results@);
    Some(total)
}

/// What a request with its reservation came to.
pub enum Settlement {
    /// All that was reserved counts as written, and this is the error, if any.
    Consumed(Option<ProcessorErrorView>),
    /// These writes took place.
    Written(u64),
}

/// How a reservation is settled: with the writes that the answers tell, where an
/// unambiguous success tells them; else in full.
pub open spec fn settlement(outcome: Result<(Vec<D1Result>, bool), D1Error>) -> Settlement {
    match outcome {
        Err(error) => Settlement::Consumed(Some(ProcessorErrorView::D1(error@))),
        Ok((results, ambiguous)) => match known_writes(results@) {
            None => Settlement::Consumed(
                Some(
                    ProcessorErrorView::D1(
                        D1ErrorView::ApiError(
                            "D1 response omitted or overflowed rows_written metadata; consumed the full write reservation"@,
                        ),
                    ),
                ),
            ),
            Some(writes) => if ambiguous {
                Settlement::Consumed(None)
            } else {
                Settlement::Written(writes)
            },
        },
    }
}

/// Settles the reservation of a group with what the request came to.
pub fn settle_group(
    budget: &mut D1WriteBudget,
    reservation: D1WriteReservation,
    outcome: Result<(Vec<D1Result>, bool), D1Error>,
) -> (settled: Result<(), ProcessorError>)
    ensures
        match settlement(outcome) {
            Settlement::Consumed(error) => *final(budget) == after_settling(
                *old(budget),
                reservation.reserved,
                reservation.reserved,
            ) && match (settled, error) {
                (Ok(()), None) => true,
                (Err(given), Some(said)) => given@ == said,
                _ => false,
            },
            Settlement::Written(writes) => *final(budget) == after_settling(
                *old(budget),
                reservation.reserved,
                writes,
            ) && match settled {
                Ok(()) => writes <= reservation.reserved,
                Err(error) => writes > reservation.reserved && error@ == ProcessorErrorView::D1(
                    D1ErrorView::ApiError(exceeded_message(writes, reservation.reserved)),
                ),
            },
        },
{
    match outcome {
        Err(error) => {
            reservation.consume_all(budget);
            Err(ProcessorError::D1(error))
        },
        Ok((results, ambiguous)) => match sum_writes(&results) {
            None => {
                reservation.consume_all(budget);
                Err(
                    ProcessorError::api(
                        "D1 response omitted or overflowed rows_written metadata; consumed the full write reservation".to_owned(),
                    ),
                )
            },
            Some(writes) => {
                if ambiguous {
                    reservation.consume_all(budget);
                    return Ok(());
                }
                match reservation.finish(budget, writes) {
                    Ok(()) => Ok(()),
                    Err(error) => Err(ProcessorError::D1(error)),
                }
            },
        },
    }
}

// ---------------------------------------------------------------------------
// The batches of a file
// ---------------------------------------------------------------------------
/// How far an upload came.
#[derive(Clone, Copy, Debug, PartialEq, Eq, Structural)]
pub struct UploadOutcome {
    pub committed_through: Checkpoint,
    pub had_error: bool,
    pub write_budget_exhausted: bool,
}

/// Where an upload stands.
#[derive(Clone, Copy, Debug, PartialEq, Eq, Structural)]
pub enum UploadPhase {
    /// It takes messages.
    Receiving,
    /// A group is full, and waits until a request may start.
    GroupReady,
    /// No message comes any more.
    Closing,
    /// It waits for the requests that run.
    Draining,
}

/// What an upload does next.
#[derive(Debug)]
pub enum UploadAction {
    /// Wait for a message.
    Receive,
    /// Start a request for a group of batches.
    Spawn { insert_sql: String, batches: Vec<SerializedBatch> },
    /// Wait for a request to end. Messages are taken afterwards only if the
    /// receiver is still needed.
    Join { receiver_needed: bool },
    /// Everything is done.
    Finish(UploadOutcome),
}

/// The state of an upload.
pub struct UploadState {
    pub phase: UploadPhase,
    pub sql: Option<Seq<char>>,
    pub pending: Seq<SerializedBatch>,
    pub running: nat,
    pub statuses: Statuses,
    pub had_error: bool,
    pub write_budget_exhausted: bool,
}

/// Uploads the batches of one file.
pub struct Uploader {
    pub initial: Checkpoint,
    pub statements_per_request: usize,
    pub concurrency_limit: usize,
    pub phase: UploadPhase,
    pub insert_sql: Option<String>,
    pub pending: Vec<SerializedBatch>,
    pub running: usize,
    pub statuses: BTreeMap<u64, (Checkpoint, bool)>,
    pub had_error: bool,
    pub write_budget_exhausted: bool,
}

impl View for Uploader {
    type V = UploadState;

    open spec fn view(&self) -> UploadState {
        UploadState {
            phase: self.phase,
            sql: match self.insert_sql {
                Some(sql) => Some(sql@),
                None => None,
            },
            pending: self.pending@,
            running: self.running as nat,
            statuses: self.statuses@,
            had_error: self.had_error,
            write_budget_exhausted: self.write_budget_exhausted,
        }
    }
}

impl UploadState {
    /// Something ended the upload early.
    pub open spec fn stopped(self) -> bool {
        self.had_error || self.write_budget_exhausted
    }

    /// The state after a message, or after the last one.
    pub open spec fn received(
        self,
        message: Option<BatchMessage>,
        statements: usize,
    ) -> UploadState {
        match message {
            None => UploadState { phase: UploadPhase::Closing, ..self },
            Some(BatchMessage::InitSql(sql)) => UploadState {
                sql: if self.sql is Some {
                    self.sql
                } else {
                    Some(sql@)
                },
                ..self
            },
            Some(BatchMessage::Data(batch)) => UploadState {
                pending: self.pending.push(batch),
                phase: if self.pending.len() + 1 < statements {
                    UploadPhase::Receiving
                } else {
                    UploadPhase::GroupReady
                },
                ..self
            },
        }
    }

    /// The state after a request ended.
    pub open spec fn joined(self, task: Result<BatchTaskResult, String>) -> UploadState {
        let ended = task_completion(task);
        UploadState {
            running: (self.running - 1) as nat,
            statuses: after_task(self.statuses, task),
            had_error: self.had_error || ended == BatchCompletion::Failed,
            write_budget_exhausted: self.write_budget_exhausted || ended
                == BatchCompletion::WriteBudgetExhausted,
            ..self
        }
    }

    /// A group starts now: it is full and there is room for it, or no more will
    /// come; and nothing ended the upload early.
    pub open spec fn group_starts(self, limit: usize) -> bool {
        &&& !self.stopped()
        &&& self.phase == UploadPhase::GroupReady && self.running < limit || self.phase
            == UploadPhase::Closing && self.pending.len() > 0
    }

    /// A full group waits for a request to end.
    pub open spec fn group_waits(self, limit: usize) -> bool {
        self.phase == UploadPhase::GroupReady && !self.stopped() && self.running >= limit
    }

    /// The state after the next action is chosen.
    pub open spec fn acted(self, limit: usize) -> UploadState {
        if self.group_starts(limit) {
            if self.sql is Some {
                UploadState {
                    pending: seq![],
                    running: self.running + 1,
                    phase: if self.phase == UploadPhase::GroupReady {
                        UploadPhase::Receiving
                    } else {
                        UploadPhase::Draining
                    },
                    ..self
                }
            } else {
                UploadState { had_error: true, phase: UploadPhase::Draining, ..self }
            }
        } else if self.phase == UploadPhase::Receiving || self.group_waits(limit) {
            self
        } else {
            UploadState { phase: UploadPhase::Draining, ..self }
        }
    }
}

impl Uploader {
    /// No more requests run than the limit allows; the last group, for which
    /// nothing waits any more, may come on top.
    pub open spec fn wf(&self) -> bool {
        &&& 0 < self.concurrency_limit < usize::MAX
        &&& self.running <= self.concurrency_limit || self.phase == UploadPhase::Draining
            && self.running == self.concurrency_limit + 1
    }

    /// The limits stay the same.
    pub open spec fn same_limits(&self, other: &Uploader) -> bool {
        &&& self.initial == other.initial
        &&& self.statements_per_request == other.statements_per_request
        &&& self.concurrency_limit == other.concurrency_limit
    }

    /// The upload of a file from a place on.
    pub fn new(initial: Checkpoint, statements_per_request: usize, concurrency_limit: usize) -> (uploader:
        Uploader)
        requires
            0 < concurrency_limit < usize::MAX,
        ensures
            uploader.wf(),
            uploader.initial == initial,
            uploader.statements_per_request == statements_per_request,
            uploader.concurrency_limit == concurrency_limit,
            uploader@ == (UploadState {
                phase: UploadPhase::Receiving,
                sql: None,
                pending: seq![],
                running: 0,
                statuses: Map::empty(),
                had_error: false,
                write_budget_exhausted: false,
            }),
    {
        Uploader {
            initial,
            statements_per_request,
            concurrency_limit,
            phase: UploadPhase::Receiving,
            insert_sql: None,
            pending: Vec::new(),
            running: 0,
            statuses: BTreeMap::new(),
            had_error: false,
            write_budget_exhausted: false,
        }
    }

    /// Takes a message; `None` where no more will come.
    pub fn receive(&mut self, message: Option<BatchMessage>)
        requires
            old(self).wf(),
            old(self).phase == UploadPhase::Receiving,
        ensures
            final(self).wf(),
            final(self).same_limits(old(self)),
            final(self)@ == old(self)@.received(message, old(self).statements_per_request),
    {
        match message {
            None => {
                self.phase = UploadPhase::Closing;
            },
            Some(BatchMessage::InitSql(sql)) => {
                if self.insert_sql.is_none() {
                    self.insert_sql = Some(sql);
                }
            },
            Some(BatchMessage::Data(batch)) => {
                self.pending.push(batch);
                if self.pending.len() >= self.statements_per_request {
                    self.phase = UploadPhase::GroupReady;
                }
            },
        }
    }

    /// Takes what a request came to.
    pub fn join(&mut self, task: Result<BatchTaskResult, String>)
        requires
            old(self).wf(),
            old(self).running > 0,
        ensures
            final(self).wf(),
            final(self).same_limits(old(self)),
            final(self)@ == old(self)@.joined(task),
    {
        self.running = self.running - 1;
        match record_task_result(task, &mut self.statuses) {
            BatchCompletion::Success => {},
            BatchCompletion::WriteBudgetExhausted => {
                self.write_budget_exhausted = true;
            },
            BatchCompletion::Failed => {
                self.had_error = true;
            },
        }
    }

    /// Chooses what to do next.
    pub fn act(&mut self) -> (action: UploadAction)
        requires
            old(self).wf(),
        ensures
            final(self).wf(),
            final(self).same_limits(old(self)),
            final(self)@ == old(self)@.acted(old(self).concurrency_limit),
            ({
                let before = old(self)@;
                let after = final(self)@;
                let limit = old(self).concurrency_limit;
                match action {
                    UploadAction::Receive => before.phase == UploadPhase::Receiving,
                    UploadAction::Spawn { insert_sql, batches } => before.group_starts(limit)
                        && before.sql == Some(insert_sql@) && batches@ == before.pending,
                    UploadAction::Join { receiver_needed } => after.running > 0 && if receiver_needed {
                        before.group_waits(limit)
                    } else {
                        after.phase == UploadPhase::Draining && !(before.group_starts(limit)
                            && before.sql is Some)
                    },
                    UploadAction::Finish(outcome) => {
                        &&& after.running == 0
                        &&& after.phase == UploadPhase::Draining
                        &&& !(before.group_starts(limit) && before.sql is Some)
                        &&& outcome == (UploadOutcome {
                            committed_through: committed(old(self).initial, after.statuses),
                            had_error: after.had_error,
                            write_budget_exhausted: after.write_budget_exhausted,
                        })
                    },
                }
            }),
    {
        let stopped = self.had_error || self.write_budget_exhausted;
        let mut starts = false;
        match self.phase {
            UploadPhase::Receiving => {
                return UploadAction::Receive;
            },
            UploadPhase::GroupReady => {
                if !stopped {
                    if self.running >= self.concurrency_limit {
                        return UploadAction::Join { receiver_needed: true };
                    }
                    starts = true;
                }
            },
            UploadPhase::Closing => {
                starts = !stopped && self.pending.len() > 0;
            },
            UploadPhase::Draining => {},
        }
        if starts {
            match &self.insert_sql {
                Some(sql) => {
                    let insert_sql = sql.clone();
                    let mut batches: Vec<SerializedBatch> = Vec::new();
                    std::mem::swap(&mut batches, &mut self.pending);
                    self.running = self.running + 1;
                    self.phase = match self.phase {
                        UploadPhase::GroupReady => UploadPhase::Receiving,
                        _ => UploadPhase::Draining,
                    };
                    return UploadAction::Spawn { insert_sql, batches };
                },
                None => {
                    self.had_error = true;
                },
            }
        }
        self.phase = UploadPhase::Draining;
        if self.running > 0 {
            return UploadAction::Join { receiver_needed: false };
        }
        UploadAction::Finish(
            UploadOutcome {
                committed_through: contiguous_committed_checkpoint(self.initial, &self.statuses),
                had_error: self.had_error,
                write_budget_exhausted: self.write_budget_exhausted,
            },
        )
    }
}

/// Once something ended an upload early, no request starts any more, whatever
/// comes.
pub proof fn law_nothing_starts_after_a_stop(
    state: UploadState,
    message: Option<BatchMessage>,
    task: Result<BatchTaskResult, String>,
    statements: usize,
    limit: usize,
)
    requires
        state.stopped(),
    ensures
        !state.group_starts(limit),
        state.received(message, statements).stopped(),
        state.joined(task).stopped(),
        state.acted(limit).stopped(),
{
}

/// No batch is lost on the way to a request: what is received waits, what waits
/// is started as a whole and in order, and nothing else changes what waits.
pub proof fn law_batches_wait_until_they_are_started(
    state: UploadState,
    batch: SerializedBatch,
    task: Result<BatchTaskResult, String>,
    statements: usize,
    limit: usize,
)
    ensures
        state.received(Some(BatchMessage::Data(batch)), statements).pending == state.pending.push(
            batch,
        ),
        state.received(None, statements).pending == state.pending,
        state.joined(task).pending == state.pending,
        state.acted(limit).pending == (if state.group_starts(limit) && state.sql is Some {
            seq![]
        } else {
            state.pending
        }),
{
}

} // verus!
