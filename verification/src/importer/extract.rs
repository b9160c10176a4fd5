//! Extracting the rows of one CSV file of a feed, from a checkpoint on, into
//! batches for D1.
use crate::importer::batch::{
    are_batches, last_batch, payload_fault, payload_text, take_row, Batch, BatchLimits, Batched,
    Checkpoint, Pending, RowBatcher, SerializedBatch,
};
use crate::importer::fault::{
    failure_view, IoErrorKind, IoFailure, ProcessorError, ProcessorErrorView,
};
use crate::importer::record::{
    read_bounded_record, record_at, record_fault, Contents, RecordRead, RecordReader,
    CSV_BUFFER_BYTES,
};
use crate::importer::sql::{insert_statement, positional_insert_sql};
use crate::number::{decimal, push_decimal};
use crate::outside::archive::{entry_contents, read_entry};
use crate::outside::json_text::{json_of, json_value};
use crate::pieces::{join, lemma_join_push};
use crate::text::{find_text, index_of_text, texts};
use vstd::prelude::*;
use vstd::string::*;

verus! {

// ---------------------------------------------------------------------------
// Columns and rows
// ---------------------------------------------------------------------------
/// The columns that a header names, each with the position of its first name.
pub open spec fn matched_columns(headers: Seq<Seq<char>>, columns: Seq<Seq<char>>) -> Seq<
    (int, Seq<char>),
>
    decreases columns.len(),
{
    if columns.len() == 0 {
        seq![]
    } else {
        let front = matched_columns(headers, columns.drop_last());
        let position = find_text(headers, columns.last());
        if position < headers.len() {
            front.push((position, columns.last()))
        } else {
            front
        }
    }
}

pub open spec fn positions(matched: Seq<(int, Seq<char>)>) -> Seq<int> {
    matched.map_values(|m: (int, Seq<char>)| m.0)
}

pub open spec fn names(matched: Seq<(int, Seq<char>)>) -> Seq<Seq<char>> {
    matched.map_values(|m: (int, Seq<char>)| m.1)
}

/// Indices as mathematical integers.
pub open spec fn as_ints(indices: Seq<usize>) -> Seq<int> {
    indices.map_values(|i: usize| i as int)
}

/// The columns that a header names: their positions and their names.
pub fn match_columns(headers: &Vec<String>, columns: &Vec<String>) -> (matched: (
    Vec<usize>,
    Vec<String>,
))
    ensures
        as_ints(matched.0@) == positions(matched_columns(texts(headers@), texts(columns@))),
        texts(matched.1@) == names(matched_columns(texts(headers@), texts(columns@))),
{
    let mut indices: Vec<usize> = Vec::new();
    let mut found: Vec<String> = Vec::new();
    let mut i: usize = 0;
    while i < columns.len()
        invariant
            i <= columns@.len(),
            as_ints(indices@) == positions(
                matched_columns(texts(headers@), texts(columns@.take(i as int))),
            ),
            texts(found@) == names(
                matched_columns(texts(headers@), texts(columns@.take(i as int))),
            ),
        decreases columns.len() - i,
    {
        let ghost so_far = texts(columns@.take(i + 1));
        let ghost front = matched_columns(texts(headers@), texts(columns@.take(i as int)));
        proof {
            assert(so_far.drop_last() =~= texts(columns@.take(i as int)));
            assert(so_far.last() == columns@[i as int]@);
        }
        let ghost indices_before = indices@;
        let ghost found_before = found@;
        match index_of_text(headers, columns[i].as_str()) {
            Some(position) => {
                let column = columns[i].clone();
                indices.push(position);
                found.push(column);
                proof {
                    let item = (position as int, column@);
                    assert(positions(front.push(item)) =~= positions(front).push(position as int));
                    assert(names(front.push(item)) =~= names(front).push(column@));
                    assert(as_ints(indices@) =~= as_ints(indices_before).push(position as int));
                    assert(texts(found@) =~= texts(found_before).push(column@));
                }
            },
            None => {},
        }
        i += 1;
    }
    assert(columns@.take(columns@.len() as int) =~= columns@);
    (indices, found)
}

/// The field at a position, if the record has it.
pub open spec fn field(record: Seq<Seq<char>>, position: int) -> Option<Seq<char>> {
    if 0 <= position < record.len() {
        Some(record[position])
    } else {
        None
    }
}

/// The JSON values of the fields at some positions.
pub open spec fn json_values(record: Seq<Seq<char>>, indices: Seq<int>) -> Seq<Seq<char>> {
    indices.map_values(|i: int| json_value(field(record, i)))
}

/// The fields at some positions as a JSON array; a missing field is `null`.
pub open spec fn json_row(record: Seq<Seq<char>>, indices: Seq<int>) -> Seq<char> {
    payload_text(json_values(record, indices))
}

/// Appends the fields at some positions as a JSON array.
pub fn append_positional_json_row(
    json: &mut String,
    record: &Vec<String>,
    csv_indices: &Vec<usize>,
) -> (done: Result<(), serde_json::Error>)
    ensures
        done is Ok,
        final(json)@ == old(json)@ + json_row(texts(record@), as_ints(csv_indices@)),
{
    let ghost before = json@;
    let ghost all = json_values(texts(record@), as_ints(csv_indices@));
    json.append("[");
    let mut i: usize = 0;
    assert(join(all.take(0), ","@) =~= seq![]);
    assert(before + "["@ + join(all.take(0), ","@) =~= before + "["@);
    while i < csv_indices.len()
        invariant
            i <= csv_indices@.len(),
            all == json_values(texts(record@), as_ints(csv_indices@)),
            all.len() == csv_indices@.len(),
            json@ == before + "["@ + join(all.take(i as int), ","@),
        decreases csv_indices.len() - i,
    {
        let ghost so_far = json@;
        if i != 0 {
            json.append(",");
        }
        let index: usize = csv_indices[i];
        let value: Option<&str> = if index < record.len() {
            Some(record[index].as_str())
        } else {
            None
        };
        match json_of(value) {
            Ok(item) => {
                json.append(item.as_str());
                proof {
                    assert(as_ints(csv_indices@)[i as int] == index);
                    assert(item@ == all[i as int]);
                    assert(all.take(i + 1) =~= all.take(i as int).push(item@));
                    lemma_join_push(all.take(i as int), item@, ","@);
                    if i == 0 {
                        assert(join(all.take(0), ","@) =~= seq![]);
                        assert(so_far + item@ =~= before + "["@ + item@);
                    } else {
                        assert(so_far + ","@ + item@ =~= before + "["@ + (join(
                            all.take(i as int),
                            ","@,
                        ) + ","@ + item@));
                    }
                }
            },
            Err(error) => {
                return Err(error);
            },
        }
        i += 1;
    }
    json.append("]");
    proof {
        assert(all.take(all.len() as int) =~= all);
        assert(json@ =~= before + ("["@ + join(all, ","@) + "]"@));
    }
    Ok(())
}

// ---------------------------------------------------------------------------
// The row budget
// ---------------------------------------------------------------------------
/// The rows that a run has claimed so far.
pub struct RowCounter {
    pub claimed: u64,
}

impl RowCounter {
    pub fn new() -> (counter: RowCounter)
        ensures
            counter.claimed == 0,
    {
        RowCounter { claimed: 0 }
    }
}

/// Claims one more row, unless the maximum is reached.
pub fn try_claim_row(counter: &mut RowCounter, maximum: u64) -> (claimed: bool)
    ensures
        claimed == (old(counter).claimed < maximum),
        final(counter).claimed == old(counter).claimed + (if claimed {
            1int
        } else {
            0int
        }),
        old(counter).claimed <= maximum ==> final(counter).claimed <= maximum,
{
    if counter.claimed < maximum {
        counter.claimed = counter.claimed + 1;
        true
    } else {
        false
    }
}

// ---------------------------------------------------------------------------
// The job and its outcome
// ---------------------------------------------------------------------------
/// One file of a feed to extract.
#[derive(Debug)]
pub struct CsvExtractJob {
    pub provider_name: String,
    pub csv_file: String,
    pub table_name: String,
    pub db_columns: Vec<String>,
    pub checkpoint: Checkpoint,
    pub batch_size: usize,
    pub max_rows: u64,
    pub max_record_bytes: u64,
    pub max_payload_bytes: u64,
}

/// What a job asks for.
pub struct Job {
    pub csv_file: Seq<char>,
    pub table_name: Seq<char>,
    pub db_columns: Seq<Seq<char>>,
    pub checkpoint: Checkpoint,
    pub limits: BatchLimits,
    pub max_rows: u64,
    pub max_record_bytes: u64,
}

impl View for CsvExtractJob {
    type V = Job;

    open spec fn view(&self) -> Job {
        Job {
            csv_file: self.csv_file@,
            table_name: self.table_name@,
            db_columns: texts(self.db_columns@),
            checkpoint: self.checkpoint,
            limits: BatchLimits {
                batch_size: self.batch_size,
                max_payload_bytes: self.max_payload_bytes,
            },
            max_rows: self.max_rows,
            max_record_bytes: self.max_record_bytes,
        }
    }
}

/// The contents of a file as an archive gives them: the size that it declares, the
/// bytes that can be read, and the error where they cannot be read to the end.
#[derive(Debug)]
pub struct FileContents {
    pub declared: u64,
    pub bytes: Vec<u8>,
    pub fault: Option<IoFailure>,
}

impl View for FileContents {
    type V = Contents;

    open spec fn view(&self) -> Contents {
        Contents { bytes: self.bytes@, fault: failure_view(self.fault) }
    }
}

/// How far an extraction came.
#[derive(Clone, Copy, Debug, PartialEq, Eq, Structural)]
pub struct CsvExtractOutcome {
    pub file_done: bool,
    pub checkpoint: Checkpoint,
    pub write_budget_exhausted: bool,
}

/// The outcome of an extraction that did not run into the write budget.
pub open spec fn extracted(file_done: bool, checkpoint: Checkpoint) -> CsvExtractOutcome {
    CsvExtractOutcome { file_done, checkpoint, write_budget_exhausted: false }
}

/// The view of a result.
pub open spec fn result_view(result: Result<CsvExtractOutcome, ProcessorError>) -> Result<
    CsvExtractOutcome,
    ProcessorErrorView,
> {
    match result {
        Ok(outcome) => Ok(outcome),
        Err(error) => Err(error@),
    }
}

// ---------------------------------------------------------------------------
// The producer: one record after the other
// ---------------------------------------------------------------------------
/// What stays the same while the records of a file are read.
pub struct Run {
    pub data: Seq<u8>,
    /// The error that comes behind the data, where the file cannot be read to its end.
    pub fault: Option<(IoErrorKind, Seq<char>)>,
    /// The uncompressed size that the archive declares.
    pub declared: u64,
    pub indices: Seq<int>,
    pub limits: BatchLimits,
    pub max_rows: u64,
    pub max_record_bytes: u64,
}

/// Where the reading stands.
pub struct Cursor {
    pub at: Checkpoint,
    /// The position where the reader began.
    pub begin: u64,
    pub pending: Pending,
}

/// How the reading ends: the batches sent at last, and the result.
pub struct Ending {
    pub sent: Seq<Batch>,
    pub result: Result<CsvExtractOutcome, ProcessorErrorView>,
}

/// What a run reads.
pub open spec fn contents_of(run: Run) -> Contents {
    Contents { bytes: run.data, fault: run.fault }
}

/// The record at the cursor.
pub open spec fn next_record(run: Run, cursor: Cursor) -> RecordRead {
    record_at(
        contents_of(run),
        cursor.at.byte as int,
        cursor.begin as int,
        run.max_record_bytes,
    )
}

/// There is a record at the cursor.
pub open spec fn has_record(run: Run, cursor: Cursor) -> bool {
    &&& next_record(run, cursor) is Found
    &&& next_record(run, cursor)->Found_1 <= u64::MAX
}

/// An end without an error: the rows that wait are sent.
pub open spec fn regular_end(cursor: Cursor, file_done: bool) -> Ending {
    Ending {
        sent: last_batch(cursor.pending, cursor.at),
        result: Ok(extracted(file_done, cursor.at)),
    }
}

/// How the reading ends at the cursor, unless there is a record to take: at the
/// row limit, at the end of the file, or at a record that cannot be read.
pub open spec fn ending(run: Run, cursor: Cursor, claimed: int) -> Option<Ending> {
    if claimed >= run.max_rows {
        Some(regular_end(cursor, cursor.at.byte >= run.declared))
    } else {
        match record_fault(next_record(run, cursor), run.max_record_bytes) {
            Some(fault) => Some(Ending { sent: seq![], result: Err(fault) }),
            None => if has_record(run, cursor) {
                None
            } else {
                Some(regular_end(cursor, true))
            },
        }
    }
}

/// The place behind the record at the cursor.
pub open spec fn next_place(run: Run, cursor: Cursor) -> Checkpoint {
    Checkpoint {
        line: if cursor.at.line < u64::MAX {
            (cursor.at.line + 1) as u64
        } else {
            u64::MAX
        },
        byte: next_record(run, cursor)->Found_1 as u64,
    }
}

/// The JSON row of the record at the cursor.
pub open spec fn next_row(run: Run, cursor: Cursor) -> Seq<char> {
    json_row(next_record(run, cursor)->Found_0, run.indices)
}

/// What taking the record at the cursor does.
pub open spec fn taken(run: Run, cursor: Cursor) -> Batched {
    take_row(
        run.limits,
        cursor.pending,
        next_row(run, cursor),
        cursor.at,
        next_place(run, cursor),
    )
}

/// The cursor behind the record.
pub open spec fn next_cursor(run: Run, cursor: Cursor) -> Cursor {
    Cursor {
        at: next_place(run, cursor),
        begin: cursor.begin,
        pending: taken(run, cursor).pending,
    }
}

/// All that a run produces: its batches, its result, and the rows that are
/// claimed afterwards.
pub struct Produced {
    pub batches: Seq<Batch>,
    pub result: Result<CsvExtractOutcome, ProcessorErrorView>,
    pub claimed: int,
}

/// What a run produces from the cursor on.
pub open spec fn produced(run: Run, cursor: Cursor, claimed: int) -> Produced
    decreases run.data.len() - cursor.at.byte,
{
    match ending(run, cursor, claimed) {
        Some(end) => Produced { batches: end.sent, result: end.result, claimed },
        None => {
            let step = taken(run, cursor);
            match step.too_large {
                Some(size) => Produced {
                    batches: step.sent,
                    result: Err(payload_fault(size, run.limits.max_payload_bytes)),
                    claimed: claimed + 1,
                },
                None => {
                    let rest = produced(run, next_cursor(run, cursor), claimed + 1);
                    Produced { batches: step.sent + rest.batches, ..rest }
                },
            }
        },
    }
}

/// How an extraction ended: the batches sent at last, and the result.
#[derive(Debug)]
pub struct Ended {
    pub batches: Vec<SerializedBatch>,
    pub result: Result<CsvExtractOutcome, ProcessorError>,
}

impl Ended {
    /// It ended in this way.
    pub open spec fn is(&self, end: Ending) -> bool {
        are_batches(self.batches@, end.sent) && result_view(self.result) == end.result
    }
}

/// What reading on gave.
#[derive(Debug)]
pub enum ReadStep {
    /// A record is there, and waits for a row of the budget.
    Ready,
    Ended(Ended),
}

/// What taking a record gave.
#[derive(Debug)]
pub enum TakeStep {
    /// The batches that are ready to be sent.
    Sent(Vec<SerializedBatch>),
    Ended(Ended),
}

/// Reads the records of a file one after the other.
pub struct CsvProducer {
    data: Vec<u8>,
    fault: Option<IoFailure>,
    declared: u64,
    max_rows: u64,
    max_record_bytes: u64,
    indices: Vec<usize>,
    at: Checkpoint,
    reader: RecordReader,
    batcher: RowBatcher,
    held: Option<Vec<String>>,
}

impl CsvProducer {
    pub closed spec fn run(&self) -> Run {
        Run {
            data: self.data@,
            fault: failure_view(self.fault),
            declared: self.declared,
            indices: as_ints(self.indices@),
            limits: self.batcher.limits(),
            max_rows: self.max_rows,
            max_record_bytes: self.max_record_bytes,
        }
    }

    pub closed spec fn cursor(&self) -> Cursor {
        Cursor { at: self.at, begin: self.reader.begin, pending: self.batcher.pending() }
    }

    /// A record was read and is not taken yet.
    pub closed spec fn holds_record(&self) -> bool {
        self.held is Some
    }

    pub closed spec fn wf(&self) -> bool {
        &&& self.batcher.wf()
        &&& self.reader.begin <= self.at.byte <= self.data@.len()
        &&& match self.held {
            Some(fields) => next_record(self.run(), self.cursor()) == RecordRead::Found(
                texts(fields@),
                self.reader.at as nat,
            ) && self.at.byte < self.reader.at <= self.data@.len(),
            None => self.reader.at == self.at.byte,
        }
    }

    /// A producer at the place of a reader, behind some lines.
    pub fn new(
        contents: FileContents,
        job: &CsvExtractJob,
        indices: Vec<usize>,
        line: u64,
        reader: RecordReader,
    ) -> (producer: CsvProducer)
        requires
            reader.begin <= reader.at <= contents.bytes@.len(),
        ensures
            producer.wf(),
            !producer.holds_record(),
            producer.run() == (Run {
                data: contents.bytes@,
                fault: failure_view(contents.fault),
                declared: contents.declared,
                indices: as_ints(indices@),
                limits: job@.limits,
                max_rows: job.max_rows,
                max_record_bytes: job.max_record_bytes,
            }),
            producer.cursor() == cursor_at(Checkpoint { line, byte: reader.at }, reader.begin),
    {
        let limits = BatchLimits {
            batch_size: job.batch_size,
            max_payload_bytes: job.max_payload_bytes,
        };
        let at = Checkpoint { line, byte: reader.at };
        CsvProducer {
            data: contents.bytes,
            fault: contents.fault,
            declared: contents.declared,
            max_rows: job.max_rows,
            max_record_bytes: job.max_record_bytes,
            indices,
            at,
            reader,
            batcher: RowBatcher::new(limits, at),
            held: None,
        }
    }

    /// Sends the rows that wait, and ends.
    fn end(&mut self, file_done: bool) -> (ended: Ended)
        requires
            old(self).wf(),
        ensures
            ended.is(regular_end(old(self).cursor(), file_done)),
    {
        let at = self.at;
        let batches = self.batcher.finish(at);
        Ended {
            batches,
            result: Ok(
                CsvExtractOutcome { file_done, checkpoint: at, write_budget_exhausted: false },
            ),
        }
    }

    /// Reads the next record, unless the row limit is reached.
    pub fn read(&mut self, rows_claimed: u64) -> (step: ReadStep)
        requires
            old(self).wf(),
            !old(self).holds_record(),
        ensures
            match step {
                ReadStep::Ready => ending(old(self).run(), old(self).cursor(), rows_claimed as int)
                    is None && final(self).wf() && final(self).holds_record() && final(self).run()
                    == old(self).run() && final(self).cursor() == old(self).cursor(),
                ReadStep::Ended(ended) => ending(
                    old(self).run(),
                    old(self).cursor(),
                    rows_claimed as int,
                ) matches Some(end) && ended.is(end),
            },
    {
        if rows_claimed >= self.max_rows {
            let file_done = self.at.byte >= self.declared;
            return ReadStep::Ended(self.end(file_done));
        }
        let mut reader = self.reader;
        match read_bounded_record(
            self.data.as_slice(),
            &self.fault,
            &mut reader,
            self.max_record_bytes,
        ) {
            Err(error) => ReadStep::Ended(Ended { batches: Vec::new(), result: Err(error) }),
            Ok(None) => ReadStep::Ended(self.end(true)),
            Ok(Some(fields)) => {
                self.reader = reader;
                self.held = Some(fields);
                ReadStep::Ready
            },
        }
    }

    /// Takes the record that was read, if a row of the budget was claimed for it.
    pub fn take(&mut self, row_claimed: bool) -> (step: TakeStep)
        requires
            old(self).wf(),
            old(self).holds_record(),
        ensures
            ({
                let run = old(self).run();
                let cursor = old(self).cursor();
                match step {
                    TakeStep::Sent(batches) => {
                        &&& row_claimed
                        &&& taken(run, cursor).too_large is None
                        &&& are_batches(batches@, taken(run, cursor).sent)
                        &&& final(self).wf()
                        &&& !final(self).holds_record()
                        &&& final(self).run() == run
                        &&& final(self).cursor() == next_cursor(run, cursor)
                        &&& has_record(run, cursor)
                    },
                    TakeStep::Ended(ended) => if row_claimed {
                        &&& taken(run, cursor).too_large matches Some(size)
                        &&& ended.is(
                            (Ending {
                                sent: taken(run, cursor).sent,
                                result: Err(payload_fault(size, run.limits.max_payload_bytes)),
                            }),
                        )
                    } else {
                        ended.is(regular_end(cursor, false))
                    },
                }
            }),
    {
        let ghost run = self.run();
        let ghost cursor = self.cursor();
        if !row_claimed {
            return TakeStep::Ended(self.end(false));
        }
        let mut held: Option<Vec<String>> = None;
        std::mem::swap(&mut held, &mut self.held);
        match held {
            None => TakeStep::Sent(Vec::new()),
            Some(fields) => {
                let mut row = String::new();
                match append_positional_json_row(&mut row, &fields, &self.indices) {
                    Err(error) => TakeStep::Ended(
                        Ended { batches: Vec::new(), result: Err(ProcessorError::Json(error)) },
                    ),
                    Ok(()) => {
                        assert(row@ =~= next_row(run, cursor));
                        let place = Checkpoint {
                            line: self.at.line.saturating_add(1),
                            byte: self.reader.at,
                        };
                        let at = self.at;
                        let (batches, result) = self.batcher.take(row.as_str(), at, place);
                        match result {
                            Err(error) => TakeStep::Ended(Ended { batches, result: Err(error) }),
                            Ok(()) => {
                                self.at = place;
                                TakeStep::Sent(batches)
                            },
                        }
                    },
                }
            },
        }
    }
}

// ---------------------------------------------------------------------------
// Opening a file at a checkpoint
// ---------------------------------------------------------------------------
/// Where passing over some records leads.
pub enum Skipped {
    /// To the position behind them.
    Behind(nat),
    /// To the end of the file, which comes first.
    AtEnd(nat),
    Fault(ProcessorErrorView),
}

/// Passing over a number of records, with a reader that began with the file.
pub open spec fn skipped(contents: Contents, at: nat, lines: nat, maximum_bytes: u64) -> Skipped
    decreases lines,
{
    if lines == 0 {
        Skipped::Behind(at)
    } else {
        let read = record_at(contents, at as int, 0, maximum_bytes);
        match record_fault(read, maximum_bytes) {
            Some(fault) => Skipped::Fault(fault),
            None => match read {
                RecordRead::Found(_, end) => skipped(
                    contents,
                    end,
                    (lines - 1) as nat,
                    maximum_bytes,
                ),
                RecordRead::Missing(end) => Skipped::AtEnd(end),
                _ => arbitrary(),
            },
        }
    }
}

/// Passes over a number of records, unless the file ends before; tells whether it did
/// not.
fn skip_records(
    contents: &FileContents,
    reader: &mut RecordReader,
    lines: u64,
    maximum_bytes: u64,
) -> (passed: Result<bool, ProcessorError>)
    requires
        old(reader).begin == 0,
        old(reader).at <= contents.bytes@.len(),
    ensures
        final(reader).begin == 0,
        ({
            let said = skipped(contents@, old(reader).at as nat, lines as nat, maximum_bytes);
            match passed {
                Ok(true) => said == Skipped::Behind(final(reader).at as nat) && final(reader).at
                    <= contents.bytes@.len(),
                Ok(false) => said == Skipped::AtEnd(final(reader).at as nat),
                Err(error) => said == Skipped::Fault(error@),
            }
        }),
{
    let ghost from = reader.at as nat;
    let mut left: u64 = lines;
    while left > 0
        invariant
            reader.begin == 0,
            reader.at <= contents.bytes@.len(),
            left <= lines,
            skipped(contents@, from, lines as nat, maximum_bytes) == skipped(
                contents@,
                reader.at as nat,
                left as nat,
                maximum_bytes,
            ),
            from == old(reader).at,
        decreases left,
    {
        match read_bounded_record(
            contents.bytes.as_slice(),
            &contents.fault,
            reader,
            maximum_bytes,
        ) {
            Err(error) => {
                return Err(error);
            },
            Ok(None) => {
                return Ok(false);
            },
            Ok(Some(_)) => {},
        }
        left = left - 1;
    }
    Ok(true)
}

/// How a file opens.
pub enum Opening {
    /// There is nothing to read: with the statement, if it was sent, and the result.
    Ended(Option<Seq<char>>, Result<CsvExtractOutcome, ProcessorErrorView>),
    /// Reading begins: with the statement, and where.
    Running(Seq<char>, Run, Cursor),
}

/// The cursor of a reader that reads rows from a place on.
pub open spec fn cursor_at(at: Checkpoint, begin: u64) -> Cursor {
    Cursor { at, begin, pending: Pending { rows: seq![], start: at } }
}

/// The run of a job over the contents of its file.
pub open spec fn run_of(
    job: Job,
    declared: u64,
    contents: Contents,
    headers: Seq<Seq<char>>,
) -> Run {
    Run {
        data: contents.bytes,
        fault: contents.fault,
        declared,
        indices: positions(matched_columns(headers, job.db_columns)),
        limits: job.limits,
        max_rows: job.max_rows,
        max_record_bytes: job.max_record_bytes,
    }
}

/// The error of a byte offset inside the header.
pub open spec fn header_fault(job: Job, header_end: nat) -> ProcessorErrorView {
    ProcessorErrorView::Io(
        IoErrorKind::InvalidData,
        "saved byte offset "@ + decimal(job.checkpoint.byte as nat) + " for "@ + job.csv_file
            + " precedes the CSV header boundary "@ + decimal(header_end),
    )
}

/// The error of a byte offset behind the end of the file.
pub open spec fn offset_fault(job: Job, declared: u64) -> ProcessorErrorView {
    ProcessorErrorView::Io(
        IoErrorKind::UnexpectedEof,
        "saved byte offset "@ + decimal(job.checkpoint.byte as nat) + " for "@ + job.csv_file
            + " exceeds its "@ + decimal(declared as nat) + "-byte uncompressed size"@,
    )
}

/// The error of a byte offset that cannot be reached: where reading fails before it,
/// that error.
pub open spec fn unreached_fault(job: Job, declared: u64, contents: Contents) -> ProcessorErrorView {
    match contents.fault {
        Some((kind, text)) => ProcessorErrorView::Io(kind, text),
        None => offset_fault(job, declared),
    }
}

/// How a file whose header is read opens at the checkpoint of its job: at the
/// saved byte, or, where none is saved, behind the saved number of records.
pub open spec fn opening_behind_header(
    job: Job,
    declared: u64,
    contents: Contents,
    headers: Seq<Seq<char>>,
    header_end: nat,
    keys: Seq<Seq<char>>,
) -> Opening {
    let matched = matched_columns(headers, job.db_columns);
    let sql = insert_statement(job.table_name, names(matched), keys);
    let run = run_of(job, declared, contents, headers);
    if matched.len() == 0 {
        Opening::Ended(None, Ok(extracted(true, job.checkpoint)))
    } else if job.checkpoint.byte != 0 {
        if job.checkpoint.byte < header_end {
            Opening::Ended(Some(sql), Err(header_fault(job, header_end)))
        } else if job.checkpoint.byte > contents.bytes.len() {
            Opening::Ended(Some(sql), Err(unreached_fault(job, declared, contents)))
        } else {
            Opening::Running(sql, run, cursor_at(job.checkpoint, job.checkpoint.byte))
        }
    } else {
        match skipped(contents, header_end, job.checkpoint.line as nat, job.max_record_bytes) {
            Skipped::Fault(fault) => Opening::Ended(Some(sql), Err(fault)),
            Skipped::AtEnd(at) => Opening::Ended(
                Some(sql),
                Ok(extracted(true, Checkpoint { line: job.checkpoint.line, byte: at as u64 })),
            ),
            Skipped::Behind(at) => Opening::Running(
                sql,
                run,
                cursor_at(Checkpoint { line: job.checkpoint.line, byte: at as u64 }, 0),
            ),
        }
    }
}

/// How a file with these contents opens.
pub open spec fn opening_of(
    job: Job,
    declared: u64,
    contents: Contents,
    keys: Seq<Seq<char>>,
) -> Opening {
    let read = record_at(contents, 0, 0, job.max_record_bytes);
    match record_fault(read, job.max_record_bytes) {
        Some(fault) => Opening::Ended(None, Err(fault)),
        None => match read {
            RecordRead::Found(headers, end) => opening_behind_header(
                job,
                declared,
                contents,
                headers,
                end,
                keys,
            ),
            RecordRead::Missing(end) => opening_behind_header(
                job,
                declared,
                contents,
                seq![],
                end,
                keys,
            ),
            _ => arbitrary(),
        },
    }
}

/// The contents of the file of a job, and its declared size; `None` where the archive
/// does not have it.
pub open spec fn file_of(archive: Seq<u8>, job: Job) -> Option<(u64, Contents)> {
    match entry_contents(archive, job.csv_file, CSV_BUFFER_BYTES as usize) {
        Some((declared, bytes, fault)) => Some((declared, Contents { bytes, fault })),
        None => None,
    }
}

/// How the file of a job opens, of an archive and with some rows claimed already.
pub open spec fn opening(
    archive: Seq<u8>,
    job: Job,
    keys: Seq<Seq<char>>,
    claimed: int,
) -> Opening {
    if claimed >= job.max_rows {
        Opening::Ended(None, Ok(extracted(false, job.checkpoint)))
    } else {
        match file_of(archive, job) {
            None => Opening::Ended(None, Err(ProcessorErrorView::Zip)),
            Some((declared, contents)) => opening_of(job, declared, contents, keys),
        }
    }
}

/// A file that was opened.
pub enum Opened {
    Ended { sent_sql: Option<String>, result: Result<CsvExtractOutcome, ProcessorError> },
    Running { init_sql: String, producer: CsvProducer },
}

impl Opened {
    /// It opened in this way.
    pub open spec fn is(&self, opening: Opening) -> bool {
        match *self {
            Opened::Ended { sent_sql, result } => opening == Opening::Ended(
                match sent_sql {
                    Some(sql) => Some(sql@),
                    None => None,
                },
                result_view(result),
            ),
            Opened::Running { init_sql, producer } => producer.wf() && !producer.holds_record()
                && opening == Opening::Running(init_sql@, producer.run(), producer.cursor()),
        }
    }
}

fn header_error(job: &CsvExtractJob, header_end: u64) -> (error: ProcessorError)
    ensures
        error@ == header_fault(job@, header_end as nat),
{
    let mut message = "saved byte offset ".to_owned();
    push_decimal(&mut message, job.checkpoint.byte as u128);
    message.append(" for ");
    message.append(job.csv_file.as_str());
    message.append(" precedes the CSV header boundary ");
    push_decimal(&mut message, header_end as u128);
    ProcessorError::io(IoErrorKind::InvalidData, message)
}

fn offset_error(job: &CsvExtractJob, declared: u64) -> (error: ProcessorError)
    ensures
        error@ == offset_fault(job@, declared),
{
    let mut message = "saved byte offset ".to_owned();
    push_decimal(&mut message, job.checkpoint.byte as u128);
    message.append(" for ");
    message.append(job.csv_file.as_str());
    message.append(" exceeds its ");
    push_decimal(&mut message, declared as u128);
    message.append("-byte uncompressed size");
    ProcessorError::io(IoErrorKind::UnexpectedEof, message)
}

/// Opens a file whose header is read at the checkpoint of its job.
fn open_behind_header(
    job: &CsvExtractJob,
    contents: FileContents,
    headers: &Vec<String>,
    reader: RecordReader,
    keys: &Vec<String>,
) -> (opened: Opened)
    requires
        reader.begin == 0,
        reader.at <= contents.bytes@.len(),
    ensures
        opened.is(
            opening_behind_header(
                job@,
                contents.declared,
                contents@,
                texts(headers@),
                reader.at as nat,
                texts(keys@),
            ),
        ),
{
    let ghost matched = matched_columns(texts(headers@), texts(job.db_columns@));
    let (indices, matched_names) = match_columns(headers, &job.db_columns);
    proof {
        assert(texts(matched_names@).len() == matched.len());
    }
    if matched_names.len() == 0 {
        return Opened::Ended {
            sent_sql: None,
            result: Ok(
                CsvExtractOutcome {
                    file_done: true,
                    checkpoint: job.checkpoint,
                    write_budget_exhausted: false,
                },
            ),
        };
    }
    let init_sql = positional_insert_sql(job.table_name.as_str(), &matched_names, keys);
    if job.checkpoint.byte != 0 {
        if job.checkpoint.byte < reader.at {
            return Opened::Ended {
                sent_sql: Some(init_sql),
                result: Err(header_error(job, reader.at)),
            };
        }
        if job.checkpoint.byte > contents.bytes.len() as u64 {
            let error = match contents.fault {
                Some(failure) => ProcessorError::Io(failure),
                None => offset_error(job, contents.declared),
            };
            return Opened::Ended { sent_sql: Some(init_sql), result: Err(error) };
        }
        let resumed = RecordReader::new(job.checkpoint.byte);
        let producer = CsvProducer::new(contents, job, indices, job.checkpoint.line, resumed);
        return Opened::Running { init_sql, producer };
    }
    let mut reader = reader;
    match skip_records(&contents, &mut reader, job.checkpoint.line, job.max_record_bytes) {
        Err(error) => Opened::Ended { sent_sql: Some(init_sql), result: Err(error) },
        Ok(false) => Opened::Ended {
            sent_sql: Some(init_sql),
            result: Ok(
                CsvExtractOutcome {
                    file_done: true,
                    checkpoint: Checkpoint { line: job.checkpoint.line, byte: reader.at },
                    write_budget_exhausted: false,
                },
            ),
        },
        Ok(true) => {
            let producer = CsvProducer::new(contents, job, indices, job.checkpoint.line, reader);
            Opened::Running { init_sql, producer }
        },
    }
}

/// Opens a file with these contents at the checkpoint of its job.
pub fn open_contents(job: &CsvExtractJob, contents: FileContents, keys: &Vec<String>) -> (opened:
    Opened)
    ensures
        opened.is(opening_of(job@, contents.declared, contents@, texts(keys@))),
{
    let mut reader = RecordReader::new(0);
    match read_bounded_record(
        contents.bytes.as_slice(),
        &contents.fault,
        &mut reader,
        job.max_record_bytes,
    ) {
        Err(error) => Opened::Ended { sent_sql: None, result: Err(error) },
        Ok(Some(headers)) => open_behind_header(job, contents, &headers, reader, keys),
        Ok(None) => {
            let headers: Vec<String> = Vec::new();
            assert(texts(headers@) =~= seq![]);
            open_behind_header(job, contents, &headers, reader, keys)
        },
    }
}

/// Opens the file of a job, unless the row limit is reached already.
pub fn open_csv(
    archive: &[u8],
    job: &CsvExtractJob,
    keys: &Vec<String>,
    rows_claimed: u64,
) -> (opened: Opened)
    ensures
        opened.is(opening(archive@, job@, texts(keys@), rows_claimed as int)),
{
    if rows_claimed >= job.max_rows {
        return Opened::Ended {
            sent_sql: None,
            result: Ok(
                CsvExtractOutcome {
                    file_done: false,
                    checkpoint: job.checkpoint,
                    write_budget_exhausted: false,
                },
            ),
        };
    }
    match read_entry(archive, job.csv_file.as_str(), CSV_BUFFER_BYTES as usize) {
        Err(error) => Opened::Ended { sent_sql: None, result: Err(ProcessorError::Zip(error)) },
        Ok((declared, bytes, fault)) => open_contents(
            job,
            FileContents { declared, bytes, fault },
            keys,
        ),
    }
}

// ---------------------------------------------------------------------------
// The whole extraction
// ---------------------------------------------------------------------------
/// What an extraction sends to the uploader.
#[derive(Debug)]
pub enum BatchMessage {
    InitSql(String),
    Data(SerializedBatch),
}

/// All that an extraction sends, and its result.
#[derive(Debug)]
pub struct Extraction {
    pub messages: Vec<BatchMessage>,
    pub result: Result<CsvExtractOutcome, ProcessorError>,
}

/// The messages are a statement, if there is one, and then some batches.
pub open spec fn are_messages(
    messages: Seq<BatchMessage>,
    sql: Option<Seq<char>>,
    batches: Seq<Batch>,
) -> bool {
    match sql {
        Some(text) => {
            &&& messages.len() == batches.len() + 1
            &&& messages[0] matches BatchMessage::InitSql(first) && first@ == text
            &&& forall|i: int|
                0 <= i < batches.len() ==> (#[trigger] messages[i + 1] matches BatchMessage::Data(
                    batch,
                ) && batch.is(batches[i]))
        },
        None => messages.len() == 0 && batches.len() == 0,
    }
}

/// What an extraction sends and gives.
pub struct Extracted {
    pub sql: Option<Seq<char>>,
    pub batches: Seq<Batch>,
    pub result: Result<CsvExtractOutcome, ProcessorErrorView>,
    pub claimed: int,
}

/// What a file that opened in some way sends and gives.
pub open spec fn extraction_from(opening: Opening, claimed: int) -> Extracted {
    match opening {
        Opening::Ended(sql, result) => Extracted { sql, batches: seq![], result, claimed },
        Opening::Running(sql, run, cursor) => {
            let all = produced(run, cursor, claimed);
            Extracted {
                sql: Some(sql),
                batches: all.batches,
                result: all.result,
                claimed: all.claimed,
            }
        },
    }
}

/// What the extraction of a job sends and gives.
pub open spec fn extraction(
    archive: Seq<u8>,
    job: Job,
    keys: Seq<Seq<char>>,
    claimed: int,
) -> Extracted {
    extraction_from(opening(archive, job, keys, claimed), claimed)
}

impl Extraction {
    /// It sent and gave this.
    pub open spec fn is(&self, all: Extracted) -> bool {
        are_messages(self.messages@, all.sql, all.batches) && result_view(self.result)
            == all.result
    }
}

/// Appends batches to the messages.
fn send_all(messages: &mut Vec<BatchMessage>, batches: Vec<SerializedBatch>, Ghost(sql): Ghost<
    Seq<char>,
>, Ghost(before): Ghost<Seq<Batch>>, Ghost(sent): Ghost<Seq<Batch>>)
    requires
        are_messages(old(messages)@, Some(sql), before),
        are_batches(batches@, sent),
    ensures
        are_messages(final(messages)@, Some(sql), before + sent),
{
    let mut rest = batches;
    let ghost mut done: int = 0;
    while rest.len() > 0
        invariant
            0 <= done <= sent.len(),
            are_messages(messages@, Some(sql), before + sent.take(done)),
            are_batches(rest@, sent.skip(done)),
        decreases rest.len(),
    {
        let ghost held = rest@;
        let batch = rest.remove(0);
        let ghost messages_before = messages@;
        messages.push(BatchMessage::Data(batch));
        proof {
            let so_far = before + sent.take(done);
            assert(held[0].is(sent.skip(done)[0]));
            assert(sent.skip(done)[0] == sent[done]);
            assert(before + sent.take(done + 1) =~= so_far.push(sent[done]));
            assert forall|i: int| 0 <= i < so_far.len() + 1 implies (
            #[trigger] messages@[i + 1] matches BatchMessage::Data(b) && b.is(
                so_far.push(sent[done])[i],
            )) by {
                if i < so_far.len() {
                    assert(messages@[i + 1] == messages_before[i + 1]);
                }
            }
            assert forall|i: int| 0 <= i < rest@.len() implies (#[trigger] rest@[i]).is(
                sent.skip(done + 1)[i],
            ) by {
                assert(rest@[i] == held[i + 1]);
                assert(held[i + 1].is(sent.skip(done)[i + 1]));
            }
            done = done + 1;
        }
    }
    assert(sent.take(done) =~= sent);
}

/// Extracts the file of a job from its checkpoint on: the statement and the
/// batches that are sent, and how far it came. Each row that is read is claimed
/// of the budget, and reading stops where the budget is used up.
pub fn extract_and_batch_csv(
    archive: &[u8],
    job: &CsvExtractJob,
    keys: &Vec<String>,
    rows_processed_this_run: &mut RowCounter,
) -> (extraction_run: Extraction)
    ensures
        extraction_run.is(
            extraction(archive@, job@, texts(keys@), old(rows_processed_this_run).claimed as int),
        ),
        final(rows_processed_this_run).claimed == extraction(
            archive@,
            job@,
            texts(keys@),
            old(rows_processed_this_run).claimed as int,
        ).claimed,
{
    let ghost start = opening(archive@, job@, texts(keys@), rows_processed_this_run.claimed as int);
    let mut messages: Vec<BatchMessage> = Vec::new();
    match open_csv(archive, job, keys, rows_processed_this_run.claimed) {
        Opened::Ended { sent_sql, result } => {
            if let Some(sql) = sent_sql {
                messages.push(BatchMessage::InitSql(sql));
            }
            Extraction { messages, result }
        },
        Opened::Running { init_sql, producer } => {
            let mut producer = producer;
            let ghost sql = init_sql@;
            let ghost run = producer.run();
            let ghost first = producer.cursor();
            let ghost claimed = rows_processed_this_run.claimed as int;
            let ghost all = produced(run, first, claimed);
            let ghost mut sent: Seq<Batch> = seq![];
            messages.push(BatchMessage::InitSql(init_sql));
            assert(sent + all.batches =~= all.batches);
            loop
                invariant
                    producer.wf(),
                    !producer.holds_record(),
                    producer.run() == run,
                    are_messages(messages@, Some(sql), sent),
                    all == produced(run, first, claimed),
                    start == opening(archive@, job@, texts(keys@), claimed),
                    start == Opening::Running(sql, run, first),
                    old(rows_processed_this_run).claimed == claimed,
                    ({
                        let rest = produced(
                            run,
                            producer.cursor(),
                            rows_processed_this_run.claimed as int,
                        );
                        &&& all.batches == sent + rest.batches
                        &&& all.result == rest.result
                        &&& all.claimed == rest.claimed
                    }),
                decreases run.data.len() - producer.cursor().at.byte,
            {
                let ghost cursor = producer.cursor();
                match producer.read(rows_processed_this_run.claimed) {
                    ReadStep::Ended(ended) => {
                        let ghost end = ending(run, cursor, rows_processed_this_run.claimed as int)->Some_0;
                        send_all(&mut messages, ended.batches, Ghost(sql), Ghost(sent), Ghost(
                            end.sent,
                        ));
                        return Extraction { messages, result: ended.result };
                    },
                    ReadStep::Ready => {
                        let ghost step = taken(run, cursor);
                        let claimed_row = try_claim_row(rows_processed_this_run, job.max_rows);
                        match producer.take(claimed_row) {
                            TakeStep::Ended(ended) => {
                                send_all(
                                    &mut messages,
                                    ended.batches,
                                    Ghost(sql),
                                    Ghost(sent),
                                    Ghost(step.sent),
                                );
                                return Extraction { messages, result: ended.result };
                            },
                            TakeStep::Sent(batches) => {
                                send_all(
                                    &mut messages,
                                    batches,
                                    Ghost(sql),
                                    Ghost(sent),
                                    Ghost(step.sent),
                                );
                                proof {
                                    let rest = produced(
                                        run,
                                        producer.cursor(),
                                        rows_processed_this_run.claimed as int,
                                    );
                                    assert(sent + (step.sent + rest.batches) =~= (sent + step.sent)
                                        + rest.batches);
                                    sent = sent + step.sent;
                                }
                            },
                        }
                    },
                }
            }
        },
    }
}

} // verus!
