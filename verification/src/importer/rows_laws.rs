//! What holds of the rows of every file on their way to the database: which columns and
//! records they are made of, how they are cut into batches and requests, and what of them
//! is committed.
use crate::importer::batch::{
    last_batch, payload_size, payload_text, take_row, Batch, BatchLimits, Checkpoint, Pending,
    SerializedBatch,
};
use crate::importer::commit::{
    after_task, committed, completion, with_ranges, BatchCompletion, BatchTaskResult, Statuses,
};
use crate::importer::d1::D1Result;
use crate::importer::extract::{
    ending, file_of, header_fault, json_row, json_values, matched_columns, names, next_cursor,
    next_record, opening, positions, produced, skipped, taken, unreached_fault,
    BatchMessage, Cursor, Job, Opening, Run, Skipped,
};
use crate::importer::extract_laws::{behind, place_after, read_of, readable, source_of, Source};
use crate::importer::fault::{D1Error, IoErrorKind, ProcessorError, ProcessorErrorView};
use crate::importer::record::{
    has_byte_order_mark, held, lead, parsed, record_at, record_fault, Contents, RecordRead,
    CSV_BUFFER_BYTES,
};
use crate::importer::sql::insert_statement;
use crate::importer::upload::{
    all_writes, logical_rows, ranges_of, settlement, Settlement, UploadState,
};
use crate::outside::archive::entry_contents;
use crate::outside::csv_text::first_record;
use crate::outside::json_text::json_value;
use crate::pieces::join;
use crate::pieces_laws::law_the_first_place_of_a_text;
use crate::text::find_text;
use vstd::prelude::*;
use vstd::string::*;

verus! {

// ---------------------------------------------------------------------------
// Columns and rows
// ---------------------------------------------------------------------------
/// The position is that of the first header with a name.
pub open spec fn is_first_header(headers: Seq<Seq<char>>, position: int, name: Seq<char>) -> bool {
    &&& 0 <= position < headers.len()
    &&& headers[position] == name
    &&& forall|j: int| 0 <= j < position ==> #[trigger] headers[j] != name
}

/// Exactly the columns of the table that the file has are imported, in the order of the
/// table, each from the first column of the file with its name.
pub proof fn law_columns_are_matched_by_name(headers: Seq<Seq<char>>, columns: Seq<Seq<char>>)
    ensures
        names(matched_columns(headers, columns)) == columns.filter(
            |c: Seq<char>| headers.contains(c),
        ),
        positions(matched_columns(headers, columns)).len() == names(
            matched_columns(headers, columns),
        ).len(),
        forall|i: int|
            0 <= i < matched_columns(headers, columns).len() ==> is_first_header(
                headers,
                #[trigger] positions(matched_columns(headers, columns))[i],
                names(matched_columns(headers, columns))[i],
            ),
    decreases columns.len(),
{
    reveal(Seq::filter);
    let matched = matched_columns(headers, columns);
    if columns.len() > 0 {
        let front = matched_columns(headers, columns.drop_last());
        let last = columns.last();
        law_columns_are_matched_by_name(headers, columns.drop_last());
        law_the_first_place_of_a_text(headers, last);
        let position = find_text(headers, last);
        if headers.contains(last) {
            let j = choose|j: int| 0 <= j < headers.len() && headers[j] == last;
            assert(position < headers.len()) by {
                if position == headers.len() {
                    assert(headers[j] != last);
                }
            }
        }
        assert(names(matched) =~= columns.filter(|c: Seq<char>| headers.contains(c)));
        assert forall|i: int| 0 <= i < matched.len() implies is_first_header(
            headers,
            #[trigger] positions(matched)[i],
            names(matched)[i],
        ) by {
            if i < front.len() {
                assert(matched[i] == front[i]);
                assert(is_first_header(headers, positions(front)[i], names(front)[i]));
            }
        }
    } else {
        assert(names(matched) =~= columns.filter(|c: Seq<char>| headers.contains(c)));
    }
}

/// A row is a JSON array with one value for each column, in order: the field at its
/// position, or null where the record has none.
pub proof fn law_rows_are_arrays_of_their_fields(record: Seq<Seq<char>>, indices: Seq<int>)
    ensures
        json_row(record, indices) == seq!['['] + join(
            Seq::new(
                indices.len(),
                |i: int|
                    json_value(
                        if 0 <= indices[i] < record.len() {
                            Some(record[indices[i]])
                        } else {
                            None
                        },
                    ),
            ),
            seq![','],
        ) + seq![']'],
{
    reveal_strlit("[");
    reveal_strlit(",");
    reveal_strlit("]");
    assert("["@ =~= seq!['[']);
    assert(","@ =~= seq![',']);
    assert("]"@ =~= seq![']']);
    assert(json_values(record, indices) =~= Seq::new(
        indices.len(),
        |i: int|
            json_value(
                if 0 <= indices[i] < record.len() {
                    Some(record[indices[i]])
                } else {
                    None
                },
            ),
    ));
}

/// A payload is the JSON array of its rows; its size is that of its bytes.
pub proof fn law_payloads_are_arrays_of_their_rows(rows: Seq<Seq<char>>)
    ensures
        payload_text(rows) == seq!['['] + join(rows, seq![',']) + seq![']'],
        payload_size(rows) == vstd::utf8::encode_utf8(
            seq!['['] + join(rows, seq![',']) + seq![']'],
        ).len(),
{
    reveal_strlit("[");
    reveal_strlit(",");
    reveal_strlit("]");
    assert("["@ =~= seq!['[']);
    assert(","@ =~= seq![',']);
    assert("]"@ =~= seq![']']);
}

// ---------------------------------------------------------------------------
// Records
// ---------------------------------------------------------------------------
/// A record that takes no more bytes than the limit is read, wherever in a file it
/// stands, and one that takes more is refused. Where it does not reach the end of what
/// can be read of the file, it does not matter how the file ends. (No byte order mark may
/// stand before it unless the reader begins there.)
pub proof fn law_records_within_the_limit_are_read(
    contents: Contents,
    at: int,
    begin: int,
    maximum_bytes: u64,
    fields: Seq<Seq<char>>,
    taken: u64,
)
    requires
        0 <= begin <= at < contents.bytes.len(),
        at == begin || !has_byte_order_mark(contents.bytes.skip(at)),
        first_record(contents.bytes.skip(at)) == Some((Some(fields), taken)),
        0 < taken <= contents.bytes.len() - at,
        contents.fault is None || taken < contents.bytes.len() - at,
    ensures
        taken <= maximum_bytes ==> record_at(contents, at, begin, maximum_bytes)
            == RecordRead::Found(fields, (at + taken) as nat),
        taken > maximum_bytes ==> record_fault(
            record_at(contents, at, begin, maximum_bytes),
            maximum_bytes,
        ) is Some,
{
    let rest = contents.bytes.skip(at);
    assert(lead(rest, at == begin) + rest =~= rest);
    let record = parsed(rest, at == begin);
    assert(record.taken == taken);
    assert(held(contents.bytes.len() as int, begin, at) >= 0);
    assert(record.open ==> taken == rest.len());
}

/// A byte order mark is one only where reading begins: behind it, the three bytes belong
/// to the record, as they would behind a line end.
pub proof fn law_a_byte_order_mark_counts_only_at_the_beginning(
    contents: Contents,
    at: int,
    begin: int,
    maximum_bytes: u64,
    fields: Seq<Seq<char>>,
    taken: u64,
)
    requires
        0 <= begin < at < contents.bytes.len(),
        contents.fault is None,
        has_byte_order_mark(contents.bytes.skip(at)),
        first_record(seq![10u8] + contents.bytes.skip(at)) == Some((Some(fields), taken)),
        1 < taken <= contents.bytes.len() - at + 1,
        taken - 1 <= maximum_bytes,
    ensures
        record_at(contents, at, begin, maximum_bytes) == RecordRead::Found(
            fields,
            (at + taken - 1) as nat,
        ),
{
    let rest = contents.bytes.skip(at);
    assert(lead(rest, at == begin) =~= seq![10u8]);
    let record = parsed(rest, at == begin);
    assert(record.taken == taken - 1);
    assert(held(contents.bytes.len() as int, begin, at) >= 0);
}

/// A file ends where it holds no more record: at its end, or where no record is left in
/// no more bytes than the limit; unless it cannot be read to its end.
pub proof fn law_a_file_ends_where_no_record_is_left(
    contents: Contents,
    at: int,
    begin: int,
    maximum_bytes: u64,
    taken: u64,
)
    requires
        0 <= begin <= at <= contents.bytes.len(),
        contents.bytes.len() - at <= maximum_bytes,
        at == contents.bytes.len() || ((at == begin || !has_byte_order_mark(
            contents.bytes.skip(at),
        )) && first_record(contents.bytes.skip(at)) == Some(
            (None::<Seq<Seq<char>>>, taken),
        )),
    ensures
        contents.fault is None ==> record_at(contents, at, begin, maximum_bytes)
            == RecordRead::Missing(contents.bytes.len()),
        at < contents.bytes.len() ==> (contents.fault matches Some((kind, text)) ==> record_fault(
            record_at(contents, at, begin, maximum_bytes),
            maximum_bytes,
        ) == Some(ProcessorErrorView::CsvRead(kind, text))),
{
    let rest = contents.bytes.skip(at);
    if at < contents.bytes.len() {
        assert(lead(rest, at == begin) + rest =~= rest);
        assert(held(contents.bytes.len() as int, begin, at) >= 0);
    }
}

// ---------------------------------------------------------------------------
// Where reading begins and ends
// ---------------------------------------------------------------------------
/// A file is read from where its job stands: from the saved byte where there is one, and
/// else behind as many records as there are saved lines, none of them twice and none left
/// out. Its rows go into the columns that it shares with the table.
pub proof fn law_reading_begins_at_the_checkpoint(
    archive: Seq<u8>,
    job: Job,
    keys: Seq<Seq<char>>,
    claimed: int,
    headers: Seq<Seq<char>>,
    header_end: nat,
)
    requires
        claimed < job.max_rows,
        file_of(archive, job) is Some,
        file_of(archive, job)->Some_0.1.bytes.len() <= u64::MAX,
        record_at(file_of(archive, job)->Some_0.1, 0, 0, job.max_record_bytes)
            == RecordRead::Found(headers, header_end),
    ensures
        ({
            let (declared, contents) = file_of(archive, job)->Some_0;
            let matched = matched_columns(headers, job.db_columns);
            let start = opening(archive, job, keys, claimed);
            let source = Source {
                contents,
                indices: positions(matched),
                max_record_bytes: job.max_record_bytes,
            };
            let first = Checkpoint { line: 0, byte: header_end as u64 };
            let sql = insert_statement(job.table_name, names(matched), keys);
            &&& matched.len() == 0 ==> (start matches Opening::Ended(None, Ok(outcome))
                && outcome.file_done && outcome.checkpoint == job.checkpoint)
            &&& start matches Opening::Running(text, run, cursor) ==> text == sql && source_of(run)
                == source && run.max_rows == job.max_rows && run.limits == job.limits
                && run.declared == declared && cursor.at.line == job.checkpoint.line
                && cursor.pending.rows.len() == 0
            &&& matched.len() > 0 && header_end <= job.checkpoint.byte <= contents.bytes.len()
                && job.checkpoint.byte > 0 ==> (start matches Opening::Running(_, _, cursor)
                && cursor.at == job.checkpoint && cursor.begin == job.checkpoint.byte)
            &&& matched.len() > 0 && job.checkpoint.byte == 0 && readable(
                source,
                u64::MAX,
                first,
                0,
                job.checkpoint.line as nat,
            ) ==> (start matches Opening::Running(_, _, cursor) && cursor.begin == 0
                && cursor.at.byte == place_after(
                source,
                first,
                0,
                job.checkpoint.line as nat,
            ).byte)
            &&& matched.len() > 0 && 0 < job.checkpoint.byte < header_end ==> start
                == Opening::Ended(Some(sql), Err(header_fault(job, header_end)))
            &&& matched.len() > 0 && job.checkpoint.byte > contents.bytes.len() ==> start
                == Opening::Ended(
                Some(sql),
                Err(unreached_fault(job, declared, contents)),
            )
        }),
{
    let (declared, contents) = file_of(archive, job)->Some_0;
    let matched = matched_columns(headers, job.db_columns);
    let source = Source {
        contents,
        indices: positions(matched),
        max_record_bytes: job.max_record_bytes,
    };
    let first = Checkpoint { line: 0, byte: header_end as u64 };
    assert(names(matched).len() == matched.len());
    if job.checkpoint.byte == 0 && readable(
        source,
        u64::MAX,
        first,
        0,
        job.checkpoint.line as nat,
    ) {
        lemma_skipping(source, first, job.checkpoint.line as nat);
    }
}

proof fn lemma_skipping(source: Source, at: Checkpoint, lines: nat)
    requires
        readable(source, u64::MAX, at, 0, lines),
    ensures
        skipped(source.contents, at.byte as nat, lines, source.max_record_bytes)
            == Skipped::Behind(place_after(source, at, 0, lines).byte as nat),
    decreases lines,
{
    if lines > 0 {
        let next = behind(source, at, 0);
        lemma_skipping(source, next, (lines - 1) as nat);
    }
}

/// The file of a job is the entry of its name: all that can be read of it, its declared
/// size, and the error that comes behind, if one does.
pub proof fn law_files_are_read_to_their_end_or_error(
    archive: Seq<u8>,
    job: Job,
    declared: u64,
    bytes: Seq<u8>,
    fault: Option<(IoErrorKind, Seq<char>)>,
)
    ensures
        entry_contents(archive, job.csv_file, CSV_BUFFER_BYTES as usize) == Some(
            (declared, bytes, fault),
        ) ==> (file_of(archive, job) matches Some((size, contents)) && size == declared
            && contents.bytes == bytes && contents.fault == fault),
        entry_contents(archive, job.csv_file, CSV_BUFFER_BYTES as usize) is None ==> file_of(
            archive,
            job,
        ) is None,
{
}

/// A file is not touched where the maximum of rows is reached already; it is an error
/// where the archive does not have it or its header cannot be read; and a file without a
/// header is done.
pub proof fn law_files_may_end_before_their_rows(
    archive: Seq<u8>,
    job: Job,
    keys: Seq<Seq<char>>,
    claimed: int,
)
    ensures
        ({
            let start = opening(archive, job, keys, claimed);
            &&& claimed >= job.max_rows ==> (start matches Opening::Ended(None, Ok(outcome))
                && !outcome.file_done && outcome.checkpoint == job.checkpoint
                && !outcome.write_budget_exhausted)
            &&& claimed < job.max_rows && file_of(archive, job) is None ==> start
                == Opening::Ended(None, Err(ProcessorErrorView::Zip))
            &&& claimed < job.max_rows && file_of(archive, job) is Some ==> ({
                let header = record_at(file_of(archive, job)->Some_0.1, 0, 0, job.max_record_bytes);
                &&& record_fault(header, job.max_record_bytes) matches Some(fault) ==> start
                    == Opening::Ended(None, Err(fault))
                &&& header is Missing ==> (start matches Opening::Ended(None, Ok(outcome))
                    && outcome.file_done && outcome.checkpoint == job.checkpoint)
            })
        }),
{
    if claimed < job.max_rows && file_of(archive, job) is Some {
        let header = record_at(file_of(archive, job)->Some_0.1, 0, 0, job.max_record_bytes);
        if header is Missing {
            law_columns_are_matched_by_name(Seq::empty(), job.db_columns);
            lemma_no_headers(job.db_columns);
        }
    }
}

proof fn lemma_no_headers(columns: Seq<Seq<char>>)
    ensures
        matched_columns(Seq::empty(), columns).len() == 0,
    decreases columns.len(),
{
    if columns.len() > 0 {
        lemma_no_headers(columns.drop_last());
    }
}

/// A file that ends before the saved lines is done: its checkpoint is its end.
pub proof fn law_shorter_files_are_done(
    archive: Seq<u8>,
    job: Job,
    keys: Seq<Seq<char>>,
    claimed: int,
    headers: Seq<Seq<char>>,
    header_end: nat,
    records: nat,
    end: nat,
)
    requires
        claimed < job.max_rows,
        file_of(archive, job) is Some,
        file_of(archive, job)->Some_0.1.bytes.len() <= u64::MAX,
        record_at(file_of(archive, job)->Some_0.1, 0, 0, job.max_record_bytes)
            == RecordRead::Found(headers, header_end),
        matched_columns(headers, job.db_columns).len() > 0,
        job.checkpoint.byte == 0,
        records < job.checkpoint.line,
        ({
            let source = Source {
                contents: file_of(archive, job)->Some_0.1,
                indices: positions(matched_columns(headers, job.db_columns)),
                max_record_bytes: job.max_record_bytes,
            };
            let first = Checkpoint { line: 0, byte: header_end as u64 };
            &&& readable(source, u64::MAX, first, 0, records)
            &&& read_of(source, place_after(source, first, 0, records), 0) == RecordRead::Missing(
                end,
            )
        }),
    ensures
        ({
            let sql = insert_statement(
                job.table_name,
                names(matched_columns(headers, job.db_columns)),
                keys,
            );
            opening(archive, job, keys, claimed) matches Opening::Ended(Some(text), Ok(outcome))
                && text == sql && outcome.file_done && outcome.checkpoint == (Checkpoint {
                line: job.checkpoint.line,
                byte: end as u64,
            })
        }),
{
    let source = Source {
        contents: file_of(archive, job)->Some_0.1,
        indices: positions(matched_columns(headers, job.db_columns)),
        max_record_bytes: job.max_record_bytes,
    };
    let first = Checkpoint { line: 0, byte: header_end as u64 };
    lemma_too_few(source, first, records, job.checkpoint.line as nat, end);
}

proof fn lemma_too_few(source: Source, at: Checkpoint, records: nat, lines: nat, end: nat)
    requires
        records < lines,
        readable(source, u64::MAX, at, 0, records),
        read_of(source, place_after(source, at, 0, records), 0) == RecordRead::Missing(end),
    ensures
        skipped(source.contents, at.byte as nat, lines, source.max_record_bytes) == Skipped::AtEnd(
            end,
        ),
    decreases records,
{
    if records > 0 {
        let next = behind(source, at, 0);
        lemma_too_few(source, next, (records - 1) as nat, (lines - 1) as nat, end);
    }
}

/// A run stops early for nothing: one that succeeds has claimed its maximum of rows, or
/// has come to the end of the file. It says that the file is done exactly where that end
/// was found, or where it stopped at or behind the declared size.
pub proof fn law_runs_end_at_their_maximum_or_with_the_file(run: Run, cursor: Cursor, claimed: int)
    requires
        produced(run, cursor, claimed).result is Ok,
        run.data.len() <= u64::MAX,
    ensures
        ({
            let all = produced(run, cursor, claimed);
            let outcome = all.result->Ok_0;
            let last = read_of(source_of(run), outcome.checkpoint, cursor.begin);
            &&& all.claimed >= run.max_rows ==> outcome.file_done == (outcome.checkpoint.byte
                >= run.declared)
            &&& all.claimed < run.max_rows ==> last is Missing && outcome.file_done
            &&& !outcome.write_budget_exhausted
        }),
    decreases run.data.len() - cursor.at.byte,
{
    let all = produced(run, cursor, claimed);
    if ending(run, cursor, claimed) is None {
        let next = next_cursor(run, cursor);
        law_runs_end_at_their_maximum_or_with_the_file(run, next, claimed + 1);
    }
}

// ---------------------------------------------------------------------------
// Batches
// ---------------------------------------------------------------------------
/// The batch takes no more rows: it has its number of rows or its number of bytes.
pub open spec fn is_full(limits: BatchLimits, rows: Seq<Seq<char>>) -> bool {
    rows.len() >= limits.batch_size || payload_size(rows) >= limits.max_payload_bytes
}

/// Batches are filled: rows wait together as long as another one fits, and are sent as
/// soon as they are full, or as soon as the next row does not fit to them. A row that does
/// not fit by itself is an error, behind the rows that waited.
pub proof fn law_batches_are_filled(
    limits: BatchLimits,
    waiting: Pending,
    row: Seq<char>,
    at: Checkpoint,
    end: Checkpoint,
)
    requires
        waiting.rows.len() == 0 || !is_full(limits, waiting.rows),
    ensures
        ({
            let step = take_row(limits, waiting, row, at, end);
            let together = waiting.rows.push(row);
            let fits = waiting.rows.len() == 0 || payload_size(together)
                <= limits.max_payload_bytes;
            let start = if waiting.rows.len() == 0 {
                at
            } else {
                waiting.start
            };
            let before = Batch { rows: waiting.rows, start: waiting.start, end: at };
            &&& step.too_large matches Some(size) ==> size > limits.max_payload_bytes && size
                == payload_size(seq![row])
            &&& step.too_large is Some <==> payload_size(seq![row]) > limits.max_payload_bytes
                && (waiting.rows.len() == 0 || !fits)
            &&& fits && step.too_large is None && is_full(limits, together) ==> step.sent == seq![
                Batch { rows: together, start, end },
            ] && step.pending.rows.len() == 0 && step.pending.start == end
            &&& fits && step.too_large is None && !is_full(limits, together) ==> step.sent.len()
                == 0 && step.pending == (Pending { rows: together, start })
            &&& !fits && step.too_large is Some ==> step.sent == seq![before]
            &&& !fits && step.too_large is None && is_full(limits, seq![row]) ==> step.sent == seq![
                before,
                Batch { rows: seq![row], start: at, end },
            ] && step.pending.rows.len() == 0 && step.pending.start == end
            &&& !fits && step.too_large is None && !is_full(limits, seq![row]) ==> step.sent == seq![
                before,
            ] && step.pending == (Pending { rows: seq![row], start: at })
        }),
{
    let step = take_row(limits, waiting, row, at, end);
    let together = waiting.rows.push(row);
    if waiting.rows.len() == 0 {
        assert(together =~= seq![row]);
        assert(step.too_large is None && is_full(limits, together) ==> step.sent =~= seq![
            Batch { rows: together, start: at, end },
        ]);
    } else {
        assert(step.too_large is None && payload_size(together) <= limits.max_payload_bytes
            && is_full(limits, together) ==> step.sent =~= seq![
            Batch { rows: together, start: waiting.start, end },
        ]);
        let before = Batch { rows: waiting.rows, start: waiting.start, end: at };
        assert(payload_size(together) > limits.max_payload_bytes && step.too_large is None
            && is_full(limits, seq![row]) ==> step.sent =~= seq![
            before,
            Batch { rows: seq![row], start: at, end },
        ]);
        assert(payload_size(together) > limits.max_payload_bytes && !(step.too_large is None
            && is_full(limits, seq![row])) ==> step.sent =~= seq![before]);
    }
}

/// What waits at the end is sent as one batch, and nothing where nothing waits.
pub proof fn law_the_last_rows_are_sent(waiting: Pending, end: Checkpoint)
    ensures
        waiting.rows.len() == 0 ==> last_batch(waiting, end).len() == 0,
        waiting.rows.len() > 0 ==> last_batch(waiting, end) == seq![
            Batch { rows: waiting.rows, start: waiting.start, end },
        ],
{
}

// ---------------------------------------------------------------------------
// Requests
// ---------------------------------------------------------------------------
/// Requests are filled and bounded: a batch waits until as many wait as a request holds;
/// then they start together as soon as fewer requests run than may, and not before. What
/// waits when no batch comes any more starts at once. Nothing starts without a statement.
pub proof fn law_requests_are_filled(
    state: UploadState,
    batch: SerializedBatch,
    statements: usize,
    limit: usize,
)
    requires
        state.phase is Receiving,
        !state.stopped(),
    ensures
        ({
            let received = state.received(Some(BatchMessage::Data(batch)), statements);
            let acted = received.acted(limit);
            let full = state.pending.len() + 1 >= statements;
            &&& !full ==> received.phase is Receiving && acted == received
            &&& full && state.running >= limit ==> acted == received && acted.phase is GroupReady
            &&& full && state.running < limit && state.sql is Some ==> acted.pending.len() == 0
                && acted.running == state.running + 1 && acted.phase is Receiving
            &&& full && state.running < limit && state.sql is None ==> acted.had_error
                && acted.running == state.running && acted.phase is Draining
            &&& acted.running <= limit || state.running > limit
        }),
        ({
            let closed = state.received(None, statements);
            let acted = closed.acted(limit);
            &&& closed.pending == state.pending
            &&& state.pending.len() > 0 && state.sql is Some ==> acted.pending.len() == 0
                && acted.running == state.running + 1
            &&& state.pending.len() == 0 ==> acted.running == state.running && !acted.stopped()
            &&& acted.phase is Draining
        }),
        forall|sql: String|
            (#[trigger] state.received(Some(BatchMessage::InitSql(sql)), statements)).sql
                == if state.sql is Some {
                state.sql
            } else {
                Some(sql@)
            },
{
}

/// What a request came to is counted: it runs no more, a failure and a spent budget are
/// remembered, and a success is neither.
pub proof fn law_requests_are_counted(state: UploadState, done: BatchTaskResult, lost: String)
    requires
        state.running > 0,
    ensures
        ({
            let after = state.joined(Ok(done));
            &&& after.running == state.running - 1
            &&& done.result is Ok ==> after.stopped() == state.stopped()
            &&& done.result is Err ==> after.stopped()
            &&& after.had_error == (state.had_error || (done.result matches Err(error)
                && !is_spent(error)))
            &&& after.write_budget_exhausted == (state.write_budget_exhausted || (
            done.result matches Err(error) && is_spent(error)))
        }),
        state.joined(Err(lost)).had_error,
        state.joined(Err(lost)).statuses == state.statuses,
        state.joined(Err(lost)).running == state.running - 1,
{
}

/// The error is that the write budget is spent.
pub open spec fn is_spent(error: ProcessorError) -> bool {
    error matches ProcessorError::D1(D1Error::WriteBudgetExhausted { .. })
}

/// The statuses after a request tell of each of its batches where it ends and whether the
/// request succeeded, and of all other lines what they told before.
pub proof fn law_every_batch_of_a_request_is_recorded(
    statuses: Statuses,
    done: BatchTaskResult,
    i: int,
    line: u64,
)
    requires
        forall|a: int, b: int|
            0 <= a < b < done.ranges@.len() ==> (#[trigger] done.ranges@[a]).0.line
                != (#[trigger] done.ranges@[b]).0.line,
    ensures
        0 <= i < done.ranges@.len() ==> ({
            let after = after_task(statuses, Ok(done));
            let (start, end) = done.ranges@[i];
            after.contains_key(start.line) && after[start.line] == (end, done.result is Ok)
        }),
        (forall|k: int| 0 <= k < done.ranges@.len() ==> (#[trigger] done.ranges@[k]).0.line != line)
            ==> (after_task(statuses, Ok(done)).contains_key(line) == statuses.contains_key(line)
            && (statuses.contains_key(line) ==> after_task(statuses, Ok(done))[line]
            == statuses[line])),
{
    let succeeded = completion(done.result) == BatchCompletion::Success;
    assert(succeeded == (done.result is Ok));
    lemma_ranges_are_recorded(statuses, done.ranges@, succeeded, i, line);
}

proof fn lemma_ranges_are_recorded(
    statuses: Statuses,
    ranges: Seq<(Checkpoint, Checkpoint)>,
    succeeded: bool,
    i: int,
    line: u64,
)
    requires
        forall|a: int, b: int|
            0 <= a < b < ranges.len() ==> (#[trigger] ranges[a]).0.line != (
            #[trigger] ranges[b]).0.line,
    ensures
        0 <= i < ranges.len() ==> with_ranges(statuses, ranges, succeeded).contains_key(
            ranges[i].0.line,
        ) && with_ranges(statuses, ranges, succeeded)[ranges[i].0.line] == (
            ranges[i].1,
            succeeded,
        ),
        (forall|k: int| 0 <= k < ranges.len() ==> (#[trigger] ranges[k]).0.line != line) ==> (
        with_ranges(statuses, ranges, succeeded).contains_key(line) == statuses.contains_key(line)
            && (statuses.contains_key(line) ==> with_ranges(statuses, ranges, succeeded)[line]
            == statuses[line])),
    decreases ranges.len(),
{
    if ranges.len() > 0 {
        let front = ranges.drop_last();
        assert forall|a: int, b: int| 0 <= a < b < front.len() implies (#[trigger] front[a]).0.line
            != (#[trigger] front[b]).0.line by {
            assert(front[a] == ranges[a] && front[b] == ranges[b]);
        }
        lemma_ranges_are_recorded(statuses, front, succeeded, i, line);
        let last = ranges.len() - 1;
        if 0 <= i < last {
            assert(front[i] == ranges[i]);
            assert(ranges[i].0.line != ranges[last].0.line);
        }
        if forall|k: int| 0 <= k < ranges.len() ==> (#[trigger] ranges[k]).0.line != line {
            assert forall|k: int| 0 <= k < front.len() implies (#[trigger] front[k]).0.line
                != line by {
                assert(front[k] == ranges[k]);
            }
            assert(ranges[last].0.line != line);
        }
    }
}

/// A request tells of each of its batches where it starts and where it ends, in order.
pub proof fn law_requests_tell_the_range_of_every_batch(batches: Seq<SerializedBatch>, i: int)
    requires
        0 <= i < batches.len(),
    ensures
        ranges_of(batches).len() == batches.len(),
        ranges_of(batches)[i].0 == batches[i].start,
        ranges_of(batches)[i].1 == batches[i].end,
{
}

/// The rows of a group are those of its batches together, each from the line where it
/// starts to the line where it ends; the writes of some answers are those of each
/// together, and are known only where each tells them.
pub proof fn law_groups_are_counted_batch_by_batch(
    batches: Seq<SerializedBatch>,
    batch: SerializedBatch,
    results: Seq<D1Result>,
    result: D1Result,
)
    ensures
        logical_rows(Seq::empty()) == 0,
        batch.start.line <= batch.end.line ==> logical_rows(batches.push(batch)) == logical_rows(
            batches,
        ) + (batch.end.line - batch.start.line),
        batch.start.line > batch.end.line ==> logical_rows(batches.push(batch)) == logical_rows(
            batches,
        ),
        all_writes(Seq::empty()) == Some(0nat),
        all_writes(results.push(result)) == match (all_writes(results), result.meta) {
            (Some(n), Some(meta)) => Some((n + meta.rows_written) as nat),
            _ => None,
        },
{
    assert(batches.push(batch).drop_last() =~= batches);
    assert(results.push(result).drop_last() =~= results);
}

/// Only writes that are known for certain are given back: a request that failed, that was
/// repeated, or whose answers do not tell their writes is settled as if all its writes had
/// taken place; any other with the writes that its answers tell.
pub proof fn law_only_certain_writes_are_given_back(results: Vec<D1Result>, error: D1Error)
    ensures
        settlement(Err(error)) == Settlement::Consumed(Some(ProcessorErrorView::D1(error@))),
        settlement(Ok((results, true))) is Consumed,
        all_writes(results@) is None ==> (settlement(Ok((results, false))) matches Settlement::Consumed(
            Some(_),
        )) && (settlement(Ok((results, true))) matches Settlement::Consumed(Some(_))),
        all_writes(results@) matches Some(n) ==> (n <= u64::MAX ==> (settlement(
            Ok((results, false)),
        ) matches Settlement::Written(writes) && writes == n) && settlement(Ok((results, true)))
            == Settlement::Consumed(None)),
{
}

/// The place that is committed moves on behind a batch exactly where that batch starts at
/// its line, succeeded, and ends on a later line and not before its byte; otherwise it
/// stays where it is.
pub proof fn law_only_successful_batches_are_passed(
    at: Checkpoint,
    end: Checkpoint,
    succeeded: bool,
    statuses: Statuses,
)
    ensures
        !statuses.contains_key(at.line) ==> committed(at, statuses) == at,
        statuses.contains_key(at.line) && statuses[at.line] == (end, succeeded) ==> committed(
            at,
            statuses,
        ) == if succeeded && end.line > at.line && end.byte >= at.byte {
            committed(end, statuses)
        } else {
            at
        },
{
}

/// The batch between a place and the next one is recorded there and succeeded.
pub open spec fn has_succeeded(places: Seq<Checkpoint>, i: int, statuses: Statuses) -> bool {
    &&& statuses.contains_key(places[i].line)
    &&& statuses[places[i].line] == (places[i + 1], true)
    &&& places[i].line < places[i + 1].line
    &&& places[i].byte <= places[i + 1].byte
}

/// Batches that follow each other are committed up to the first that did not succeed,
/// whatever came of those behind it.
pub proof fn law_batches_are_committed_up_to_the_first_failure(
    places: Seq<Checkpoint>,
    succeeded: nat,
    statuses: Statuses,
)
    requires
        succeeded < places.len(),
        forall|i: int| 0 <= i < succeeded ==> #[trigger] has_succeeded(places, i, statuses),
        !statuses.contains_key(places[succeeded as int].line)
            || !statuses[places[succeeded as int].line].1,
    ensures
        committed(places[0], statuses) == places[succeeded as int],
    decreases succeeded,
{
    if succeeded > 0 {
        let rest = places.drop_first();
        assert forall|i: int| 0 <= i < succeeded - 1 implies #[trigger] has_succeeded(
            rest,
            i,
            statuses,
        ) by {
            assert(has_succeeded(places, i + 1, statuses));
        }
        law_batches_are_committed_up_to_the_first_failure(rest, (succeeded - 1) as nat, statuses);
        assert(has_succeeded(places, 0, statuses));
    }
}

/// A row that is taken claims one row of the maximum, also where it is too large to be
/// sent.
pub proof fn law_every_row_claims_one(run: Run, cursor: Cursor, claimed: int)
    requires
        claimed < run.max_rows,
        next_record(run, cursor) is Found,
        next_record(run, cursor)->Found_1 <= u64::MAX,
    ensures
        produced(run, cursor, claimed).claimed >= claimed + 1,
        taken(run, cursor).too_large is Some ==> produced(run, cursor, claimed).claimed == claimed
            + 1 && produced(run, cursor, claimed).result is Err,
{
    lemma_claims_grow(run, next_cursor(run, cursor), claimed + 1);
}

proof fn lemma_claims_grow(run: Run, cursor: Cursor, claimed: int)
    ensures
        produced(run, cursor, claimed).claimed >= claimed,
    decreases run.data.len() - cursor.at.byte,
{
    if ending(run, cursor, claimed) is None && taken(run, cursor).too_large is None {
        lemma_claims_grow(run, next_cursor(run, cursor), claimed + 1);
    }
}

} // verus!
