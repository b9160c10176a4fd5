//! What holds of every extraction: its batches hold the rows of the file in
//! order, each row once, within their bounds; they lie end to end; the row
//! budget is kept; and an extraction that is resumed sends what an extraction in
//! one go sends.
use crate::importer::batch::{
    last_batch, lemma_utf8_len_concat, payload_size, take_row, with_row, Batch, BatchLimits,
    Checkpoint, Pending,
};
use crate::importer::extract::{
    contents_of, cursor_at, ending, extraction, file_of, json_row, matched_columns, next_cursor,
    next_place, next_record, next_row, opening, opening_of, produced, skipped, taken, Cursor, Job,
    Opening, Run, Skipped,
};
use crate::importer::record::{
    has_byte_order_mark, held, lead, parsed, record_at, record_fault, Contents, RecordRead,
};
use crate::pieces::{join, lemma_join_push};
use vstd::prelude::*;

verus! {

// ---------------------------------------------------------------------------
// The rows of a file
// ---------------------------------------------------------------------------
/// The rows of all batches of a list, one batch after the other.
pub open spec fn rows_of(batches: Seq<Batch>) -> Seq<Seq<char>>
    decreases batches.len(),
{
    if batches.len() == 0 {
        seq![]
    } else {
        rows_of(batches.drop_last()) + batches.last().rows
    }
}

/// A file, and how its rows are read.
pub struct Source {
    pub contents: Contents,
    pub indices: Seq<int>,
    pub max_record_bytes: u64,
}

/// What a run reads.
pub open spec fn source_of(run: Run) -> Source {
    Source {
        contents: contents_of(run),
        indices: run.indices,
        max_record_bytes: run.max_record_bytes,
    }
}

/// What reading the record at a place gives to a reader that began at a position.
pub open spec fn read_of(source: Source, at: Checkpoint, begin: u64) -> RecordRead {
    record_at(source.contents, at.byte as int, begin as int, source.max_record_bytes)
}

/// The JSON row of the record at a place.
pub open spec fn row_of(source: Source, at: Checkpoint, begin: u64) -> Seq<char> {
    json_row(read_of(source, at, begin)->Found_0, source.indices)
}

/// The place behind the record at a place.
pub open spec fn behind(source: Source, at: Checkpoint, begin: u64) -> Checkpoint {
    Checkpoint {
        line: if at.line < u64::MAX {
            (at.line + 1) as u64
        } else {
            u64::MAX
        },
        byte: read_of(source, at, begin)->Found_1 as u64,
    }
}

/// The next `count` JSON rows of a file from a place on.
pub open spec fn rows_from(source: Source, at: Checkpoint, begin: u64, count: nat) -> Seq<
    Seq<char>,
>
    decreases count,
{
    if count == 0 {
        seq![]
    } else {
        seq![row_of(source, at, begin)] + rows_from(
            source,
            behind(source, at, begin),
            begin,
            (count - 1) as nat,
        )
    }
}

/// The place behind the next `count` records.
pub open spec fn place_after(source: Source, at: Checkpoint, begin: u64, count: nat) -> Checkpoint
    decreases count,
{
    if count == 0 {
        at
    } else {
        place_after(source, behind(source, at, begin), begin, (count - 1) as nat)
    }
}

/// The next `count` records can be read, and each row fits a payload by itself.
pub open spec fn readable(
    source: Source,
    maximum_payload: u64,
    at: Checkpoint,
    begin: u64,
    count: nat,
) -> bool
    decreases count,
{
    count == 0 || {
        let read = read_of(source, at, begin);
        &&& read is Found
        &&& read->Found_1 <= u64::MAX
        &&& payload_size(seq![row_of(source, at, begin)]) <= maximum_payload
        &&& readable(
            source,
            maximum_payload,
            behind(source, at, begin),
            begin,
            (count - 1) as nat,
        )
    }
}

proof fn lemma_rows_of_concat(a: Seq<Batch>, b: Seq<Batch>)
    ensures
        rows_of(a + b) == rows_of(a) + rows_of(b),
    decreases b.len(),
{
    if b.len() == 0 {
        assert(a + b =~= a);
        assert(rows_of(a) + rows_of(b) =~= rows_of(a));
    } else {
        assert((a + b).drop_last() =~= a + b.drop_last());
        lemma_rows_of_concat(a, b.drop_last());
        assert(rows_of(a) + (rows_of(b.drop_last()) + b.last().rows) =~= (rows_of(a) + rows_of(
            b.drop_last(),
        )) + b.last().rows);
    }
}

proof fn lemma_rows_of_one(batch: Batch)
    ensures
        rows_of(seq![batch]) == batch.rows,
{
    assert(seq![batch].drop_last() =~= seq![]);
    assert(rows_of(seq![batch].drop_last()) =~= seq![]);
    assert(seq![] + batch.rows =~= batch.rows);
}

/// Taking a row loses and doubles none: what is sent and what waits are the rows
/// that waited and the new one.
proof fn lemma_take_row_rows(
    limits: BatchLimits,
    pending: Pending,
    row: Seq<char>,
    at: Checkpoint,
    end: Checkpoint,
)
    ensures
        ({
            let step = take_row(limits, pending, row, at, end);
            rows_of(step.sent) + step.pending.rows == pending.rows.push(row)
        }),
{
    let (sent, grown) = with_row(limits, pending, row, at);
    let step = take_row(limits, pending, row, at, end);
    if sent.len() > 0 {
        lemma_rows_of_one(sent[0]);
        assert(sent =~= seq![sent[0]]);
    } else {
        assert(sent =~= seq![]);
    }
    assert(rows_of(sent) + grown.rows =~= pending.rows.push(row));
    if step.sent.len() > sent.len() {
        let last = step.sent.last();
        assert(step.sent =~= sent.push(last));
        assert(step.sent.drop_last() =~= sent);
        assert(rows_of(step.sent) + step.pending.rows =~= rows_of(sent) + grown.rows);
    }
}

proof fn lemma_last_batch_rows(pending: Pending, end: Checkpoint)
    ensures
        rows_of(last_batch(pending, end)) == pending.rows,
{
    if pending.rows.len() > 0 {
        lemma_rows_of_one(last_batch(pending, end)[0]);
        assert(last_batch(pending, end) =~= seq![last_batch(pending, end)[0]]);
    } else {
        assert(pending.rows =~= seq![]);
    }
}

/// The step of a run, in the terms of its source.
proof fn lemma_step(run: Run, cursor: Cursor)
    ensures
        next_record(run, cursor) == read_of(source_of(run), cursor.at, cursor.begin),
        next_place(run, cursor) == behind(source_of(run), cursor.at, cursor.begin),
        next_row(run, cursor) == row_of(source_of(run), cursor.at, cursor.begin),
{
}

/// Every row once, in order: the batches of a run that succeeds hold the rows
/// that waited and the rows of the file from the cursor on, as many as the run
/// claimed, and the run stops behind the last of them.
pub proof fn law_rows_are_sent_once_and_in_order(run: Run, cursor: Cursor, claimed: int)
    requires
        produced(run, cursor, claimed).result is Ok,
    ensures
        ({
            let all = produced(run, cursor, claimed);
            let count = (all.claimed - claimed) as nat;
            &&& all.claimed >= claimed
            &&& rows_of(all.batches) == cursor.pending.rows + rows_from(
                source_of(run),
                cursor.at,
                cursor.begin,
                count,
            )
            &&& all.result->Ok_0.checkpoint == place_after(
                source_of(run),
                cursor.at,
                cursor.begin,
                count,
            )
        }),
    decreases run.data.len() - cursor.at.byte,
{
    let source = source_of(run);
    let all = produced(run, cursor, claimed);
    match ending(run, cursor, claimed) {
        Some(end) => {
            lemma_last_batch_rows(cursor.pending, cursor.at);
            assert(cursor.pending.rows + rows_from(source, cursor.at, cursor.begin, 0)
                =~= cursor.pending.rows);
        },
        None => {
            lemma_step(run, cursor);
            let step = taken(run, cursor);
            let next = next_cursor(run, cursor);
            let rest = produced(run, next, claimed + 1);
            law_rows_are_sent_once_and_in_order(run, next, claimed + 1);
            let row = next_row(run, cursor);
            lemma_take_row_rows(run.limits, cursor.pending, row, cursor.at, next.at);
            lemma_rows_of_concat(step.sent, rest.batches);
            let count = (all.claimed - claimed) as nat;
            let later = rows_from(source, next.at, cursor.begin, (count - 1) as nat);
            assert(rows_of(step.sent) + (step.pending.rows + later) =~= (rows_of(step.sent)
                + step.pending.rows) + later);
            assert(cursor.pending.rows.push(row) + later =~= cursor.pending.rows + (seq![row]
                + later));
        },
    }
}

proof fn lemma_prefix_behind(front: Seq<Seq<char>>, part: Seq<Seq<char>>, whole: Seq<Seq<char>>)
    requires
        part.is_prefix_of(whole),
    ensures
        (front + part).is_prefix_of(front + whole),
{
    assert(front + part =~= (front + whole).subrange(0, (front + part).len() as int));
}

/// A run that ends at once sends nothing, or the rows that wait.
proof fn lemma_end_sends_a_prefix(run: Run, cursor: Cursor, claimed: int)
    requires
        ending(run, cursor, claimed) is Some,
    ensures
        rows_of(produced(run, cursor, claimed).batches).is_prefix_of(cursor.pending.rows),
{
    let sent = produced(run, cursor, claimed).batches;
    lemma_last_batch_rows(cursor.pending, cursor.at);
    if sent.len() == 0 {
        assert(rows_of(sent) =~= seq![]);
        assert(rows_of(sent) =~= cursor.pending.rows.subrange(0, 0));
    } else {
        assert(rows_of(sent) =~= cursor.pending.rows.subrange(
            0,
            cursor.pending.rows.len() as int,
        ));
    }
}

/// No row that the file does not hold, and none out of order: also where a run
/// fails, the batches it sent hold a first part of the rows.
pub proof fn law_a_failed_run_sent_a_prefix(run: Run, cursor: Cursor, claimed: int)
    ensures
        ({
            let all = produced(run, cursor, claimed);
            &&& all.claimed >= claimed
            &&& rows_of(all.batches).is_prefix_of(
                cursor.pending.rows + rows_from(
                    source_of(run),
                    cursor.at,
                    cursor.begin,
                    (all.claimed - claimed) as nat,
                ),
            )
        }),
    decreases run.data.len() - cursor.at.byte,
{
    let source = source_of(run);
    let all = produced(run, cursor, claimed);
    let waiting = cursor.pending.rows;
    if ending(run, cursor, claimed) is Some {
        lemma_end_sends_a_prefix(run, cursor, claimed);
        assert(waiting + rows_from(source, cursor.at, cursor.begin, 0) =~= waiting);
    } else {
        lemma_step(run, cursor);
        let step = taken(run, cursor);
        let next = next_cursor(run, cursor);
        let row = next_row(run, cursor);
        lemma_take_row_rows(run.limits, cursor.pending, row, cursor.at, next.at);
        let sent = rows_of(step.sent);
        let left = step.pending.rows;
        if step.too_large is Some {
            assert(rows_from(source, next.at, cursor.begin, 0) =~= seq![]);
            assert(waiting + rows_from(source, cursor.at, cursor.begin, 1) =~= sent + left);
            assert(Seq::<Seq<char>>::empty() =~= left.subrange(0, 0));
            lemma_prefix_behind(sent, seq![], left);
            assert(sent + Seq::<Seq<char>>::empty() =~= sent);
        } else {
            law_a_failed_run_sent_a_prefix(run, next, claimed + 1);
            let rest = produced(run, next, claimed + 1);
            lemma_rows_of_concat(step.sent, rest.batches);
            let count = (all.claimed - claimed) as nat;
            let later = rows_from(source, next.at, cursor.begin, (count - 1) as nat);
            lemma_prefix_behind(sent, rows_of(rest.batches), left + later);
            assert(waiting + rows_from(source, cursor.at, cursor.begin, count) =~= sent + (left
                + later)) by {
                assert(waiting + (seq![row] + later) =~= waiting.push(row) + later);
                assert((sent + left) + later =~= sent + (left + later));
            }
        }
    }
}

// ---------------------------------------------------------------------------
// The bounds of the batches
// ---------------------------------------------------------------------------
/// A batch within the limits: it holds a row, and no more rows and no more bytes
/// than allowed. (A limit of no rows admits one.)
pub open spec fn within_limits(limits: BatchLimits, batch: Batch) -> bool {
    &&& 1 <= batch.rows.len()
    &&& batch.rows.len() <= limits.batch_size || batch.rows.len() == 1
    &&& payload_size(batch.rows) <= limits.max_payload_bytes
}

/// Rows wait only while they are within the limits, and one more may come.
pub open spec fn may_wait(limits: BatchLimits, pending: Pending) -> bool {
    pending.rows.len() == 0 || (pending.rows.len() < limits.batch_size && payload_size(pending.rows)
        < limits.max_payload_bytes)
}

/// Every batch of a run has at least one row, no more rows than the batch size
/// and no more bytes than a payload may have.
pub proof fn law_batches_are_within_limits(run: Run, cursor: Cursor, claimed: int)
    requires
        may_wait(run.limits, cursor.pending),
    ensures
        forall|i: int|
            0 <= i < produced(run, cursor, claimed).batches.len() ==> within_limits(
                run.limits,
                #[trigger] produced(run, cursor, claimed).batches[i],
            ),
    decreases run.data.len() - cursor.at.byte,
{
    let all = produced(run, cursor, claimed);
    if ending(run, cursor, claimed) is None {
        let step = taken(run, cursor);
        if step.too_large is None {
            let next = next_cursor(run, cursor);
            let rest = produced(run, next, claimed + 1);
            law_batches_are_within_limits(run, next, claimed + 1);
            assert forall|i: int| 0 <= i < all.batches.len() implies within_limits(
                run.limits,
                #[trigger] all.batches[i],
            ) by {
                if i >= step.sent.len() {
                    assert(all.batches[i] == rest.batches[i - step.sent.len()]);
                }
            }
        }
    }
}

// ---------------------------------------------------------------------------
// Batches lie end to end
// ---------------------------------------------------------------------------
/// The batches lead from one place to another without a gap.
pub open spec fn leads(batches: Seq<Batch>, from: Checkpoint, to: Checkpoint) -> bool
    decreases batches.len(),
{
    if batches.len() == 0 {
        from == to
    } else {
        batches.last().end == to && leads(batches.drop_last(), from, batches.last().start)
    }
}

proof fn lemma_leads_concat(
    a: Seq<Batch>,
    b: Seq<Batch>,
    from: Checkpoint,
    middle: Checkpoint,
    to: Checkpoint,
)
    requires
        leads(a, from, middle),
        leads(b, middle, to),
    ensures
        leads(a + b, from, to),
    decreases b.len(),
{
    if b.len() == 0 {
        assert(a + b =~= a);
    } else {
        assert((a + b).drop_last() =~= a + b.drop_last());
        lemma_leads_concat(a, b.drop_last(), from, middle, b.last().start);
    }
}

proof fn lemma_leads_one(batch: Batch)
    ensures
        leads(seq![batch], batch.start, batch.end),
{
    assert(seq![batch].drop_last() =~= seq![]);
    assert(leads(seq![batch].drop_last(), batch.start, batch.start));
}

/// The rows that wait start at the cursor where there are none.
pub open spec fn starts_at_cursor(cursor: Cursor) -> bool {
    cursor.pending.rows.len() == 0 ==> cursor.pending.start == cursor.at
}

/// The batches of a run that succeeds lead from where its rows begin to the
/// checkpoint of its outcome, each beginning where the one before it ends.
pub proof fn law_batches_lie_end_to_end(run: Run, cursor: Cursor, claimed: int)
    requires
        starts_at_cursor(cursor),
        produced(run, cursor, claimed).result is Ok,
    ensures
        leads(
            produced(run, cursor, claimed).batches,
            cursor.pending.start,
            produced(run, cursor, claimed).result->Ok_0.checkpoint,
        ),
    decreases run.data.len() - cursor.at.byte,
{
    let all = produced(run, cursor, claimed);
    match ending(run, cursor, claimed) {
        Some(end) => {
            if cursor.pending.rows.len() > 0 {
                assert(all.batches =~= seq![all.batches[0]]);
                lemma_leads_one(all.batches[0]);
            }
        },
        None => {
            let step = taken(run, cursor);
            let next = next_cursor(run, cursor);
            let rest = produced(run, next, claimed + 1);
            law_batches_lie_end_to_end(run, next, claimed + 1);
            let (sent, grown) = with_row(
                run.limits,
                cursor.pending,
                next_row(run, cursor),
                cursor.at,
            );
            if sent.len() > 0 {
                assert(sent =~= seq![sent[0]]);
                lemma_leads_one(sent[0]);
            }
            assert(leads(sent, cursor.pending.start, grown.start));
            if step.sent.len() > sent.len() {
                assert(step.sent.drop_last() =~= sent);
            }
            assert(leads(step.sent, cursor.pending.start, step.pending.start));
            lemma_leads_concat(
                step.sent,
                rest.batches,
                cursor.pending.start,
                step.pending.start,
                all.result->Ok_0.checkpoint,
            );
        },
    }
}

/// The lines of a batch are counted by its rows.
pub open spec fn counts_lines(batch: Batch) -> bool {
    batch.end.line == batch.start.line + batch.rows.len()
}

/// The end of a batch lies as many lines behind its start as the batch has rows,
/// as long as the lines of the file can be counted.
pub proof fn law_batches_count_their_lines(run: Run, cursor: Cursor, claimed: int)
    requires
        starts_at_cursor(cursor),
        cursor.at.line == cursor.pending.start.line + cursor.pending.rows.len(),
        cursor.at.line + (run.data.len() - cursor.at.byte) <= u64::MAX,
    ensures
        forall|i: int|
            0 <= i < produced(run, cursor, claimed).batches.len() ==> counts_lines(
                #[trigger] produced(run, cursor, claimed).batches[i],
            ),
    decreases run.data.len() - cursor.at.byte,
{
    let all = produced(run, cursor, claimed);
    if ending(run, cursor, claimed) is None {
        let step = taken(run, cursor);
        if step.too_large is None {
            let next = next_cursor(run, cursor);
            let rest = produced(run, next, claimed + 1);
            law_batches_count_their_lines(run, next, claimed + 1);
            assert forall|i: int| 0 <= i < all.batches.len() implies counts_lines(
                #[trigger] all.batches[i],
            ) by {
                if i >= step.sent.len() {
                    assert(all.batches[i] == rest.batches[i - step.sent.len()]);
                }
            }
        }
    }
}

/// A run never claims more rows than its maximum.
pub proof fn law_the_row_budget_is_kept(run: Run, cursor: Cursor, claimed: int)
    ensures
        claimed <= produced(run, cursor, claimed).claimed,
        claimed <= run.max_rows ==> produced(run, cursor, claimed).claimed <= run.max_rows,
        claimed > run.max_rows ==> produced(run, cursor, claimed).claimed == claimed,
    decreases run.data.len() - cursor.at.byte,
{
    if ending(run, cursor, claimed) is None && taken(run, cursor).too_large is None {
        law_the_row_budget_is_kept(run, next_cursor(run, cursor), claimed + 1);
    }
}

/// Whatever an extraction comes to, its batches are within the limits of its job,
/// and it claims no more rows than the job may have.
pub proof fn law_extractions_keep_their_limits(
    archive: Seq<u8>,
    job: Job,
    keys: Seq<Seq<char>>,
    claimed: int,
)
    ensures
        ({
            let all = extraction(archive, job, keys, claimed);
            &&& forall|i: int|
                0 <= i < all.batches.len() ==> within_limits(job.limits, #[trigger] all.batches[i])
            &&& claimed <= all.claimed
            &&& claimed <= job.max_rows ==> all.claimed <= job.max_rows
        }),
{
    let start = opening(archive, job, keys, claimed);
    if claimed < job.max_rows && file_of(archive, job) is Some {
        let (declared, contents) = file_of(archive, job)->Some_0;
        lemma_opening_keeps_limits(job, declared, contents, keys);
        if let Opening::Running(_, run, cursor) = start {
            law_batches_are_within_limits(run, cursor, claimed);
            law_the_row_budget_is_kept(run, cursor, claimed);
        }
    }
}

/// A file that opens is read within the limits of its job, from where no rows wait.
proof fn lemma_opening_keeps_limits(
    job: Job,
    declared: u64,
    contents: Contents,
    keys: Seq<Seq<char>>,
)
    ensures
        opening_of(job, declared, contents, keys) matches Opening::Running(_, run, cursor) ==> run.limits
            == job.limits && run.max_rows == job.max_rows && cursor.pending.rows.len() == 0,
{
    let read = record_at(contents, 0, 0, job.max_record_bytes);
    assert(record_fault(read, job.max_record_bytes) is None ==> read is Found || read is Missing);
}

// ---------------------------------------------------------------------------
// Resuming
// ---------------------------------------------------------------------------
/// A row by itself takes no more bytes than together with others.
proof fn lemma_row_alone_is_smaller(rows: Seq<Seq<char>>, row: Seq<char>)
    ensures
        payload_size(seq![row]) <= payload_size(rows.push(row)),
{
    let open = "["@;
    let close = "]"@;
    let sep = ","@;
    lemma_utf8_len_concat(open + join(seq![row], sep), close);
    lemma_utf8_len_concat(open, join(seq![row], sep));
    lemma_utf8_len_concat(open + join(rows.push(row), sep), close);
    lemma_utf8_len_concat(open, join(rows.push(row), sep));
    lemma_join_push(rows, row, sep);
    if rows.len() > 0 {
        lemma_utf8_len_concat(join(rows, sep) + sep, row);
    }
}

/// What a run that succeeds has read can be read.
proof fn lemma_read_is_readable(run: Run, cursor: Cursor, claimed: int)
    requires
        produced(run, cursor, claimed).result is Ok,
    ensures
        produced(run, cursor, claimed).claimed >= claimed,
        readable(
            source_of(run),
            run.limits.max_payload_bytes,
            cursor.at,
            cursor.begin,
            (produced(run, cursor, claimed).claimed - claimed) as nat,
        ),
    decreases run.data.len() - cursor.at.byte,
{
    if ending(run, cursor, claimed) is None {
        let next = next_cursor(run, cursor);
        lemma_step(run, cursor);
        lemma_read_is_readable(run, next, claimed + 1);
        let row = next_row(run, cursor);
        lemma_row_alone_is_smaller(cursor.pending.rows, row);
        assert(Seq::<Seq<char>>::empty().push(row) =~= seq![row]);
    }
}

/// A run that succeeds ends at its maximum, or where the file ends.
proof fn lemma_where_a_run_ends(run: Run, cursor: Cursor, claimed: int)
    requires
        produced(run, cursor, claimed).result is Ok,
        run.data.len() <= u64::MAX,
    ensures
        produced(run, cursor, claimed).claimed >= claimed,
        produced(run, cursor, claimed).claimed >= run.max_rows || read_of(
            source_of(run),
            place_after(
                source_of(run),
                cursor.at,
                cursor.begin,
                (produced(run, cursor, claimed).claimed - claimed) as nat,
            ),
            cursor.begin,
        ) is Missing,
    decreases run.data.len() - cursor.at.byte,
{
    lemma_step(run, cursor);
    if ending(run, cursor, claimed) is None {
        lemma_where_a_run_ends(run, next_cursor(run, cursor), claimed + 1);
    }
}

/// A run over records that can be read, behind which its maximum is reached or the
/// file ends, succeeds, and reads exactly those.
proof fn lemma_readable_is_read(run: Run, cursor: Cursor, claimed: int, count: nat)
    requires
        readable(
            source_of(run),
            run.limits.max_payload_bytes,
            cursor.at,
            cursor.begin,
            count,
        ),
        run.max_rows == claimed + count || (run.max_rows > claimed + count && read_of(
            source_of(run),
            place_after(source_of(run), cursor.at, cursor.begin, count),
            cursor.begin,
        ) is Missing),
    ensures
        produced(run, cursor, claimed).result is Ok,
        produced(run, cursor, claimed).claimed == claimed + count,
    decreases count,
{
    lemma_step(run, cursor);
    if count > 0 {
        let next = next_cursor(run, cursor);
        let row = next_row(run, cursor);
        if cursor.pending.rows.len() == 0 {
            assert(cursor.pending.rows.push(row) =~= seq![row]);
        }
        lemma_readable_is_read(run, next, claimed + 1, (count - 1) as nat);
    }
}

/// Reading on after some records.
proof fn lemma_reading_on(
    source: Source,
    maximum_payload: u64,
    at: Checkpoint,
    begin: u64,
    first: nat,
    second: nat,
)
    requires
        readable(source, maximum_payload, at, begin, first),
    ensures
        ({
            let middle = place_after(source, at, begin, first);
            &&& rows_from(source, at, begin, first + second) == rows_from(
                source,
                at,
                begin,
                first,
            ) + rows_from(source, middle, begin, second)
            &&& place_after(source, at, begin, first + second) == place_after(
                source,
                middle,
                begin,
                second,
            )
            &&& readable(source, maximum_payload, at, begin, first + second) == readable(
                source,
                maximum_payload,
                middle,
                begin,
                second,
            )
        }),
    decreases first,
{
    if first == 0 {
        assert(rows_from(source, at, begin, 0) + rows_from(source, at, begin, second) =~= rows_from(
            source,
            at,
            begin,
            second,
        ));
    } else {
        let next = behind(source, at, begin);
        lemma_reading_on(source, maximum_payload, next, begin, (first - 1) as nat, second);
        let row = row_of(source, at, begin);
        let middle = place_after(source, at, begin, first);
        assert((first + second - 1) as nat == (first - 1) as nat + second);
        assert(seq![row] + (rows_from(source, next, begin, (first - 1) as nat) + rows_from(
            source,
            middle,
            begin,
            second,
        )) =~= (seq![row] + rows_from(source, next, begin, (first - 1) as nat)) + rows_from(
            source,
            middle,
            begin,
            second,
        ));
    }
}

/// Two readers that stand at the same position see the same byte order mark there: both
/// began there, or none of them, or there is none.
pub open spec fn see_the_same(bytes: Seq<u8>, at: int, one: int, other: int) -> bool {
    &&& 0 <= one <= at
    &&& 0 <= other <= at
    &&& at <= bytes.len()
    &&& (one == at) == (other == at) || !has_byte_order_mark(bytes.skip(at))
}

/// It does not matter where a reader began, for a record that it can read and for the
/// end of the file. (It matters which of its errors a record that is too long gives.)
proof fn lemma_begin_does_not_matter(
    contents: Contents,
    at: int,
    one: int,
    other: int,
    maximum_bytes: u64,
)
    requires
        see_the_same(contents.bytes, at, one, other),
        record_at(contents, at, one, maximum_bytes) is Found || record_at(
            contents,
            at,
            one,
            maximum_bytes,
        ) is Missing,
    ensures
        record_at(contents, at, other, maximum_bytes) == record_at(contents, at, one, maximum_bytes),
{
    let length = contents.bytes.len() as int;
    let rest = contents.bytes.skip(at);
    assert(lead(rest, at == one) == lead(rest, at == other));
    assert(parsed(rest, at == one) == parsed(rest, at == other));
    let record = parsed(rest, at == one);
    assert(held(length, other, at) >= 0);
    assert(record.open && record.fields is Some ==> record.taken == rest.len());
}

/// Records that can be read are the same wherever the reader began.
proof fn lemma_readable_from_any_begin(
    source: Source,
    maximum_payload: u64,
    at: Checkpoint,
    one: u64,
    other: u64,
    count: nat,
)
    requires
        see_the_same(source.contents.bytes, at.byte as int, one as int, other as int),
        source.contents.bytes.len() <= u64::MAX,
        readable(source, maximum_payload, at, one, count),
    ensures
        readable(source, maximum_payload, at, other, count),
        rows_from(source, at, other, count) == rows_from(source, at, one, count),
        place_after(source, at, other, count) == place_after(source, at, one, count),
    decreases count,
{
    if count > 0 {
        lemma_begin_does_not_matter(
            source.contents,
            at.byte as int,
            one as int,
            other as int,
            source.max_record_bytes,
        );
        let next = behind(source, at, one);
        assert(at.byte < next.byte <= source.contents.bytes.len());
        lemma_readable_from_any_begin(
            source,
            maximum_payload,
            next,
            one,
            other,
            (count - 1) as nat,
        );
    }
}

/// Records lie inside the file, and each takes a byte at least.
proof fn lemma_places_grow(
    source: Source,
    maximum_payload: u64,
    at: Checkpoint,
    begin: u64,
    count: nat,
)
    requires
        at.byte <= source.contents.bytes.len() <= u64::MAX,
        readable(source, maximum_payload, at, begin, count),
    ensures
        at.byte + count <= place_after(source, at, begin, count).byte
            <= source.contents.bytes.len(),
    decreases count,
{
    if count > 0 {
        lemma_places_grow(
            source,
            maximum_payload,
            behind(source, at, begin),
            begin,
            (count - 1) as nat,
        );
    }
}

proof fn lemma_skipped_inside(contents: Contents, at: nat, lines: nat, maximum_bytes: u64)
    requires
        at <= contents.bytes.len(),
    ensures
        skipped(contents, at, lines, maximum_bytes) matches Skipped::Behind(end) ==> at <= end
            <= contents.bytes.len(),
        skipped(contents, at, lines, maximum_bytes) matches Skipped::AtEnd(end) ==> end
            == contents.bytes.len() && contents.fault is None,
    decreases lines,
{
    if lines > 0 {
        let read = record_at(contents, at as int, 0, maximum_bytes);
        if read is Found {
            lemma_skipped_inside(contents, read->Found_1, (lines - 1) as nat, maximum_bytes);
        }
    }
}

/// An empty header names no column.
proof fn lemma_no_columns(columns: Seq<Seq<char>>)
    ensures
        matched_columns(seq![], columns).len() == 0,
    decreases columns.len(),
{
    if columns.len() > 0 {
        lemma_no_columns(columns.drop_last());
    }
}

/// No rows wait at a place where reading begins.
proof fn lemma_no_rows_wait(at: Checkpoint, begin: u64, source: Source, count: nat)
    ensures
        cursor_at(at, begin).pending.rows + rows_from(source, at, begin, count) == rows_from(
            source,
            at,
            begin,
            count,
        ),
{
    assert(cursor_at(at, begin).pending.rows + rows_from(source, at, begin, count) =~= rows_from(
        source,
        at,
        begin,
        count,
    ));
}

/// A job that goes on at a place with a maximum of rows.
pub open spec fn resumed_at(job: Job, place: Checkpoint, max_rows: u64) -> Job {
    Job { checkpoint: place, max_rows, ..job }
}

/// What two runs read one after the other, a run with both maxima reads in one go.
proof fn lemma_runs_in_one_go(run: Run, cursor: Cursor, second_max_rows: u64)
    requires
        cursor == cursor_at(cursor.at, cursor.begin),
        cursor.begin <= cursor.at.byte <= run.data.len() <= u64::MAX,
        run.max_rows + second_max_rows <= u64::MAX,
        produced(run, cursor, 0).result is Ok,
        ({
            let place = produced(run, cursor, 0).result->Ok_0.checkpoint;
            let second = produced(
                Run { max_rows: second_max_rows, ..run },
                cursor_at(place, place.byte),
                0,
            );
            &&& second.result is Ok
            &&& place.byte != cursor.begin ==> !has_byte_order_mark(
                run.data.skip(place.byte as int),
            )
        }),
    ensures
        ({
            let first = produced(run, cursor, 0);
            let place = first.result->Ok_0.checkpoint;
            let second = produced(
                Run { max_rows: second_max_rows, ..run },
                cursor_at(place, place.byte),
                0,
            );
            let whole = produced(
                Run { max_rows: (run.max_rows + second_max_rows) as u64, ..run },
                cursor,
                0,
            );
            &&& whole.result is Ok
            &&& rows_of(whole.batches) == rows_of(first.batches) + rows_of(second.batches)
            &&& whole.result->Ok_0.checkpoint == second.result->Ok_0.checkpoint
        }),
{
    let source = source_of(run);
    let payload = run.limits.max_payload_bytes;
    let first = produced(run, cursor, 0);
    let place = first.result->Ok_0.checkpoint;
    let n1 = first.claimed as nat;
    law_rows_are_sent_once_and_in_order(run, cursor, 0);
    law_the_row_budget_is_kept(run, cursor, 0);
    lemma_read_is_readable(run, cursor, 0);
    lemma_where_a_run_ends(run, cursor, 0);
    lemma_places_grow(source, payload, cursor.at, cursor.begin, n1);
    lemma_no_rows_wait(cursor.at, cursor.begin, source, n1);
    let second_run = Run { max_rows: second_max_rows, ..run };
    let second_cursor = cursor_at(place, place.byte);
    let second = produced(second_run, second_cursor, 0);
    let n2 = second.claimed as nat;
    assert(source_of(second_run) == source);
    law_rows_are_sent_once_and_in_order(second_run, second_cursor, 0);
    law_the_row_budget_is_kept(second_run, second_cursor, 0);
    lemma_read_is_readable(second_run, second_cursor, 0);
    lemma_where_a_run_ends(second_run, second_cursor, 0);
    lemma_places_grow(source, payload, place, place.byte, n2);
    lemma_no_rows_wait(place, place.byte, source, n2);
    lemma_readable_from_any_begin(source, payload, place, place.byte, cursor.begin, n2);
    lemma_reading_on(source, payload, cursor.at, cursor.begin, n1, n2);
    let last = place_after(source, cursor.at, cursor.begin, n1 + n2);
    if n1 < run.max_rows {
        // The file ends before the first maximum: nothing is left to read.
        lemma_begin_does_not_matter(
            source.contents,
            place.byte as int,
            cursor.begin as int,
            place.byte as int,
            source.max_record_bytes,
        );
        assert(n2 == 0);
    } else if n2 < second_max_rows {
        lemma_begin_does_not_matter(
            source.contents,
            last.byte as int,
            place.byte as int,
            cursor.begin as int,
            source.max_record_bytes,
        );
    }
    let whole_run = Run { max_rows: (run.max_rows + second_max_rows) as u64, ..run };
    assert(source_of(whole_run) == source);
    lemma_readable_is_read(whole_run, cursor, 0, n1 + n2);
    law_rows_are_sent_once_and_in_order(whole_run, cursor, 0);
    lemma_no_rows_wait(cursor.at, cursor.begin, source, n1 + n2);
}

/// Resuming loses and repeats nothing. Let an extraction succeed, and let a second one
/// of the same file succeed from the checkpoint of the first, each with a maximum of
/// rows. Then one extraction with the sum of both maxima succeeds, sends the rows of the
/// first and then those of the second, and ends at the same place. This holds wherever
/// the two end: at their maxima, also at a maximum of none, at the end of the file, or
/// at once, where no column matches. (No byte order mark may stand at a checkpoint that
/// the first extraction came to: a reader that begins there would drop it.)
pub proof fn law_resuming_sends_the_same_rows(
    archive: Seq<u8>,
    job: Job,
    keys: Seq<Seq<char>>,
    second_max_rows: u64,
)
    requires
        job.max_rows + second_max_rows <= u64::MAX,
        file_of(archive, job) matches Some((_, contents)) ==> contents.bytes.len() <= u64::MAX,
        extraction(archive, job, keys, 0).result is Ok,
        ({
            let place = extraction(archive, job, keys, 0).result->Ok_0.checkpoint;
            let resumed = resumed_at(job, place, second_max_rows);
            &&& extraction(archive, resumed, keys, 0).result is Ok
            &&& place.byte != job.checkpoint.byte ==> !has_byte_order_mark(
                file_of(archive, job)->Some_0.1.bytes.skip(place.byte as int),
            )
        }),
    ensures
        ({
            let first = extraction(archive, job, keys, 0);
            let place = first.result->Ok_0.checkpoint;
            let second = extraction(archive, resumed_at(job, place, second_max_rows), keys, 0);
            let together = Job { max_rows: (job.max_rows + second_max_rows) as u64, ..job };
            let whole = extraction(archive, together, keys, 0);
            &&& whole.result is Ok
            &&& rows_of(whole.batches) == rows_of(first.batches) + rows_of(second.batches)
            &&& whole.result->Ok_0.checkpoint == second.result->Ok_0.checkpoint
            &&& job.max_rows > 0 ==> whole.sql == first.sql
        }),
{
    let first = extraction(archive, job, keys, 0);
    let place = first.result->Ok_0.checkpoint;
    let resumed = resumed_at(job, place, second_max_rows);
    let second = extraction(archive, resumed, keys, 0);
    let together = Job { max_rows: (job.max_rows + second_max_rows) as u64, ..job };
    let whole = extraction(archive, together, keys, 0);
    assert(rows_of(seq![]) =~= seq![]);
    if job.max_rows == 0 {
        assert(together == resumed);
        assert(rows_of(first.batches) + rows_of(second.batches) =~= rows_of(whole.batches));
    } else if second_max_rows == 0 {
        assert(together == job);
        assert(rows_of(first.batches) + rows_of(second.batches) =~= rows_of(whole.batches));
    } else {
        let (declared, contents) = file_of(archive, job)->Some_0;
        assert(file_of(archive, resumed) == file_of(archive, job));
        assert(file_of(archive, together) == file_of(archive, job));
        let read = record_at(contents, 0, 0, job.max_record_bytes);
        let headers = if read is Found {
            read->Found_0
        } else {
            seq![]
        };
        if matched_columns(headers, job.db_columns).len() == 0 {
            assert(rows_of(first.batches) + rows_of(second.batches) =~= rows_of(whole.batches));
        } else {
            // A file without a header has no matching column.
            if read is Missing {
                lemma_no_columns(job.db_columns);
            }
            assert(read is Found);
            let header_end = read->Found_1;
            assert(0 < header_end <= contents.bytes.len());
            lemma_skipped_inside(
                contents,
                header_end,
                job.checkpoint.line as nat,
                job.max_record_bytes,
            );
            let start = opening(archive, job, keys, 0);
            if let Opening::Running(sql, run, cursor) = start {
                assert(header_end <= cursor.at.byte <= contents.bytes.len());
                law_rows_are_sent_once_and_in_order(run, cursor, 0);
                lemma_read_is_readable(run, cursor, 0);
                lemma_places_grow(
                    source_of(run),
                    run.limits.max_payload_bytes,
                    cursor.at,
                    cursor.begin,
                    first.claimed as nat,
                );
                let second_run = Run { max_rows: second_max_rows, ..run };
                assert(opening(archive, resumed, keys, 0) == Opening::Running(
                    sql,
                    second_run,
                    cursor_at(place, place.byte),
                ));
                lemma_runs_in_one_go(run, cursor, second_max_rows);
                let whole_run = Run { max_rows: together.max_rows, ..run };
                assert(opening(archive, together, keys, 0) == Opening::Running(
                    sql,
                    whole_run,
                    cursor,
                ));
            } else {
                // The file ends before the line of the checkpoint.
                assert(place.byte == contents.bytes.len());
                let second_start = opening(archive, resumed, keys, 0);
                let second_run = second_start->Running_1;
                let second_cursor = cursor_at(place, place.byte);
                assert(second_start == Opening::Running(
                    second_start->Running_0,
                    second_run,
                    second_cursor,
                ));
                assert(contents.bytes.skip(place.byte as int).len() == 0);
                assert(next_record(second_run, second_cursor) is Missing);
                assert(second.batches =~= seq![]);
                assert(rows_of(first.batches) + rows_of(second.batches) =~= rows_of(
                    whole.batches,
                ));
            }
        }
    }
}

/// A run comes to the same wherever its reader began, but for the error of a record
/// that cannot be read.
proof fn lemma_runs_from_any_begin(run: Run, cursor: Cursor, begin: u64, claimed: int)
    requires
        run.data.len() <= u64::MAX,
        see_the_same(run.data, cursor.at.byte as int, cursor.begin as int, begin as int),
    ensures
        ({
            let one = produced(run, cursor, claimed);
            let other = produced(run, Cursor { begin, ..cursor }, claimed);
            &&& one.batches == other.batches
            &&& one.claimed == other.claimed
            &&& one.result is Ok <==> other.result is Ok
            &&& one.result is Ok ==> one.result == other.result
        }),
    decreases run.data.len() - cursor.at.byte,
{
    let moved = Cursor { begin, ..cursor };
    let contents = contents_of(run);
    let at = cursor.at.byte as int;
    let one = next_record(run, cursor);
    let other = next_record(run, moved);
    if one is Found || one is Missing {
        lemma_begin_does_not_matter(
            contents,
            at,
            cursor.begin as int,
            begin as int,
            run.max_record_bytes,
        );
    }
    if other is Found || other is Missing {
        lemma_begin_does_not_matter(
            contents,
            at,
            begin as int,
            cursor.begin as int,
            run.max_record_bytes,
        );
    }
    if ending(run, cursor, claimed) is None {
        assert(one is Found);
        assert(taken(run, moved) == taken(run, cursor));
        let next = next_cursor(run, cursor);
        assert(next_cursor(run, moved) == (Cursor { begin, ..next }));
        if taken(run, cursor).too_large is None {
            assert(cursor.at.byte < next.at.byte <= run.data.len());
            lemma_runs_from_any_begin(run, next, begin, claimed + 1);
        }
    }
}

/// A checkpoint that tells its line alone finds its byte: an extraction from a line
/// comes to the same as one from that line and the byte where it begins. Only the
/// error of a record that cannot be read may be another. (No byte order mark may stand
/// there: a reader that begins there would drop it.)
pub proof fn law_a_line_finds_its_byte(
    archive: Seq<u8>,
    job: Job,
    keys: Seq<Seq<char>>,
    claimed: int,
)
    requires
        job.checkpoint.byte == 0,
        opening(archive, job, keys, claimed) is Running,
        ({
            let place = opening(archive, job, keys, claimed)->Running_2.at;
            let data = file_of(archive, job)->Some_0.1.bytes;
            data.len() <= u64::MAX && !has_byte_order_mark(data.skip(place.byte as int))
        }),
    ensures
        ({
            let place = opening(archive, job, keys, claimed)->Running_2.at;
            let from_line = extraction(archive, job, keys, claimed);
            let from_byte = extraction(archive, Job { checkpoint: place, ..job }, keys, claimed);
            &&& place.line == job.checkpoint.line
            &&& place.byte > 0
            &&& from_byte.sql == from_line.sql
            &&& from_byte.batches == from_line.batches
            &&& from_byte.claimed == from_line.claimed
            &&& from_byte.result is Ok <==> from_line.result is Ok
            &&& from_line.result is Ok ==> from_byte.result == from_line.result
        }),
{
    let start = opening(archive, job, keys, claimed);
    let sql = start->Running_0;
    let run = start->Running_1;
    let place = start->Running_2.at;
    let (declared, contents) = file_of(archive, job)->Some_0;
    let read = record_at(contents, 0, 0, job.max_record_bytes);
    // A file without a header has no matching column, and is not read.
    if read is Missing {
        lemma_no_columns(job.db_columns);
    }
    assert(read is Found);
    let header_end = read->Found_1;
    lemma_skipped_inside(contents, header_end, job.checkpoint.line as nat, job.max_record_bytes);
    assert(0 < header_end <= place.byte <= contents.bytes.len());
    let placed = Job { checkpoint: place, ..job };
    assert(file_of(archive, placed) == file_of(archive, job));
    assert(opening(archive, placed, keys, claimed) == Opening::Running(
        sql,
        run,
        cursor_at(place, place.byte),
    ));
    assert(start->Running_2 == cursor_at(place, 0));
    lemma_runs_from_any_begin(run, cursor_at(place, 0), place.byte, claimed);
}

} // verus!
