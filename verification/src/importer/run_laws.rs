//! What holds of every run of the importer: what it finds in answers and catalogs, how
//! it tries again, how it shares rows and writes, and what it records.
use crate::importer::catalog::{
    keys_of, schema_of, table_columns, table_keys, ProviderSchema, SchemaTable,
};
use crate::importer::client::{
    counted, first_count, init_progress, total_read, total_written,
};
use crate::importer::d1::{
    cell_value, delay_after, fails_with, final_error, may_try_again, tried_again, wait_asked,
    Attempt, Cell, D1Result, RetryState, Row, SqlValue, SqlValueView,
};
use crate::importer::download::{
    accepts, declared_length, DownloadAction, DownloadPhase, DownloadStep, DownloadTask, FeedHead,
};
use crate::importer::extract::CsvExtractOutcome;
use crate::importer::fault::{D1ErrorView, ProcessorErrorView};
use crate::importer::file_task::decision;
use crate::importer::ledger::{
    after_lease, after_release, day_of, is_worth_it, lease_size, leased_on, ledger_of, may_request,
    DailyLease, DailyLedger,
};
use crate::importer::provider::{
    planned, with_files, DownloadedFeed, FileResult, PrepareAction, PreparePhase, PrepareStep,
    PrepareTask,
};
use crate::importer::rotation::first_index;
use crate::importer::select::{pending_files, prepared_files, Discovered, Prepared};
use crate::importer::upload::UploadOutcome;
use crate::importer::waves::{
    after_wave, goes_on, has_failure, processed_rows, ran_out, sum, WaveResult, Workflow,
};
use crate::number_laws::{law_numbers_are_read_as_they_are_written, spells};
use crate::pieces::join;
use crate::pieces_laws::law_parts_are_joined_in_order;
use crate::text::texts;
use vstd::prelude::*;
use vstd::string::*;

verus! {

// ---------------------------------------------------------------------------
// Answers and catalogs
// ---------------------------------------------------------------------------
/// The cell is the first of its column.
pub open spec fn is_first_cell(cells: Seq<Cell>, i: int, column: Seq<char>) -> bool {
    &&& 0 <= i < cells.len()
    &&& cells[i].column@ == column
    &&& forall|k: int| 0 <= k < i ==> (#[trigger] cells[k]).column@ != column
}

/// The value of a column is that of its first cell; a column without a cell has none.
pub proof fn law_values_are_found_by_column(cells: Seq<Cell>, i: int, column: Seq<char>)
    ensures
        is_first_cell(cells, i, column) ==> cell_value(cells, column) == Some(cells[i].value@),
        (forall|k: int| 0 <= k < cells.len() ==> (#[trigger] cells[k]).column@ != column)
            ==> cell_value(cells, column) is None,
    decreases cells.len(),
{
    if cells.len() > 0 {
        let rest = cells.drop_first();
        assert forall|k: int| 0 <= k < rest.len() implies rest[k] == cells[k + 1] by {}
        law_values_are_found_by_column(rest, i - 1, column);
        if is_first_cell(cells, i, column) && i > 0 {
            assert(cells[0].column@ != column);
            assert(is_first_cell(rest, i - 1, column));
        }
        if forall|k: int| 0 <= k < cells.len() ==> (#[trigger] cells[k]).column@ != column {
            assert(cells[0].column@ != column);
        }
    }
}

/// A number is read out of the first cell of its column in the first row of the first
/// answer, and is zero where that holds none.
pub proof fn law_counts_stand_in_the_first_row(
    results: Seq<D1Result>,
    column: Seq<char>,
    i: int,
    n: u64,
)
    ensures
        results.len() == 0 || results[0].results@.len() == 0 ==> first_count(results, column) == 0,
        results.len() > 0 && results[0].results@.len() > 0 ==> ({
            let cells = results[0].results@[0].cells@;
            &&& is_first_cell(cells, i, column) && cells[i].value
                == SqlValue::Unsigned(n) ==> first_count(results, column) == n
            &&& is_first_cell(cells, i, column) && !(cells[i].value is Unsigned) ==> first_count(
                results,
                column,
            ) == 0
            &&& (forall|k: int| 0 <= k < cells.len() ==> (#[trigger] cells[k]).column@ != column)
                ==> first_count(results, column) == 0
        }),
{
    if results.len() > 0 && results[0].results@.len() > 0 {
        law_values_are_found_by_column(results[0].results@[0].cells@, i, column);
    }
}

/// A cell gives a text only where it holds one, a count only where it holds a number that
/// is not negative, and a number only where it holds one that fits into 64 signed bits.
pub proof fn law_cells_give_what_they_hold(row: Row, i: int, column: Seq<char>)
    requires
        is_first_cell(row.cells@, i, column),
    ensures
        ({
            let held = row.cells@[i].value;
            &&& row.text(column) == match held {
                SqlValue::Text(text) => Some(text@),
                _ => None,
            }
            &&& row.unsigned(column) == match held {
                SqlValue::Unsigned(n) => Some(n),
                _ => None,
            }
            &&& row.signed(column) == match held {
                SqlValue::Unsigned(n) => if n <= 0x7fff_ffff_ffff_ffff {
                    Some(n as int)
                } else {
                    None
                },
                SqlValue::Negative(n) => Some(n as int),
                _ => None,
            }
        }),
{
    law_values_are_found_by_column(row.cells@, i, column);
}

/// The ledger is read out of its two columns, each for itself.
pub proof fn law_the_ledger_is_read_from_its_columns(results: Seq<D1Result>)
    ensures
        ledger_of(results).day == first_count(results, seq!['D', 'a', 'y']),
        ledger_of(results).leased == first_count(results, seq!['L', 'e', 'a', 's', 'e', 'd']),
{
    reveal_strlit("Day");
    reveal_strlit("Leased");
    assert("Day"@ =~= seq!['D', 'a', 'y']);
    assert("Leased"@ =~= seq!['L', 'e', 'a', 's', 'e', 'd']);
}

/// A table is found by its name, the first one; so are its columns and its keys.
pub proof fn law_tables_are_found_by_their_name(tables: Seq<SchemaTable>, i: int, name: Seq<char>)
    ensures
        0 <= i < tables.len() && tables[i].table@ == name && (forall|k: int|
            0 <= k < i ==> (#[trigger] tables[k]).table@ != name) ==> table_columns(tables, name)
            == Some(texts(tables[i].columns@)) && table_keys(tables, name) == texts(
            tables[i].keys@,
        ),
        (forall|k: int| 0 <= k < tables.len() ==> (#[trigger] tables[k]).table@ != name)
            ==> table_columns(tables, name) is None && table_keys(tables, name).len() == 0,
    decreases tables.len(),
{
    if tables.len() > 0 {
        let rest = tables.drop_first();
        assert forall|k: int| 0 <= k < rest.len() implies rest[k] == tables[k + 1] by {}
        law_tables_are_found_by_their_name(rest, i - 1, name);
        if 0 < i < tables.len() && tables[i].table@ == name && (forall|k: int|
            0 <= k < i ==> (#[trigger] tables[k]).table@ != name) {
            assert(tables[0].table@ != name);
            assert forall|k: int| 0 <= k < i - 1 implies (#[trigger] rest[k]).table@ != name by {
                assert(rest[k] == tables[k + 1]);
            }
        }
        if forall|k: int| 0 <= k < tables.len() ==> (#[trigger] tables[k]).table@ != name {
            assert(tables[0].table@ != name);
        }
    }
}

/// The keys of a table are those that the first schema of its provider gives; a provider
/// without a schema has no keys.
pub proof fn law_schemas_are_found_by_their_provider(
    catalog: Seq<ProviderSchema>,
    i: int,
    provider: Seq<char>,
    table: Seq<char>,
)
    ensures
        0 <= i < catalog.len() && catalog[i].provider@ == provider && (forall|k: int|
            0 <= k < i ==> (#[trigger] catalog[k]).provider@ != provider) ==> schema_of(
            catalog,
            provider,
        ) == Some(catalog[i]) && keys_of(catalog, provider, table) == table_keys(
            catalog[i].tables@,
            table,
        ),
        (forall|k: int| 0 <= k < catalog.len() ==> (#[trigger] catalog[k]).provider@ != provider)
            ==> schema_of(catalog, provider) is None && keys_of(catalog, provider, table).len()
            == 0,
    decreases catalog.len(),
{
    if catalog.len() > 0 {
        let rest = catalog.drop_first();
        assert forall|k: int| 0 <= k < rest.len() implies rest[k] == catalog[k + 1] by {}
        law_schemas_are_found_by_their_provider(rest, i - 1, provider, table);
        if 0 < i < catalog.len() && catalog[i].provider@ == provider && (forall|k: int|
            0 <= k < i ==> (#[trigger] catalog[k]).provider@ != provider) {
            assert(catalog[0].provider@ != provider);
            assert forall|k: int| 0 <= k < i - 1 implies (#[trigger] rest[k]).provider@
                != provider by {
                assert(rest[k] == catalog[k + 1]);
            }
        }
        if forall|k: int| 0 <= k < catalog.len() ==> (#[trigger] catalog[k]).provider@ != provider {
            assert(catalog[0].provider@ != provider);
        }
    }
}

/// A provider of a file stands at the first place with its name, or nowhere.
pub proof fn law_providers_stand_at_their_first_place(
    names: Seq<Option<Seq<char>>>,
    name: Seq<char>,
)
    ensures
        0 <= first_index(names, name) <= names.len(),
        first_index(names, name) < names.len() ==> names[first_index(names, name)] == Some(name),
        forall|k: int| 0 <= k < first_index(names, name) ==> #[trigger] names[k] != Some(name),
    decreases names.len(),
{
    if names.len() > 0 && names[0] != Some(name) {
        let rest = names.drop_first();
        law_providers_stand_at_their_first_place(rest, name);
        assert forall|k: int| 0 <= k < first_index(names, name) implies #[trigger] names[k]
            != Some(name) by {
            if k > 0 {
                assert(rest[k - 1] == names[k]);
            }
        }
    }
}

// ---------------------------------------------------------------------------
// Requests
// ---------------------------------------------------------------------------
/// What some answers read and wrote is what each did, together; an answer that does not
/// tell counts nothing. Counts are exact until 64 bits are full.
pub proof fn law_reads_and_writes_add_up(results: Seq<D1Result>, result: D1Result)
    ensures
        total_read(Seq::empty()) == 0 && total_written(Seq::empty()) == 0,
        result.meta matches Some(meta) ==> total_read(results.push(result)) == total_read(results)
            + meta.rows_read && total_written(results.push(result)) == total_written(results)
            + meta.rows_written,
        result.meta is None ==> total_read(results.push(result)) == total_read(results)
            && total_written(results.push(result)) == total_written(results),
        total_read(results) <= u64::MAX ==> counted(total_read(results)) == total_read(results),
        total_written(results) <= u64::MAX ==> counted(total_written(results)) == total_written(
            results,
        ),
{
    assert(results.push(result).drop_last() =~= results);
    if total_read(results) <= u64::MAX {
        vstd::arithmetic::div_mod::lemma_small_mod(
            total_read(results),
            0x1_0000_0000_0000_0000,
        );
    }
    if total_written(results) <= u64::MAX {
        vstd::arithmetic::div_mod::lemma_small_mod(
            total_written(results),
            0x1_0000_0000_0000_0000,
        );
    }
}

/// The seconds to wait after some attempts: one, two, four, and eight from then on.
pub open spec fn waits(attempts: int) -> u64 {
    if attempts <= 0 {
        1
    } else if attempts == 1 {
        2
    } else if attempts == 2 {
        4
    } else {
        8
    }
}

/// A request that fails is tried again after one second, two, four, and eight from then
/// on; a service that asks for another wait gets it, up to half a minute. Only what may
/// succeed later is tried again: faults of the server, too many requests, timeouts, and
/// requests that were lost on the way; but not one that could not be built.
pub proof fn law_waits_double(
    retries: u32,
    max_retries: u32,
    ambiguous: bool,
    status: u16,
    status_text: String,
    body: String,
    asked: u64,
)
    requires
        retries < max_retries,
    ensures
        ({
            let state = RetryState {
                retries,
                max_retries,
                backoff: waits(retries as int),
                had_ambiguous_retry: ambiguous,
            };
            let silent = Attempt::Refused { status, status_text, retry_after: None, body };
            let telling = Attempt::Refused { status, status_text, retry_after: Some(asked), body };
            &&& tried_again(state) == (RetryState {
                retries: (retries + 1) as u32,
                max_retries,
                backoff: waits(retries + 1),
                had_ambiguous_retry: true,
            })
            &&& delay_after(state, silent) == waits(retries as int)
            &&& delay_after(state, Attempt::Unreadable(body)) == waits(retries as int)
            &&& delay_after(state, Attempt::Failed { reason: body, is_builder: false }) == waits(
                retries as int,
            )
            &&& asked <= 30 ==> delay_after(state, telling) == asked
            &&& asked > 30 ==> delay_after(state, telling) == 30
            &&& may_try_again(silent) <==> status / 100 == 5 || status == 408 || status == 429
            &&& may_try_again(telling) == may_try_again(silent)
            &&& may_try_again(Attempt::Unreadable(body))
            &&& may_try_again(Attempt::Failed { reason: body, is_builder: false })
            &&& !may_try_again(Attempt::Failed { reason: body, is_builder: true })
        }),
{
}

/// A wait that is asked for, and a length that is declared, is the number that the header
/// spells; any other text is none.
pub proof fn law_headers_give_the_numbers_they_spell(text: Seq<char>, n: nat)
    ensures
        wait_asked(Some(text)) == Some(n) <==> n <= u64::MAX && exists|
            sign: Seq<char>,
            zeros: nat,
        | #[trigger] spells(text, n, sign, zeros),
        declared_length(Some(text)) == Some(n) <==> n <= u64::MAX && exists|
            sign: Seq<char>,
            zeros: nat,
        | #[trigger] spells(text, n, sign, zeros),
        wait_asked(None) is None,
        declared_length(None) is None,
{
    law_numbers_are_read_as_they_are_written(text, u64::MAX as nat, n);
}

/// A request fails exactly where it was answered with a failure, where its fault will not
/// pass, or where it was tried as often as allowed; the error says what the service said.
pub proof fn law_requests_fail_for_a_reason(state: RetryState, attempt: Attempt)
    requires
        state.retries <= state.max_retries,
    ensures
        attempt matches Attempt::Answered(response) ==> (fails_with(state, attempt) <==> !response.success
            || (response.result matches Some(results) && exists|i: int|
            0 <= i < results@.len() && (#[trigger] results@[i]).success == Some(false))),
        !(attempt is Answered) ==> (fails_with(state, attempt) <==> !may_try_again(attempt)
            || state.retries >= state.max_retries),
        attempt matches Attempt::Refused { status_text, body, .. } ==> final_error(attempt)
            == D1ErrorView::ApiError(
            seq!['H', 'T', 'T', 'P', ' '] + status_text@ + seq![':', ' '] + body@,
        ),
        attempt matches Attempt::Unreadable(reason) ==> final_error(attempt)
            == D1ErrorView::Reqwest(reason@),
        attempt matches Attempt::Failed { reason, .. } ==> final_error(attempt)
            == D1ErrorView::Reqwest(reason@),
{
    reveal_strlit("HTTP ");
    reveal_strlit(": ");
    assert("HTTP "@ =~= seq!['H', 'T', 'T', 'P', ' ']);
    assert(": "@ =~= seq![':', ' ']);
}

/// A feed is received unless it declares more bytes than allowed: a header that is
/// missing, or that spells no number, declares nothing.
pub proof fn law_feeds_are_received_unless_too_large(
    step: DownloadStep,
    task: DownloadTask,
    head: FeedHead,
    declared: nat,
    sign: Seq<char>,
    zeros: nat,
)
    requires
        accepts(step, task, head),
    ensures
        head.content_length is None ==> step matches DownloadStep::Continue(
            _,
            DownloadAction::Receive,
        ),
        head.content_length matches Some(text) ==> (spells(text@, declared, sign, zeros)
            && declared <= u64::MAX ==> if declared <= task.maximum_bytes {
            step matches DownloadStep::Continue(_, DownloadAction::Receive)
        } else {
            step matches DownloadStep::Finish(Err(_))
        }),
        step matches DownloadStep::Continue(next, _) ==> next.maximum_bytes == task.maximum_bytes
            && (next.phase matches DownloadPhase::Receiving { remote_etag, .. } && (
        match head.etag {
            Some(etag) => remote_etag@ == etag@,
            None => remote_etag@.len() == 0,
        })),
{
    reveal_strlit("");
    if let Some(text) = head.content_length {
        law_numbers_are_read_as_they_are_written(text@, u64::MAX as nat, declared);
    }
}

// ---------------------------------------------------------------------------
// Rows and writes
// ---------------------------------------------------------------------------
/// The rows that count for one provider of a wave: none where it failed, and never more
/// than its share.
pub open spec fn rows_of(result: WaveResult) -> nat {
    match result.processed {
        None => 0,
        Some((rows, _)) => if rows <= result.max_rows {
            rows as nat
        } else {
            result.max_rows as nat
        },
    }
}

/// The rows that all providers of a wave processed.
pub open spec fn rows_of_all(results: Seq<WaveResult>) -> nat {
    sum(results.map_values(|r: WaveResult| rows_of(r)))
}

/// A provider kept to its share and did not fail.
pub open spec fn went_well(result: WaveResult) -> bool {
    result.processed matches Some((rows, _)) && rows <= result.max_rows
}

/// A provider ran out of writes.
pub open spec fn used_up_writes(result: WaveResult) -> bool {
    result.processed matches Some((_, exhausted)) && exhausted
}

proof fn lemma_rows_of_all(results: Seq<WaveResult>)
    ensures
        processed_rows(results) == if rows_of_all(results) <= u64::MAX {
            rows_of_all(results) as int
        } else {
            u64::MAX as int
        },
    decreases results.len(),
{
    if results.len() > 0 {
        let front = results.drop_last();
        lemma_rows_of_all(front);
        let all = results.map_values(|r: WaveResult| rows_of(r));
        assert(all.drop_last() =~= front.map_values(|r: WaveResult| rows_of(r)));
        assert(all.last() == rows_of(results.last()));
    } else {
        assert(results.map_values(|r: WaveResult| rows_of(r)) =~= Seq::<nat>::empty());
    }
}

/// A wave takes off the rows that its providers processed, and no others; another comes
/// exactly where every provider went well, none ran out of writes, and fewer rows were
/// processed than were shared out.
pub proof fn law_waves_share_what_is_left(
    workflow: Workflow,
    results: Seq<WaveResult>,
    allocated: u64,
)
    requires
        workflow.total_rows_processed + rows_of_all(results) <= u64::MAX,
    ensures
        ({
            let after = after_wave(workflow, results);
            let rows = rows_of_all(results);
            &&& after.total_rows_processed == workflow.total_rows_processed + rows
            &&& after.max_rows == workflow.max_rows
            &&& after.total_rows_processed <= after.max_rows ==> after.remaining_budget
                == after.max_rows - after.total_rows_processed
            &&& after.total_rows_processed > after.max_rows ==> after.remaining_budget == 0
            &&& after.has_error == (workflow.has_error || exists|i: int|
                0 <= i < results.len() && !went_well(#[trigger] results[i]))
            &&& after.write_budget_exhausted == (workflow.write_budget_exhausted || exists|i: int|
                0 <= i < results.len() && used_up_writes(#[trigger] results[i]))
            &&& goes_on(after, results, allocated) <==> !after.has_error
                && !after.write_budget_exhausted && rows < allocated
        }),
{
    lemma_rows_of_all(results);
    if exists|i: int| 0 <= i < results.len() && !went_well(#[trigger] results[i]) {
        let i = choose|i: int| 0 <= i < results.len() && !went_well(#[trigger] results[i]);
        assert(results[i].processed is None || results[i].processed->Some_0.0
            > results[i].max_rows);
    }
    if exists|i: int| 0 <= i < results.len() && used_up_writes(#[trigger] results[i]) {
        let i = choose|i: int| 0 <= i < results.len() && used_up_writes(#[trigger] results[i]);
        assert(results[i].processed is Some && results[i].processed->Some_0.1);
    }
    if has_failure(results) {
        let i = choose|i: int|
            0 <= i < results.len() && match (#[trigger] results[i]).processed {
                None => true,
                Some((rows, _)) => rows > results[i].max_rows,
            };
        assert(!went_well(results[i]));
    }
    if ran_out(results) {
        let i = choose|i: int|
            0 <= i < results.len() && match (#[trigger] results[i]).processed {
                None => false,
                Some((_, exhausted)) => exhausted,
            };
        assert(used_up_writes(results[i]));
    }
}

/// A lease is as large as it can be: what is configured, or all that the day has left of
/// its hundred thousand writes. It is given where it leaves at least one write of data
/// beside the thousand of metadata and the two of the ledger. Giving back a whole lease
/// leaves the ledger of its day as it was.
pub proof fn law_leases_are_as_large_as_the_day_allows(
    ledger: DailyLedger,
    day: u64,
    configured: u64,
)
    requires
        ledger.leased <= 100_000,
    ensures
        ({
            let size = lease_size(ledger, day, configured);
            let used = if ledger.day == day {
                ledger.leased
            } else {
                0
            };
            let after = after_lease(ledger, day, configured);
            &&& size <= configured
            &&& used + size <= 100_000
            &&& size == configured || used + size == 100_000
            &&& is_worth_it(size) <==> size >= 1_003
            &&& size >= 1_003 ==> after.day == day && after.leased == used + size
            &&& size < 1_003 ==> after == ledger
            &&& size >= 1_003 ==> after_release(
                after,
                DailyLease { day, writes: size },
                size as int,
            ).leased == used
            &&& forall|unused: int|
                0 <= unused <= size && size >= 1_003 ==> #[trigger] after_release(
                    after,
                    DailyLease { day, writes: size },
                    unused,
                ).leased == used + (size - unused)
        }),
        leased_on(ledger, day) == (if ledger.day == day {
            ledger.leased
        } else {
            0
        }),
{
}

/// Writes of another day are not given back.
pub proof fn law_leases_end_with_their_day(ledger: DailyLedger, lease: DailyLease, unused: int)
    requires
        ledger.day != lease.day,
    ensures
        after_release(ledger, lease, unused) == ledger,
{
}

/// A day has 86400 seconds, and requests are made in all but the last sixty of the day of
/// the lease.
pub proof fn law_days_close_a_minute_early(lease: DailyLease, second: u64)
    ensures
        day_of(second) * 86_400 <= second < (day_of(second) + 1) * 86_400,
        may_request(lease, second) <==> lease.day * 86_400 <= second < lease.day * 86_400 + 86_340,
{
    vstd::arithmetic::div_mod::lemma_fundamental_div_mod(second as int, 86_400);
}

// ---------------------------------------------------------------------------
// What is recorded
// ---------------------------------------------------------------------------
/// A file is recorded as complete only where its upload went well and its extraction came
/// to the end of the file with every row committed; and always then. What is recorded is
/// never ahead of what is committed, but for the end of a file behind its last row.
pub proof fn law_files_are_complete_when_all_is_committed(
    upload: UploadOutcome,
    extraction: Result<CsvExtractOutcome, ProcessorErrorView>,
)
    ensures
        ({
            let decided = decision(upload, extraction);
            let went_well = !upload.had_error && !upload.write_budget_exhausted;
            let caught_up = extraction matches Ok(outcome) && outcome.checkpoint.line
                == upload.committed_through.line && outcome.checkpoint.byte
                >= upload.committed_through.byte;
            &&& decided.progress.status == 0 <==> went_well && caught_up && extraction->Ok_0.file_done
            &&& decided.progress.status == 0 || decided.progress.status == 1
            &&& decided.progress.at.line == upload.committed_through.line
            &&& decided.progress.at == if went_well && caught_up {
                extraction->Ok_0.checkpoint
            } else {
                upload.committed_through
            }
            &&& went_well && caught_up ==> decided.result == extraction
            &&& went_well && !caught_up ==> decided.result is Err
            &&& upload.had_error ==> decided.result is Err
            &&& extraction is Err && extraction->Err_0 != ProcessorErrorView::UploaderClosed
                ==> decided.result == extraction
            &&& !upload.had_error && upload.write_budget_exhausted && (extraction is Ok
                || extraction == Err::<CsvExtractOutcome, ProcessorErrorView>(
                ProcessorErrorView::UploaderClosed,
            )) ==> decided.result == Ok::<CsvExtractOutcome, ProcessorErrorView>(
                CsvExtractOutcome {
                    file_done: false,
                    checkpoint: upload.committed_through,
                    write_budget_exhausted: true,
                },
            )
        }),
{
}

/// The columns of the progress of a file that may change.
pub open spec fn progress_columns() -> Seq<Seq<char>> {
    seq!["CRC"@, "LastProcessedLine"@, "LastProcessedByte"@, "Status"@]
}

/// The statement that sets the progress of a file sets each of its columns to its own
/// parameter, whether the file has a row or not, and touches a row only where one of the
/// columns differs.
pub proof fn law_progress_is_set_column_by_column(
    provider: Seq<char>,
    file: Seq<char>,
    crc: Seq<char>,
    line: u64,
    byte: u64,
    status: i64,
)
    ensures
        ({
            let (sql, params) = init_progress(provider, file, crc, line, byte, status);
            let changing = progress_columns();
            &&& sql == "INSERT INTO import_progress (Provider, FileName, "@ + join(
                changing,
                ", "@,
            ) + ", UpdatedAt) VALUES (?, ?, ?, ?, ?, ?, CURRENT_TIMESTAMP) ON CONFLICT(Provider, FileName) DO UPDATE SET "@
                + join(
                Seq::new(4, |i: int| changing[i] + " = excluded."@ + changing[i]),
                ", "@,
            ) + ", UpdatedAt = CURRENT_TIMESTAMP WHERE "@ + join(
                Seq::new(
                    4,
                    |i: int| "import_progress."@ + changing[i] + " IS NOT excluded."@ + changing[i],
                ),
                " OR "@,
            )
            &&& params.len() == 6
            &&& params[0] == SqlValueView::Text(provider)
            &&& params[1] == SqlValueView::Text(file)
            &&& params[2] == SqlValueView::Text(crc)
            &&& params[3] == SqlValueView::Unsigned(line)
            &&& params[4] == SqlValueView::Unsigned(byte)
            &&& status >= 0 ==> params[5] == SqlValueView::Unsigned(status as u64)
            &&& status < 0 ==> params[5] == SqlValueView::Negative(status)
        }),
{
    lemma_progress_text();
}

proof fn lemma_progress_text()
    ensures
        ({
            let changing = progress_columns();
            init_progress(Seq::empty(), Seq::empty(), Seq::empty(), 0, 0, 0).0
                == "INSERT INTO import_progress (Provider, FileName, "@ + join(changing, ", "@)
                + ", UpdatedAt) VALUES (?, ?, ?, ?, ?, ?, CURRENT_TIMESTAMP) ON CONFLICT(Provider, FileName) DO UPDATE SET "@
                + join(
                Seq::new(4, |i: int| changing[i] + " = excluded."@ + changing[i]),
                ", "@,
            ) + ", UpdatedAt = CURRENT_TIMESTAMP WHERE "@ + join(
                Seq::new(
                    4,
                    |i: int| "import_progress."@ + changing[i] + " IS NOT excluded."@ + changing[i],
                ),
                " OR "@,
            )
        }),
{
    reveal_strlit("CRC");
    reveal_strlit("LastProcessedLine");
    reveal_strlit("LastProcessedByte");
    reveal_strlit("Status");
    reveal_strlit(", ");
    reveal_strlit(" OR ");
    reveal_strlit(" = excluded.");
    reveal_strlit("import_progress.");
    reveal_strlit(" IS NOT excluded.");
    reveal_strlit("INSERT INTO import_progress (Provider, FileName, ");
    reveal_strlit(
        ", UpdatedAt) VALUES (?, ?, ?, ?, ?, ?, CURRENT_TIMESTAMP) ON CONFLICT(Provider, FileName) DO UPDATE SET ",
    );
    reveal_strlit(", UpdatedAt = CURRENT_TIMESTAMP WHERE ");
    reveal_strlit(
        "INSERT INTO import_progress (Provider, FileName, CRC, LastProcessedLine, LastProcessedByte, Status, UpdatedAt) VALUES (?, ?, ?, ?, ?, ?, CURRENT_TIMESTAMP) ON CONFLICT(Provider, FileName) DO UPDATE SET CRC = excluded.CRC, LastProcessedLine = excluded.LastProcessedLine, LastProcessedByte = excluded.LastProcessedByte, Status = excluded.Status, UpdatedAt = CURRENT_TIMESTAMP WHERE import_progress.CRC IS NOT excluded.CRC OR import_progress.LastProcessedLine IS NOT excluded.LastProcessedLine OR import_progress.LastProcessedByte IS NOT excluded.LastProcessedByte OR import_progress.Status IS NOT excluded.Status",
    );
    let changing = progress_columns();
    lemma_four(changing, ", "@);
    let sets = Seq::new(4, |i: int| changing[i] + " = excluded."@ + changing[i]);
    lemma_four(sets, ", "@);
    let tests = Seq::new(
        4,
        |i: int| "import_progress."@ + changing[i] + " IS NOT excluded."@ + changing[i],
    );
    lemma_four(tests, " OR "@);
    let text = "INSERT INTO import_progress (Provider, FileName, "@ + join(changing, ", "@)
        + ", UpdatedAt) VALUES (?, ?, ?, ?, ?, ?, CURRENT_TIMESTAMP) ON CONFLICT(Provider, FileName) DO UPDATE SET "@
        + join(sets, ", "@) + ", UpdatedAt = CURRENT_TIMESTAMP WHERE "@ + join(tests, " OR "@);
    assert(init_progress(Seq::empty(), Seq::empty(), Seq::empty(), 0, 0, 0).0 =~= text);
}

proof fn lemma_four(list: Seq<Seq<char>>, sep: Seq<char>)
    requires
        list.len() == 4,
    ensures
        join(list, sep) == list[0] + sep + list[1] + sep + list[2] + sep + list[3],
{
    let one = seq![list[0]];
    let two = seq![list[0], list[1]];
    let three = seq![list[0], list[1], list[2]];
    law_parts_are_joined_in_order(one, Seq::empty(), sep);
    law_parts_are_joined_in_order(seq![list[1]], Seq::empty(), sep);
    law_parts_are_joined_in_order(seq![list[2]], Seq::empty(), sep);
    law_parts_are_joined_in_order(seq![list[3]], Seq::empty(), sep);
    law_parts_are_joined_in_order(one, seq![list[1]], sep);
    assert(one + seq![list[1]] =~= two);
    law_parts_are_joined_in_order(two, seq![list[2]], sep);
    assert(two + seq![list[2]] =~= three);
    law_parts_are_joined_in_order(three, seq![list[3]], sep);
    assert(three + seq![list[3]] =~= list);
}

/// A provider is imported exactly where a file of it is left: the progress of every such
/// file is recorded first, with the place where its import goes on. Where none is left,
/// the version of the feed is recorded, if it has one, and there is nothing to import.
pub proof fn law_files_that_are_left_are_prepared(
    step: PrepareStep,
    task: PrepareTask,
    download: DownloadedFeed,
    discovered: Seq<Discovered>,
    rows: Seq<Row>,
)
    requires
        planned(step, task, download, discovered, rows),
    ensures
        ({
            let left = pending_files(discovered, rows);
            let etag = download.remote_etag@;
            &&& left.len() == 0 && etag.len() == 0 ==> (step matches PrepareStep::Finish(Ok(None)))
            &&& left.len() == 0 && etag.len() > 0 ==> (step matches PrepareStep::Continue(
                _,
                PrepareAction::RecordVersion(given),
            ) && given@ == etag)
            &&& left.len() > 0 ==> (step matches PrepareStep::Continue(
                next,
                PrepareAction::InitialiseProgress(list),
            ) && list@.len() == left.len() && (forall|i: int|
                0 <= i < left.len() ==> (#[trigger] list@[i]).file@ == left[i].file.csv_file
                    && list@[i].crc@ == left[i].file.crc && list@[i].line
                    == left[i].checkpoint.line && list@[i].byte == left[i].checkpoint.byte) && (
            next.phase matches PreparePhase::InitialisingProgress(feed, files) && feed == download
                && prepared_files(files@) == left) && next.provider == task.provider)
        }),
{
}

/// The file was processed, but not to its end.
pub open spec fn is_left(result: FileResult) -> bool {
    result matches FileResult::Processed(_, outcome) && !outcome.file_done
}

/// The file of a result, at the place that was reached.
pub open spec fn left_at(result: FileResult) -> Prepared {
    Prepared { file: result->Processed_0@.file, checkpoint: result->Processed_1.checkpoint }
}

/// Of the files of a run, those remain that were processed but not to their end, in
/// order, each at the place that it reached; the run has an error where a file failed, and
/// is out of writes where a file ran out of them.
pub proof fn law_unfinished_files_remain(results: Seq<FileResult>)
    ensures
        with_files(results).remaining == results.filter(|r: FileResult| is_left(r)).map_values(
            |r: FileResult| left_at(r),
        ),
        with_files(results).has_csv_error <==> exists|i: int|
            0 <= i < results.len() && #[trigger] results[i] is Failed,
        with_files(results).write_budget_exhausted <==> exists|i: int|
            0 <= i < results.len() && (#[trigger] results[i] matches FileResult::Processed(
                _,
                outcome,
            ) && outcome.write_budget_exhausted),
    decreases results.len(),
{
    reveal(Seq::filter);
    let kept = results.filter(|r: FileResult| is_left(r));
    if results.len() > 0 {
        let front = results.drop_last();
        let last = results.last();
        law_unfinished_files_remain(front);
        assert(with_files(results).remaining =~= kept.map_values(|r: FileResult| left_at(r)));
        let end = results.len() - 1;
        assert(results[end] == last);
        if with_files(front).has_csv_error {
            let i = choose|i: int| 0 <= i < front.len() && #[trigger] front[i] is Failed;
            assert(results[i] is Failed);
        }
        if exists|i: int| 0 <= i < results.len() && #[trigger] results[i] is Failed {
            let i = choose|i: int| 0 <= i < results.len() && #[trigger] results[i] is Failed;
            if i < end {
                assert(front[i] is Failed);
            }
        }
        if with_files(front).write_budget_exhausted {
            let i = choose|i: int|
                0 <= i < front.len() && (#[trigger] front[i] matches FileResult::Processed(
                    _,
                    outcome,
                ) && outcome.write_budget_exhausted);
            assert(results[i] == front[i]);
        }
        if exists|i: int|
            0 <= i < results.len() && (#[trigger] results[i] matches FileResult::Processed(
                _,
                outcome,
            ) && outcome.write_budget_exhausted) {
            let i = choose|i: int|
                0 <= i < results.len() && (#[trigger] results[i] matches FileResult::Processed(
                    _,
                    outcome,
                ) && outcome.write_budget_exhausted);
            if i < end {
                assert(front[i] == results[i]);
            }
        }
    } else {
        assert(with_files(results).remaining =~= kept.map_values(|r: FileResult| left_at(r)));
    }
}

} // verus!
