//! Importing one CSV file: its rows become statements of many rows each, and the
//! statements go out in batches.
use crate::importer::d1::{values, D1Query, SqlValue, SqlValueView};
use crate::importer::extract::{
    as_ints, field, match_columns, matched_columns, names, positions,
};
use crate::importer::fault::{csv_error_text, ProcessorError, ProcessorErrorView};
use crate::importer::record::{
    read_bounded_record, record_at, record_fault, Contents, RecordRead, RecordReader,
};
use crate::number::{decimal, push_decimal};
use crate::outside::archive::{count_entries, entry_count, entry_text, read_entry_text};
use crate::outside::std_text::{debug_of, debug_text};
use crate::pieces::{join, join_texts};
use crate::scheduled::config::{
    rows_per_statement, rows_that_fit, to_worker_err, TableSchema, WorkerError,
    D1_MAX_BATCH_STATEMENTS,
};
use crate::text::{contains_text, texts};
use vstd::prelude::*;
use vstd::string::*;

verus! {

// ---------------------------------------------------------------------------
// Statements of many rows
// ---------------------------------------------------------------------------
/// The placeholder of a number.
pub open spec fn placeholder(n: int) -> Seq<char> {
    "?"@ + decimal(n as nat)
}

/// The placeholders of one row.
pub open spec fn row_placeholders(row: int, col_count: nat) -> Seq<char> {
    "("@ + join(Seq::new(col_count, |c: int| placeholder(row * col_count + c + 1)), ", "@) + ")"@
}

/// The statement that inserts or replaces some rows, with placeholders numbered
/// row by row.
pub open spec fn multi_row_sql(
    table_name: Seq<char>,
    col_list: Seq<char>,
    col_count: nat,
    num_rows: nat,
) -> Seq<char> {
    "INSERT OR REPLACE INTO "@ + table_name + " ("@ + col_list + ") VALUES "@ + join(
        Seq::new(num_rows, |row: int| row_placeholders(row, col_count)),
        ", "@,
    )
}

fn placeholders(row: usize, col_count: usize) -> (text: String)
    requires
        (row + 1) * col_count <= usize::MAX,
    ensures
        text@ == row_placeholders(row as int, col_count as nat),
{
    assert(row * col_count + col_count == (row + 1) * col_count) by (nonlinear_arith);
    assert(row * col_count >= 0) by (nonlinear_arith);
    let mut params: Vec<String> = Vec::new();
    let base: usize = row * col_count;
    let mut col: usize = 0;
    while col < col_count
        invariant
            col <= col_count,
            base == row * col_count,
            base + col_count <= usize::MAX,
            params@.len() == col,
            forall|c: int|
                0 <= c < col ==> (#[trigger] params@[c])@ == placeholder(row * col_count + c + 1),
        decreases col_count - col,
    {
        let mut item = "?".to_owned();
        push_decimal(&mut item, (base + col) as u128 + 1);
        params.push(item);
        col += 1;
    }
    assert(texts(params@) =~= Seq::new(
        col_count as nat,
        |c: int| placeholder(row * col_count + c + 1),
    ));
    let mut text = "(".to_owned();
    text.append(join_texts(&params, ", ").as_str());
    text.append(")");
    text
}

/// The statement that inserts or replaces some rows: three columns and two rows
/// give `(?1, ?2, ?3), (?4, ?5, ?6)`.
pub fn build_multi_row_sql(
    table_name: &str,
    col_list: &str,
    col_count: usize,
    num_rows: usize,
) -> (sql: String)
    requires
        num_rows * col_count <= usize::MAX,
    ensures
        sql@ == multi_row_sql(table_name@, col_list@, col_count as nat, num_rows as nat),
{
    let mut rows: Vec<String> = Vec::new();
    let mut row: usize = 0;
    while row < num_rows
        invariant
            row <= num_rows,
            num_rows * col_count <= usize::MAX,
            rows@.len() == row,
            forall|r: int|
                0 <= r < row ==> (#[trigger] rows@[r])@ == row_placeholders(r, col_count as nat),
        decreases num_rows - row,
    {
        assert((row + 1) * col_count <= num_rows * col_count) by (nonlinear_arith)
            requires
                row < num_rows,
        ;
        rows.push(placeholders(row, col_count));
        row += 1;
    }
    assert(texts(rows@) =~= Seq::new(
        num_rows as nat,
        |r: int| row_placeholders(r, col_count as nat),
    ));
    let mut sql = "INSERT OR REPLACE INTO ".to_owned();
    sql.append(table_name);
    sql.append(" (");
    sql.append(col_list);
    sql.append(") VALUES ");
    sql.append(join_texts(&rows, ", ").as_str());
    sql
}

// ---------------------------------------------------------------------------
// Columns
// ---------------------------------------------------------------------------
/// The columns that both the header and the database have, with their positions.
pub fn resolve_matching_columns(headers: &Vec<String>, db_columns: &Vec<String>) -> (matched: (
    Vec<String>,
    Vec<usize>,
))
    ensures
        texts(matched.0@) == names(matched_columns(texts(headers@), texts(db_columns@))),
        as_ints(matched.1@) == positions(matched_columns(texts(headers@), texts(db_columns@))),
{
    let (indices, found) = match_columns(headers, db_columns);
    (found, indices)
}

/// The texts of a list that another does not hold.
pub open spec fn missing_in(list: Seq<Seq<char>>, other: Seq<Seq<char>>) -> Seq<Seq<char>>
    decreases list.len(),
{
    if list.len() == 0 {
        seq![]
    } else {
        let front = missing_in(list.drop_last(), other);
        if other.contains(list.last()) {
            front
        } else {
            front.push(list.last())
        }
    }
}

fn not_in(list: &Vec<String>, other: &Vec<String>) -> (missing: Vec<String>)
    ensures
        texts(missing@) == missing_in(texts(list@), texts(other@)),
{
    let mut missing: Vec<String> = Vec::new();
    let mut i: usize = 0;
    assert(texts(missing@) =~= seq![]);
    while i < list.len()
        invariant
            i <= list@.len(),
            texts(missing@) == missing_in(texts(list@.take(i as int)), texts(other@)),
        decreases list.len() - i,
    {
        let ghost so_far = texts(list@.take(i + 1));
        assert(so_far.drop_last() =~= texts(list@.take(i as int)));
        assert(so_far.last() == list@[i as int]@);
        let ghost before = missing@;
        if !contains_text(other, list[i].as_str()) {
            let text = list[i].clone();
            missing.push(text);
            assert(texts(missing@) =~= texts(before).push(text@));
        }
        i += 1;
    }
    assert(list@.take(list@.len() as int) =~= list@);
    missing
}

/// A list as `{:?}` writes it.
pub open spec fn debug_list(list: Seq<Seq<char>>) -> Seq<char> {
    "["@ + join(list.map_values(|s: Seq<char>| debug_text(s)), ", "@) + "]"@
}

fn write_debug_list(list: &Vec<String>) -> (text: String)
    ensures
        text@ == debug_list(texts(list@)),
{
    let mut written: Vec<String> = Vec::new();
    let mut i: usize = 0;
    while i < list.len()
        invariant
            i <= list@.len(),
            written@.len() == i,
            forall|k: int| 0 <= k < i ==> (#[trigger] written@[k])@ == debug_text(list@[k]@),
        decreases list.len() - i,
    {
        written.push(debug_of(list[i].as_str()));
        i += 1;
    }
    assert(texts(written@) =~= texts(list@).map_values(|s: Seq<char>| debug_text(s)));
    let mut text = "[".to_owned();
    text.append(join_texts(&written, ", ").as_str());
    text.append("]");
    text
}

/// The message about columns that only one side has, if there are any.
pub open spec fn alignment_message(
    filename: Seq<char>,
    headers: Seq<Seq<char>>,
    db_columns: Seq<Seq<char>>,
    matched: nat,
) -> Option<Seq<char>> {
    let csv_only = missing_in(headers, db_columns);
    let db_only = missing_in(db_columns, headers);
    if csv_only.len() == 0 && db_only.len() == 0 {
        None
    } else {
        let count = if matched == 0 {
            ""@
        } else {
            decimal(matched)
        };
        let start = "Column alignment for "@ + filename + " → `"@ + count + "`  ("@ + decimal(matched)
            + " matched):"@;
        let middle = if db_only.len() == 0 {
            start
        } else {
            start + " DB-only (will be null): "@ + debug_list(db_only)
        };
        Some(
            if csv_only.len() == 0 {
                middle
            } else {
                middle + " CSV-only (ignored): "@ + debug_list(csv_only)
            },
        )
    }
}

/// The message about columns that only the file or only the database has.
pub fn log_column_diagnostics(
    filename: &str,
    headers: &Vec<String>,
    db_columns: &Vec<String>,
    matched_columns: &Vec<String>,
) -> (message: Option<String>)
    ensures
        ({
            let said = alignment_message(
                filename@,
                texts(headers@),
                texts(db_columns@),
                matched_columns@.len(),
            );
            match message {
                Some(text) => said == Some(text@),
                None => said is None,
            }
        }),
{
    let csv_only = not_in(headers, db_columns);
    let db_only = not_in(db_columns, headers);
    assert(texts(csv_only@).len() == csv_only@.len());
    assert(texts(db_only@).len() == db_only@.len());
    if csv_only.len() == 0 && db_only.len() == 0 {
        return None;
    }
    let mut text = "Column alignment for ".to_owned();
    text.append(filename);
    text.append(" → `");
    if matched_columns.len() > 0 {
        push_decimal(&mut text, matched_columns.len() as u128);
    } else {
        assert(text@ =~= text@ + ""@) by {
            reveal_strlit("");
        }
    }
    text.append("`  (");
    push_decimal(&mut text, matched_columns.len() as u128);
    text.append(" matched):");
    if db_only.len() > 0 {
        text.append(" DB-only (will be null): ");
        text.append(write_debug_list(&db_only).as_str());
    }
    if csv_only.len() > 0 {
        text.append(" CSV-only (ignored): ");
        text.append(write_debug_list(&csv_only).as_str());
    }
    Some(text)
}

// ---------------------------------------------------------------------------
// Errors
// ---------------------------------------------------------------------------
/// Why an import fails.
pub enum ImportFault {
    /// A record cannot be read; the `csv` crate words it.
    Csv,
    /// The error has this text.
    Text(Seq<char>),
}

/// The error of the worker is this one: it carries the text as it is.
pub open spec fn reports(error: WorkerError, fault: ImportFault) -> bool {
    match fault {
        ImportFault::Csv => true,
        ImportFault::Text(text) => error matches WorkerError::RustError(message) && message@ == text,
    }
}

/// Why a record cannot be read.
pub open spec fn read_fault(fault: ProcessorErrorView) -> ImportFault {
    match fault {
        ProcessorErrorView::CsvRead(_, text) => ImportFault::Text(text),
        ProcessorErrorView::Io(_, text) => ImportFault::Text(text),
        _ => ImportFault::Csv,
    }
}

/// The error of a record that cannot be read.
fn read_error(error: ProcessorError) -> (reported: WorkerError)
    ensures
        reports(reported, read_fault(error@)),
{
    match error {
        ProcessorError::CsvRead(failure) => WorkerError::RustError(failure.message),
        ProcessorError::Io(failure) => WorkerError::RustError(failure.message),
        ProcessorError::Csv(error) => WorkerError::RustError(csv_error_text(&error)),
        other => WorkerError::RustError(other.message()),
    }
}

// ---------------------------------------------------------------------------
// The rows of a file
// ---------------------------------------------------------------------------
/// A statement with its parameters.
#[verifier::ext_equal]
pub struct Statement {
    pub sql: Seq<char>,
    pub params: Seq<SqlValueView>,
}

/// The statements are these.
pub open spec fn are_statements(queries: Seq<D1Query>, statements: Seq<Statement>) -> bool {
    &&& queries.len() == statements.len()
    &&& forall|i: int|
        0 <= i < queries.len() ==> (#[trigger] queries[i]).is(
            statements[i].sql,
            statements[i].params,
        )
}

/// The batches are these.
pub open spec fn are_statement_batches(
    batches: Seq<Vec<D1Query>>,
    statements: Seq<Seq<Statement>>,
) -> bool {
    &&& batches.len() == statements.len()
    &&& forall|i: int|
        0 <= i < batches.len() ==> are_statements((#[trigger] batches[i])@, statements[i])
}

/// What stays the same while the rows of a file are read.
pub struct Import {
    pub data: Seq<u8>,
    pub table_name: Seq<char>,
    pub col_list: Seq<char>,
    pub indices: Seq<int>,
    pub rows_per_insert: nat,
    /// The fields of the header.
    pub field_count: nat,
}

/// Where the reading stands.
#[verifier::ext_equal]
pub struct Buffered {
    pub at: nat,
    pub rows: nat,
    pub params: Seq<SqlValueView>,
    pub statements: Seq<Statement>,
}

/// The parameter of a field; a missing one is null.
pub open spec fn field_value(record: Seq<Seq<char>>, position: int) -> SqlValueView {
    match field(record, position) {
        Some(text) => SqlValueView::Text(text),
        None => SqlValueView::Null,
    }
}

/// The parameters of one row.
pub open spec fn row_values(record: Seq<Seq<char>>, indices: Seq<int>) -> Seq<SqlValueView> {
    indices.map_values(|i: int| field_value(record, i))
}

/// The statement of the rows that are buffered.
pub open spec fn buffered_statement(
    import: Import,
    rows: nat,
    params: Seq<SqlValueView>,
) -> Statement {
    Statement {
        sql: multi_row_sql(import.table_name, import.col_list, import.indices.len(), rows),
        params,
    }
}

/// The record at the current place. No record is too long here.
pub open spec fn next_import_record(import: Import, state: Buffered) -> RecordRead {
    record_at(Contents { bytes: import.data, fault: None }, state.at as int, 0, u64::MAX)
}

/// One more row in the buffer: a full buffer becomes a statement, and enough
/// statements become a batch.
pub open spec fn with_import_row(
    import: Import,
    state: Buffered,
) -> (Seq<Seq<Statement>>, Buffered) {
    let read = next_import_record(import, state);
    let rows = state.rows + 1;
    let params = state.params + row_values(read->Found_0, import.indices);
    let at = read->Found_1;
    if rows < import.rows_per_insert {
        (seq![], Buffered { at, rows, params, statements: state.statements })
    } else {
        let statements = state.statements.push(buffered_statement(import, rows, params));
        if statements.len() < D1_MAX_BATCH_STATEMENTS {
            (seq![], Buffered { at, rows: 0, params: seq![], statements })
        } else {
            (seq![statements], Buffered { at, rows: 0, params: seq![], statements: seq![] })
        }
    }
}

/// The last batch: the statements that wait, and one of the rows that are left.
pub open spec fn last_import_batch(import: Import, state: Buffered) -> Seq<Seq<Statement>> {
    let statements = if state.rows > 0 {
        state.statements.push(buffered_statement(import, state.rows, state.params))
    } else {
        state.statements
    };
    if statements.len() > 0 {
        seq![statements]
    } else {
        seq![]
    }
}

/// The line of a place in a file.
pub open spec fn line_at(data: Seq<u8>, at: nat) -> nat
    decreases at,
{
    if at == 0 {
        1
    } else {
        line_at(data, (at - 1) as nat) + if data[at - 1] == 10 {
            1nat
        } else {
            0nat
        }
    }
}

/// The error of a record with a wrong number of fields: the number of the record,
/// counted from the header on, and the line and the byte where reading it began.
pub open spec fn unequal_fault(
    import: Import,
    at: nat,
    processed: nat,
    found: nat,
) -> ImportFault {
    ImportFault::Text(
        "CSV error: record "@ + decimal(processed + 1) + " (line: "@ + decimal(
            line_at(import.data, at),
        ) + ", byte: "@ + decimal(at) + "): found record with "@ + decimal(found)
            + " fields, but the previous record has "@ + decimal(import.field_count) + " fields"@,
    )
}

fn line_number(data: &[u8], at: u64) -> (line: u128)
    requires
        at <= data@.len(),
    ensures
        line == line_at(data@, at as nat),
{
    let length: usize = data.len();
    assert(at <= length);
    let stop: usize = at as usize;
    let mut line: u128 = 1;
    let mut i: usize = 0;
    while i < stop
        invariant
            i <= stop <= data@.len(),
            line == line_at(data@, i as nat),
            line <= i + 1,
        decreases stop - i,
    {
        if data[i] == 10 {
            line = line + 1;
        }
        i = i + 1;
    }
    line
}

/// All that an import sends, and the rows that it processes, or its error.
pub struct Imported {
    pub batches: Seq<Seq<Statement>>,
    pub result: Result<nat, ImportFault>,
}

/// What the import of a file sends from a place on.
pub open spec fn imported(import: Import, state: Buffered, processed: nat) -> Imported
    decreases import.data.len() - state.at,
{
    let read = next_import_record(import, state);
    match record_fault(read, u64::MAX) {
        Some(fault) => Imported { batches: seq![], result: Err(read_fault(fault)) },
        None => match read {
            RecordRead::Found(fields, end) => if fields.len() != import.field_count {
                Imported {
                    batches: seq![],
                    result: Err(unequal_fault(import, state.at, processed, fields.len())),
                }
            } else {
                let (sent, next) = with_import_row(import, state);
                let rest = imported(import, next, processed + 1);
                Imported { batches: sent + rest.batches, result: rest.result }
            },
            _ => Imported { batches: last_import_batch(import, state), result: Ok(processed) },
        },
    }
}

/// What the import of a file came to.
#[derive(Debug)]
pub struct CsvImport {
    /// The batches to send, one after the other.
    pub batches: Vec<Vec<D1Query>>,
    /// The rows that were processed. After an error nothing more is sent.
    pub result: Result<u64, WorkerError>,
}

impl CsvImport {
    /// It came to this.
    pub open spec fn is(&self, said: Imported) -> bool {
        &&& are_statement_batches(self.batches@, said.batches)
        &&& match (self.result, said.result) {
            (Ok(n), Ok(m)) => n == m,
            (Err(error), Err(fault)) => reports(error, fault),
            _ => false,
        }
    }
}

/// The parameters of one row, behind those that are there.
fn push_row(params: &mut Vec<SqlValue>, record: &Vec<String>, indices: &Vec<usize>)
    ensures
        values(final(params)@) == values(old(params)@) + row_values(
            texts(record@),
            as_ints(indices@),
        ),
        final(params)@.len() == old(params)@.len() + indices@.len(),
{
    let ghost before = params@;
    let mut i: usize = 0;
    while i < indices.len()
        invariant
            i <= indices@.len(),
            params@.len() == before.len() + i,
            forall|k: int| 0 <= k < before.len() ==> params@[k] == before[k],
            forall|k: int|
                0 <= k < i ==> (#[trigger] params@[before.len() + k])@ == field_value(
                    texts(record@),
                    indices@[k] as int,
                ),
        decreases indices.len() - i,
    {
        let index: usize = indices[i];
        let value = if index < record.len() {
            SqlValue::Text(record[index].clone())
        } else {
            SqlValue::Null
        };
        params.push(value);
        i += 1;
    }
    proof {
        let all = values(params@);
        let said = values(before) + row_values(texts(record@), as_ints(indices@));
        assert forall|k: int| 0 <= k < all.len() implies all[k] == said[k] by {
            if k >= before.len() {
                let j = k - before.len();
                assert(params@[before.len() + j]@ == field_value(
                    texts(record@),
                    indices@[j] as int,
                ));
            }
        }
        assert(all =~= said);
    }
}

/// What the rows are imported into, and how many go into one statement.
struct ImportTarget {
    table_name: String,
    col_list: String,
    indices: Vec<usize>,
    rows_per_insert: usize,
    field_count: usize,
}

impl ImportTarget {
    closed spec fn import(&self, data: Seq<u8>) -> Import {
        Import {
            data,
            table_name: self.table_name@,
            col_list: self.col_list@,
            indices: as_ints(self.indices@),
            rows_per_insert: self.rows_per_insert as nat,
            field_count: self.field_count as nat,
        }
    }

    closed spec fn wf(&self) -> bool {
        self.rows_per_insert > 0 && self.rows_per_insert * self.indices@.len() <= usize::MAX
    }

    /// The statement of some rows.
    fn statement(&self, rows: usize, params: Vec<SqlValue>) -> (query: D1Query)
        requires
            rows * self.indices@.len() <= usize::MAX,
        ensures
            query.is(
                multi_row_sql(
                    self.table_name@,
                    self.col_list@,
                    self.indices@.len(),
                    rows as nat,
                ),
                values(params@),
            ),
    {
        D1Query {
            sql: build_multi_row_sql(
                self.table_name.as_str(),
                self.col_list.as_str(),
                self.indices.len(),
                rows,
            ),
            params,
        }
    }

    /// Imports the rows of a file from the place of a reader on.
    fn run(&self, data: &[u8], first_reader: RecordReader) -> (csv: CsvImport)
        requires
            self.wf(),
            first_reader.begin == 0,
            first_reader.at <= data@.len(),
        ensures
            csv.is(
                imported(
                    self.import(data@),
                    (Buffered {
                        at: first_reader.at as nat,
                        rows: 0,
                        params: seq![],
                        statements: seq![],
                    }),
                    0,
                ),
            ),
    {
        let start: u64 = first_reader.at;
        let mut reader = first_reader;
        let ghost import = self.import(data@);
        let ghost first = Buffered {
            at: start as nat,
            rows: 0,
            params: seq![],
            statements: seq![],
        };
        let ghost all = imported(import, first, 0);
        let ghost mut sent: Seq<Seq<Statement>> = seq![];
        let ghost mut waiting: Seq<Statement> = seq![];
        let mut batches: Vec<Vec<D1Query>> = Vec::new();
        let mut statements: Vec<D1Query> = Vec::new();
        let mut params: Vec<SqlValue> = Vec::new();
        let mut rows: usize = 0;
        let mut processed: u64 = 0;
        proof {
            assert(values(params@) =~= seq![]);
            assert(sent + all.batches =~= all.batches);
        }
        loop
            invariant
                self.wf(),
                import == self.import(data@),
                import.indices.len() == self.indices@.len(),
                start == first_reader.at,
                reader.begin == 0,
                reader.at <= data@.len(),
                start + processed <= reader.at,
                rows < self.rows_per_insert,
                statements@.len() < D1_MAX_BATCH_STATEMENTS,
                are_statement_batches(batches@, sent),
                are_statements(statements@, waiting),
                all == imported(import, first, 0),
                first == (Buffered {
                    at: start as nat,
                    rows: 0,
                    params: seq![],
                    statements: seq![],
                }),
                ({
                    let rest = imported(
                        import,
                        Buffered {
                            at: reader.at as nat,
                            rows: rows as nat,
                            params: values(params@),
                            statements: waiting,
                        },
                        processed as nat,
                    );
                    all.batches == sent + rest.batches && all.result == rest.result
                }),
            decreases data@.len() - reader.at,
        {
            let at: u64 = reader.at;
            let ghost state = Buffered {
                at: at as nat,
                rows: rows as nat,
                params: values(params@),
                statements: waiting,
            };
            match read_bounded_record(data, &None, &mut reader, u64::MAX) {
                Err(error) => {
                    assert(sent + Seq::<Seq<Statement>>::empty() =~= sent);
                    return CsvImport { batches, result: Err(read_error(error)) };
                },
                Ok(None) => {
                    let ghost mut last = waiting;
                    if rows > 0 {
                        let ghost values_now = values(params@);
                        proof {
                            assert(rows * self.indices@.len() <= self.rows_per_insert
                                * self.indices@.len()) by (nonlinear_arith)
                                requires
                                    rows <= self.rows_per_insert,
                            ;
                        }
                        let query = self.statement(rows, params);
                        statements.push(query);
                        proof {
                            last = waiting.push(
                                buffered_statement(import, rows as nat, values_now),
                            );
                        }
                    }
                    assert(are_statements(statements@, last));
                    if statements.len() > 0 {
                        batches.push(statements);
                        assert(are_statement_batches(batches@, sent.push(last)));
                        assert(sent + seq![last] =~= sent.push(last));
                    } else {
                        assert(sent + Seq::<Seq<Statement>>::empty() =~= sent);
                    }
                    return CsvImport { batches, result: Ok(processed) };
                },
                Ok(Some(record)) => {
                    assert(texts(record@).len() == record@.len());
                    if record.len() != self.field_count {
                        let mut message = "CSV error: record ".to_owned();
                        push_decimal(&mut message, processed as u128 + 1);
                        message.append(" (line: ");
                        push_decimal(&mut message, line_number(data, at));
                        message.append(", byte: ");
                        push_decimal(&mut message, at as u128);
                        message.append("): found record with ");
                        push_decimal(&mut message, record.len() as u128);
                        message.append(" fields, but the previous record has ");
                        push_decimal(&mut message, self.field_count as u128);
                        message.append(" fields");
                        assert(sent + Seq::<Seq<Statement>>::empty() =~= sent);
                        return CsvImport {
                            batches,
                            result: Err(to_worker_err(message.as_str())),
                        };
                    }
                    let ghost step = with_import_row(import, state);
                    let ghost rest = imported(import, step.1, (processed + 1) as nat);
                    push_row(&mut params, &record, &self.indices);
                    rows = rows + 1;
                    processed = processed + 1;
                    if rows >= self.rows_per_insert {
                        let ghost values_now = values(params@);
                        let query = self.statement(rows, params);
                        params = Vec::new();
                        assert(values(params@) =~= seq![]);
                        statements.push(query);
                        proof {
                            waiting = waiting.push(
                                buffered_statement(import, rows as nat, values_now),
                            );
                        }
                        rows = 0;
                        assert(are_statements(statements@, waiting));
                        if statements.len() >= D1_MAX_BATCH_STATEMENTS {
                            batches.push(statements);
                            statements = Vec::new();
                            assert(are_statement_batches(batches@, sent.push(waiting)));
                            proof {
                                assert(sent.push(waiting) + rest.batches =~= sent + (
                                seq![waiting] + rest.batches));
                                sent = sent.push(waiting);
                                waiting = seq![];
                            }
                        } else {
                            assert(sent + (Seq::<Seq<Statement>>::empty() + rest.batches) =~= sent
                                + rest.batches);
                        }
                    } else {
                        assert(sent + (Seq::<Seq<Statement>>::empty() + rest.batches) =~= sent
                            + rest.batches);
                    }
                },
            }
        }
    }
}

// ---------------------------------------------------------------------------
// A whole file
// ---------------------------------------------------------------------------
/// What is to be done for a file of an archive.
#[derive(Debug)]
pub enum FilePlan {
    /// The archive does not have it.
    Missing,
    /// None of its columns is in the database.
    NoMatchingColumns,
    Failed(WorkerError),
    /// Send the batches; the message about its columns, if there is one, comes
    /// first.
    Import { alignment: Option<String>, csv: CsvImport },
}

/// The columns that a file and its table share, and how its rows are imported.
pub open spec fn import_of(
    schema: TableSchema,
    table_name: Seq<char>,
    data: Seq<u8>,
    headers: Seq<Seq<char>>,
) -> Import {
    let columns = texts(schema.db_columns@);
    let matched = matched_columns(headers, columns);
    Import {
        data,
        table_name,
        col_list: if matched.len() == columns.len() {
            schema.col_list@
        } else {
            join(names(matched), ", "@)
        },
        indices: positions(matched),
        rows_per_insert: rows_per_statement(matched.len()),
        field_count: headers.len(),
    }
}

/// The plan for a file whose header is read.
pub open spec fn plan_is(
    plan: FilePlan,
    schema: TableSchema,
    table_name: Seq<char>,
    data: Seq<u8>,
    headers: Seq<Seq<char>>,
    start: nat,
) -> bool {
    let columns = texts(schema.db_columns@);
    let matched = matched_columns(headers, columns);
    if matched.len() == 0 {
        plan is NoMatchingColumns
    } else {
        plan matches FilePlan::Import { alignment, csv } && (match alignment {
            Some(text) => Some(text@),
            None => None,
        }) == alignment_message(schema.csv_file@, headers, columns, matched.len()) && csv.is(
            imported(
                import_of(schema, table_name, data, headers),
                Buffered { at: start, rows: 0, params: seq![], statements: seq![] },
                0,
            ),
        )
    }
}

/// The plan for a file with this text.
pub open spec fn contents_plan(
    plan: FilePlan,
    schema: TableSchema,
    table_name: Seq<char>,
    content: Seq<char>,
) -> bool {
    let data = vstd::utf8::encode_utf8(content);
    let read = record_at(Contents { bytes: data, fault: None }, 0, 0, u64::MAX);
    match record_fault(read, u64::MAX) {
        Some(fault) => plan matches FilePlan::Failed(error) && reports(error, read_fault(fault)),
        None => match read {
            RecordRead::Found(headers, end) => plan_is(
                plan,
                schema,
                table_name,
                data,
                headers,
                end,
            ),
            RecordRead::Missing(end) => plan_is(plan, schema, table_name, data, seq![], end),
            _ => false,
        },
    }
}

proof fn lemma_matched_length(headers: Seq<Seq<char>>, columns: Seq<Seq<char>>)
    ensures
        matched_columns(headers, columns).len() <= columns.len(),
    decreases columns.len(),
{
    if columns.len() > 0 {
        lemma_matched_length(headers, columns.drop_last());
    }
}

fn plan_rows(
    schema: &TableSchema,
    table_name: &str,
    data: &[u8],
    headers: &Vec<String>,
    reader: RecordReader,
) -> (plan: FilePlan)
    requires
        schema.wf(),
        reader.begin == 0,
        reader.at <= data@.len(),
    ensures
        plan_is(plan, *schema, table_name@, data@, texts(headers@), reader.at as nat),
{
    let ghost columns = texts(schema.db_columns@);
    let ghost matched_spec = matched_columns(texts(headers@), columns);
    let (matched, indices) = resolve_matching_columns(headers, &schema.db_columns);
    proof {
        assert(texts(matched@).len() == matched@.len());
        assert(as_ints(indices@).len() == indices@.len());
    }
    if matched.len() == 0 {
        return FilePlan::NoMatchingColumns;
    }
    let alignment = log_column_diagnostics(schema.csv_file, headers, &schema.db_columns, &matched);
    let col_count: usize = matched.len();
    let whole = col_count == schema.db_columns.len();
    let fitting = rows_that_fit(col_count);
    let rows_per_insert: usize = if whole {
        schema.rows_per_insert
    } else {
        fitting
    };
    let col_list = if whole {
        schema.col_list.clone()
    } else {
        join_texts(&matched, ", ")
    };
    let target = ImportTarget {
        table_name: table_name.to_owned(),
        col_list,
        indices,
        rows_per_insert,
        field_count: headers.len(),
    };
    proof {
        assert(columns.len() == schema.db_columns@.len());
        assert(rows_per_insert == rows_per_statement(matched_spec.len()));
        if rows_per_insert == 1 {
            assert(1 * col_count == col_count) by (nonlinear_arith);
        }
        assert(target.import(data@) == import_of(*schema, table_name@, data@, texts(headers@)));
    }
    let csv = target.run(data, reader);
    FilePlan::Import { alignment, csv }
}

/// The plan for a file with this text.
pub fn plan_contents(schema: &TableSchema, table_name: &str, content: &str) -> (plan: FilePlan)
    requires
        schema.wf(),
    ensures
        contents_plan(plan, *schema, table_name@, content@),
{
    let data = content.as_bytes();
    let mut reader = RecordReader::new(0);
    match read_bounded_record(data, &None, &mut reader, u64::MAX) {
        Err(error) => FilePlan::Failed(read_error(error)),
        Ok(Some(headers)) => plan_rows(schema, table_name, data, &headers, reader),
        Ok(None) => {
            let headers: Vec<String> = Vec::new();
            assert(texts(headers@) =~= seq![]);
            plan_rows(schema, table_name, data, &headers, reader)
        },
    }
}

/// Whether the bytes of a dataset are an archive; the error keeps the text that it has
/// where they are not.
pub fn open_archive(archive: &[u8]) -> (opened: Result<(), WorkerError>)
    ensures
        match entry_count(archive@) {
            Ok(_) => opened is Ok,
            Err(text) => opened matches Err(error) && reports(error, ImportFault::Text(text)),
        },
{
    match count_entries(archive) {
        Err((_, text)) => Err(WorkerError::RustError(text)),
        Ok(_) => Ok(()),
    }
}

/// The plan for a file of an archive: nothing where the archive does not have it, the
/// error where it cannot be read as text, else an import of the columns that it shares
/// with its table.
pub fn process_csv_file(archive: &[u8], schema: &TableSchema, table_name: &str) -> (plan: FilePlan)
    requires
        schema.wf(),
    ensures
        match entry_text(archive@, schema.csv_file@) {
            None => plan is Missing,
            Some(Err(reason)) => plan matches FilePlan::Failed(error) && reports(
                error,
                ImportFault::Text(reason),
            ),
            Some(Ok(content)) => contents_plan(plan, *schema, table_name@, content),
        },
{
    match read_entry_text(archive, schema.csv_file) {
        None => FilePlan::Missing,
        Some(Err(reason)) => FilePlan::Failed(to_worker_err(reason.as_str())),
        Some(Ok(content)) => plan_contents(schema, table_name, content.as_str()),
    }
}

/// The statement that counts the rows of a table, under the name `count`.
pub fn count_rows_sql(table_name: &str) -> (sql: String)
    ensures
        sql@ == "SELECT COUNT(*) AS count FROM "@ + table_name@,
{
    let mut sql = "SELECT COUNT(*) AS count FROM ".to_owned();
    sql.append(table_name);
    sql
}

/// How many rows of an import are new and how many were there: by the rows of the
/// table before and after it.
pub fn count_changes(before: u32, after: u32, processed: u32) -> (counts: (u32, u32))
    ensures
        counts.0 == if after > before {
            after - before
        } else {
            0
        },
        counts.1 == if processed > counts.0 {
            processed - counts.0
        } else {
            0
        },
{
    let count_new: u32 = after.saturating_sub(before);
    (count_new, processed.saturating_sub(count_new))
}

} // verus!
