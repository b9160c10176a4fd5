//! The state of the D1 client, the statements of the progress tables, and the
//! answers about databases.
use crate::importer::budget::{after_reserving, D1WriteBudget, ReserveStep};
use crate::importer::config::RuntimeConfig;
use crate::importer::d1::{
    values, D1DatabaseInfo, D1Query, D1Result, D1Usage, Row, SqlValue, SqlValueView,
};
use crate::importer::fault::{D1Error, D1ErrorView};
use crate::outside::header::{header_problem, is_header_text};
use crate::pieces::{split, split_trimmed, trimmed_pieces};
use crate::text::{chars_of, opt_text, texts};
use vstd::prelude::*;
use vstd::string::*;

verus! {

// ---------------------------------------------------------------------------
// The client
// ---------------------------------------------------------------------------
/// The account that a client works for, its budget, and its usage so far.
#[derive(Debug)]
pub struct D1Client {
    pub account_id: String,
    /// The value of the `Authorization` header.
    pub authorization: String,
    /// The requests that may run at once.
    pub concurrency_limit: usize,
    pub write_budget: D1WriteBudget,
    /// The timeout of a query, in seconds.
    pub query_timeout: u64,
    pub rows_read: u64,
    pub rows_written: u64,
}

/// The rows that some answers read.
pub open spec fn total_read(results: Seq<D1Result>) -> nat
    decreases results.len(),
{
    if results.len() == 0 {
        0
    } else {
        total_read(results.drop_last()) + match results.last().meta {
            Some(meta) => meta.rows_read as nat,
            None => 0,
        }
    }
}

/// The rows that some answers wrote.
pub open spec fn total_written(results: Seq<D1Result>) -> nat
    decreases results.len(),
{
    if results.len() == 0 {
        0
    } else {
        total_written(results.drop_last()) + match results.last().meta {
            Some(meta) => meta.rows_written as nat,
            None => 0,
        }
    }
}

/// A count of 64 bits, which starts again from zero where it is full.
pub open spec fn counted(n: nat) -> u64 {
    (n % 0x1_0000_0000_0000_0000) as u64
}

/// One more step of a count.
fn count_on(count: u64, more: u64, Ghost(total): Ghost<nat>) -> (sum: u64)
    requires
        count == counted(total),
    ensures
        sum == counted(total + more as nat),
{
    let sum: u64 = count.wrapping_add(more);
    proof {
        let m = 0x1_0000_0000_0000_0000int;
        vstd::arithmetic::div_mod::lemma_add_mod_noop(total as int, more as int, m);
        vstd::arithmetic::div_mod::lemma_small_mod(more as nat, m as nat);
        if count + more < m {
            vstd::arithmetic::div_mod::lemma_small_mod((count + more) as nat, m as nat);
        } else {
            vstd::arithmetic::div_mod::lemma_mod_sub_multiples_vanish(count + more, m);
            vstd::arithmetic::div_mod::lemma_small_mod((count + more - m) as nat, m as nat);
        }
    }
    sum
}

impl D1Client {
    /// A client of an account. A token that cannot stand in a header is refused.
    pub fn new(account_id: String, api_token: String, runtime: &RuntimeConfig) -> (client: Result<
        D1Client,
        D1Error,
    >)
        ensures
            match client {
                Ok(c) => is_header_text("Bearer "@ + api_token@) && c.account_id@ == account_id@
                    && c.authorization@ == "Bearer "@ + api_token@ && c.concurrency_limit
                    == runtime.d1_global_concurrency_limit && c.write_budget.remaining
                    == runtime.max_d1_rows_written_per_workflow && c.write_budget.in_flight == 0
                    && c.query_timeout == runtime.d1_query_timeout && c.rows_read == 0
                    && c.rows_written == 0,
                Err(error) => !is_header_text("Bearer "@ + api_token@) && error@
                    == D1ErrorView::ApiError(
                    "Invalid API token header: "@ + "failed to parse header value"@,
                ),
            },
    {
        let mut authorization = "Bearer ".to_owned();
        authorization.append(api_token.as_str());
        if let Some(problem) = header_problem(authorization.as_str()) {
            let mut message = "Invalid API token header: ".to_owned();
            message.append(problem.as_str());
            return Err(D1Error::ApiError(message));
        }
        Ok(
            D1Client {
                account_id,
                authorization,
                concurrency_limit: runtime.d1_global_concurrency_limit,
                write_budget: D1WriteBudget::new(runtime.max_d1_rows_written_per_workflow),
                query_timeout: runtime.d1_query_timeout,
                rows_read: 0,
                rows_written: 0,
            },
        )
    }

    /// What the client has read and written so far.
    pub fn usage(&self) -> (usage: D1Usage)
        ensures
            usage == (D1Usage { rows_read: self.rows_read, rows_written: self.rows_written }),
    {
        D1Usage { rows_read: self.rows_read, rows_written: self.rows_written }
    }

    /// Adds what some answers read and wrote.
    pub fn record_usage(&mut self, results: &Vec<D1Result>)
        ensures
            final(self).rows_read == counted(old(self).rows_read as nat + total_read(results@)),
            final(self).rows_written == counted(
                old(self).rows_written as nat + total_written(results@),
            ),
            *final(self) == (D1Client {
                rows_read: final(self).rows_read,
                rows_written: final(self).rows_written,
                ..*old(self)
            }),
    {
        let ghost before = *self;
        let mut i: usize = 0;
        proof {
            vstd::arithmetic::div_mod::lemma_small_mod(
                self.rows_read as nat,
                0x1_0000_0000_0000_0000,
            );
            vstd::arithmetic::div_mod::lemma_small_mod(
                self.rows_written as nat,
                0x1_0000_0000_0000_0000,
            );
        }
        while i < results.len()
            invariant
                i <= results@.len(),
                self.rows_read == counted(
                    before.rows_read as nat + total_read(results@.take(i as int)),
                ),
                self.rows_written == counted(
                    before.rows_written as nat + total_written(results@.take(i as int)),
                ),
                *self == (D1Client {
                    rows_read: self.rows_read,
                    rows_written: self.rows_written,
                    ..before
                }),
            decreases results.len() - i,
        {
            assert(results@.take(i + 1).drop_last() =~= results@.take(i as int));
            if let Some(meta) = &results[i].meta {
                self.rows_read = count_on(
                    self.rows_read,
                    meta.rows_read,
                    Ghost(before.rows_read as nat + total_read(results@.take(i as int))),
                );
                self.rows_written = count_on(
                    self.rows_written,
                    meta.rows_written,
                    Ghost(before.rows_written as nat + total_written(results@.take(i as int))),
                );
            }
            i += 1;
        }
        assert(results@.take(results@.len() as int) =~= results@);
    }

    /// Reserves writes of the budget for a batch of rows.
    pub fn reserve_import_writes(&mut self, maximum_writes: u64) -> (step: ReserveStep)
        ensures
            *final(self) == (D1Client { write_budget: final(self).write_budget, ..*old(self) }),
            match step {
                ReserveStep::Granted(reservation) => {
                    &&& maximum_writes <= old(self).write_budget.remaining
                    &&& reservation.reserved == maximum_writes
                    &&& final(self).write_budget == after_reserving(
                        old(self).write_budget,
                        maximum_writes,
                    )
                },
                ReserveStep::Wait => {
                    &&& maximum_writes > old(self).write_budget.remaining
                    &&& old(self).write_budget.in_flight > 0
                    &&& *final(self) == *old(self)
                },
                ReserveStep::Exhausted(error) => maximum_writes > old(self).write_budget.remaining
                    && old(self).write_budget.in_flight == 0 && *final(self) == *old(self)
                    && error@ == (D1ErrorView::WriteBudgetExhausted {
                    requested: maximum_writes,
                    remaining: old(self).write_budget.remaining,
                }),
            },
    {
        self.write_budget.reserve(maximum_writes)
    }

    /// Where the databases of the account are listed and created.
    pub fn databases_url(&self) -> (url: String)
        ensures
            url@ == databases_path(self.account_id@),
    {
        let mut url = "https://api.cloudflare.com/client/v4/accounts/".to_owned();
        url.append(self.account_id.as_str());
        url.append("/d1/database");
        url
    }

    /// Where a database is described and deleted.
    pub fn database_url(&self, db_id: &str) -> (url: String)
        ensures
            url@ == databases_path(self.account_id@) + "/"@ + db_id@,
    {
        let mut url = self.databases_url();
        url.append("/");
        url.append(db_id);
        url
    }

    /// Where the statements for a database are sent.
    pub fn query_url(&self, db_id: &str) -> (url: String)
        ensures
            url@ == databases_path(self.account_id@) + "/"@ + db_id@ + "/query"@,
    {
        let mut url = self.database_url(db_id);
        url.append("/query");
        url
    }
}

/// The address of the databases of an account.
pub open spec fn databases_path(account_id: Seq<char>) -> Seq<char> {
    "https://api.cloudflare.com/client/v4/accounts/"@ + account_id + "/d1/database"@
}

// ---------------------------------------------------------------------------
// Statements
// ---------------------------------------------------------------------------
/// A parameter that is a text.
fn text_param(text: &str) -> (param: SqlValue)
    ensures
        param@ == SqlValueView::Text(text@),
{
    SqlValue::Text(text.to_owned())
}

/// A number as a parameter.
pub open spec fn number_view(n: i64) -> SqlValueView {
    if n >= 0 {
        SqlValueView::Unsigned(n as u64)
    } else {
        SqlValueView::Negative(n)
    }
}

fn number_param(n: i64) -> (param: SqlValue)
    ensures
        param@ == number_view(n),
{
    if n >= 0 {
        SqlValue::Unsigned(n as u64)
    } else {
        SqlValue::Negative(n)
    }
}

/// The statement that reads the version of a provider's dataset.
pub fn dataset_version_query(provider_name: &str) -> (query: D1Query)
    ensures
        query.is(
            "SELECT ETag FROM dataset_versions WHERE Provider = ?"@,
            seq![SqlValueView::Text(provider_name@)],
        ),
{
    let params: Vec<SqlValue> = vec![text_param(provider_name)];
    assert(values(params@) =~= seq![SqlValueView::Text(provider_name@)]);
    D1Query { sql: "SELECT ETag FROM dataset_versions WHERE Provider = ?".to_owned(), params }
}

/// The statement that records the version of a provider's dataset.
pub fn set_dataset_version_query(provider: &str, etag: &str) -> (query: D1Query)
    ensures
        query.is(
            "INSERT INTO dataset_versions (Provider, ETag, UpdatedAt) VALUES (?, ?, CURRENT_TIMESTAMP) ON CONFLICT(Provider) DO UPDATE SET ETag = excluded.ETag, UpdatedAt = CURRENT_TIMESTAMP WHERE dataset_versions.ETag IS NOT excluded.ETag"@,
            seq![SqlValueView::Text(provider@), SqlValueView::Text(etag@)],
        ),
{
    let params: Vec<SqlValue> = vec![text_param(provider), text_param(etag)];
    assert(values(params@) =~= seq![SqlValueView::Text(provider@), SqlValueView::Text(etag@)]);
    D1Query {
        sql:
            "INSERT INTO dataset_versions (Provider, ETag, UpdatedAt) VALUES (?, ?, CURRENT_TIMESTAMP) ON CONFLICT(Provider) DO UPDATE SET ETag = excluded.ETag, UpdatedAt = CURRENT_TIMESTAMP WHERE dataset_versions.ETag IS NOT excluded.ETag".to_owned(),
        params,
    }
}

/// The statement that counts the files of a provider, and those not complete.
pub fn file_progress_summary_query(provider_name: &str) -> (query: D1Query)
    ensures
        query.is(
            "SELECT COUNT(*) AS total, COALESCE(SUM(CASE WHEN Status != 0 THEN 1 ELSE 0 END), 0) AS incomplete FROM import_progress WHERE Provider = ?"@,
            seq![SqlValueView::Text(provider_name@)],
        ),
{
    let params: Vec<SqlValue> = vec![text_param(provider_name)];
    assert(values(params@) =~= seq![SqlValueView::Text(provider_name@)]);
    D1Query {
        sql:
            "SELECT COUNT(*) AS total, COALESCE(SUM(CASE WHEN Status != 0 THEN 1 ELSE 0 END), 0) AS incomplete FROM import_progress WHERE Provider = ?".to_owned(),
        params,
    }
}

/// The statement that reads the progress of all files of a provider.
pub fn all_files_progress_query(provider_name: &str) -> (query: D1Query)
    ensures
        query.is(
            "SELECT FileName, CRC, LastProcessedLine, LastProcessedByte, Status FROM import_progress WHERE Provider = ?"@,
            seq![SqlValueView::Text(provider_name@)],
        ),
{
    let params: Vec<SqlValue> = vec![text_param(provider_name)];
    assert(values(params@) =~= seq![SqlValueView::Text(provider_name@)]);
    D1Query {
        sql:
            "SELECT FileName, CRC, LastProcessedLine, LastProcessedByte, Status FROM import_progress WHERE Provider = ?".to_owned(),
        params,
    }
}

/// The statement that sets the progress of a file, and its parameters.
pub open spec fn init_progress(
    provider: Seq<char>,
    file: Seq<char>,
    crc: Seq<char>,
    line: u64,
    byte: u64,
    status: i64,
) -> (Seq<char>, Seq<SqlValueView>) {
    (
        "INSERT INTO import_progress (Provider, FileName, CRC, LastProcessedLine, LastProcessedByte, Status, UpdatedAt) VALUES (?, ?, ?, ?, ?, ?, CURRENT_TIMESTAMP) ON CONFLICT(Provider, FileName) DO UPDATE SET CRC = excluded.CRC, LastProcessedLine = excluded.LastProcessedLine, LastProcessedByte = excluded.LastProcessedByte, Status = excluded.Status, UpdatedAt = CURRENT_TIMESTAMP WHERE import_progress.CRC IS NOT excluded.CRC OR import_progress.LastProcessedLine IS NOT excluded.LastProcessedLine OR import_progress.LastProcessedByte IS NOT excluded.LastProcessedByte OR import_progress.Status IS NOT excluded.Status"@,
        seq![
            SqlValueView::Text(provider),
            SqlValueView::Text(file),
            SqlValueView::Text(crc),
            SqlValueView::Unsigned(line),
            SqlValueView::Unsigned(byte),
            number_view(status),
        ],
    )
}

/// The statement that sets the progress of a file, whether or not it has one.
pub fn init_file_progress_query(
    provider: &str,
    file: &str,
    crc: &str,
    line: u64,
    byte: u64,
    status: i64,
) -> (query: D1Query)
    ensures
        query.is(
            init_progress(provider@, file@, crc@, line, byte, status).0,
            init_progress(provider@, file@, crc@, line, byte, status).1,
        ),
{
    let params: Vec<SqlValue> = vec![
        text_param(provider),
        text_param(file),
        text_param(crc),
        SqlValue::Unsigned(line),
        SqlValue::Unsigned(byte),
        number_param(status),
    ];
    assert(values(params@) =~= seq![
        SqlValueView::Text(provider@),
        SqlValueView::Text(file@),
        SqlValueView::Text(crc@),
        SqlValueView::Unsigned(line),
        SqlValueView::Unsigned(byte),
        number_view(status),
    ]);
    D1Query {
        sql:
            "INSERT INTO import_progress (Provider, FileName, CRC, LastProcessedLine, LastProcessedByte, Status, UpdatedAt) VALUES (?, ?, ?, ?, ?, ?, CURRENT_TIMESTAMP) ON CONFLICT(Provider, FileName) DO UPDATE SET CRC = excluded.CRC, LastProcessedLine = excluded.LastProcessedLine, LastProcessedByte = excluded.LastProcessedByte, Status = excluded.Status, UpdatedAt = CURRENT_TIMESTAMP WHERE import_progress.CRC IS NOT excluded.CRC OR import_progress.LastProcessedLine IS NOT excluded.LastProcessedLine OR import_progress.LastProcessedByte IS NOT excluded.LastProcessedByte OR import_progress.Status IS NOT excluded.Status".to_owned(),
        params,
    }
}

/// The statement that updates the progress of a file that has one.
pub fn update_file_progress_query(
    provider: &str,
    file: &str,
    line: u64,
    byte: u64,
    status: i64,
) -> (query: D1Query)
    ensures
        query.is(
            "UPDATE import_progress SET LastProcessedLine = ?, LastProcessedByte = ?, Status = ?, UpdatedAt = CURRENT_TIMESTAMP WHERE Provider = ? AND FileName = ? AND (LastProcessedLine IS NOT ? OR LastProcessedByte IS NOT ? OR Status IS NOT ?)"@,
            seq![
                SqlValueView::Unsigned(line),
                SqlValueView::Unsigned(byte),
                number_view(status),
                SqlValueView::Text(provider@),
                SqlValueView::Text(file@),
                SqlValueView::Unsigned(line),
                SqlValueView::Unsigned(byte),
                number_view(status),
            ],
        ),
{
    let params: Vec<SqlValue> = vec![
        SqlValue::Unsigned(line),
        SqlValue::Unsigned(byte),
        number_param(status),
        text_param(provider),
        text_param(file),
        SqlValue::Unsigned(line),
        SqlValue::Unsigned(byte),
        number_param(status),
    ];
    assert(values(params@) =~= seq![
        SqlValueView::Unsigned(line),
        SqlValueView::Unsigned(byte),
        number_view(status),
        SqlValueView::Text(provider@),
        SqlValueView::Text(file@),
        SqlValueView::Unsigned(line),
        SqlValueView::Unsigned(byte),
        number_view(status),
    ]);
    D1Query {
        sql:
            "UPDATE import_progress SET LastProcessedLine = ?, LastProcessedByte = ?, Status = ?, UpdatedAt = CURRENT_TIMESTAMP WHERE Provider = ? AND FileName = ? AND (LastProcessedLine IS NOT ? OR LastProcessedByte IS NOT ? OR Status IS NOT ?)".to_owned(),
        params,
    }
}

/// The statements of a schema, in order: what stands between semicolons, trimmed,
/// where anything is left.
pub fn schema_statements(schema_sql: &str) -> (statements: Vec<String>)
    ensures
        texts(statements@) == trimmed_pieces(split(schema_sql@, ';')),
{
    split_trimmed(chars_of(schema_sql).as_slice(), ';')
}

// ---------------------------------------------------------------------------
// Answers
// ---------------------------------------------------------------------------
/// The first row of the first answer.
pub open spec fn first_row(results: Seq<D1Result>) -> Option<Row> {
    if results.len() > 0 && results[0].results@.len() > 0 {
        Some(results[0].results@[0])
    } else {
        None
    }
}

/// The version of a dataset that the answers give.
pub fn dataset_version_from(results: &Vec<D1Result>) -> (etag: Option<String>)
    ensures
        opt_text(etag) == match first_row(results@) {
            Some(row) => row.text("ETag"@),
            None => None,
        },
{
    if results.len() > 0 && results[0].results.len() > 0 {
        if let Some(text) = results[0].results[0].get_text("ETag") {
            return Some(text.to_owned());
        }
    }
    None
}

/// The number of a column of the first row, none where it is missing.
pub open spec fn first_count(results: Seq<D1Result>, column: Seq<char>) -> u64 {
    match first_row(results) {
        Some(row) => match row.unsigned(column) {
            Some(n) => n,
            None => 0,
        },
        None => 0,
    }
}

/// The number of files that the answers give, and of those not complete.
pub fn file_progress_summary_from(results: &Vec<D1Result>) -> (summary: (u64, u64))
    ensures
        summary == (first_count(results@, "total"@), first_count(results@, "incomplete"@)),
{
    if results.len() > 0 && results[0].results.len() > 0 {
        let row = &results[0].results[0];
        let total: u64 = match row.get_unsigned("total") {
            Some(n) => n,
            None => 0,
        };
        let incomplete: u64 = match row.get_unsigned("incomplete") {
            Some(n) => n,
            None => 0,
        };
        return (total, incomplete);
    }
    (0, 0)
}

/// The rows of the first answer.
pub fn all_files_progress_from(results: Vec<D1Result>) -> (rows: Vec<Row>)
    ensures
        rows@ == if results@.len() > 0 {
            results@[0].results@
        } else {
            seq![]
        },
{
    let mut results = results;
    if results.len() == 0 {
        return Vec::new();
    }
    results.remove(0).results
}

// ---------------------------------------------------------------------------
// Databases
// ---------------------------------------------------------------------------
/// What the service answered about a database.
#[derive(Debug)]
pub struct DatabaseAnswer {
    pub success: bool,
    /// The whole answer, for a message.
    pub debug: String,
    pub has_result: bool,
    pub name: Option<String>,
    pub file_size: Option<u64>,
    pub uuid: Option<String>,
    pub total_count: Option<u64>,
}

/// What came of a request about a database.
#[derive(Debug)]
pub enum DatabaseReply {
    /// The service refused it, with a text.
    Refused(String),
    Answered(DatabaseAnswer),
}

/// An error of the service about a database.
pub open spec fn database_error(
    before: Seq<char>,
    db_id: Seq<char>,
    after: Seq<char>,
) -> D1ErrorView {
    D1ErrorView::ApiError(before + db_id + after)
}

fn api_error(before: &str, db_id: &str, after: &str) -> (error: D1Error)
    ensures
        error@ == database_error(before@, db_id@, after@),
{
    let mut message = before.to_owned();
    message.append(db_id);
    message.append(after);
    D1Error::ApiError(message)
}

fn refusal(before: &str, db_id: &str, text: &str) -> (error: D1Error)
    ensures
        error@ == D1ErrorView::ApiError(before@ + db_id@ + ": "@ + text@),
{
    let mut message = before.to_owned();
    message.append(db_id);
    message.append(": ");
    message.append(text);
    D1Error::ApiError(message)
}

/// The name and the size of a database, or what is missing in the answer.
pub fn database_info(db_id: &str, reply: DatabaseReply) -> (info: Result<D1DatabaseInfo, D1Error>)
    ensures
        match reply {
            DatabaseReply::Refused(text) => info matches Err(error) && error@
                == D1ErrorView::ApiError("Failed to get database "@ + db_id@ + ": "@ + text@),
            DatabaseReply::Answered(answer) => if !answer.success {
                info matches Err(error) && error@ == D1ErrorView::ApiError(
                    "API success=false: "@ + answer.debug@,
                )
            } else if !answer.has_result {
                info matches Err(error) && error@ == database_error(
                    "Database "@,
                    db_id@,
                    " response did not contain a result"@,
                )
            } else if answer.name is None {
                info matches Err(error) && error@ == database_error(
                    "Database "@,
                    db_id@,
                    " response did not contain a name"@,
                )
            } else if answer.file_size is None {
                info matches Err(error) && error@ == database_error(
                    "Database "@,
                    db_id@,
                    " response did not contain a numeric file_size"@,
                )
            } else {
                info matches Ok(database) && database.name@ == answer.name->Some_0@
                    && database.file_size == answer.file_size->Some_0
            },
        },
{
    match reply {
        DatabaseReply::Refused(text) => Err(
            refusal("Failed to get database ", db_id, text.as_str()),
        ),
        DatabaseReply::Answered(answer) => {
            if !answer.success {
                let mut message = "API success=false: ".to_owned();
                message.append(answer.debug.as_str());
                return Err(D1Error::ApiError(message));
            }
            if !answer.has_result {
                return Err(api_error("Database ", db_id, " response did not contain a result"));
            }
            match answer.name {
                None => Err(api_error("Database ", db_id, " response did not contain a name")),
                Some(name) => match answer.file_size {
                    None => Err(
                        api_error(
                            "Database ",
                            db_id,
                            " response did not contain a numeric file_size",
                        ),
                    ),
                    Some(file_size) => Ok(D1DatabaseInfo { name, file_size }),
                },
            }
        },
    }
}

/// The number of databases of the account, or what is missing in the answer.
pub fn database_count(reply: DatabaseReply) -> (count: Result<u64, D1Error>)
    ensures
        match reply {
            DatabaseReply::Refused(text) => count matches Err(error) && error@
                == D1ErrorView::ApiError("Failed to list D1 databases: "@ + text@),
            DatabaseReply::Answered(answer) => if !answer.success {
                count matches Err(error) && error@ == D1ErrorView::ApiError(
                    "API success=false while listing D1 databases: "@ + answer.debug@,
                )
            } else {
                match answer.total_count {
                    Some(n) => count == Ok::<u64, D1Error>(n),
                    None => count matches Err(error) && error@ == D1ErrorView::ApiError(
                        "D1 database list response did not contain result_info.total_count"@,
                    ),
                }
            },
        },
{
    match reply {
        DatabaseReply::Refused(text) => {
            let mut message = "Failed to list D1 databases: ".to_owned();
            message.append(text.as_str());
            Err(D1Error::ApiError(message))
        },
        DatabaseReply::Answered(answer) => {
            if !answer.success {
                let mut message = "API success=false while listing D1 databases: ".to_owned();
                message.append(answer.debug.as_str());
                return Err(D1Error::ApiError(message));
            }
            match answer.total_count {
                Some(n) => Ok(n),
                None => Err(
                    D1Error::ApiError(
                        "D1 database list response did not contain result_info.total_count".to_owned(),
                    ),
                ),
            }
        },
    }
}

/// The identifier of a new database, or what is missing in the answer.
pub fn created_database(name: &str, reply: DatabaseReply) -> (uuid: Result<String, D1Error>)
    ensures
        match reply {
            DatabaseReply::Refused(text) => uuid matches Err(error) && error@
                == D1ErrorView::ApiError("Failed to create database "@ + name@ + ": "@ + text@),
            DatabaseReply::Answered(answer) => if !answer.success {
                uuid matches Err(error) && error@ == D1ErrorView::ApiError(
                    "API success=false: "@ + answer.debug@,
                )
            } else {
                match answer.uuid {
                    Some(id) => uuid matches Ok(given) && given@ == id@,
                    None => uuid matches Err(error) && error@ == D1ErrorView::ApiError(
                        "No uuid in create database response"@,
                    ),
                }
            },
        },
{
    match reply {
        DatabaseReply::Refused(text) => Err(
            refusal("Failed to create database ", name, text.as_str()),
        ),
        DatabaseReply::Answered(answer) => {
            if !answer.success {
                let mut message = "API success=false: ".to_owned();
                message.append(answer.debug.as_str());
                return Err(D1Error::ApiError(message));
            }
            match answer.uuid {
                Some(id) => Ok(id),
                None => Err(
                    D1Error::ApiError("No uuid in create database response".to_owned()),
                ),
            }
        },
    }
}

/// Whether a database was deleted.
pub fn deleted_database(db_id: &str, reply: DatabaseReply) -> (deleted: Result<(), D1Error>)
    ensures
        match reply {
            DatabaseReply::Refused(text) => deleted matches Err(error) && error@
                == D1ErrorView::ApiError("Failed to delete database "@ + db_id@ + ": "@ + text@),
            DatabaseReply::Answered(answer) => if !answer.success {
                deleted matches Err(error) && error@ == D1ErrorView::ApiError(
                    "API success=false: "@ + answer.debug@,
                )
            } else {
                deleted is Ok
            },
        },
{
    match reply {
        DatabaseReply::Refused(text) => Err(
            refusal("Failed to delete database ", db_id, text.as_str()),
        ),
        DatabaseReply::Answered(answer) => {
            if !answer.success {
                let mut message = "API success=false: ".to_owned();
                message.append(answer.debug.as_str());
                return Err(D1Error::ApiError(message));
            }
            Ok(())
        },
    }
}

} // verus!
