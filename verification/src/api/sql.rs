//! Queries that a request writes itself: one statement that only reads.
use crate::api::database::{provider_not_found, unknown_provider, Refusal, Refused};
use crate::number::{decimal, parse_unsigned, push_decimal, read_unsigned};
use crate::pieces::{
    contains_pattern, has_pattern, split_words, trim, trim_end, trimmed, trimmed_end, words,
};
use crate::text::{
    ascii_lowercase, chars_of, lowercase_ascii, opt_text, same_text, string_of, views,
};
use vstd::prelude::*;
use vstd::string::*;

verus! {

/// The most rows of a query where nothing else is set.
pub const DEFAULT_MAX_ROWS: u32 = 1000;

/// The most rows of a query: what is set, where it is a positive number.
pub open spec fn row_maximum(setting: Option<Seq<char>>) -> nat {
    match setting {
        Some(value) => match parse_unsigned(trim(value), u32::MAX as nat) {
            Some(rows) => if rows > 0 {
                rows
            } else {
                DEFAULT_MAX_ROWS as nat
            },
            None => DEFAULT_MAX_ROWS as nat,
        },
        None => DEFAULT_MAX_ROWS as nat,
    }
}

/// The most rows of a query, from the setting `WORKER_SQL_MAX_ROWS`.
pub fn max_rows(setting: Option<String>) -> (rows: u32)
    ensures
        rows == row_maximum(opt_text(setting)),
{
    match setting {
        Some(value) => {
            let chars = chars_of(value.as_str());
            match read_unsigned(trimmed(chars.as_slice()), u32::MAX as u64) {
                Some(rows) => if rows > 0 {
                    rows as u32
                } else {
                    DEFAULT_MAX_ROWS
                },
                None => DEFAULT_MAX_ROWS,
            }
        },
        None => DEFAULT_MAX_ROWS,
    }
}

/// The statement of a request, without blanks around it and without one semicolon
/// at its end.
pub open spec fn statement(body: Seq<char>) -> Seq<char> {
    let text = trim(body);
    if text.len() > 0 && text.last() == ';' {
        trim_end(text.drop_last())
    } else {
        trim_end(text)
    }
}

/// The statement starts with a word that reads, ends nowhere before its end, and
/// holds no comment.
pub open spec fn is_one_query(sql: Seq<char>) -> bool {
    let first = ascii_lowercase(words(sql)[0]);
    &&& words(sql).len() > 0
    &&& first == "select"@ || first == "with"@
    &&& !contains_pattern(sql, ";"@)
    &&& !contains_pattern(sql, "--"@)
    &&& !contains_pattern(sql, "/*"@)
}

/// The query that runs: the statement within another, whose rows are limited.
pub open spec fn limited_query(sql: Seq<char>, rows: nat) -> Seq<char> {
    "SELECT * FROM (\n"@ + sql + "\n) LIMIT "@ + decimal(rows)
}

/// What is wrong with a statement.
pub open spec fn statement_problem(sql: Seq<char>) -> Option<Refused> {
    if sql.len() == 0 {
        Some(Refused { message: "SQL query is required"@, status: 400 })
    } else if !is_one_query(sql) {
        Some(
            Refused {
                message: "Only one SELECT query without comments is allowed"@,
                status: 400,
            },
        )
    } else {
        None
    }
}

fn one_query(sql: &[char]) -> (yes: bool)
    ensures
        yes == is_one_query(sql@),
{
    let parts = split_words(sql);
    assert(views(parts@) == words(sql@));
    assert(views(parts@).len() == parts@.len());
    if parts.len() == 0 {
        return false;
    }
    assert(views(parts@)[0] == parts@[0]@);
    let first = lowercase_ascii(string_of(parts[0].as_slice()).as_str());
    if !same_text(first.as_str(), "select") && !same_text(first.as_str(), "with") {
        return false;
    }
    !has_pattern(sql, chars_of(";").as_slice()) && !has_pattern(sql, chars_of("--").as_slice())
        && !has_pattern(sql, chars_of("/*").as_slice())
}

/// The statement of a request, if it is one query.
pub fn read_statement(body: &str) -> (read: Result<String, Refusal>)
    ensures
        match read {
            Ok(sql) => sql@ == statement(body@) && statement_problem(sql@) is None,
            Err(refusal) => statement_problem(statement(body@)) == Some(refusal@),
        },
{
    let chars = chars_of(body);
    let text = trimmed(chars.as_slice());
    let stripped = if text.len() > 0 && text[text.len() - 1] == ';' {
        let rest = vstd::slice::slice_subrange(text, 0, text.len() - 1);
        assert(rest@ =~= text@.drop_last());
        rest
    } else {
        text
    };
    let sql = trimmed_end(stripped);
    if sql.len() == 0 {
        return Err(Refusal::new("SQL query is required", 400));
    }
    if !one_query(sql) {
        return Err(Refusal::new("Only one SELECT query without comments is allowed", 400));
    }
    Ok(string_of(sql))
}

// ---------------------------------------------------------------------------
// Step by step
// ---------------------------------------------------------------------------
/// What a query waits for.
#[derive(Debug)]
pub enum SqlPhase {
    Starting,
    Reading,
    Opening(String),
    Running,
}

/// Something that a query waited for.
#[derive(Debug)]
pub enum SqlEvent {
    /// A request came, and whether it is a POST.
    Requested(bool),
    BodyRead(String),
    /// Whether the provider has a database.
    Opened(bool),
    /// The query failed, for a reason.
    Failed(String),
}

/// What to do next for a query.
#[derive(Debug)]
pub enum SqlAction {
    ReadBody,
    Open,
    /// Run a query, and answer with its rows.
    Run(String),
    Refuse(Refusal),
}

/// A query on the database of a provider.
#[derive(Debug)]
pub struct SqlTask {
    pub provider: String,
    pub max_rows: u32,
    pub phase: SqlPhase,
}

/// The event is what the query waits for.
pub open spec fn sql_awaits(phase: SqlPhase, event: SqlEvent) -> bool {
    match event {
        SqlEvent::Requested(_) => phase is Starting,
        SqlEvent::BodyRead(_) => phase is Reading,
        SqlEvent::Opened(_) => phase is Opening,
        SqlEvent::Failed(_) => phase is Running,
    }
}

impl SqlAction {
    pub open spec fn refuses(&self, refused: Refused) -> bool {
        *self matches SqlAction::Refuse(refusal) && refusal@ == refused
    }
}

impl SqlTask {
    pub fn new(provider: String, max_rows: u32) -> (task: SqlTask)
        ensures
            task == (SqlTask { provider, max_rows, phase: SqlPhase::Starting }),
    {
        SqlTask { provider, max_rows, phase: SqlPhase::Starting }
    }

    /// What to do after an event. Only a statement that is one query reaches the
    /// database.
    pub fn handle(&mut self, event: SqlEvent) -> (action: SqlAction)
        requires
            sql_awaits(old(self).phase, event),
        ensures
            final(self).provider == old(self).provider,
            final(self).max_rows == old(self).max_rows,
            match event {
                SqlEvent::Requested(is_post) => if is_post {
                    final(self).phase is Reading && action is ReadBody
                } else {
                    action.refuses(Refused { message: "Method Not Allowed"@, status: 405 })
                },
                SqlEvent::BodyRead(body) => match statement_problem(statement(body@)) {
                    Some(refused) => action.refuses(refused),
                    None => action is Open && (final(self).phase matches SqlPhase::Opening(sql)
                        && sql@ == statement(body@)),
                },
                SqlEvent::Opened(found) => if found {
                    final(self).phase is Running && (action matches SqlAction::Run(query) && query@
                        == limited_query(
                        old(self).phase->Opening_0@,
                        old(self).max_rows as nat,
                    ))
                } else {
                    action.refuses(unknown_provider(old(self).provider@))
                },
                SqlEvent::Failed(reason) => action.refuses(
                    Refused { message: "Query error: "@ + reason@, status: 400 },
                ),
            },
    {
        let mut phase = SqlPhase::Running;
        std::mem::swap(&mut phase, &mut self.phase);
        match event {
            SqlEvent::Requested(is_post) => {
                if !is_post {
                    return SqlAction::Refuse(Refusal::new("Method Not Allowed", 405));
                }
                self.phase = SqlPhase::Reading;
                SqlAction::ReadBody
            },
            SqlEvent::BodyRead(body) => match read_statement(body.as_str()) {
                Err(refusal) => SqlAction::Refuse(refusal),
                Ok(sql) => {
                    self.phase = SqlPhase::Opening(sql);
                    SqlAction::Open
                },
            },
            SqlEvent::Opened(found) => {
                if !found {
                    return SqlAction::Refuse(provider_not_found(self.provider.as_str()));
                }
                let mut query = "SELECT * FROM (\n".to_owned();
                if let SqlPhase::Opening(sql) = phase {
                    query.append(sql.as_str());
                }
                query.append("\n) LIMIT ");
                push_decimal(&mut query, self.max_rows as u128);
                SqlAction::Run(query)
            },
            SqlEvent::Failed(reason) => SqlAction::Refuse(
                Refusal::named("Query error: ", reason.as_str(), 400),
            ),
        }
    }
}

/// The most rows of a query are at least one.
pub proof fn law_a_query_may_have_a_row(setting: Option<Seq<char>>)
    ensures
        0 < row_maximum(setting) <= u32::MAX,
{
}

/// What runs holds no semicolon, so a request cannot add another statement.
pub proof fn law_one_statement_runs(body: Seq<char>)
    requires
        statement_problem(statement(body)) is None,
    ensures
        !statement(body).contains(';'),
{
    let sql = statement(body);
    if sql.contains(';') {
        let i = choose|i: int| 0 <= i < sql.len() && sql[i] == ';';
        reveal_strlit(";");
        assert(sql.subrange(i, i + 1) =~= ";"@);
        assert(contains_pattern(sql, ";"@));
    }
}

} // verus!
