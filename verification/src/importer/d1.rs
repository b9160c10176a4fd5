//! The D1 client: the statements it sends, what it makes of the answers, and
//! when a request is tried again.
use crate::importer::fault::{D1Error, D1ErrorView};
use crate::number::{decimal, parse_text, parse_unsigned, push_decimal};
use crate::outside::json_text::optional_chars;
use crate::text::same_text;
use vstd::prelude::*;
use vstd::string::*;

verus! {

/// How often a reading request is tried again.
pub const MAX_QUERY_RETRIES: u32 = 3;

/// The longest wait before a request is tried again, in seconds.
pub const MAX_RETRY_DELAY: u64 = 30;

/// The longest wait that doubling leads to, in seconds.
pub const MAX_BACKOFF: u64 = 8;

// ---------------------------------------------------------------------------
// Values, rows and answers
// ---------------------------------------------------------------------------
/// A value in a row or a parameter of a statement.
#[derive(Debug)]
pub enum SqlValue {
    Null,
    Bool(bool),
    /// A whole number that is not negative.
    Unsigned(u64),
    /// A negative whole number.
    Negative(i64),
    Text(String),
    /// Any other value.
    Other,
}

/// What a value is.
pub enum SqlValueView {
    Null,
    Bool(bool),
    Unsigned(u64),
    Negative(i64),
    Text(Seq<char>),
    Other,
}

impl View for SqlValue {
    type V = SqlValueView;

    open spec fn view(&self) -> SqlValueView {
        match *self {
            SqlValue::Null => SqlValueView::Null,
            SqlValue::Bool(b) => SqlValueView::Bool(b),
            SqlValue::Unsigned(n) => SqlValueView::Unsigned(n),
            SqlValue::Negative(n) => SqlValueView::Negative(n),
            SqlValue::Text(s) => SqlValueView::Text(s@),
            SqlValue::Other => SqlValueView::Other,
        }
    }
}

impl SqlValueView {
    pub open spec fn as_text(self) -> Option<Seq<char>> {
        match self {
            SqlValueView::Text(s) => Some(s),
            _ => None,
        }
    }

    pub open spec fn as_unsigned(self) -> Option<u64> {
        match self {
            SqlValueView::Unsigned(n) => Some(n),
            _ => None,
        }
    }

    /// The value as a signed number of 64 bits, if it is one.
    pub open spec fn as_signed(self) -> Option<int> {
        match self {
            SqlValueView::Unsigned(n) => if n <= i64::MAX {
                Some(n as int)
            } else {
                None
            },
            SqlValueView::Negative(n) => Some(n as int),
            _ => None,
        }
    }
}

/// A column of a row, with its value.
#[derive(Debug)]
pub struct Cell {
    pub column: String,
    pub value: SqlValue,
}

/// A row of an answer.
#[derive(Debug)]
pub struct Row {
    pub cells: Vec<Cell>,
}

/// The value of the first cell of a column.
pub open spec fn cell_value(cells: Seq<Cell>, column: Seq<char>) -> Option<SqlValueView>
    decreases cells.len(),
{
    if cells.len() == 0 {
        None
    } else if cells[0].column@ == column {
        Some(cells[0].value@)
    } else {
        cell_value(cells.drop_first(), column)
    }
}

impl Row {
    /// The value of a column.
    pub open spec fn value(&self, column: Seq<char>) -> Option<SqlValueView> {
        cell_value(self.cells@, column)
    }

    /// The text of a column, if it holds one.
    pub open spec fn text(&self, column: Seq<char>) -> Option<Seq<char>> {
        match self.value(column) {
            Some(value) => value.as_text(),
            None => None,
        }
    }

    /// The number of a column, if it holds one that is not negative.
    pub open spec fn unsigned(&self, column: Seq<char>) -> Option<u64> {
        match self.value(column) {
            Some(value) => value.as_unsigned(),
            None => None,
        }
    }

    /// The number of a column, if it holds one.
    pub open spec fn signed(&self, column: Seq<char>) -> Option<int> {
        match self.value(column) {
            Some(value) => value.as_signed(),
            None => None,
        }
    }

    pub fn get(&self, column: &str) -> (value: Option<&SqlValue>)
        ensures
            match value {
                Some(found) => self.value(column@) == Some(found@),
                None => self.value(column@) is None,
            },
    {
        let mut i: usize = 0;
        assert(self.cells@.skip(0) =~= self.cells@);
        while i < self.cells.len()
            invariant
                i <= self.cells@.len(),
                self.value(column@) == cell_value(self.cells@.skip(i as int), column@),
            decreases self.cells.len() - i,
        {
            assert(self.cells@.skip(i as int).drop_first() =~= self.cells@.skip(i + 1));
            if same_text(self.cells[i].column.as_str(), column) {
                return Some(&self.cells[i].value);
            }
            i += 1;
        }
        None
    }

    pub fn get_text(&self, column: &str) -> (text: Option<&str>)
        ensures
            optional_chars(text) == self.text(column@),
    {
        match self.get(column) {
            Some(SqlValue::Text(s)) => Some(s.as_str()),
            _ => None,
        }
    }

    pub fn get_unsigned(&self, column: &str) -> (number: Option<u64>)
        ensures
            number == self.unsigned(column@),
    {
        match self.get(column) {
            Some(SqlValue::Unsigned(n)) => Some(*n),
            _ => None,
        }
    }

    pub fn get_signed(&self, column: &str) -> (number: Option<i64>)
        ensures
            match number {
                Some(n) => self.signed(column@) == Some(n as int),
                None => self.signed(column@) is None,
            },
    {
        match self.get(column) {
            Some(SqlValue::Unsigned(n)) => if *n <= i64::MAX as u64 {
                Some(*n as i64)
            } else {
                None
            },
            Some(SqlValue::Negative(n)) => Some(*n),
            _ => None,
        }
    }
}

/// What one statement read and wrote.
#[derive(Clone, Copy, Debug, PartialEq, Eq, Structural)]
pub struct D1Meta {
    pub rows_read: u64,
    pub rows_written: u64,
}

impl Default for D1Meta {
    fn default() -> (meta: D1Meta)
        ensures
            meta == (D1Meta { rows_read: 0, rows_written: 0 }),
    {
        D1Meta { rows_read: 0, rows_written: 0 }
    }
}

/// The answer to one statement.
#[derive(Debug)]
pub struct D1Result {
    pub results: Vec<Row>,
    pub meta: Option<D1Meta>,
    pub success: Option<bool>,
}

impl D1Result {
    /// The rows that the statement wrote, if the answer tells.
    pub open spec fn writes(&self) -> Option<u64> {
        match self.meta {
            Some(meta) => Some(meta.rows_written),
            None => None,
        }
    }

    pub fn rows_written(&self) -> (writes: Option<u64>)
        ensures
            writes == self.writes(),
    {
        match &self.meta {
            Some(meta) => Some(meta.rows_written),
            None => None,
        }
    }
}

/// The answer to a request.
#[derive(Debug)]
pub struct D1Response {
    pub success: bool,
    pub result: Option<Vec<D1Result>>,
    pub errors: Option<Vec<String>>,
}

/// What a client has read and written so far.
#[derive(Clone, Copy, Debug, PartialEq, Eq, Structural)]
pub struct D1Usage {
    pub rows_read: u64,
    pub rows_written: u64,
}

impl Default for D1Usage {
    fn default() -> (usage: D1Usage)
        ensures
            usage == (D1Usage { rows_read: 0, rows_written: 0 }),
    {
        D1Usage { rows_read: 0, rows_written: 0 }
    }
}

/// A database of the account.
#[derive(Debug)]
pub struct D1DatabaseInfo {
    pub name: String,
    pub file_size: u64,
}

/// A statement with its parameters.
#[derive(Debug)]
pub struct D1Query {
    pub sql: String,
    pub params: Vec<SqlValue>,
}

/// The parameters of a statement.
pub open spec fn values(params: Seq<SqlValue>) -> Seq<SqlValueView> {
    params.map_values(|p: SqlValue| p@)
}

impl D1Query {
    /// It is this statement with these parameters.
    pub open spec fn is(&self, sql: Seq<char>, params: Seq<SqlValueView>) -> bool {
        self.sql@ == sql && values(self.params@) == params
    }
}

// ---------------------------------------------------------------------------
// Checking answers
// ---------------------------------------------------------------------------
/// One of the answers says that its statement failed.
pub open spec fn has_failure(results: Seq<D1Result>) -> bool {
    exists|i: int| 0 <= i < results.len() && (#[trigger] results[i]).success == Some(false)
}

/// The answers of a response.
pub open spec fn results_of(response: D1Response) -> Seq<D1Result> {
    match response.result {
        Some(results) => results@,
        None => seq![],
    }
}

/// The answers to the statements of a request, if the request and each of its
/// statements succeeded.
pub fn validate_query_response(response: D1Response) -> (results: Result<Vec<D1Result>, D1Error>)
    ensures
        match results {
            Ok(list) => response.success && !has_failure(results_of(response)) && list@
                == results_of(response),
            Err(error) => (!response.success || has_failure(results_of(response))) && error
                == D1Error::QueryFailed(response.errors),
        },
{
    if !response.success {
        return Err(D1Error::QueryFailed(response.errors));
    }
    let results = match response.result {
        Some(results) => results,
        None => Vec::new(),
    };
    let mut i: usize = 0;
    while i < results.len()
        invariant
            i <= results@.len(),
            results@ == results_of(response),
            forall|k: int| 0 <= k < i ==> (#[trigger] results@[k]).success != Some(false),
        decreases results.len() - i,
    {
        if let Some(false) = results[i].success {
            assert(results@[i as int].success == Some(false));
            return Err(D1Error::QueryFailed(response.errors));
        }
        i += 1;
    }
    Ok(results)
}

/// The text of the error of a request with a wrong number of answers.
pub open spec fn count_message(results: nat, expected: nat) -> Seq<char> {
    "D1 returned "@ + decimal(results) + " result(s) for "@ + decimal(expected)
        + " submitted statement(s)"@
}

/// The answers, if there is one for each statement.
pub fn validate_result_count(results: Vec<D1Result>, expected: usize) -> (checked: Result<
    Vec<D1Result>,
    D1Error,
>)
    ensures
        match checked {
            Ok(list) => results@.len() == expected && list == results,
            Err(error) => results@.len() != expected && error@ == D1ErrorView::ApiError(
                count_message(results@.len(), expected as nat),
            ),
        },
{
    if results.len() != expected {
        let mut message = "D1 returned ".to_owned();
        push_decimal(&mut message, results.len() as u128);
        message.append(" result(s) for ");
        push_decimal(&mut message, expected as u128);
        message.append(" submitted statement(s)");
        return Err(D1Error::ApiError(message));
    }
    Ok(results)
}

/// The answers to a batch for which no request is made, since it has no statement; and
/// that no request was repeated for it.
pub fn reply_without_request(statements: usize) -> (reply: Option<(Vec<D1Result>, bool)>)
    ensures
        match reply {
            Some((results, repeated)) => statements == 0 && results@.len() == 0 && !repeated,
            None => statements > 0,
        },
{
    if statements == 0 {
        return Some((Vec::new(), false));
    }
    None
}

// ---------------------------------------------------------------------------
// Trying again
// ---------------------------------------------------------------------------
/// The status tells that the request may succeed later: a fault of the server,
/// too many requests, or a timeout.
pub open spec fn may_succeed_later(status: u16) -> bool {
    500 <= status < 600 || status == 429 || status == 408
}

pub fn is_retryable_status(status: u16) -> (retryable: bool)
    ensures
        retryable == may_succeed_later(status),
{
    (status >= 500 && status < 600) || status == 429 || status == 408
}

/// The seconds that a `Retry-After` header asks to wait, if it gives a number.
pub open spec fn wait_asked(value: Option<Seq<char>>) -> Option<nat> {
    match value {
        Some(text) => parse_unsigned(text, u64::MAX as nat),
        None => None,
    }
}

pub fn parse_retry_after(value: Option<&str>) -> (seconds: Option<u64>)
    ensures
        match seconds {
            Some(n) => wait_asked(optional_chars(value)) == Some(n as nat),
            None => wait_asked(optional_chars(value)) is None,
        },
{
    match value {
        Some(text) => parse_text(text, u64::MAX),
        None => None,
    }
}

/// What one attempt of a request came to.
#[derive(Debug)]
pub enum Attempt {
    /// The service answered.
    Answered(D1Response),
    /// The service answered with success, but what it said cannot be read.
    Unreadable(String),
    /// The service answered with another status.
    Refused { status: u16, status_text: String, retry_after: Option<u64>, body: String },
    /// The request did not get through; or could not even be built.
    Failed { reason: String, is_builder: bool },
}

/// What to do after an attempt.
#[derive(Debug)]
pub enum RetryStep {
    /// The request is over. A success tells whether an earlier attempt may have
    /// taken effect too.
    Done(Result<(Vec<D1Result>, bool), D1Error>),
    /// Try again after some seconds.
    Retry { delay: u64 },
}

/// The attempts of one request.
#[derive(Clone, Copy, Debug, PartialEq, Eq, Structural)]
pub struct RetryState {
    pub retries: u32,
    pub max_retries: u32,
    /// The next wait, in seconds.
    pub backoff: u64,
    pub had_ambiguous_retry: bool,
}

/// The state after one more attempt: the wait doubles, up to its maximum.
pub open spec fn tried_again(state: RetryState) -> RetryState {
    RetryState {
        retries: (state.retries + 1) as u32,
        max_retries: state.max_retries,
        backoff: if state.backoff * 2 > MAX_BACKOFF {
            MAX_BACKOFF
        } else {
            (state.backoff * 2) as u64
        },
        had_ambiguous_retry: true,
    }
}

/// The attempt may be followed by another.
pub open spec fn may_try_again(attempt: Attempt) -> bool {
    match attempt {
        Attempt::Answered(_) => false,
        Attempt::Unreadable(_) => true,
        Attempt::Refused { status, .. } => may_succeed_later(status),
        Attempt::Failed { is_builder, .. } => !is_builder,
    }
}

/// The wait before the next attempt.
pub open spec fn delay_after(state: RetryState, attempt: Attempt) -> u64 {
    match attempt {
        Attempt::Refused { retry_after: Some(asked), .. } => if asked < MAX_RETRY_DELAY {
            asked
        } else {
            MAX_RETRY_DELAY
        },
        _ => state.backoff,
    }
}

/// The error of a request that ends with this attempt.
pub open spec fn final_error(attempt: Attempt) -> D1ErrorView {
    match attempt {
        Attempt::Answered(response) => D1Error::QueryFailed(response.errors)@,
        Attempt::Unreadable(reason) => D1ErrorView::Reqwest(reason@),
        Attempt::Refused { status_text, body, .. } => D1ErrorView::ApiError(
            "HTTP "@ + status_text@ + ": "@ + body@,
        ),
        Attempt::Failed { reason, .. } => D1ErrorView::Reqwest(reason@),
    }
}

/// A request in this state fails with this attempt.
pub open spec fn fails_with(state: RetryState, attempt: Attempt) -> bool {
    match attempt {
        Attempt::Answered(response) => !response.success || has_failure(results_of(response)),
        _ => !may_try_again(attempt) || state.retries == state.max_retries,
    }
}

impl RetryState {
    pub open spec fn wf(&self) -> bool {
        &&& self.retries <= self.max_retries
        &&& 1 <= self.backoff <= MAX_BACKOFF
    }

    /// Before the first attempt of a request.
    pub fn new(max_retries: u32) -> (state: RetryState)
        ensures
            state.wf(),
            state == (RetryState {
                retries: 0,
                max_retries,
                backoff: 1,
                had_ambiguous_retry: false,
            }),
    {
        RetryState { retries: 0, max_retries, backoff: 1, had_ambiguous_retry: false }
    }

    /// What to do after an attempt.
    pub fn next(&mut self, attempt: Attempt) -> (step: RetryStep)
        requires
            old(self).wf(),
        ensures
            final(self).wf(),
            match step {
                RetryStep::Done(Ok((results, ambiguous))) => attempt matches Attempt::Answered(
                    response,
                ) && response.success && !has_failure(results_of(response)) && results@
                    == results_of(response) && ambiguous == old(self).had_ambiguous_retry
                    && *final(self) == *old(self),
                RetryStep::Done(Err(error)) => {
                    &&& fails_with(*old(self), attempt)
                    &&& error@ == final_error(attempt)
                    &&& *final(self) == *old(self)
                },
                RetryStep::Retry { delay } => may_try_again(attempt) && old(self).retries < old(
                    self,
                ).max_retries && delay == delay_after(*old(self), attempt) && *final(self)
                    == tried_again(*old(self)),
            },
    {
        let mut delay: u64 = self.backoff;
        match attempt {
            Attempt::Answered(response) => {
                return match validate_query_response(response) {
                    Ok(results) => RetryStep::Done(Ok((results, self.had_ambiguous_retry))),
                    Err(error) => RetryStep::Done(Err(error)),
                };
            },
            Attempt::Unreadable(reason) => {
                if self.retries >= self.max_retries {
                    return RetryStep::Done(Err(D1Error::Reqwest(reason)));
                }
            },
            Attempt::Refused { status, status_text, retry_after, body } => {
                if !is_retryable_status(status) || self.retries >= self.max_retries {
                    let mut message = "HTTP ".to_owned();
                    message.append(status_text.as_str());
                    message.append(": ");
                    message.append(body.as_str());
                    return RetryStep::Done(Err(D1Error::ApiError(message)));
                }
                if let Some(asked) = retry_after {
                    delay = if asked < MAX_RETRY_DELAY {
                        asked
                    } else {
                        MAX_RETRY_DELAY
                    };
                }
            },
            Attempt::Failed { reason, is_builder } => {
                if is_builder || self.retries >= self.max_retries {
                    return RetryStep::Done(Err(D1Error::Reqwest(reason)));
                }
            },
        }
        self.retries = self.retries + 1;
        self.had_ambiguous_retry = true;
        self.backoff = if self.backoff * 2 > MAX_BACKOFF {
            MAX_BACKOFF
        } else {
            self.backoff * 2
        };
        RetryStep::Retry { delay }
    }
}

/// A request is tried again only a bounded number of times: after as many
/// attempts as allowed, none that fails is followed by another. Each wait is
/// bounded too.
pub proof fn law_attempts_are_bounded(state: RetryState, attempt: Attempt)
    requires
        state.wf(),
    ensures
        delay_after(state, attempt) <= MAX_RETRY_DELAY,
        state.retries < state.max_retries ==> tried_again(state).wf() && tried_again(state).max_retries
            - tried_again(state).retries < state.max_retries - state.retries,
{
}

/// How often a request is tried again: one that only reads up to the maximum, one
/// that writes never, since an attempt that seemed to fail may have written.
pub fn allowed_retries(writes: bool) -> (retries: u32)
    ensures
        retries == (if writes {
            0u32
        } else {
            MAX_QUERY_RETRIES
        }),
{
    if writes {
        0
    } else {
        MAX_QUERY_RETRIES
    }
}

} // verus!
