//! The errors of the importer and their texts.
use crate::number::{decimal, push_decimal};
use crate::pieces::{begins_with, join, join_texts};
use crate::text::texts;
use vstd::prelude::*;
use vstd::string::*;

verus! {

/// The kinds of I/O error that the importer tells apart.
#[derive(Clone, Copy, Debug, PartialEq, Eq, Structural)]
pub enum IoErrorKind {
    InvalidData,
    UnexpectedEof,
    AlreadyExists,
    NotFound,
    Other,
}

/// An I/O error: its kind and its text.
#[derive(Debug)]
pub struct IoFailure {
    pub kind: IoErrorKind,
    pub message: String,
}

/// The kind and the text of an I/O error, if there is one.
pub open spec fn failure_view(failure: Option<IoFailure>) -> Option<(IoErrorKind, Seq<char>)> {
    match failure {
        Some(f) => Some((f.kind, f.message@)),
        None => None,
    }
}

/// An error of the D1 client.
#[derive(Debug)]
pub enum D1Error {
    /// The HTTP transport failed.
    Reqwest(String),
    /// The service, or the client itself, rejected the work.
    ApiError(String),
    /// The service answered that a query failed, with the errors it gave.
    QueryFailed(Option<Vec<String>>),
    /// The workflow has no room left for the requested writes.
    WriteBudgetExhausted { requested: u64, remaining: u64 },
}

/// What a `D1Error` says.
pub enum D1ErrorView {
    Reqwest(Seq<char>),
    ApiError(Seq<char>),
    QueryFailed(Option<Seq<Seq<char>>>),
    WriteBudgetExhausted { requested: u64, remaining: u64 },
}

impl View for D1Error {
    type V = D1ErrorView;

    open spec fn view(&self) -> D1ErrorView {
        match *self {
            D1Error::Reqwest(text) => D1ErrorView::Reqwest(text@),
            D1Error::ApiError(text) => D1ErrorView::ApiError(text@),
            D1Error::QueryFailed(errors) => D1ErrorView::QueryFailed(
                match errors {
                    Some(list) => Some(texts(list@)),
                    None => None,
                },
            ),
            D1Error::WriteBudgetExhausted { requested, remaining } =>
                D1ErrorView::WriteBudgetExhausted { requested, remaining },
        }
    }
}

impl D1ErrorView {
    /// The text of the error.
    pub open spec fn message(self) -> Seq<char> {
        match self {
            D1ErrorView::Reqwest(text) => "Reqwest error: "@ + text,
            D1ErrorView::ApiError(text) => "D1 API error: "@ + text,
            D1ErrorView::QueryFailed(errors) => match errors {
                Some(list) => "D1 query failed: Some(["@ + join(list, ", "@) + "])"@,
                None => "D1 query failed: None"@,
            },
            D1ErrorView::WriteBudgetExhausted { requested, remaining } =>
                "D1 workflow write budget exhausted: requested "@ + decimal(requested as nat)
                    + " reserved writes with "@ + decimal(remaining as nat) + " remaining"@,
        }
    }
}

impl D1Error {
    /// The text of the error.
    pub fn message(&self) -> (text: String)
        ensures
            text@ == self@.message(),
    {
        match self {
            D1Error::Reqwest(reason) => {
                let mut text = "Reqwest error: ".to_owned();
                text.append(reason.as_str());
                text
            },
            D1Error::ApiError(reason) => {
                let mut text = "D1 API error: ".to_owned();
                text.append(reason.as_str());
                text
            },
            D1Error::QueryFailed(Some(list)) => {
                let mut text = "D1 query failed: Some([".to_owned();
                text.append(join_texts(list, ", ").as_str());
                text.append("])");
                text
            },
            D1Error::QueryFailed(None) => "D1 query failed: None".to_owned(),
            D1Error::WriteBudgetExhausted { requested, remaining } => {
                let mut text = "D1 workflow write budget exhausted: requested ".to_owned();
                push_decimal(&mut text, *requested as u128);
                text.append(" reserved writes with ");
                push_decimal(&mut text, *remaining as u128);
                text.append(" remaining");
                text
            },
        }
    }
}

/// An error while a provider is processed.
#[derive(Debug)]
pub enum ProcessorError {
    D1(D1Error),
    Reqwest(String),
    Zip(zip::result::ZipError),
    Csv(csv::Error),
    /// The reader of the CSV text could not get more of it.
    CsvRead(IoFailure),
    Io(IoFailure),
    Json(serde_json::Error),
    TaskJoin(String),
    UploaderClosed,
}

/// What a `ProcessorError` says. Of an error of another crate only its origin
/// is told.
pub enum ProcessorErrorView {
    D1(D1ErrorView),
    Reqwest(Seq<char>),
    Zip,
    Csv,
    CsvRead(IoErrorKind, Seq<char>),
    Io(IoErrorKind, Seq<char>),
    Json,
    TaskJoin(Seq<char>),
    UploaderClosed,
}

impl View for ProcessorError {
    type V = ProcessorErrorView;

    open spec fn view(&self) -> ProcessorErrorView {
        match *self {
            ProcessorError::D1(error) => ProcessorErrorView::D1(error@),
            ProcessorError::Reqwest(text) => ProcessorErrorView::Reqwest(text@),
            ProcessorError::Zip(_) => ProcessorErrorView::Zip,
            ProcessorError::Csv(_) => ProcessorErrorView::Csv,
            ProcessorError::CsvRead(failure) => ProcessorErrorView::CsvRead(
                failure.kind,
                failure.message@,
            ),
            ProcessorError::Io(failure) => ProcessorErrorView::Io(failure.kind, failure.message@),
            ProcessorError::Json(_) => ProcessorErrorView::Json,
            ProcessorError::TaskJoin(text) => ProcessorErrorView::TaskJoin(text@),
            ProcessorError::UploaderClosed => ProcessorErrorView::UploaderClosed,
        }
    }
}

impl ProcessorErrorView {
    /// The text of the error; of an error of another crate, the text before that
    /// crate's own words.
    pub open spec fn message(self) -> Seq<char> {
        match self {
            ProcessorErrorView::D1(error) => "D1 error: "@ + error.message(),
            ProcessorErrorView::Reqwest(text) => "Reqwest error: "@ + text,
            ProcessorErrorView::Zip => "Zip error: "@,
            ProcessorErrorView::Csv => "CSV error: "@,
            ProcessorErrorView::CsvRead(_, text) => "CSV error: "@ + text,
            ProcessorErrorView::Io(_, text) => "I/O error: "@ + text,
            ProcessorErrorView::Json => "JSON error: "@,
            ProcessorErrorView::TaskJoin(text) => "task failed to join: "@ + text,
            ProcessorErrorView::UploaderClosed =>
                "batch uploader closed before extraction completed"@,
        }
    }

    /// The error comes from another crate.
    pub open spec fn is_foreign(self) -> bool {
        self is Zip || self is Csv || self is Json
    }
}

/// The text of a `zip` error, by `ToString`. Nothing is said of it.
#[verifier::external_body]
fn zip_error_text(error: &zip::result::ZipError) -> (text: String)
{
    error.to_string()
}

/// The text of a `csv` error, by `ToString`. Nothing is said of it.
#[verifier::external_body]
pub(crate) fn csv_error_text(error: &csv::Error) -> (text: String)
{
    error.to_string()
}

/// The text of a `serde_json` error, by `ToString`. Nothing is said of it.
#[verifier::external_body]
fn json_error_text(error: &serde_json::Error) -> (text: String)
{
    error.to_string()
}

/// A prefix with anything behind it begins with the prefix.
proof fn lemma_begins(prefix: Seq<char>, rest: Seq<char>)
    ensures
        begins_with(prefix + rest, prefix),
{
    assert((prefix + rest).take(prefix.len() as int) =~= prefix);
}

impl ProcessorError {
    /// The text of the error.
    pub fn message(&self) -> (text: String)
        ensures
            !self@.is_foreign() ==> text@ == self@.message(),
            begins_with(text@, self@.message()),
    {
        let ghost said = self@.message();
        proof {
            lemma_begins(said, seq![]);
            assert(said + seq![] =~= said);
        }
        match self {
            ProcessorError::D1(error) => {
                let mut text = "D1 error: ".to_owned();
                text.append(error.message().as_str());
                text
            },
            ProcessorError::Reqwest(reason) => {
                let mut text = "Reqwest error: ".to_owned();
                text.append(reason.as_str());
                text
            },
            ProcessorError::Zip(error) => {
                let mut text = "Zip error: ".to_owned();
                let rest = zip_error_text(error);
                text.append(rest.as_str());
                proof {
                    lemma_begins(said, rest@);
                }
                text
            },
            ProcessorError::Csv(error) => {
                let mut text = "CSV error: ".to_owned();
                let rest = csv_error_text(error);
                text.append(rest.as_str());
                proof {
                    lemma_begins(said, rest@);
                }
                text
            },
            ProcessorError::CsvRead(failure) => {
                let mut text = "CSV error: ".to_owned();
                text.append(failure.message.as_str());
                text
            },
            ProcessorError::Io(failure) => {
                let mut text = "I/O error: ".to_owned();
                text.append(failure.message.as_str());
                text
            },
            ProcessorError::Json(error) => {
                let mut text = "JSON error: ".to_owned();
                let rest = json_error_text(error);
                text.append(rest.as_str());
                proof {
                    lemma_begins(said, rest@);
                }
                text
            },
            ProcessorError::TaskJoin(reason) => {
                let mut text = "task failed to join: ".to_owned();
                text.append(reason.as_str());
                text
            },
            ProcessorError::UploaderClosed =>
                "batch uploader closed before extraction completed".to_owned(),
        }
    }

    /// An I/O error of a kind, with a text.
    pub fn io(kind: IoErrorKind, message: String) -> (error: ProcessorError)
        ensures
            error@ == ProcessorErrorView::Io(kind, message@),
    {
        ProcessorError::Io(IoFailure { kind, message })
    }

    /// An error of the D1 API, with a text.
    pub fn api(message: String) -> (error: ProcessorError)
        ensures
            error@ == ProcessorErrorView::D1(D1ErrorView::ApiError(message@)),
    {
        ProcessorError::D1(D1Error::ApiError(message))
    }
}

} // verus!
