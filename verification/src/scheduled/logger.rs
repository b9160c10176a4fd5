//! Logging to the console and to a table.
use crate::importer::d1::{values, D1Query, SqlValue, SqlValueView};
use vstd::prelude::*;
use vstd::string::*;

verus! {

/// How important a message is.
#[derive(Clone, Copy, Debug, PartialEq, Eq, Structural)]
pub enum LogLevel {
    Info,
    Warn,
    Error,
}

impl LogLevel {
    /// The label of the level on the console.
    pub open spec fn label(self) -> Seq<char> {
        match self {
            LogLevel::Info => "INFO"@,
            LogLevel::Warn => "WARN"@,
            LogLevel::Error => "ERROR"@,
        }
    }

    /// The number of the level in the table.
    pub open spec fn number(self) -> u8 {
        match self {
            LogLevel::Info => 2,
            LogLevel::Warn => 3,
            LogLevel::Error => 4,
        }
    }

    /// The label and the number of the level.
    pub fn metadata(&self) -> (data: (&'static str, u8))
        ensures
            data.0@ == self.label(),
            data.1 == self.number(),
    {
        match self {
            LogLevel::Info => ("INFO", 2),
            LogLevel::Warn => ("WARN", 3),
            LogLevel::Error => ("ERROR", 4),
        }
    }
}

/// Writes messages to the console, and to a database where there is one.
#[derive(Debug)]
pub struct Logger {
    /// The binding of the database.
    pub db: Option<String>,
}

/// What to write of a message: a line on the console, and a row in the table.
#[derive(Debug)]
pub struct LogEntry {
    pub level: LogLevel,
    pub console: String,
    pub row: Option<D1Query>,
}

impl LogEntry {
    /// It is the entry of a message.
    pub open spec fn is(&self, logger: Logger, level: LogLevel, message: Seq<char>) -> bool {
        &&& self.level == level
        &&& self.console@ == "["@ + level.label() + "] "@ + message
        &&& match self.row {
            Some(query) => logger.db is Some && query.is(
                "INSERT INTO logs (Level, Message) VALUES (?1, ?2)"@,
                seq![SqlValueView::Unsigned(level.number() as u64), SqlValueView::Text(message)],
            ),
            None => logger.db is None,
        }
    }
}

impl Logger {
    pub fn new(db: Option<String>) -> (logger: Logger)
        ensures
            logger.db == db,
    {
        Logger { db }
    }

    /// What to write of a message.
    pub fn log(&self, level: LogLevel, message: &str) -> (entry: LogEntry)
        ensures
            entry.is(*self, level, message@),
    {
        let (prefix, db_level) = level.metadata();
        let mut console = "[".to_owned();
        console.append(prefix);
        console.append("] ");
        console.append(message);
        let row = match &self.db {
            None => None,
            Some(_) => {
                let params: Vec<SqlValue> = vec![
                    SqlValue::Unsigned(db_level as u64),
                    SqlValue::Text(message.to_owned()),
                ];
                assert(values(params@) =~= seq![
                    SqlValueView::Unsigned(level.number() as u64),
                    SqlValueView::Text(message@),
                ]);
                Some(
                    D1Query {
                        sql: "INSERT INTO logs (Level, Message) VALUES (?1, ?2)".to_owned(),
                        params,
                    },
                )
            },
        };
        LogEntry { level, console, row }
    }

    pub fn info(&self, message: &str) -> (entry: LogEntry)
        ensures
            entry.is(*self, LogLevel::Info, message@),
    {
        self.log(LogLevel::Info, message)
    }

    pub fn warn(&self, message: &str) -> (entry: LogEntry)
        ensures
            entry.is(*self, LogLevel::Warn, message@),
    {
        self.log(LogLevel::Warn, message)
    }

    pub fn error(&self, message: &str) -> (entry: LogEntry)
        ensures
            entry.is(*self, LogLevel::Error, message@),
    {
        self.log(LogLevel::Error, message)
    }
}

} // verus!
