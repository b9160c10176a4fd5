//! The rows of a table, step by step: the database of the provider, the table,
//! its columns, and then the query.
use crate::api::database::{
    database_error, database_failure, provider_not_found, unknown_provider, Refusal, Refused,
};
use crate::api::query::{
    build_query, data_query, pairs, reaches_unclosed_range, DataQuery, Parameter, ProblemView,
};
use crate::importer::d1::{values, D1Query, SqlValue, SqlValueView};
use crate::outside::url_text::{form_pairs, query_text, read_parameters, url_parts};
use crate::text::texts;
use vstd::prelude::*;
use vstd::string::*;

verus! {

/// What a request for rows waits for.
#[derive(Clone, Copy, Debug, PartialEq, Eq, Structural)]
pub enum DataPhase {
    Opening,
    CheckingTable,
    ReadingColumns,
    Running,
}

/// Something that a request for rows waited for.
#[derive(Debug)]
pub enum DataEvent {
    /// Whether the provider has a database.
    Opened(bool),
    /// Whether the database has the table.
    TableChecked(Result<bool, String>),
    /// The names of the columns, if they could be read as such.
    ColumnsRead(Result<Option<Vec<String>>, String>),
    /// Whether the query could be prepared.
    Prepared(Result<(), String>),
}

/// What to do next for a request for rows.
#[derive(Debug)]
pub enum DataAction {
    Query(D1Query),
    /// Prepare the query for the rows.
    Prepare(DataQuery),
    /// Run the query that was prepared, and answer with its rows.
    Run,
    Refuse(Refusal),
}

/// A request for rows of a table.
#[derive(Debug)]
pub struct DataTask {
    pub provider: String,
    pub table_name: String,
    pub parameters: Vec<Parameter>,
    pub phase: DataPhase,
}

/// The event is what the request waits for.
pub open spec fn data_awaits(phase: DataPhase, event: DataEvent) -> bool {
    match event {
        DataEvent::Opened(_) => phase is Opening,
        DataEvent::TableChecked(_) => phase is CheckingTable,
        DataEvent::ColumnsRead(_) => phase is ReadingColumns,
        DataEvent::Prepared(_) => phase is Running,
    }
}

/// The columns of a table: none where they could not be read.
pub open spec fn columns_of(read: Option<Vec<String>>) -> Seq<Seq<char>> {
    match read {
        Some(columns) => texts(columns@),
        None => seq![],
    }
}

impl DataAction {
    pub open spec fn refuses(&self, refused: Refused) -> bool {
        *self matches DataAction::Refuse(refusal) && refusal@ == refused
    }

    /// A query whose only parameter is a text.
    pub open spec fn asks(&self, sql: Seq<char>, text: Seq<char>) -> bool {
        *self matches DataAction::Query(query) && query.is(sql, seq![SqlValueView::Text(text)])
    }
}

fn ask(sql: &str, text: &str) -> (action: DataAction)
    ensures
        action.asks(sql@, text@),
{
    let params: Vec<SqlValue> = vec![SqlValue::Text(text.to_owned())];
    assert(values(params@) =~= seq![SqlValueView::Text(text@)]);
    DataAction::Query(D1Query { sql: sql.to_owned(), params })
}

impl DataTask {
    pub fn new(provider: String, table_name: String, parameters: Vec<Parameter>) -> (task: DataTask)
        ensures
            task == (DataTask { provider, table_name, parameters, phase: DataPhase::Opening }),
    {
        DataTask { provider, table_name, parameters, phase: DataPhase::Opening }
    }

    /// A request to a URL, if it is one: its parameters are those of the query.
    pub fn for_url(provider: String, table_name: String, url: &str) -> (task: Option<DataTask>)
        ensures
            match task {
                Some(given) => given.provider == provider && given.table_name == table_name
                    && given.phase is Opening && (url_parts(url@) matches Some(parts) && pairs(
                    given.parameters@,
                ) == form_pairs(query_text(parts.query)) && (query_text(parts.query).len() == 0
                    ==> given.parameters@.len() == 0)),
                None => url_parts(url@) is None,
            },
    {
        match read_parameters(url) {
            None => None,
            Some(parameters) => Some(DataTask::new(provider, table_name, parameters)),
        }
    }

    /// What to do after an event. The table and its columns are looked up before
    /// their names go into a query.
    pub fn handle(&mut self, event: DataEvent) -> (action: DataAction)
        requires
            data_awaits(old(self).phase, event),
            event matches DataEvent::ColumnsRead(Ok(read)) ==> !reaches_unclosed_range(
                pairs(old(self).parameters@),
                columns_of(read),
            ),
        ensures
            final(self).provider == old(self).provider,
            final(self).table_name == old(self).table_name,
            final(self).parameters == old(self).parameters,
            match event {
                DataEvent::Opened(found) => if found {
                    final(self).phase is CheckingTable && action.asks(
                        "SELECT name FROM sqlite_master WHERE type='table' AND name=?1"@,
                        old(self).table_name@,
                    )
                } else {
                    final(self).phase == old(self).phase && action.refuses(
                        unknown_provider(old(self).provider@),
                    )
                },
                DataEvent::TableChecked(Err(reason)) => final(self).phase == old(self).phase
                    && action.refuses(database_failure(reason@)),
                DataEvent::TableChecked(Ok(found)) => if found {
                    final(self).phase is ReadingColumns && action.asks(
                        "SELECT name FROM pragma_table_info(?1)"@,
                        old(self).table_name@,
                    )
                } else {
                    final(self).phase == old(self).phase && action.refuses(
                        Refused {
                            message: "Table '"@ + old(self).table_name@ + "' not found"@,
                            status: 404,
                        },
                    )
                },
                DataEvent::ColumnsRead(Err(reason)) => final(self).phase == old(self).phase
                    && action.refuses(database_failure(reason@)),
                DataEvent::ColumnsRead(Ok(read)) => match data_query(
                    pairs(old(self).parameters@),
                    old(self).table_name@,
                    columns_of(read),
                ) {
                    Ok(data) => final(self).phase is Running && (
                    action matches DataAction::Prepare(query) && query@ == data),
                    Err(ProblemView::Refused(refused)) => final(self).phase == old(self).phase
                        && action.refuses(refused),
                    Err(ProblemView::UnclosedRange) => false,
                },
                DataEvent::Prepared(Err(reason)) => final(self).phase == old(self).phase
                    && action.refuses(database_failure(reason@)),
                DataEvent::Prepared(Ok(())) => final(self).phase == old(self).phase
                    && action is Run,
            },
    {
        match event {
            DataEvent::Opened(found) => {
                if !found {
                    return DataAction::Refuse(provider_not_found(self.provider.as_str()));
                }
                self.phase = DataPhase::CheckingTable;
                ask(
                    "SELECT name FROM sqlite_master WHERE type='table' AND name=?1",
                    self.table_name.as_str(),
                )
            },
            DataEvent::TableChecked(checked) => match checked {
                Err(reason) => DataAction::Refuse(database_error(reason.as_str())),
                Ok(found) => {
                    if !found {
                        return DataAction::Refuse(
                            Refusal::about("Table '", self.table_name.as_str(), "' not found", 404),
                        );
                    }
                    self.phase = DataPhase::ReadingColumns;
                    ask("SELECT name FROM pragma_table_info(?1)", self.table_name.as_str())
                },
            },
            DataEvent::ColumnsRead(read) => match read {
                Err(reason) => DataAction::Refuse(database_error(reason.as_str())),
                Ok(found) => {
                    let columns: Vec<String> = match found {
                        Some(columns) => columns,
                        None => Vec::new(),
                    };
                    assert(texts(columns@) =~= columns_of(found));
                    match build_query(&self.parameters, self.table_name.as_str(), &columns) {
                        Err(refusal) => DataAction::Refuse(refusal),
                        Ok(query) => {
                            self.phase = DataPhase::Running;
                            DataAction::Prepare(query)
                        },
                    }
                },
            },
            DataEvent::Prepared(prepared) => match prepared {
                Err(reason) => DataAction::Refuse(database_error(reason.as_str())),
                Ok(()) => DataAction::Run,
            },
        }
    }
}

} // verus!
