//! The import of all operators: one run at a time, each dataset only where it
//! changed, and a failure of one does not keep the others from being imported.
use crate::importer::d1::{values, D1Query, SqlValue, SqlValueView};
use crate::pieces::{replace_char, replaced_char, split, split_trimmed, trimmed_pieces};
use crate::scheduled::config::{category, enum_to_prefix, prefix_chars};
use crate::text::{chars_of, opt_text, texts};
use vstd::prelude::*;
use vstd::string::*;

verus! {

/// The statement that takes the lock, if no run holds it or its run is older than
/// an hour.
pub fn lock_sql() -> (sql: &'static str)
    ensures
        sql@
            == "\n        UPDATE sync_status \n        SET IsRunning = 1, LastStarted = CURRENT_TIMESTAMP \n        WHERE Id = 'gtfs_import' \n          AND (IsRunning = 0 OR LastStarted < datetime('now', '-1 hour'))\n    "@,
{
    "\n        UPDATE sync_status \n        SET IsRunning = 1, LastStarted = CURRENT_TIMESTAMP \n        WHERE Id = 'gtfs_import' \n          AND (IsRunning = 0 OR LastStarted < datetime('now', '-1 hour'))\n    "
}

/// The statement that gives the lock back.
pub fn unlock_sql() -> (sql: &'static str)
    ensures
        sql@
            == "UPDATE sync_status SET IsRunning = 0, LastFinished = CURRENT_TIMESTAMP WHERE Id = 'gtfs_import'"@,
{
    "UPDATE sync_status SET IsRunning = 0, LastFinished = CURRENT_TIMESTAMP WHERE Id = 'gtfs_import'"
}

/// The items of a list that is written over several lines, parted by commas.
pub open spec fn items_of(list: Seq<char>) -> Seq<Seq<char>> {
    trimmed_pieces(split(replace_char(replace_char(list, '\n', seq![]), '\r', seq![]), ','))
}

/// The items of a list.
pub fn import_items(list: &str) -> (items: Vec<String>)
    ensures
        texts(items@) == items_of(list@),
{
    let nothing: Vec<char> = Vec::new();
    assert(nothing@ =~= seq![]);
    let one_line = replaced_char(chars_of(list).as_slice(), '\n', nothing.as_slice());
    let normalized = replaced_char(one_line.as_slice(), '\r', nothing.as_slice());
    split_trimmed(normalized.as_slice(), ',')
}

/// The version of a dataset that is imported.
#[derive(Debug)]
pub struct DatasetVersion {
    pub etag: Option<String>,
    pub last_modified: Option<String>,
}

/// The statement that reads the version of a dataset.
pub fn version_query(prefix: &str) -> (query: D1Query)
    ensures
        query.is(
            "SELECT ETag, LastModified FROM dataset_versions WHERE Prefix = ?"@,
            seq![SqlValueView::Text(prefix@)],
        ),
{
    let params: Vec<SqlValue> = vec![SqlValue::Text(prefix.to_owned())];
    assert(values(params@) =~= seq![SqlValueView::Text(prefix@)]);
    D1Query {
        sql: "SELECT ETag, LastModified FROM dataset_versions WHERE Prefix = ?".to_owned(),
        params,
    }
}

/// An optional text as a parameter.
pub open spec fn optional_value(text: Option<Seq<char>>) -> SqlValueView {
    match text {
        Some(s) => SqlValueView::Text(s),
        None => SqlValueView::Null,
    }
}

fn optional_param(text: Option<String>) -> (param: SqlValue)
    ensures
        param@ == optional_value(opt_text(text)),
{
    match text {
        Some(s) => SqlValue::Text(s),
        None => SqlValue::Null,
    }
}

/// The statement that records the version of a dataset.
pub fn record_version_query(prefix: &str, version: DatasetVersion) -> (query: D1Query)
    ensures
        query.is(
            "INSERT OR REPLACE INTO dataset_versions (Prefix, ETag, LastModified, LastImported) VALUES (?1, ?2, ?3, CURRENT_TIMESTAMP)"@,
            seq![
                SqlValueView::Text(prefix@),
                optional_value(opt_text(version.etag)),
                optional_value(opt_text(version.last_modified)),
            ],
        ),
{
    let params: Vec<SqlValue> = vec![
        SqlValue::Text(prefix.to_owned()),
        optional_param(version.etag),
        optional_param(version.last_modified),
    ];
    assert(values(params@) =~= seq![
        SqlValueView::Text(prefix@),
        optional_value(opt_text(version.etag)),
        optional_value(opt_text(version.last_modified)),
    ]);
    D1Query {
        sql:
            "INSERT OR REPLACE INTO dataset_versions (Prefix, ETag, LastModified, LastImported) VALUES (?1, ?2, ?3, CURRENT_TIMESTAMP)".to_owned(),
        params,
    }
}

/// A header of a request.
#[derive(Debug)]
pub struct Header {
    pub name: &'static str,
    pub value: String,
}

/// The headers that ask for a dataset only where it changed since a version.
pub open spec fn condition(version: DatasetVersion) -> Seq<(Seq<char>, Seq<char>)> {
    let etag = match version.etag {
        Some(text) => seq![("If-None-Match"@, text@)],
        None => seq![],
    };
    match version.last_modified {
        Some(text) => etag.push(("If-Modified-Since"@, text@)),
        None => etag,
    }
}

pub fn condition_headers(version: &DatasetVersion) -> (headers: Vec<Header>)
    ensures
        headers@.map_values(|h: Header| (h.name@, h.value@)) == condition(*version),
{
    let mut headers: Vec<Header> = Vec::new();
    if let Some(etag) = &version.etag {
        headers.push(Header { name: "If-None-Match", value: etag.clone() });
    }
    if let Some(last_modified) = &version.last_modified {
        headers.push(Header { name: "If-Modified-Since", value: last_modified.clone() });
    }
    assert(headers@.map_values(|h: Header| (h.name@, h.value@)) =~= condition(*version));
    headers
}

// ---------------------------------------------------------------------------
// Step by step
// ---------------------------------------------------------------------------
/// What an import waits for.
#[derive(Debug)]
pub enum ImportPhase {
    Locking,
    ReadingSettings,
    ImportingDataset,
    Unlocking(Result<(), String>),
    Finished,
}

/// Something that an import waited for.
#[derive(Debug)]
pub enum ImportEvent {
    /// The rows that taking the lock changed.
    Locked(Result<u64, String>),
    /// The address of the feeds, and the list of items.
    SettingsRead(Result<(String, String), String>),
    /// A dataset was imported or skipped, or failed. The others go on either way.
    DatasetDone,
    Unlocked,
}

/// What to do next for an import.
#[derive(Debug)]
pub enum ImportAction {
    ReadSettings,
    /// Import the dataset of an item into the tables of a prefix.
    ImportDataset { prefix: String, url: String },
    Unlock,
    Finish(Result<(), String>),
}

/// An import of all operators.
#[derive(Debug)]
pub struct ImportTask {
    pub base_url: String,
    pub items: Vec<String>,
    /// The dataset that is being imported.
    pub index: usize,
    pub phase: ImportPhase,
}

/// The event is what the import waits for.
pub open spec fn import_awaits(phase: ImportPhase, event: ImportEvent) -> bool {
    match event {
        ImportEvent::Locked(_) => phase is Locking,
        ImportEvent::SettingsRead(_) => phase is ReadingSettings,
        ImportEvent::DatasetDone => phase is ImportingDataset,
        ImportEvent::Unlocked => phase is Unlocking,
    }
}

/// The result is this.
pub open spec fn same_result(a: Result<(), String>, b: Result<(), Seq<char>>) -> bool {
    match (a, b) {
        (Ok(()), Ok(())) => true,
        (Err(x), Err(y)) => x@ == y,
        _ => false,
    }
}

/// What an import does at an item: it imports the dataset, or ends behind the last
/// one.
pub open spec fn at_item(
    action: ImportAction,
    phase: ImportPhase,
    base_url: Seq<char>,
    items: Seq<Seq<char>>,
    index: int,
) -> bool {
    if index < items.len() {
        phase is ImportingDataset && (action matches ImportAction::ImportDataset { prefix, url }
            && prefix@ == prefix_chars(category(items[index])) && url@ == base_url + items[index])
    } else {
        action is Unlock && (phase matches ImportPhase::Unlocking(result) && same_result(
            result,
            Ok(()),
        ))
    }
}

impl ImportTask {
    pub fn new() -> (task: ImportTask)
        ensures
            task.phase is Locking,
            task.base_url@.len() == 0,
            task.items@.len() == 0,
            task.index == 0,
    {
        ImportTask {
            base_url: String::new(),
            items: Vec::new(),
            index: 0,
            phase: ImportPhase::Locking,
        }
    }

    fn visit(&mut self) -> (action: ImportAction)
        ensures
            final(self).base_url == old(self).base_url,
            final(self).items == old(self).items,
            final(self).index == old(self).index,
            at_item(
                action,
                final(self).phase,
                old(self).base_url@,
                texts(old(self).items@),
                old(self).index as int,
            ),
    {
        if self.index < self.items.len() {
            let item = self.items[self.index].as_str();
            assert(texts(self.items@)[self.index as int] == item@);
            let prefix = enum_to_prefix(item);
            let mut url = self.base_url.clone();
            url.append(item);
            self.phase = ImportPhase::ImportingDataset;
            return ImportAction::ImportDataset { prefix, url };
        }
        self.phase = ImportPhase::Unlocking(Ok(()));
        ImportAction::Unlock
    }

    /// What to do after an event. A run that does not get the lock ends at once,
    /// without giving it back; one that gets it always gives it back.
    pub fn import_gtfs(&mut self, event: ImportEvent) -> (action: ImportAction)
        requires
            import_awaits(old(self).phase, event),
            old(self).index < usize::MAX,
        ensures
            match event {
                ImportEvent::Locked(locked) => match locked {
                    Err(reason) => final(self).phase is Finished && (
                    action matches ImportAction::Finish(result) && same_result(
                        result,
                        Err(reason@),
                    )),
                    Ok(changes) => if changes == 0 {
                        final(self).phase is Finished && (
                        action matches ImportAction::Finish(result) && same_result(result, Ok(())))
                    } else {
                        final(self).phase is ReadingSettings && action is ReadSettings
                    },
                },
                ImportEvent::SettingsRead(settings) => match settings {
                    Err(reason) => action is Unlock && (
                    final(self).phase matches ImportPhase::Unlocking(result) && same_result(
                        result,
                        Err(reason@),
                    )),
                    Ok((base_url, list)) => final(self).base_url@ == base_url@ && texts(
                        final(self).items@) == items_of(list@) && final(self).index == 0 && at_item(
                        action,
                        final(self).phase,
                        base_url@,
                        items_of(list@),
                        0,
                    ),
                },
                ImportEvent::DatasetDone => final(self).base_url == old(self).base_url && final(
                    self).items == old(self).items && final(self).index == old(self).index + 1
                    && at_item(
                    action,
                    final(self).phase,
                    old(self).base_url@,
                    texts(old(self).items@),
                    old(self).index + 1,
                ),
                ImportEvent::Unlocked => final(self).phase is Finished && (
                action matches ImportAction::Finish(result) && result
                    == old(self).phase->Unlocking_0),
            },
    {
        let mut phase = ImportPhase::Finished;
        std::mem::swap(&mut phase, &mut self.phase);
        match event {
            ImportEvent::Locked(locked) => match locked {
                Err(reason) => ImportAction::Finish(Err(reason)),
                Ok(changes) => {
                    if changes == 0 {
                        return ImportAction::Finish(Ok(()));
                    }
                    self.phase = ImportPhase::ReadingSettings;
                    ImportAction::ReadSettings
                },
            },
            ImportEvent::SettingsRead(settings) => match settings {
                Err(reason) => {
                    self.phase = ImportPhase::Unlocking(Err(reason));
                    ImportAction::Unlock
                },
                Ok((base_url, list)) => {
                    self.base_url = base_url;
                    self.items = import_items(list.as_str());
                    self.index = 0;
                    self.visit()
                },
            },
            ImportEvent::DatasetDone => {
                self.index = self.index + 1;
                self.visit()
            },
            ImportEvent::Unlocked => match phase {
                ImportPhase::Unlocking(result) => ImportAction::Finish(result),
                _ => ImportAction::Finish(Ok(())),
            },
        }
    }
}

} // verus!
