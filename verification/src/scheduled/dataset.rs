//! The import of one dataset: it is fetched only where it changed, its files are
//! imported one after the other, and its version is recorded at the end.
use crate::scheduled::config::TableSchema;
use crate::scheduled::import::{condition, condition_headers, DatasetVersion, Header};
use crate::scheduled::schema::{full_table_name, prefixed};
use vstd::prelude::*;

verus! {

/// What the import of a dataset waits for.
#[derive(Debug)]
pub enum DatasetPhase {
    ReadingVersion,
    Fetching,
    ReadingSchemas { version: DatasetVersion },
    OpeningArchive { version: DatasetVersion, schemas: Vec<TableSchema> },
    /// The file at an index is being imported.
    ProcessingFile { version: DatasetVersion, schemas: Vec<TableSchema>, index: usize },
    RecordingVersion,
}

/// Something that the import waited for.
#[derive(Debug)]
pub enum DatasetEvent {
    /// The version that was imported last.
    VersionRead(Result<DatasetVersion, String>),
    /// The size of what was fetched, and its version. Nothing comes where the
    /// dataset did not change.
    Fetched(Result<(usize, DatasetVersion), String>),
    SchemasRead(Result<Vec<TableSchema>, String>),
    ArchiveOpened(Result<(), String>),
    FileProcessed(Result<(), String>),
    VersionRecorded(Result<(), String>),
}

/// What to do next for a dataset.
#[derive(Debug)]
pub enum DatasetAction {
    Fetch(Vec<Header>),
    ReadSchemas,
    OpenArchive,
    /// Import the file of the schema at an index into a table.
    ProcessFile { index: usize, table_name: String },
    RecordVersion(DatasetVersion),
}

/// The import of one dataset.
#[derive(Debug)]
pub struct DatasetTask {
    pub prefix: String,
    pub phase: DatasetPhase,
}

/// What comes after an event.
#[derive(Debug)]
pub enum DatasetStep {
    Continue(DatasetTask, DatasetAction),
    Finish(Result<(), String>),
}

/// The event is what the import waits for.
pub open spec fn dataset_awaits(phase: DatasetPhase, event: DatasetEvent) -> bool {
    match event {
        DatasetEvent::VersionRead(_) => phase is ReadingVersion,
        DatasetEvent::Fetched(_) => phase is Fetching,
        DatasetEvent::SchemasRead(_) => phase is ReadingSchemas,
        DatasetEvent::ArchiveOpened(_) => phase is OpeningArchive,
        DatasetEvent::FileProcessed(_) => phase is ProcessingFile,
        DatasetEvent::VersionRecorded(_) => phase is RecordingVersion,
    }
}

impl DatasetStep {
    /// The import fails for a reason.
    pub open spec fn fails(&self, reason: Seq<char>) -> bool {
        *self matches DatasetStep::Finish(Err(given)) && given@ == reason
    }

    /// The import is over without a failure.
    pub open spec fn succeeds(&self) -> bool {
        *self matches DatasetStep::Finish(Ok(()))
    }

    /// The file at an index comes next; behind the last one, the version is
    /// recorded.
    pub open spec fn visits(
        &self,
        prefix: String,
        version: DatasetVersion,
        schemas: Vec<TableSchema>,
        index: int,
    ) -> bool {
        if index < schemas@.len() {
            *self matches DatasetStep::Continue(
                next,
                DatasetAction::ProcessFile { index: given, table_name },
            ) && given == index && table_name@ == prefixed(prefix@, schemas@[index].base_name@)
                && next.prefix == prefix && next.phase == (DatasetPhase::ProcessingFile {
                version,
                schemas,
                index: given,
            })
        } else {
            *self matches DatasetStep::Continue(next, DatasetAction::RecordVersion(given)) && given
                == version && next.prefix == prefix && next.phase is RecordingVersion
        }
    }
}

/// The status of an answer about a dataset that did not change.
pub const NOT_MODIFIED: u16 = 304;

/// What comes with an answer of a status where the dataset did not change: no bytes and
/// no version. `None` where the answer brings the dataset.
pub fn unchanged_dataset(status: u16) -> (fetched: Option<(usize, DatasetVersion)>)
    ensures
        match fetched {
            Some((size, version)) => status == NOT_MODIFIED && size == 0 && version.etag is None
                && version.last_modified is None,
            None => status != NOT_MODIFIED,
        },
{
    if status == NOT_MODIFIED {
        return Some((0, DatasetVersion { etag: None, last_modified: None }));
    }
    None
}

/// The step at the file of an index.
fn visit_file(
    prefix: String,
    version: DatasetVersion,
    schemas: Vec<TableSchema>,
    index: usize,
) -> (step: DatasetStep)
    ensures
        step.visits(prefix, version, schemas, index as int),
{
    if index < schemas.len() {
        let table_name = full_table_name(prefix.as_str(), schemas[index].base_name);
        return DatasetStep::Continue(
            DatasetTask {
                prefix,
                phase: DatasetPhase::ProcessingFile { version, schemas, index },
            },
            DatasetAction::ProcessFile { index, table_name },
        );
    }
    DatasetStep::Continue(
        DatasetTask { prefix, phase: DatasetPhase::RecordingVersion },
        DatasetAction::RecordVersion(version),
    )
}

impl DatasetTask {
    pub fn new(prefix: String) -> (task: DatasetTask)
        ensures
            task.prefix == prefix,
            task.phase is ReadingVersion,
    {
        DatasetTask { prefix, phase: DatasetPhase::ReadingVersion }
    }

    /// What to do after an event. The first failure ends the import, so the
    /// version is recorded only where every file was imported.
    pub fn import_dataset(self, event: DatasetEvent) -> (step: DatasetStep)
        requires
            dataset_awaits(self.phase, event),
        ensures
            match event {
                DatasetEvent::VersionRead(Err(reason)) => step.fails(reason@),
                DatasetEvent::VersionRead(Ok(version)) => {
                    &&& step matches DatasetStep::Continue(next, DatasetAction::Fetch(headers))
                        && next.prefix == self.prefix && next.phase is Fetching
                        && headers@.map_values(|h: Header| (h.name@, h.value@)) == condition(
                        version,
                    )
                },
                DatasetEvent::Fetched(Err(reason)) => step.fails(reason@),
                DatasetEvent::Fetched(Ok((size, version))) => if size == 0 {
                    step.succeeds()
                } else {
                    step matches DatasetStep::Continue(next, DatasetAction::ReadSchemas)
                        && next.prefix == self.prefix && next.phase
                        == (DatasetPhase::ReadingSchemas { version })
                },
                DatasetEvent::SchemasRead(Err(reason)) => step.fails(reason@),
                DatasetEvent::SchemasRead(Ok(schemas)) => {
                    &&& step matches DatasetStep::Continue(next, DatasetAction::OpenArchive)
                        && next.prefix == self.prefix && next.phase
                        == (DatasetPhase::OpeningArchive {
                        version: self.phase->ReadingSchemas_version,
                        schemas,
                    })
                },
                DatasetEvent::ArchiveOpened(Err(reason)) => step.fails(reason@),
                DatasetEvent::ArchiveOpened(Ok(())) => step.visits(
                    self.prefix,
                    self.phase->OpeningArchive_version,
                    self.phase->OpeningArchive_schemas,
                    0,
                ),
                DatasetEvent::FileProcessed(Err(reason)) => step.fails(reason@),
                DatasetEvent::FileProcessed(Ok(())) => if self.phase->ProcessingFile_index
                    < self.phase->ProcessingFile_schemas@.len() {
                    step.visits(
                        self.prefix,
                        self.phase->ProcessingFile_version,
                        self.phase->ProcessingFile_schemas,
                        self.phase->ProcessingFile_index + 1,
                    )
                } else {
                    step.visits(
                        self.prefix,
                        self.phase->ProcessingFile_version,
                        self.phase->ProcessingFile_schemas,
                        self.phase->ProcessingFile_index as int,
                    )
                },
                DatasetEvent::VersionRecorded(Err(reason)) => step.fails(reason@),
                DatasetEvent::VersionRecorded(Ok(())) => step.succeeds(),
            },
    {
        let prefix = self.prefix;
        match event {
            DatasetEvent::VersionRead(read) => match read {
                Err(reason) => DatasetStep::Finish(Err(reason)),
                Ok(version) => DatasetStep::Continue(
                    DatasetTask { prefix, phase: DatasetPhase::Fetching },
                    DatasetAction::Fetch(condition_headers(&version)),
                ),
            },
            DatasetEvent::Fetched(fetched) => match fetched {
                Err(reason) => DatasetStep::Finish(Err(reason)),
                Ok((size, version)) => {
                    if size == 0 {
                        return DatasetStep::Finish(Ok(()));
                    }
                    DatasetStep::Continue(
                        DatasetTask { prefix, phase: DatasetPhase::ReadingSchemas { version } },
                        DatasetAction::ReadSchemas,
                    )
                },
            },
            DatasetEvent::SchemasRead(read) => match read {
                Err(reason) => DatasetStep::Finish(Err(reason)),
                Ok(schemas) => match self.phase {
                    DatasetPhase::ReadingSchemas { version } => DatasetStep::Continue(
                        DatasetTask {
                            prefix,
                            phase: DatasetPhase::OpeningArchive { version, schemas },
                        },
                        DatasetAction::OpenArchive,
                    ),
                    _ => DatasetStep::Finish(Ok(())),
                },
            },
            DatasetEvent::ArchiveOpened(opened) => match opened {
                Err(reason) => DatasetStep::Finish(Err(reason)),
                Ok(()) => match self.phase {
                    DatasetPhase::OpeningArchive { version, schemas } => visit_file(
                        prefix,
                        version,
                        schemas,
                        0,
                    ),
                    _ => DatasetStep::Finish(Ok(())),
                },
            },
            DatasetEvent::FileProcessed(processed) => match processed {
                Err(reason) => DatasetStep::Finish(Err(reason)),
                Ok(()) => match self.phase {
                    DatasetPhase::ProcessingFile { version, schemas, index } => {
                        let next: usize = if index < schemas.len() {
                            index + 1
                        } else {
                            index
                        };
                        visit_file(prefix, version, schemas, next)
                    },
                    _ => DatasetStep::Finish(Ok(())),
                },
            },
            DatasetEvent::VersionRecorded(recorded) => match recorded {
                Err(reason) => DatasetStep::Finish(Err(reason)),
                Ok(()) => DatasetStep::Finish(Ok(())),
            },
        }
    }
}

} // verus!
