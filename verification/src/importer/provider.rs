//! Preparing a provider for import, and processing the files of one that is
//! prepared.
use crate::importer::config::ProviderConfig;
use crate::importer::client::{init_file_progress_query, init_progress};
use crate::importer::d1::{D1Query, Row};
use crate::importer::extract::CsvExtractOutcome;
use crate::importer::fault::{D1Error, ProcessorError, ProcessorErrorView};
use crate::importer::file_task::{api_fault, STATUS_INCOMPLETE};
use crate::importer::select::{
    discovered_files, pending_files, plan_files, prepared_files, Discovered, DiscoveredFile,
    Prepared, PreparedFile,
};
use crate::sorting::{is_sorted, sort_by_name, Named};
use vstd::prelude::*;
use vstd::string::*;

verus! {

/// A feed that was downloaded.
#[derive(Debug)]
pub struct DownloadedFeed {
    pub size: u64,
    pub previous_etag: String,
    pub remote_etag: String,
}

/// A provider with files to import.
#[derive(Debug)]
pub struct PreparedProvider {
    pub provider: ProviderConfig,
    pub download: DownloadedFeed,
    pub files: Vec<PreparedFile>,
}

impl PreparedProvider {
    /// The name of the provider.
    pub fn name(&self) -> (name: &str)
        ensures
            name@ == self.provider.name@,
    {
        self.provider.name.as_str()
    }
}

impl Named for PreparedProvider {
    open spec fn spec_name(&self) -> Seq<char> {
        self.provider.name@
    }

    fn name(&self) -> (name: &str) {
        self.provider.name.as_str()
    }
}

impl Named for PreparedFile {
    open spec fn spec_name(&self) -> Seq<char> {
        self.csv_file@
    }

    fn name(&self) -> (name: &str) {
        self.csv_file.as_str()
    }
}

/// The progress that a file starts with.
#[derive(Debug)]
pub struct FileProgressInit {
    pub file: String,
    pub crc: String,
    pub line: u64,
    pub byte: u64,
}

impl FileProgressInit {
    /// It is the progress that a prepared file starts with.
    pub open spec fn is(&self, prepared: Prepared) -> bool {
        &&& self.file@ == prepared.file.csv_file
        &&& self.crc@ == prepared.file.crc
        &&& self.line == prepared.checkpoint.line
        &&& self.byte == prepared.checkpoint.byte
    }
}

/// The progress entries are those of the prepared files.
pub open spec fn starts_progress(list: Seq<FileProgressInit>, files: Seq<Prepared>) -> bool {
    &&& list.len() == files.len()
    &&& forall|i: int| 0 <= i < list.len() ==> (#[trigger] list[i]).is(files[i])
}

/// The progress that the files of a provider start with.
pub fn initial_progress(files: &Vec<PreparedFile>) -> (list: Vec<FileProgressInit>)
    ensures
        starts_progress(list@, prepared_files(files@)),
{
    let mut list: Vec<FileProgressInit> = Vec::new();
    let mut i: usize = 0;
    while i < files.len()
        invariant
            i <= files@.len(),
            list@.len() == i,
            forall|k: int| 0 <= k < i ==> (#[trigger] list@[k]).is(prepared_files(files@)[k]),
        decreases files.len() - i,
    {
        assert(prepared_files(files@)[i as int] == files@[i as int]@);
        list.push(
            FileProgressInit {
                file: files[i].csv_file.clone(),
                crc: files[i].crc.clone(),
                line: files[i].checkpoint.line,
                byte: files[i].checkpoint.byte,
            },
        );
        i += 1;
    }
    list
}

/// The statement that records the progress that a file starts with: it is not
/// complete.
pub fn init_progress_query(provider: &str, progress: &FileProgressInit) -> (query: D1Query)
    ensures
        query.is(
            init_progress(
                provider@,
                progress.file@,
                progress.crc@,
                progress.line,
                progress.byte,
                STATUS_INCOMPLETE,
            ).0,
            init_progress(
                provider@,
                progress.file@,
                progress.crc@,
                progress.line,
                progress.byte,
                STATUS_INCOMPLETE,
            ).1,
        ),
{
    init_file_progress_query(
        provider,
        progress.file.as_str(),
        progress.crc.as_str(),
        progress.line,
        progress.byte,
        STATUS_INCOMPLETE,
    )
}

// ---------------------------------------------------------------------------
// Preparing
// ---------------------------------------------------------------------------
/// What the preparation of a provider waits for.
#[derive(Debug)]
pub enum PreparePhase {
    Rotating,
    Downloading,
    Discovering(DownloadedFeed),
    ReadingProgress(DownloadedFeed, Vec<DiscoveredFile>),
    RecordingVersion,
    InitialisingProgress(DownloadedFeed, Vec<PreparedFile>),
}

/// Something that the preparation waited for.
#[derive(Debug)]
pub enum PrepareEvent {
    /// The database was rotated to a new one, or kept.
    Rotated(Result<Option<String>, ProcessorError>),
    /// A feed was downloaded, or there is nothing to do.
    Downloaded(Result<Option<DownloadedFeed>, ProcessorError>),
    Discovered(Result<Vec<DiscoveredFile>, ProcessorError>),
    ProgressRead(Result<Vec<Row>, D1Error>),
    VersionRecorded(Result<(), D1Error>),
    ProgressInitialised(Result<(), D1Error>),
}

/// What to do next for a provider.
#[derive(Debug)]
pub enum PrepareAction {
    Download,
    Discover,
    ReadProgress,
    RecordVersion(String),
    InitialiseProgress(Vec<FileProgressInit>),
}

/// The preparation of one provider.
#[derive(Debug)]
pub struct PrepareTask {
    pub provider: ProviderConfig,
    pub phase: PreparePhase,
}

/// What comes after an event.
#[derive(Debug)]
pub enum PrepareStep {
    Continue(PrepareTask, PrepareAction),
    Finish(Result<Option<PreparedProvider>, ProcessorError>),
}

/// The event is what the preparation waits for.
pub open spec fn prepare_awaits(phase: PreparePhase, event: PrepareEvent) -> bool {
    match event {
        PrepareEvent::Rotated(_) => phase is Rotating,
        PrepareEvent::Downloaded(_) => phase is Downloading,
        PrepareEvent::Discovered(_) => phase is Discovering,
        PrepareEvent::ProgressRead(_) => phase is ReadingProgress,
        PrepareEvent::VersionRecorded(_) => phase is RecordingVersion,
        PrepareEvent::ProgressInitialised(_) => phase is InitialisingProgress,
    }
}

impl PrepareStep {
    /// The preparation ends with this error.
    pub open spec fn fails(&self, error: ProcessorErrorView) -> bool {
        *self matches PrepareStep::Finish(Err(given)) && given@ == error
    }

    /// The preparation ends without anything to import.
    pub open spec fn has_nothing(&self) -> bool {
        *self matches PrepareStep::Finish(Ok(None))
    }
}

/// What reading the progress of the files leads to: an import of the files that
/// are left, whose progress is recorded first; or, where none is left, a record of
/// the version of the feed, if it has one.
pub open spec fn planned(
    step: PrepareStep,
    task: PrepareTask,
    download: DownloadedFeed,
    discovered: Seq<Discovered>,
    rows: Seq<Row>,
) -> bool {
    let left = pending_files(discovered, rows);
    if left.len() == 0 {
        if download.remote_etag@.len() == 0 {
            step.has_nothing()
        } else {
            step matches PrepareStep::Continue(next, PrepareAction::RecordVersion(etag))
                && next.provider == task.provider && next.phase is RecordingVersion && etag@
                == download.remote_etag@
        }
    } else {
        step matches PrepareStep::Continue(next, PrepareAction::InitialiseProgress(list))
            && next.provider == task.provider && starts_progress(list@, left) && (
        next.phase matches PreparePhase::InitialisingProgress(feed, files) && feed == download
            && prepared_files(files@) == left)
    }
}

impl PrepareTask {
    pub fn new(provider: ProviderConfig) -> (task: PrepareTask)
        ensures
            task.provider == provider,
            task.phase is Rotating,
    {
        PrepareTask { provider, phase: PreparePhase::Rotating }
    }

    /// What to do after an event: first the database is rotated where that is
    /// needed, then the feed is downloaded, its files are discovered, and what is
    /// left of them is planned. The first error ends the preparation.
    pub fn prepare_provider(self, event: PrepareEvent) -> (step: PrepareStep)
        requires
            prepare_awaits(self.phase, event),
        ensures
            match event {
                PrepareEvent::Rotated(Err(error)) => step.fails(error@),
                PrepareEvent::Rotated(Ok(rotated)) => {
                    &&& step matches PrepareStep::Continue(next, PrepareAction::Download)
                        && next.phase is Downloading && next.provider == (ProviderConfig {
                        database_id: match rotated {
                            Some(id) => id,
                            None => self.provider.database_id,
                        },
                        ..self.provider
                    })
                },
                PrepareEvent::Downloaded(Err(error)) => step.fails(error@),
                PrepareEvent::Downloaded(Ok(None)) => step.has_nothing(),
                PrepareEvent::Downloaded(Ok(Some(feed))) => {
                    &&& step matches PrepareStep::Continue(next, PrepareAction::Discover)
                        && next.provider == self.provider && next.phase
                        == PreparePhase::Discovering(feed)
                },
                PrepareEvent::Discovered(Err(error)) => step.fails(error@),
                PrepareEvent::Discovered(Ok(files)) => {
                    &&& step matches PrepareStep::Continue(next, PrepareAction::ReadProgress)
                        && next.provider == self.provider && next.phase
                        == PreparePhase::ReadingProgress(self.phase->Discovering_0, files)
                },
                PrepareEvent::ProgressRead(Err(error)) => step.fails(
                    ProcessorErrorView::D1(error@),
                ),
                PrepareEvent::ProgressRead(Ok(rows)) => planned(
                    step,
                    self,
                    self.phase->ReadingProgress_0,
                    discovered_files(self.phase->ReadingProgress_1@),
                    rows@,
                ),
                PrepareEvent::VersionRecorded(Err(error)) => step.fails(
                    ProcessorErrorView::D1(error@),
                ),
                PrepareEvent::VersionRecorded(Ok(())) => step.has_nothing(),
                PrepareEvent::ProgressInitialised(Err(error)) => step.fails(
                    ProcessorErrorView::D1(error@),
                ),
                PrepareEvent::ProgressInitialised(Ok(())) => {
                    &&& step matches PrepareStep::Finish(Ok(Some(prepared))) && prepared.provider
                        == self.provider && prepared.download
                        == self.phase->InitialisingProgress_0 && prepared.files
                        == self.phase->InitialisingProgress_1
                },
            },
    {
        let provider = self.provider;
        match event {
            PrepareEvent::Rotated(rotated) => match rotated {
                Err(error) => PrepareStep::Finish(Err(error)),
                Ok(None) => PrepareStep::Continue(
                    PrepareTask { provider, phase: PreparePhase::Downloading },
                    PrepareAction::Download,
                ),
                Ok(Some(database_id)) => PrepareStep::Continue(
                    PrepareTask {
                        provider: ProviderConfig { database_id, ..provider },
                        phase: PreparePhase::Downloading,
                    },
                    PrepareAction::Download,
                ),
            },
            PrepareEvent::Downloaded(downloaded) => match downloaded {
                Err(error) => PrepareStep::Finish(Err(error)),
                Ok(None) => PrepareStep::Finish(Ok(None)),
                Ok(Some(feed)) => PrepareStep::Continue(
                    PrepareTask { provider, phase: PreparePhase::Discovering(feed) },
                    PrepareAction::Discover,
                ),
            },
            PrepareEvent::Discovered(discovered) => match discovered {
                Err(error) => PrepareStep::Finish(Err(error)),
                Ok(files) => match self.phase {
                    PreparePhase::Discovering(feed) => PrepareStep::Continue(
                        PrepareTask { provider, phase: PreparePhase::ReadingProgress(feed, files) },
                        PrepareAction::ReadProgress,
                    ),
                    _ => PrepareStep::Finish(Ok(None)),
                },
            },
            PrepareEvent::ProgressRead(read) => match read {
                Err(error) => PrepareStep::Finish(Err(ProcessorError::D1(error))),
                Ok(rows) => match self.phase {
                    PreparePhase::ReadingProgress(download, discovered) => {
                        let files = plan_files(discovered, &rows);
                        assert(prepared_files(files@).len() == files@.len());
                        if files.len() == 0 {
                            if download.remote_etag.as_str().is_empty() {
                                return PrepareStep::Finish(Ok(None));
                            }
                            return PrepareStep::Continue(
                                PrepareTask { provider, phase: PreparePhase::RecordingVersion },
                                PrepareAction::RecordVersion(download.remote_etag),
                            );
                        }
                        let progress = initial_progress(&files);
                        PrepareStep::Continue(
                            PrepareTask {
                                provider,
                                phase: PreparePhase::InitialisingProgress(download, files),
                            },
                            PrepareAction::InitialiseProgress(progress),
                        )
                    },
                    _ => PrepareStep::Finish(Ok(None)),
                },
            },
            PrepareEvent::VersionRecorded(recorded) => match recorded {
                Err(error) => PrepareStep::Finish(Err(ProcessorError::D1(error))),
                Ok(()) => PrepareStep::Finish(Ok(None)),
            },
            PrepareEvent::ProgressInitialised(initialised) => match initialised {
                Err(error) => PrepareStep::Finish(Err(ProcessorError::D1(error))),
                Ok(()) => match self.phase {
                    PreparePhase::InitialisingProgress(download, files) => PrepareStep::Finish(
                        Ok(Some(PreparedProvider { provider, download, files })),
                    ),
                    _ => PrepareStep::Finish(Ok(None)),
                },
            },
        }
    }
}

// ---------------------------------------------------------------------------
// Processing
// ---------------------------------------------------------------------------
/// What came of one file of a provider.
#[derive(Debug)]
pub enum FileResult {
    Processed(PreparedFile, CsvExtractOutcome),
    Failed,
}

/// The files of a provider that are processed so far.
#[derive(Debug)]
pub struct ProviderRun {
    pub has_csv_error: bool,
    pub write_budget_exhausted: bool,
    pub remaining: Vec<PreparedFile>,
}

/// How a run of a provider ends.
#[derive(Debug)]
pub struct ProviderRunOutcome {
    pub remaining: Option<PreparedProvider>,
    pub rows_processed: u64,
    pub write_budget_exhausted: bool,
}

/// A file with the place that its processing reached.
pub open spec fn moved_on(file: Prepared, outcome: CsvExtractOutcome) -> Prepared {
    Prepared { file: file.file, checkpoint: outcome.checkpoint }
}

/// What is known of a run of a provider.
#[verifier::ext_equal]
pub struct RunModel {
    pub has_csv_error: bool,
    pub write_budget_exhausted: bool,
    pub remaining: Seq<Prepared>,
}

impl View for ProviderRun {
    type V = RunModel;

    open spec fn view(&self) -> RunModel {
        RunModel {
            has_csv_error: self.has_csv_error,
            write_budget_exhausted: self.write_budget_exhausted,
            remaining: prepared_files(self.remaining@),
        }
    }
}

/// A run before its first file.
pub open spec fn empty_run() -> RunModel {
    RunModel { has_csv_error: false, write_budget_exhausted: false, remaining: seq![] }
}

/// The run with what came of one more file. One that is not done remains, at the
/// place that was reached.
pub open spec fn with_file(run: RunModel, result: FileResult) -> RunModel {
    match result {
        FileResult::Failed => RunModel { has_csv_error: true, ..run },
        FileResult::Processed(file, outcome) => RunModel {
            has_csv_error: run.has_csv_error,
            write_budget_exhausted: run.write_budget_exhausted || outcome.write_budget_exhausted,
            remaining: if outcome.file_done {
                run.remaining
            } else {
                run.remaining.push(moved_on(file@, outcome))
            },
        },
    }
}

/// The run with what came of some files.
pub open spec fn with_files(results: Seq<FileResult>) -> RunModel
    decreases results.len(),
{
    if results.len() == 0 {
        empty_run()
    } else {
        with_file(with_files(results.drop_last()), results.last())
    }
}

/// The version of the feed is recorded at the end of a run.
pub open spec fn records_version(run: RunModel, etag: Seq<char>) -> bool {
    !run.has_csv_error && run.remaining.len() == 0 && etag.len() > 0
}

/// The file was processed to its end.
pub open spec fn is_done(result: FileResult) -> bool {
    result matches FileResult::Processed(_, outcome) && outcome.file_done
}

/// A version is recorded only after every file completes, and always then, if the
/// feed has one.
pub proof fn law_a_version_is_recorded_after_every_file(results: Seq<FileResult>, etag: Seq<char>)
    ensures
        records_version(with_files(results), etag) <==> etag.len() > 0 && forall|i: int|
            0 <= i < results.len() ==> is_done(#[trigger] results[i]),
    decreases results.len(),
{
    let all = forall|i: int| 0 <= i < results.len() ==> is_done(#[trigger] results[i]);
    if results.len() > 0 {
        let front = results.drop_last();
        law_a_version_is_recorded_after_every_file(front, etag);
        if all {
            assert forall|i: int| 0 <= i < front.len() implies is_done(#[trigger] front[i]) by {
                assert(front[i] == results[i]);
            }
            assert(is_done(results[results.len() - 1]));
        }
        if forall|i: int| 0 <= i < front.len() ==> is_done(#[trigger] front[i]) {
            if is_done(results.last()) {
                assert forall|i: int| 0 <= i < results.len() implies is_done(
                    #[trigger] results[i],
                ) by {
                    if i < front.len() {
                        assert(results[i] == front[i]);
                    }
                }
            }
        }
        if !is_done(results.last()) {
            assert(!is_done(results[results.len() - 1]));
        }
        if records_version(with_files(results), etag) {
            assert(records_version(with_files(front), etag));
        }
    }
}

impl ProviderRun {
    /// A run of a provider, which must have a row to process.
    pub fn begin(max_rows: u64) -> (run: Result<ProviderRun, ProcessorError>)
        ensures
            match run {
                Ok(r) => max_rows > 0 && r@ == empty_run(),
                Err(error) => max_rows == 0 && error@ == api_fault(
                    "Provider row allocation must be greater than zero"@,
                ),
            },
    {
        if max_rows == 0 {
            return Err(
                ProcessorError::api("Provider row allocation must be greater than zero".to_owned()),
            );
        }
        let remaining: Vec<PreparedFile> = Vec::new();
        assert(prepared_files(remaining@) =~= seq![]);
        Ok(ProviderRun { has_csv_error: false, write_budget_exhausted: false, remaining })
    }

    /// Takes what came of a file.
    pub fn add_file(&mut self, result: FileResult)
        ensures
            final(self)@ == with_file(old(self)@, result),
    {
        match result {
            FileResult::Failed => {
                self.has_csv_error = true;
            },
            FileResult::Processed(file, outcome) => {
                if outcome.write_budget_exhausted {
                    self.write_budget_exhausted = true;
                }
                if !outcome.file_done {
                    let ghost before = self.remaining@;
                    let next = PreparedFile { checkpoint: outcome.checkpoint, ..file };
                    self.remaining.push(next);
                    assert(prepared_files(self.remaining@) =~= prepared_files(before).push(next@));
                }
            },
        }
    }

    /// Ends a run: the files that remain, in order, and the version of the feed to
    /// record where none does.
    pub fn end(
        self,
        provider: ProviderConfig,
        download: DownloadedFeed,
        rows_processed: u64,
    ) -> (ended: Result<(Option<String>, ProviderRunOutcome), ProcessorError>)
        ensures
            match ended {
                Err(error) => self.has_csv_error && error@ == api_fault(
                    "One or more CSV files failed"@,
                ),
                Ok((version, outcome)) => {
                    &&& !self.has_csv_error
                    &&& outcome.rows_processed == rows_processed
                    &&& outcome.write_budget_exhausted == self.write_budget_exhausted
                    &&& version is Some == records_version(self@, download.remote_etag@)
                    &&& version matches Some(etag) ==> etag@ == download.remote_etag@
                    &&& match outcome.remaining {
                        None => self.remaining@.len() == 0,
                        Some(left) => self.remaining@.len() > 0 && left.provider == provider
                            && left.download == download && is_sorted(left.files@)
                            && left.files@.to_multiset() == self.remaining@.to_multiset()
                            && left.files@.len() == self.remaining@.len(),
                    }
                },
            },
    {
        assert(prepared_files(self.remaining@).len() == self.remaining@.len());
        if self.has_csv_error {
            return Err(ProcessorError::api("One or more CSV files failed".to_owned()));
        }
        if self.remaining.len() == 0 {
            let version = if download.remote_etag.as_str().is_empty() {
                None
            } else {
                Some(download.remote_etag)
            };
            return Ok(
                (
                    version,
                    ProviderRunOutcome {
                        remaining: None,
                        rows_processed,
                        write_budget_exhausted: self.write_budget_exhausted,
                    },
                ),
            );
        }
        let files = sort_by_name(self.remaining);
        Ok(
            (
                None,
                ProviderRunOutcome {
                    remaining: Some(PreparedProvider { provider, download, files }),
                    rows_processed,
                    write_budget_exhausted: self.write_budget_exhausted,
                },
            ),
        )
    }
}

} // verus!
