use gtfs_worker::importer::batch::{Checkpoint, SerializedBatch};
use gtfs_worker::importer::budget::{D1WriteBudget, ReserveStep};
use gtfs_worker::importer::commit::BatchTaskResult;
use gtfs_worker::importer::config::ProviderConfig;
use gtfs_worker::importer::d1::{Cell, D1DatabaseInfo, D1Meta, D1Result, Row, SqlValue};
use gtfs_worker::importer::download::{
    DownloadAction, DownloadEvent, DownloadStep, DownloadTask, FeedHead,
};
use gtfs_worker::importer::extract::{BatchMessage, CsvExtractOutcome};
use gtfs_worker::importer::fault::{D1Error, ProcessorError};
use gtfs_worker::importer::file_task::{decide_file, FileAction, FileEvent, FileTask, Progress};
use gtfs_worker::importer::provider::{
    init_progress_query, DownloadedFeed, FileResult, PrepareAction, PrepareEvent, PrepareStep,
    PrepareTask, ProviderRun,
};
use gtfs_worker::importer::rotation::{
    persist_database_id, RotationAction, RotationEvent, RotationPhase, RotationRecord, RotationStep,
    RotationTask,
};
use gtfs_worker::importer::select::{DiscoveredFile, PreparedFile};
use gtfs_worker::importer::upload::{
    group_queries, group_ranges, group_reservation, settle_group, UploadAction, UploadOutcome,
    Uploader,
};
use gtfs_worker::outside::clock::Timestamp;

fn place(line: u64) -> Checkpoint {
    Checkpoint { line, byte: line * 10 }
}

fn batch(start: u64, end: u64) -> SerializedBatch {
    SerializedBatch { payload: format!("[{start}]"), start: place(start), end: place(end) }
}

fn written(ranges: &[(u64, u64)]) -> Result<BatchTaskResult, String> {
    Ok(BatchTaskResult {
        ranges: ranges.iter().map(|(start, end)| (place(*start), place(*end))).collect(),
        result: Ok(()),
    })
}

fn provider() -> ProviderConfig {
    ProviderConfig {
        name: "ktmb".to_owned(),
        is_active: true,
        static_url: "https://feeds/".to_owned(),
        static_provider: "ktmb".to_owned(),
        database_id: "old-id".to_owned(),
    }
}

fn prepared_file(name: &str) -> PreparedFile {
    PreparedFile {
        csv_file: name.to_owned(),
        crc: "aa".to_owned(),
        table_name: "t".to_owned(),
        db_columns: vec!["id".to_owned()],
        checkpoint: place(1),
    }
}

fn downloaded(etag: &str) -> DownloadedFeed {
    DownloadedFeed { size: 9, previous_etag: String::new(), remote_etag: etag.to_owned() }
}

fn outcome(file_done: bool, line: u64) -> CsvExtractOutcome {
    CsvExtractOutcome { file_done, checkpoint: place(line), write_budget_exhausted: false }
}

// ---------------------------------------------------------------------------
// Uploads
// ---------------------------------------------------------------------------
#[test]
fn groups_reserve_two_writes_per_row() {
    let group = vec![batch(0, 5), batch(5, 12)];
    assert_eq!(group_reservation(&group).unwrap(), (12, 24));
    assert_eq!(group_ranges(&group), [(place(0), place(5)), (place(5), place(12))]);
    let queries = group_queries("INSERT", &group);
    assert_eq!(queries.len(), 2);
    assert!(matches!(&queries[1].params[0], SqlValue::Text(payload) if payload == "[5]"));
    let whole = |start, end| SerializedBatch {
        payload: String::new(),
        start: Checkpoint { line: start, byte: 0 },
        end: Checkpoint { line: end, byte: 0 },
    };
    assert!(group_reservation(&vec![whole(0, u64::MAX)])
        .unwrap_err()
        .message()
        .ends_with("D1 batch write reservation overflowed u64"));
    assert!(group_reservation(&vec![whole(0, u64::MAX), whole(0, 1)])
        .unwrap_err()
        .message()
        .ends_with("D1 batch logical-row reservation overflowed u64"));
}

#[test]
fn reservations_are_settled_with_the_writes_that_took_place() {
    let wrote = |rows_written| D1Result {
        results: Vec::new(),
        meta: Some(D1Meta { rows_read: 0, rows_written }),
        success: Some(true),
    };
    let silent = D1Result { results: Vec::new(), meta: None, success: Some(true) };
    let settle = |outcome| {
        let mut budget = D1WriteBudget::new(20);
        let ReserveStep::Granted(reservation) = budget.reserve(10) else {
            panic!("ten writes are there");
        };
        let settled = settle_group(&mut budget, reservation, outcome);
        (settled.map_err(|error| error.message()), budget.remaining)
    };
    assert_eq!(settle(Ok((vec![wrote(2), wrote(3)], false))), (Ok(()), 15));
    assert_eq!(settle(Ok((vec![wrote(2)], true))), (Ok(()), 10));
    assert_eq!(settle(Err(D1Error::Reqwest("x".to_owned()))).1, 10);
    let (unknown, left) = settle(Ok((vec![wrote(2), silent], false)));
    assert!(unknown.unwrap_err().contains("omitted or overflowed rows_written metadata"));
    assert_eq!(left, 10);
    let (exceeded, left) = settle(Ok((vec![wrote(12)], false)));
    assert!(exceeded.unwrap_err().contains("D1 reported 12 row writes for a 10-write reservation"));
    assert_eq!(left, 8);
}

#[test]
fn batches_are_uploaded_in_groups() {
    let mut uploader = Uploader::new(place(0), 2, 1);
    assert!(matches!(uploader.act(), UploadAction::Receive));
    uploader.receive(Some(BatchMessage::InitSql("INSERT".to_owned())));
    uploader.receive(Some(BatchMessage::Data(batch(0, 1))));
    assert!(matches!(uploader.act(), UploadAction::Receive));
    uploader.receive(Some(BatchMessage::Data(batch(1, 2))));
    assert!(matches!(
        uploader.act(),
        UploadAction::Spawn { insert_sql, batches } if insert_sql == "INSERT" && batches.len() == 2
    ));
    uploader.receive(Some(BatchMessage::Data(batch(2, 3))));
    uploader.receive(Some(BatchMessage::Data(batch(3, 4))));
    assert!(matches!(uploader.act(), UploadAction::Join { receiver_needed: true }));
    uploader.join(written(&[(0, 1), (1, 2)]));
    assert!(matches!(uploader.act(), UploadAction::Spawn { .. }));
    uploader.receive(Some(BatchMessage::Data(batch(4, 5))));
    uploader.receive(None);
    // The last group does not wait for room.
    assert!(matches!(uploader.act(), UploadAction::Spawn { batches, .. } if batches.len() == 1));
    assert!(matches!(uploader.act(), UploadAction::Join { receiver_needed: false }));
    uploader.join(written(&[(4, 5)]));
    uploader.join(written(&[(2, 3), (3, 4)]));
    assert!(matches!(
        uploader.act(),
        UploadAction::Finish(outcome) if outcome == UploadOutcome {
            committed_through: place(5),
            had_error: false,
            write_budget_exhausted: false,
        }
    ));
}

#[test]
fn an_upload_stops_at_the_first_failure() {
    let mut uploader = Uploader::new(place(0), 1, 1);
    uploader.receive(Some(BatchMessage::InitSql("INSERT".to_owned())));
    uploader.receive(Some(BatchMessage::Data(batch(0, 1))));
    assert!(matches!(uploader.act(), UploadAction::Spawn { .. }));
    uploader.receive(Some(BatchMessage::Data(batch(1, 2))));
    assert!(matches!(uploader.act(), UploadAction::Join { receiver_needed: true }));
    uploader.join(Ok(BatchTaskResult {
        ranges: vec![(place(0), place(1))],
        result: Err(ProcessorError::UploaderClosed),
    }));
    assert!(matches!(
        uploader.act(),
        UploadAction::Finish(UploadOutcome { had_error: true, committed_through, .. }) if committed_through == place(0)
    ));

    let mut lost = Uploader::new(place(0), 1, 1);
    lost.receive(Some(BatchMessage::Data(batch(0, 1))));
    assert!(matches!(lost.act(), UploadAction::Finish(UploadOutcome { had_error: true, .. })));
}

// ---------------------------------------------------------------------------
// Files
// ---------------------------------------------------------------------------
#[test]
fn progress_is_recorded_as_far_as_it_is_committed() {
    let upload = |had_error, write_budget_exhausted| UploadOutcome {
        committed_through: place(3),
        had_error,
        write_budget_exhausted,
    };
    let committed = Progress { at: place(3), status: 1 };
    let (progress, result) = decide_file(upload(false, false), Ok(outcome(true, 3)));
    assert_eq!(progress, Progress { at: place(3), status: 0 });
    assert!(result.unwrap().file_done);
    let (progress, _) = decide_file(upload(false, false), Ok(outcome(false, 3)));
    assert_eq!(progress.status, 1);
    let (progress, result) = decide_file(upload(true, false), Ok(outcome(true, 9)));
    assert_eq!(progress, committed);
    assert!(result.unwrap_err().message().ends_with("One or more D1 batch groups failed"));
    let (progress, result) = decide_file(upload(false, true), Err(ProcessorError::UploaderClosed));
    assert_eq!(progress, committed);
    assert!(result.unwrap().write_budget_exhausted);
    let (progress, result) =
        decide_file(upload(false, true), Err(ProcessorError::Reqwest("x".to_owned())));
    assert_eq!(progress, committed);
    assert!(result.is_err());
    let (progress, result) = decide_file(upload(false, false), Ok(outcome(true, 9)));
    assert_eq!(progress, committed);
    assert!(result.unwrap_err().message().ends_with(
        "CSV producer reached row 9 at byte 90, but only row 3 at byte 30 was committed"
    ));
    let (progress, result) =
        decide_file(upload(false, false), Err(ProcessorError::Reqwest("x".to_owned())));
    assert_eq!(progress, committed);
    assert_eq!(result.unwrap_err().message(), "Reqwest error: x");
}

#[test]
fn a_file_records_its_progress_before_it_ends() {
    let mut task = FileTask::new(place(1), 10);
    assert!(matches!(
        task.process_csv_file(FileEvent::RowsClaimed(3)),
        FileAction::ReserveCheckpoint
    ));
    assert!(matches!(
        task.process_csv_file(FileEvent::CheckpointReserved(Ok(()))),
        FileAction::AcquirePermit
    ));
    assert!(matches!(
        task.process_csv_file(FileEvent::PermitAcquired(Ok(()))),
        FileAction::Transfer(from) if from == place(1)
    ));
    let upload = UploadOutcome {
        committed_through: place(4),
        had_error: false,
        write_budget_exhausted: false,
    };
    assert!(matches!(
        task.process_csv_file(FileEvent::Transferred(upload, Ok(outcome(true, 4)))),
        FileAction::RecordProgress(Progress { status: 0, at }) if at == place(4)
    ));
    assert!(matches!(
        task.process_csv_file(FileEvent::ProgressRecorded(Ok(()))),
        FileAction::Finish(Ok(outcome)) if outcome.file_done
    ));

    let mut full = FileTask::new(place(1), 10);
    assert!(matches!(
        full.process_csv_file(FileEvent::RowsClaimed(10)),
        FileAction::Finish(Ok(outcome)) if !outcome.file_done && !outcome.write_budget_exhausted
    ));
    let mut spent = FileTask::new(place(1), 10);
    spent.process_csv_file(FileEvent::RowsClaimed(0));
    let exhausted = D1Error::WriteBudgetExhausted { requested: 2, remaining: 1 };
    assert!(matches!(
        spent.process_csv_file(FileEvent::CheckpointReserved(Err(exhausted))),
        FileAction::Finish(Ok(outcome)) if outcome.write_budget_exhausted
    ));
    let mut closed = FileTask::new(place(1), 10);
    closed.process_csv_file(FileEvent::RowsClaimed(0));
    closed.process_csv_file(FileEvent::CheckpointReserved(Ok(())));
    let FileAction::Finish(Err(error)) =
        closed.process_csv_file(FileEvent::PermitAcquired(Err("closed".to_owned())))
    else {
        panic!("no permit comes");
    };
    assert!(error.message().ends_with("Failed to acquire CSV producer permit: closed"));
}

// ---------------------------------------------------------------------------
// Providers
// ---------------------------------------------------------------------------
#[test]
fn a_provider_is_prepared() {
    let PrepareStep::Continue(task, PrepareAction::Download) =
        PrepareTask::new(provider()).prepare_provider(PrepareEvent::Rotated(Ok(Some("new".to_owned()))))
    else {
        panic!("the feed is downloaded");
    };
    assert_eq!(task.provider.database_id, "new");
    let PrepareStep::Continue(task, PrepareAction::Discover) =
        task.prepare_provider(PrepareEvent::Downloaded(Ok(Some(downloaded("e")))))
    else {
        panic!("the files are discovered");
    };
    let found = DiscoveredFile {
        csv_file: "stops.txt".to_owned(),
        crc: "aa".to_owned(),
        table_name: "stops".to_owned(),
        db_columns: vec!["id".to_owned()],
    };
    let PrepareStep::Continue(task, PrepareAction::ReadProgress) =
        task.prepare_provider(PrepareEvent::Discovered(Ok(vec![found])))
    else {
        panic!("the progress is read");
    };
    let PrepareStep::Continue(task, PrepareAction::InitialiseProgress(list)) =
        task.prepare_provider(PrepareEvent::ProgressRead(Ok(Vec::new())))
    else {
        panic!("the progress is recorded");
    };
    assert_eq!((list[0].file.as_str(), list[0].line), ("stops.txt", 0));
    let query = init_progress_query("ktmb", &list[0]);
    assert!(matches!(query.params[5], SqlValue::Unsigned(1)));
    let PrepareStep::Finish(Ok(Some(prepared))) =
        task.prepare_provider(PrepareEvent::ProgressInitialised(Ok(())))
    else {
        panic!("the provider is ready");
    };
    assert_eq!(prepared.name(), "ktmb");
    assert_eq!(prepared.files.len(), 1);
}

#[test]
fn a_provider_without_work_records_its_version() {
    let ready = |etag: &str| {
        let task = PrepareTask::new(provider());
        let PrepareStep::Continue(task, _) = task.prepare_provider(PrepareEvent::Rotated(Ok(None)))
        else {
            panic!("the feed is downloaded");
        };
        let PrepareStep::Continue(task, _) =
            task.prepare_provider(PrepareEvent::Downloaded(Ok(Some(downloaded(etag)))))
        else {
            panic!("the files are discovered");
        };
        let PrepareStep::Continue(task, _) =
            task.prepare_provider(PrepareEvent::Discovered(Ok(Vec::new())))
        else {
            panic!("the progress is read");
        };
        task.prepare_provider(PrepareEvent::ProgressRead(Ok(Vec::new())))
    };
    let PrepareStep::Continue(task, PrepareAction::RecordVersion(etag)) = ready("e") else {
        panic!("the version is recorded");
    };
    assert_eq!(etag, "e");
    assert!(matches!(
        task.prepare_provider(PrepareEvent::VersionRecorded(Ok(()))),
        PrepareStep::Finish(Ok(None))
    ));
    assert!(matches!(ready(""), PrepareStep::Finish(Ok(None))));
}

#[test]
fn a_version_is_recorded_after_every_file() {
    assert!(ProviderRun::begin(0)
        .unwrap_err()
        .message()
        .ends_with("Provider row allocation must be greater than zero"));
    let mut run = ProviderRun::begin(5).unwrap();
    run.add_file(FileResult::Processed(prepared_file("a"), outcome(true, 2)));
    let (version, ended) = run.end(provider(), downloaded("e"), 4).unwrap();
    assert_eq!(version.as_deref(), Some("e"));
    assert!(ended.remaining.is_none());
    assert_eq!(ended.rows_processed, 4);

    let mut open = ProviderRun::begin(5).unwrap();
    open.add_file(FileResult::Processed(prepared_file("b"), outcome(false, 2)));
    open.add_file(FileResult::Processed(prepared_file("a"), outcome(false, 3)));
    open.add_file(FileResult::Processed(prepared_file("c"), outcome(true, 3)));
    let (version, ended) = open.end(provider(), downloaded("e"), 5).unwrap();
    assert_eq!(version, None);
    let left = ended.remaining.unwrap();
    let names: Vec<&str> = left.files.iter().map(|file| file.csv_file.as_str()).collect();
    assert_eq!(names, ["a", "b"]);
    assert_eq!(left.files[0].checkpoint, place(3));

    let mut failed = ProviderRun::begin(5).unwrap();
    failed.add_file(FileResult::Failed);
    assert!(failed
        .end(provider(), downloaded("e"), 0)
        .unwrap_err()
        .message()
        .ends_with("One or more CSV files failed"));
}

// ---------------------------------------------------------------------------
// Downloads
// ---------------------------------------------------------------------------
#[test]
fn a_feed_is_downloaded_where_it_changed() {
    let head = |not_modified, length: Option<&str>| FeedHead {
        not_modified,
        etag: Some("new".to_owned()),
        content_length: length.map(str::to_owned),
    };
    let requested = || {
        let DownloadStep::Continue(task, DownloadAction::Request { if_none_match }) =
            DownloadTask::new(100).download_feed(DownloadEvent::VersionRead(Ok(Some("old".to_owned()))))
        else {
            panic!("the feed is requested");
        };
        assert_eq!(if_none_match.as_deref(), Some("old"));
        task
    };
    let DownloadStep::Continue(task, DownloadAction::Receive) =
        requested().download_feed(DownloadEvent::Answered(Ok(head(false, Some("99")))))
    else {
        panic!("the feed is received");
    };
    let DownloadStep::Finish(Ok(Some(feed))) = task.download_feed(DownloadEvent::Received(Ok(99)))
    else {
        panic!("the feed is there");
    };
    assert_eq!((feed.previous_etag.as_str(), feed.remote_etag.as_str()), ("old", "new"));

    assert!(matches!(
        requested().download_feed(DownloadEvent::Answered(Ok(head(false, Some("101"))))),
        DownloadStep::Finish(Err(ProcessorError::Io(_)))
    ));
    let unchanged = || {
        let DownloadStep::Continue(task, DownloadAction::ReadSummary) =
            requested().download_feed(DownloadEvent::Answered(Ok(head(true, None))))
        else {
            panic!("the progress is summed up");
        };
        task
    };
    assert!(matches!(
        unchanged().download_feed(DownloadEvent::SummaryRead(Ok((3, 0)))),
        DownloadStep::Finish(Ok(None))
    ));
    for incomplete in [(3, 1), (0, 0)] {
        assert!(matches!(
            unchanged().download_feed(DownloadEvent::SummaryRead(Ok(incomplete))),
            DownloadStep::Continue(_, DownloadAction::Request { if_none_match: None })
        ));
    }
    assert!(matches!(
        DownloadTask::new(1).download_feed(DownloadEvent::VersionRead(Ok(None))),
        DownloadStep::Continue(_, DownloadAction::Request { if_none_match: None })
    ));
}

// ---------------------------------------------------------------------------
// Rotation
// ---------------------------------------------------------------------------
fn rotation() -> RotationTask {
    RotationTask {
        provider_name: "ktmb".to_owned(),
        database_id: "old-id".to_owned(),
        threshold_bytes: 100,
        max_databases: 2,
        holds_ledger: false,
        phase: RotationPhase::Describing,
    }
}

fn described(file_size: u64) -> RotationEvent {
    RotationEvent::Described(Ok(D1DatabaseInfo { name: "old-name".to_owned(), file_size }))
}

#[test]
fn a_full_database_is_rotated() {
    let RotationStep::Continue(task, RotationAction::Count) =
        rotation().rotate_database_if_needed(described(100))
    else {
        panic!("the databases are counted");
    };
    let now = Timestamp::new(1_787_904_000, 0).unwrap();
    let RotationStep::Continue(task, RotationAction::Create(name)) =
        task.rotate_database_if_needed(RotationEvent::Counted(Ok(1), now))
    else {
        panic!("a database is created");
    };
    assert_eq!(name, "gtfs-ktmb-db-20260828080000");
    let RotationStep::Continue(task, RotationAction::ApplySchema(id)) =
        task.rotate_database_if_needed(RotationEvent::Created(Ok("new-id".to_owned()), true))
    else {
        panic!("the schema is applied");
    };
    assert_eq!(id, "new-id");
    let RotationStep::Continue(task, RotationAction::Record(record)) =
        task.rotate_database_if_needed(RotationEvent::SchemaApplied(Ok(())))
    else {
        panic!("the rotation is recorded");
    };
    assert_eq!(record.retired_at, "2026-08-28T08:00:00+00:00");
    assert_eq!(record.retired_database_name, "old-name");
    assert!(matches!(
        task.rotate_database_if_needed(RotationEvent::Recorded(Ok(()))),
        RotationStep::Finish(Ok(Some(id))) if id == "new-id"
    ));
}

#[test]
fn a_rotation_may_be_refused_or_undone() {
    assert!(matches!(
        rotation().rotate_database_if_needed(described(99)),
        RotationStep::Finish(Ok(None))
    ));
    let mut ledger = rotation();
    ledger.holds_ledger = true;
    let RotationStep::Finish(Err(error)) = ledger.rotate_database_if_needed(described(100)) else {
        panic!("the ledger stays where it is");
    };
    assert!(error.message().ends_with(
        "The daily-budget database cannot rotate automatically; preserve its ledger when moving it"
    ));
    let now = Timestamp::new(0, 0).unwrap();
    let counting = || {
        let RotationStep::Continue(task, _) = rotation().rotate_database_if_needed(described(100))
        else {
            panic!("the databases are counted");
        };
        task
    };
    let RotationStep::Finish(Err(error)) =
        counting().rotate_database_if_needed(RotationEvent::Counted(Ok(2), now))
    else {
        panic!("the account is full");
    };
    assert!(error.message().contains("but the account already has 2/2."));
    let RotationStep::Continue(task, _) =
        counting().rotate_database_if_needed(RotationEvent::Counted(Ok(1), now))
    else {
        panic!("a database is created");
    };
    let RotationStep::Continue(task, RotationAction::Delete(id)) =
        task.rotate_database_if_needed(RotationEvent::Created(Ok("new-id".to_owned()), false))
    else {
        panic!("the new database is deleted");
    };
    assert_eq!(id, "new-id");
    let RotationStep::Finish(Err(error)) = task.rotate_database_if_needed(RotationEvent::Deleted)
    else {
        panic!("the rotation failed");
    };
    assert!(error.message().ends_with("No schema SQL found for provider ktmb"));
    assert!(Timestamp::new(253_402_300_800, 0).is_none());
    assert!(Timestamp::new(0, 1_000_000_000).is_none());
}

#[test]
fn rotations_are_recorded_once() {
    let record = RotationRecord {
        provider_name: "b".to_owned(),
        retired_database_id: "old".to_owned(),
        retired_database_name: "name".to_owned(),
        database_id: "new".to_owned(),
        retired_at: "now".to_owned(),
    };
    let content = "# providers\nbudget_provider = \"a\"\n\n[[providers]]\nname = \"a\"\ndatabase_id = \"1\"\n\n[[providers]]\nname = \"b\" # here\n";
    let written = persist_database_id("p.toml", content, &record).unwrap();
    assert!(written.starts_with("# providers\nbudget_provider = \"a\"\n"));
    assert!(written.contains("name = \"b\" # here"));
    assert_eq!(written.matches("database_id = \"1\"").count(), 1);
    assert_eq!(written.matches("[[retired_databases]]").count(), 1);
    let document = written.parse::<toml_edit::DocumentMut>().unwrap();
    let retired = document["retired_databases"].as_array_of_tables().unwrap().get(0).unwrap();
    let value = |key: &str| retired.get(key).and_then(|item| item.as_str()).unwrap().to_owned();
    assert_eq!(value("provider"), "b");
    assert_eq!(value("name"), "name");
    assert_eq!(value("database_id"), "old");
    assert_eq!(value("retired_at"), "now");
    assert_eq!(document["providers"][1]["database_id"].as_str(), Some("new"));
    let again = persist_database_id("p.toml", &written, &record).unwrap();
    assert_eq!(again, written);

    let text = |content: &str| persist_database_id("p.toml", content, &record).unwrap_err().message();
    assert!(text("providers = [").contains("Failed to parse p.toml: "));
    assert!(text("").ends_with("Provider b was not found in p.toml"));
    assert!(text("retired_databases = 1\n[[providers]]\nname = \"b\"\n")
        .ends_with("retired_databases in p.toml is not an array of tables"));
}

#[test]
fn rows_find_their_cells() {
    let row = Row {
        cells: vec![
            Cell { column: "a".to_owned(), value: SqlValue::Text("x".to_owned()) },
            Cell { column: "b".to_owned(), value: SqlValue::Negative(-2) },
            Cell { column: "c".to_owned(), value: SqlValue::Unsigned(u64::MAX) },
        ],
    };
    assert_eq!(row.get_text("a"), Some("x"));
    assert_eq!(row.get_text("b"), None);
    assert_eq!(row.get_signed("b"), Some(-2));
    assert_eq!(row.get_signed("c"), None);
    assert_eq!(row.get_unsigned("c"), Some(u64::MAX));
    assert!(row.get("z").is_none());
}
