use gtfs_worker::importer::batch::{BatchLimits, Checkpoint, RowBatcher};
use gtfs_worker::importer::catalog::{
    get_provider_schema_sql, parse_provider_schemas, ProviderSchema, SchemaTable,
};
use gtfs_worker::importer::client::{
    all_files_progress_from, all_files_progress_query, created_database, database_count,
    database_info, dataset_version_from, dataset_version_query, deleted_database,
    file_progress_summary_from, init_file_progress_query, schema_statements,
    set_dataset_version_query, update_file_progress_query, D1Client, DatabaseAnswer, DatabaseReply,
};
use gtfs_worker::importer::config::{
    bounded_usize, environment_value, positive_u64, positive_u64_alias, ConfigError,
    ProviderConfig, ProvidersToml, RuntimeConfig, Variable,
};
use gtfs_worker::importer::d1::{
    allowed_retries, is_retryable_status, reply_without_request, Attempt, Cell, D1Meta,
    D1Response, D1Result, RetryState, RetryStep, Row, SqlValue,
};
use gtfs_worker::importer::download::{check_declared_length, feed_url, FeedReceiver};
use gtfs_worker::importer::extract::{
    extract_and_batch_csv, BatchMessage, CsvExtractJob, Extraction, RowCounter,
};
use gtfs_worker::importer::fault::{D1Error, IoErrorKind, IoFailure, ProcessorError};
use gtfs_worker::importer::ledger::{
    day_number, is_budget_database, is_open, ledger_from, ledger_query, ledger_updated,
    reserve_checkpoint, update_ledger_query, DailyLease, DailyLedger,
};
use gtfs_worker::importer::budget::{D1WriteBudget, ReserveStep};
use gtfs_worker::importer::record::{
    read_bounded_record, validate_record_span, RecordReader, RecordSizeLimiter,
};
use gtfs_worker::importer::schema::parse_schema_file;
use gtfs_worker::importer::select::{
    discover_supported_files, entry_table, get_resume_state, plan_files, DiscoveredFile,
};
use gtfs_worker::importer::sql::quote_identifier;
use gtfs_worker::importer::storage::{TempFeedStorage, TemporaryFeed};
use gtfs_worker::importer::waves::{WaveResult, WaveStep, Workflow};
use gtfs_worker::sorting::in_order;
use std::io::{Cursor, Write};

fn texts(list: &[&str]) -> Vec<String> {
    list.iter().map(|text| text.to_string()).collect()
}

fn archive_of(entries: &[(&str, &[u8])]) -> Vec<u8> {
    let mut writer = zip::ZipWriter::new(Cursor::new(Vec::new()));
    for (name, contents) in entries {
        writer.start_file(*name, zip::write::SimpleFileOptions::default()).unwrap();
        writer.write_all(contents).unwrap();
    }
    writer.finish().unwrap().into_inner()
}

fn stops_schema() -> Vec<SchemaTable> {
    vec![SchemaTable {
        table: "stops".to_owned(),
        columns: texts(&["id", "name"]),
        keys: texts(&["id"]),
    }]
}

fn job(checkpoint: Checkpoint, max_rows: u64) -> CsvExtractJob {
    CsvExtractJob {
        provider_name: "test".to_owned(),
        csv_file: "stops.txt".to_owned(),
        table_name: "stops".to_owned(),
        db_columns: texts(&["id", "name"]),
        checkpoint,
        batch_size: 2,
        max_rows,
        max_record_bytes: 64,
        max_payload_bytes: 4096,
    }
}

fn extract(csv: &[u8], job: &CsvExtractJob) -> Extraction {
    let archive = archive_of(&[("stops.txt", csv)]);
    extract_and_batch_csv(&archive, job, &texts(&["id"]), &mut RowCounter::new())
}

fn payloads(extraction: &Extraction) -> Vec<&str> {
    extraction
        .messages
        .iter()
        .filter_map(|message| match message {
            BatchMessage::Data(batch) => Some(batch.payload.as_str()),
            BatchMessage::InitSql(_) => None,
        })
        .collect()
}

fn row(cells: Vec<(&str, SqlValue)>) -> Row {
    Row {
        cells: cells
            .into_iter()
            .map(|(column, value)| Cell { column: column.to_owned(), value })
            .collect(),
    }
}

fn answer(rows: Vec<Row>) -> Vec<D1Result> {
    vec![D1Result { results: rows, meta: None, success: Some(true) }]
}

fn environment(pairs: &[(&str, &str)]) -> Vec<Variable> {
    pairs
        .iter()
        .map(|(name, value)| Variable { name: name.to_string(), value: value.to_string() })
        .collect()
}

fn limits(pairs: &[(&str, &str)]) -> RuntimeConfig {
    RuntimeConfig::from_env(&environment(pairs), Some(4)).unwrap()
}

fn limit_fault(pairs: &[(&str, &str)]) -> String {
    RuntimeConfig::from_env(&environment(pairs), Some(4)).unwrap_err().message()
}

// ---------------------------------------------------------------------------
// Records and batches
// ---------------------------------------------------------------------------
#[test]
fn records_are_read_one_by_one() {
    let data = b"a,b\r\n\r\n\"x\ny\",2\n";
    let mut reader = RecordReader::new(0);
    let header = read_bounded_record(data, &None, &mut reader, 100).unwrap();
    assert_eq!(header.unwrap(), ["a", "b"]);
    let record = read_bounded_record(data, &None, &mut reader, 100).unwrap();
    assert_eq!(record.unwrap(), ["x\ny", "2"]);
    assert_eq!(reader.at, data.len() as u64);
    assert_eq!(read_bounded_record(data, &None, &mut reader, 100).unwrap(), None);
    assert_eq!(reader.at, data.len() as u64);
}

#[test]
fn a_byte_order_mark_is_dropped_only_where_reading_begins() {
    let data = b"\xef\xbb\xbfa,b\n\xef\xbb\xbfc,d\n";
    let mut reader = RecordReader::new(0);
    let header = read_bounded_record(data, &None, &mut reader, 100).unwrap();
    assert_eq!(header.unwrap(), ["a", "b"]);
    assert_eq!(reader.at, 7);
    let inside = read_bounded_record(data, &None, &mut reader, 100).unwrap();
    assert_eq!(inside.unwrap(), ["\u{feff}c", "d"]);
    assert_eq!(reader.at, data.len() as u64);
    let fresh = read_bounded_record(data, &None, &mut RecordReader::new(7), 100).unwrap();
    assert_eq!(fresh.unwrap(), ["c", "d"]);
}

fn read_error(data: &[u8], maximum_bytes: u64) -> String {
    read_bounded_record(data, &None, &mut RecordReader::new(0), maximum_bytes)
        .unwrap_err()
        .message()
}

#[test]
fn long_records_are_rejected() {
    let data = format!("{}\n", "x".repeat(20));
    assert_eq!(
        read_error(data.as_bytes(), 20),
        "I/O error: CSV record is 21 bytes, exceeding the configured 20-byte limit"
    );
    let endless = format!("{}\n", "x".repeat(70_000));
    assert_eq!(
        read_error(endless.as_bytes(), 20),
        "CSV error: CSV record exceeded the configured 20-byte limit"
    );
    let broken = read_error(b"\xff,1\n", 20);
    assert!(broken.starts_with("CSV error: "));
    assert!(broken.len() > "CSV error: ".len());
    // A record that goes on too far is not tested for UTF-8, wherever it is cut.
    for shift in 0..2 {
        let wide = format!("{}{}\n", "x".repeat(shift), "\u{e9}".repeat(40_000));
        assert_eq!(
            read_error(wide.as_bytes(), 20),
            "CSV error: CSV record exceeded the configured 20-byte limit"
        );
    }
    let early = format!("{}\n", "x".repeat(30)).into_bytes();
    let early: Vec<u8> = [&b"\xff"[..], &early].concat();
    assert!(read_error(&early, 20).contains("invalid utf-8"));
}

#[test]
fn bytes_that_were_read_already_count_for_the_next_record() {
    let error = |length: usize| {
        let data = format!("id,name\n1,{}\n", "x".repeat(length - 3));
        let mut reader = RecordReader::new(0);
        assert!(read_bounded_record(data.as_bytes(), &None, &mut reader, 1024).unwrap().is_some());
        read_bounded_record(data.as_bytes(), &None, &mut reader, 1024).unwrap_err().message()
    };
    let reach = (8 * 1024 - 8) + 1024 + 64 * 1024;
    assert_eq!(
        error(reach),
        format!("I/O error: CSV record is {reach} bytes, exceeding the configured 1024-byte limit")
    );
    assert_eq!(
        error(reach + 1),
        "CSV error: CSV record exceeded the configured 1024-byte limit"
    );
}

#[test]
fn a_record_that_is_no_text_is_named_by_its_place() {
    let data = b"id,name\n1,\"a\nb\"\n2,\xff\n";
    let mut reader = RecordReader::new(0);
    for _ in 0..2 {
        assert!(read_bounded_record(data, &None, &mut reader, 100).unwrap().is_some());
    }
    let error = read_bounded_record(data, &None, &mut reader, 100).unwrap_err();
    let mut whole =
        csv::ReaderBuilder::new().has_headers(false).flexible(true).from_reader(&data[..]);
    let said = whole.records().find_map(|record| record.err()).unwrap().to_string();
    assert_eq!(error.message(), format!("CSV error: {said}"));
    assert!(said.contains("record 2 (line 4, field: 1, byte: 16)"));
}

#[test]
fn a_file_that_cannot_be_read_on_fails_where_more_is_needed() {
    let fault = || {
        Some(IoFailure {
            kind: IoErrorKind::InvalidData,
            message: "Invalid checksum".to_owned(),
        })
    };
    let mut reader = RecordReader::new(0);
    let record = read_bounded_record(b"a,b\nc", &fault(), &mut reader, 100).unwrap();
    assert_eq!(record.unwrap(), ["a", "b"]);
    let error = read_bounded_record(b"a,b\nc", &fault(), &mut reader, 100).unwrap_err();
    assert_eq!(error.message(), "CSV error: Invalid checksum");
    let error = read_bounded_record(b"", &fault(), &mut RecordReader::new(0), 100).unwrap_err();
    assert_eq!(error.message(), "CSV error: Invalid checksum");
}

#[test]
fn spans_are_tested() {
    assert!(validate_record_span(10, 20, 10).is_ok());
    assert!(validate_record_span(20, 10, 0).is_ok());
    assert!(validate_record_span(10, 21, 10).is_err());
}

#[test]
fn a_limiter_hands_out_its_allowance() {
    let data = vec![7_u8; 70_000];
    let mut limiter = RecordSizeLimiter::new(&data, 100);
    assert_eq!(limiter.remaining_bytes, 100 + 64 * 1024);
    assert_eq!(limiter.read(0).unwrap().len(), 0);
    assert_eq!(limiter.read(70_000).unwrap().len(), 100 + 64 * 1024);
    let failure = limiter.read(1).unwrap_err();
    assert_eq!(failure.kind, IoErrorKind::InvalidData);
    assert_eq!(failure.message, "CSV record exceeded the configured 100-byte limit");
    limiter.reset();
    assert_eq!(limiter.read(10).unwrap().len(), 10);
}

#[test]
fn rows_are_batched_within_limits() {
    let place = |line| Checkpoint { line, byte: line * 10 };
    let mut batcher =
        RowBatcher::new(BatchLimits { batch_size: 10, max_payload_bytes: 11 }, place(0));
    let (sent, too_large) = batcher.take("[1]", place(0), place(1));
    assert!(sent.is_empty() && too_large.is_ok());
    let (sent, _) = batcher.take("[22]", place(1), place(2));
    assert!(sent.is_empty());
    let (sent, _) = batcher.take("[333]", place(2), place(3));
    assert_eq!(sent.len(), 1);
    assert_eq!(sent[0].payload, "[[1],[22]]");
    assert_eq!((sent[0].start, sent[0].end), (place(0), place(2)));
    let last = batcher.finish(place(3));
    assert_eq!(last[0].payload, "[[333]]");
    assert_eq!((last[0].start, last[0].end), (place(2), place(3)));
    let (_, too_large) = batcher.take("[4444444444]", place(3), place(4));
    assert!(too_large.is_err());
}

// ---------------------------------------------------------------------------
// Extraction
// ---------------------------------------------------------------------------
#[test]
fn rows_are_sent_once_and_in_order() {
    let csv = b"name,id,extra\na,1,x\nb,2\nc,3,x,y\n";
    let extraction = extract(csv, &job(Checkpoint::default(), 100));
    let BatchMessage::InitSql(sql) = &extraction.messages[0] else {
        panic!("the statement comes first");
    };
    assert!(sql.starts_with("INSERT INTO \"stops\" (\"id\", \"name\") SELECT"));
    assert_eq!(payloads(&extraction), ["[[\"1\",\"a\"],[\"2\",\"b\"]]", "[[\"3\",\"c\"]]"]);
    let outcome = extraction.result.unwrap();
    assert!(outcome.file_done);
    assert_eq!(outcome.checkpoint, Checkpoint { line: 3, byte: csv.len() as u64 });
}

#[test]
fn a_limit_that_is_reached_with_the_file_ends_it() {
    let csv = b"id,name\n1,a\n2,b\n";
    let outcome = extract(csv, &job(Checkpoint::default(), 2)).result.unwrap();
    assert!(outcome.file_done);
    let started = extract(csv, &job(Checkpoint::default(), 0));
    assert!(started.messages.is_empty());
    assert!(!started.result.unwrap().file_done);
}

#[test]
fn a_line_alone_finds_its_byte() {
    let csv = b"id,name\n1,a\n2,\"b\nb\"\n3,c\n";
    let by_line = extract(csv, &job(Checkpoint { line: 2, byte: 0 }, 100));
    let by_byte = extract(csv, &job(Checkpoint { line: 2, byte: 20 }, 100));
    assert_eq!(payloads(&by_line), ["[[\"3\",\"c\"]]"]);
    assert_eq!(payloads(&by_line), payloads(&by_byte));
    assert_eq!(by_line.result.unwrap(), by_byte.result.unwrap());
    let beyond = extract(csv, &job(Checkpoint { line: 9, byte: 0 }, 100));
    assert_eq!(
        beyond.result.unwrap().checkpoint,
        Checkpoint { line: 9, byte: csv.len() as u64 }
    );
}

#[test]
fn checkpoints_outside_the_rows_are_rejected() {
    let csv = b"id,name\n1,a\n";
    let early = extract(csv, &job(Checkpoint { line: 0, byte: 3 }, 100));
    assert_eq!(
        early.result.unwrap_err().message(),
        "I/O error: saved byte offset 3 for stops.txt precedes the CSV header boundary 8"
    );
    let late = extract(csv, &job(Checkpoint { line: 0, byte: 99 }, 100));
    assert_eq!(
        late.result.unwrap_err().message(),
        "I/O error: saved byte offset 99 for stops.txt exceeds its 12-byte uncompressed size"
    );
}

#[test]
fn files_that_cannot_be_imported_say_why() {
    let other = extract(b"x,y\n1,2\n", &job(Checkpoint::default(), 100));
    assert!(other.messages.is_empty());
    assert!(other.result.unwrap().file_done);

    let mut missing = job(Checkpoint::default(), 100);
    missing.csv_file = "trips.txt".to_owned();
    let error = extract(b"id\n", &missing).result.unwrap_err();
    assert!(error.message().starts_with("Zip error: "));
    assert!(error.message().len() > "Zip error: ".len());

    let mut narrow = job(Checkpoint::default(), 100);
    narrow.max_payload_bytes = 12;
    let large = extract(b"id,name\n1,a\n2,bbbb\n", &narrow);
    assert_eq!(payloads(&large), ["[[\"1\",\"a\"]]"]);
    assert_eq!(
        large.result.unwrap_err().message(),
        "I/O error: serialized CSV row made its statement payload 14 bytes, exceeding the configured 12-byte limit"
    );
}

/// An archive whose only entry does not have the checksum that it declares.
fn damaged(csv: &[u8], from: &[u8], to: &[u8]) -> Vec<u8> {
    let mut writer = zip::ZipWriter::new(Cursor::new(Vec::new()));
    let options = zip::write::SimpleFileOptions::default()
        .compression_method(zip::CompressionMethod::Stored);
    writer.start_file("stops.txt", options).unwrap();
    writer.write_all(csv).unwrap();
    let mut archive = writer.finish().unwrap().into_inner();
    let place = archive.windows(from.len()).position(|window| window == from).unwrap();
    archive[place..place + from.len()].copy_from_slice(to);
    archive
}

#[test]
fn a_damaged_file_is_read_as_far_as_it_goes() {
    let csv = b"id,name\n1,a\n2,b\n3,c\n";
    let archive = damaged(csv, b"2,b", b"2,x");
    let extract = |max_rows: u64| {
        extract_and_batch_csv(
            &archive,
            &job(Checkpoint::default(), max_rows),
            &texts(&["id"]),
            &mut RowCounter::new(),
        )
    };
    let all = extract(100);
    assert_eq!(payloads(&all), ["[[\"1\",\"a\"],[\"2\",\"x\"]]"]);
    assert_eq!(all.result.unwrap_err().message(), "CSV error: Invalid checksum");
    let some = extract(3);
    assert_eq!(payloads(&some), ["[[\"1\",\"a\"],[\"2\",\"x\"]]", "[[\"3\",\"c\"]]"]);
    assert_eq!(
        some.result.unwrap().checkpoint,
        Checkpoint { line: 3, byte: csv.len() as u64 }
    );
    let late = extract_and_batch_csv(
        &archive,
        &job(Checkpoint { line: 3, byte: 99 }, 100),
        &texts(&["id"]),
        &mut RowCounter::new(),
    );
    assert_eq!(late.result.unwrap_err().message(), "I/O error: Invalid checksum");
}

#[test]
fn resuming_sends_what_one_extraction_sends() {
    let csv = b"id,name\n1,a\n2,\"b\nb\"\n3,c\n4,d\n";
    let rows = |extraction: &Extraction| {
        payloads(extraction)
            .iter()
            .map(|payload| payload.trim_start_matches('[').trim_end_matches(']').to_owned())
            .collect::<Vec<_>>()
            .join("],[")
    };
    let contents: [(&[u8], Checkpoint); 4] = [
        (csv, Checkpoint::default()),
        (csv, Checkpoint { line: 1, byte: 12 }),
        (csv, Checkpoint { line: 9, byte: 0 }),
        (b"x,y\n1,2\n", Checkpoint::default()),
    ];
    for (csv, start) in contents {
        for n in 0..6 {
            for m in 0..6 {
                let first = extract(csv, &job(start, n));
                let place = first.result.as_ref().unwrap().checkpoint;
                let second = extract(csv, &job(place, m));
                let whole = extract(csv, &job(start, n + m));
                let parts: Vec<String> = [rows(&first), rows(&second)]
                    .into_iter()
                    .filter(|part| !part.is_empty())
                    .collect();
                assert_eq!(rows(&whole), parts.join("],["));
                assert_eq!(
                    whole.result.unwrap().checkpoint,
                    second.result.unwrap().checkpoint
                );
            }
        }
    }
}

#[test]
fn quotes_in_names_are_doubled() {
    assert_eq!(quote_identifier("a\"b"), "\"a\"\"b\"");
}

// ---------------------------------------------------------------------------
// Files of a feed
// ---------------------------------------------------------------------------
#[test]
fn entries_are_for_tables() {
    assert_eq!(entry_table("feed/stops.txt").as_deref(), Some("stops"));
    assert_eq!(entry_table("stops.csv"), None);
    assert_eq!(entry_table("__MACOSX/stops.txt"), None);
    assert_eq!(entry_table("feed/._stops.txt"), None);
    assert_eq!(entry_table("daily_import_budget.txt"), None);
    assert_eq!(entry_table("stops.txt/"), None);
}

#[test]
fn known_files_are_discovered() {
    let archive = archive_of(&[
        ("feed/stops.txt", b"id,name\n"),
        ("trips.txt", b"id\n"),
        ("readme.md", b"hello"),
    ]);
    let files = discover_supported_files(&archive, &stops_schema(), 100).unwrap();
    assert_eq!(files.len(), 1);
    assert_eq!(files[0].csv_file, "feed/stops.txt");
    assert_eq!(files[0].table_name, "stops");
    assert_eq!(files[0].db_columns, ["id", "name"]);
    assert_eq!(files[0].crc.len(), 8);

    let error = discover_supported_files(&archive, &stops_schema(), 7).unwrap_err();
    assert_eq!(
        error.message(),
        "I/O error: supported CSV files expand to 8 bytes, exceeding the configured 7-byte limit"
    );
    assert!(discover_supported_files(b"no archive", &stops_schema(), 7)
        .unwrap_err()
        .message()
        .starts_with("Zip error: "));

    let names: Vec<String> = (0..257).map(|i| format!("f{i}.txt")).collect();
    let entries: Vec<(&str, &[u8])> = names.iter().map(|name| (name.as_str(), &b""[..])).collect();
    assert_eq!(
        discover_supported_files(&archive_of(&entries), &stops_schema(), 7).unwrap_err().message(),
        "I/O error: feed contains 257 archive entries, exceeding the supported maximum of 256"
    );
}

#[test]
fn a_checksum_is_written_in_eight_digits() {
    let archive = archive_of(&[("stops.txt", b"")]);
    let files = discover_supported_files(&archive, &stops_schema(), 100).unwrap();
    assert_eq!(files[0].crc, "00000000");
    let archive = archive_of(&[("stops.txt", b"a")]);
    let files = discover_supported_files(&archive, &stops_schema(), 100).unwrap();
    assert_eq!(files[0].crc, "e8b7be43");
}

#[test]
fn files_resume_where_they_stopped() {
    let progress = |crc: &str, status: SqlValue| {
        row(vec![
            ("FileName", SqlValue::Text("stops.txt".to_owned())),
            ("CRC", SqlValue::Text(crc.to_owned())),
            ("Status", status),
            ("LastProcessedLine", SqlValue::Unsigned(5)),
            ("LastProcessedByte", SqlValue::Unsigned(50)),
        ])
    };
    let start = Some(Checkpoint::default());
    assert_eq!(get_resume_state(None, "aa"), start);
    assert_eq!(get_resume_state(Some(&progress("bb", SqlValue::Unsigned(0))), "aa"), start);
    assert_eq!(get_resume_state(Some(&progress("aa", SqlValue::Unsigned(0))), "aa"), None);
    assert_eq!(
        get_resume_state(Some(&progress("aa", SqlValue::Unsigned(1))), "aa"),
        Some(Checkpoint { line: 5, byte: 50 })
    );
    assert_eq!(
        get_resume_state(Some(&progress("aa", SqlValue::Null)), "aa"),
        Some(Checkpoint { line: 5, byte: 50 })
    );

    let discovered = |name: &str| DiscoveredFile {
        csv_file: name.to_owned(),
        crc: "aa".to_owned(),
        table_name: "t".to_owned(),
        db_columns: texts(&["id"]),
    };
    let rows = vec![progress("aa", SqlValue::Unsigned(0))];
    let files = plan_files(vec![discovered("stops.txt"), discovered("trips.txt")], &rows);
    assert_eq!(files.len(), 1);
    assert_eq!(files[0].csv_file, "trips.txt");
    assert_eq!(files[0].checkpoint, Checkpoint::default());
}

#[test]
fn schemas_are_read_from_sql() {
    let sql = "-- comment\nCREATE TABLE IF NOT EXISTS stops (\n  stop_id TEXT PRIMARY KEY,\n  stop_name TEXT,\n  UNIQUE (stop_name)\n);\ncreate table trips (id INTEGER, route TEXT, PRIMARY KEY (id, route));\nCREATE INDEX i ON stops (stop_name);\nCREATE TABLE stops (\n  only TEXT\n)\n";
    let tables = parse_schema_file(sql);
    assert_eq!(tables.len(), 2);
    assert_eq!(tables[0].table, "stops");
    assert_eq!(tables[0].columns, ["only"]);
    assert!(tables[0].keys.is_empty());
    assert_eq!(tables[1].table, "trips");
    // One line is parted at its commas, also at the one inside the key.
    assert_eq!(tables[1].columns, ["id", "route", "route)"]);
    assert_eq!(tables[1].keys, ["id", "route"]);

    let catalog = vec![ProviderSchema::from_sql(
        "ktmb".to_owned(),
        "CREATE TABLE a (\n x TEXT\n);".to_owned(),
        vec!["CREATE TABLE b (y TEXT);".to_owned()],
    )];
    assert_eq!(parse_provider_schemas(&catalog, "ktmb").unwrap()[0].columns, ["x"]);
    assert!(parse_provider_schemas(&catalog, "x").is_none());
    assert_eq!(get_provider_schema_sql(&catalog, "ktmb").unwrap().len(), 2);
    assert!(get_provider_schema_sql(&catalog, "x").is_none());
}

// ---------------------------------------------------------------------------
// Configuration
// ---------------------------------------------------------------------------
#[test]
fn limits_have_defaults() {
    let config = limits(&[]);
    assert_eq!(config.csv_concurrency_limit, 4);
    assert_eq!(config.max_d1_rows_written_per_workflow, 100_000);
    assert_eq!(config.db_size_threshold_bytes, 400 * 1024 * 1024);
    assert_eq!(config.max_feed_download_bytes, 256 * 1024 * 1024);
    assert_eq!(config.max_csv_record_bytes, 512 * 1024);
    assert_eq!(config.max_statement_payload_bytes, 1536 * 1024);
    assert_eq!(config.http_connect_timeout, 10);
    assert_eq!(config.http_request_timeout, 120);
    assert_eq!(config.d1_query_timeout, 35);
    let cpus = |detected| RuntimeConfig::from_env(&Vec::new(), detected).unwrap().csv_concurrency_limit;
    assert_eq!((cpus(None), cpus(Some(0)), cpus(Some(100))), (2, 1, 8));
}

#[test]
fn limits_follow_the_environment() {
    let config = limits(&[
        ("CSV_CONCURRENCY_LIMIT", " 20 "),
        ("MAX_ROWS_PER_RUN", "77"),
        ("DB_SIZE_THRESHOLD_MB", "490"),
        ("D1_DATABASE_CONCURRENCY_LIMIT", "  "),
    ]);
    assert_eq!(config.csv_concurrency_limit, 20);
    assert_eq!(config.max_rows_per_workflow, 77);
    assert_eq!(config.db_size_threshold_bytes, 490 * 1024 * 1024);
    assert_eq!(limits(&[("MAX_ROWS_PER_RUN", "7"), ("MAX_ROWS_PER_WORKFLOW", "9")]).max_rows_per_workflow, 9);
}

#[test]
fn wrong_limits_are_named() {
    assert_eq!(
        limit_fault(&[("CSV_CONCURRENCY_LIMIT", "many")]),
        "invalid CSV_CONCURRENCY_LIMIT=\"many\": must be a positive integer"
    );
    assert_eq!(
        limit_fault(&[("CSV_CONCURRENCY_LIMIT", "65")]),
        "invalid CSV_CONCURRENCY_LIMIT=\"65\": is outside the supported positive range"
    );
    assert_eq!(
        limit_fault(&[("MAX_ROWS_PER_WORKFLOW", "0")]),
        "invalid MAX_ROWS_PER_WORKFLOW=\"0\": must be greater than zero"
    );
    assert!(limit_fault(&[("DB_SIZE_THRESHOLD_MB", "18446744073709551615")])
        .ends_with(": must fit in bytes"));
    for inconsistent in [
        ("MAX_STATEMENT_PAYLOAD_KB", "2000"),
        ("MAX_CSV_RECORD_KB", "1900"),
        ("MAX_TEMP_FEED_STORAGE_MB", "1"),
        ("MAX_D1_ROWS_WRITTEN_PER_WORKFLOW", "1"),
    ] {
        assert!(RuntimeConfig::from_env(&environment(&[inconsistent]), None).is_err());
    }
}

#[test]
fn variables_are_trimmed() {
    let set = environment(&[("A", " x "), ("B", "  "), ("C", "5"), ("D", "0"), ("E", "x")]);
    assert_eq!(environment_value(&set, "A").as_deref(), Some("x"));
    assert_eq!(environment_value(&set, "B"), None);
    assert_eq!(environment_value(&set, "Z"), None);
    assert_eq!(bounded_usize(&set, "C", 1, 5).unwrap(), 5);
    assert!(bounded_usize(&set, "C", 1, 4).is_err());
    assert_eq!(positive_u64(&set, "Z", 3).unwrap(), 3);
    assert!(positive_u64(&set, "D", 3).is_err());
    assert!(positive_u64(&set, "E", 3).is_err());
    assert_eq!(positive_u64_alias(&set, "Z", "C", 3).unwrap(), 5);
    assert_eq!(
        ConfigError::Toml("bad".to_owned()).message(),
        "TOML parsing error: bad"
    );
}

#[test]
fn one_provider_holds_the_budget() {
    let provider = |name: &str, id: &str, is_active| ProviderConfig {
        name: name.to_owned(),
        is_active,
        static_url: "https://feeds/".to_owned(),
        static_provider: "x".to_owned(),
        database_id: id.to_owned(),
    };
    let mut providers = ProvidersToml {
        budget_provider: "b".to_owned(),
        providers: vec![provider("a", "1", true), provider("b", "2", false), provider("b", "3", true)],
    };
    assert_eq!(providers.budget_database(), Ok("2"));
    providers.providers[1].database_id.clear();
    assert!(providers.budget_database().is_err());
    providers.budget_provider = "z".to_owned();
    assert_eq!(
        providers.budget_database(),
        Err("budget_provider must name a configured provider with a database_id")
    );
    assert!(provider("a", "1", true).is_importable());
    assert!(!provider("a", "", true).is_importable());
    assert!(!provider("a", "1", false).is_importable());
    assert_eq!(feed_url(&provider("a", "1", true)), "https://feeds/x");
}

// ---------------------------------------------------------------------------
// The D1 client
// ---------------------------------------------------------------------------
#[test]
fn tokens_must_fit_a_header() {
    let error = D1Client::new("a".to_owned(), "bad\ntoken".to_owned(), &limits(&[])).unwrap_err();
    assert_eq!(
        error.message(),
        "D1 API error: Invalid API token header: failed to parse header value"
    );
    let client = D1Client::new("acc".to_owned(), "token".to_owned(), &limits(&[])).unwrap();
    assert_eq!(client.authorization, "Bearer token");
    assert_eq!(
        client.query_url("db"),
        "https://api.cloudflare.com/client/v4/accounts/acc/d1/database/db/query"
    );
    assert_eq!(
        client.database_url("db"),
        "https://api.cloudflare.com/client/v4/accounts/acc/d1/database/db"
    );
    assert_eq!(
        client.databases_url(),
        "https://api.cloudflare.com/client/v4/accounts/acc/d1/database"
    );
}

#[test]
fn statements_carry_their_parameters() {
    assert_eq!(dataset_version_query("p").params.len(), 1);
    assert_eq!(set_dataset_version_query("p", "e").params.len(), 2);
    assert!(all_files_progress_query("p").sql.starts_with("SELECT FileName, CRC"));
    let init = init_file_progress_query("p", "f", "c", 1, 2, -3);
    assert!(matches!(init.params[4], SqlValue::Unsigned(2)));
    assert!(matches!(init.params[5], SqlValue::Negative(-3)));
    let update = update_file_progress_query("p", "f", 1, 2, 0);
    assert!(matches!(update.params[2], SqlValue::Unsigned(0)));
    assert_eq!(update.params.len(), 8);
    assert_eq!(
        schema_statements(" CREATE TABLE a (x);\n\n; CREATE INDEX i ON a (x) "),
        ["CREATE TABLE a (x)", "CREATE INDEX i ON a (x)"]
    );
}

#[test]
fn answers_are_read() {
    let etag = row(vec![("ETag", SqlValue::Text("e".to_owned()))]);
    assert_eq!(dataset_version_from(&answer(vec![etag])).as_deref(), Some("e"));
    assert_eq!(dataset_version_from(&answer(Vec::new())), None);
    assert_eq!(dataset_version_from(&answer(vec![row(vec![("ETag", SqlValue::Null)])])), None);
    let summary = row(vec![("total", SqlValue::Unsigned(3)), ("incomplete", SqlValue::Other)]);
    assert_eq!(file_progress_summary_from(&answer(vec![summary])), (3, 0));
    assert_eq!(all_files_progress_from(answer(vec![row(Vec::new()), row(Vec::new())])).len(), 2);
    assert!(all_files_progress_from(Vec::new()).is_empty());
}

#[test]
fn answers_about_databases_are_checked() {
    let full = || DatabaseAnswer {
        success: true,
        debug: "{}".to_owned(),
        has_result: true,
        name: Some("n".to_owned()),
        file_size: Some(7),
        uuid: Some("u".to_owned()),
        total_count: Some(4),
    };
    let said = |answer| DatabaseReply::Answered(answer);
    let info = database_info("d", said(full())).unwrap();
    assert_eq!((info.name.as_str(), info.file_size), ("n", 7));
    assert_eq!(database_count(said(full())).unwrap(), 4);
    assert_eq!(created_database("n", said(full())).unwrap(), "u");
    assert!(deleted_database("d", said(full())).is_ok());

    let text = |error: D1Error| error.message();
    assert_eq!(
        text(database_info("d", DatabaseReply::Refused("no".to_owned())).unwrap_err()),
        "D1 API error: Failed to get database d: no"
    );
    assert_eq!(
        text(database_info("d", said(DatabaseAnswer { success: false, ..full() })).unwrap_err()),
        "D1 API error: API success=false: {}"
    );
    assert_eq!(
        text(database_info("d", said(DatabaseAnswer { has_result: false, ..full() })).unwrap_err()),
        "D1 API error: Database d response did not contain a result"
    );
    assert_eq!(
        text(database_info("d", said(DatabaseAnswer { name: None, ..full() })).unwrap_err()),
        "D1 API error: Database d response did not contain a name"
    );
    assert_eq!(
        text(database_info("d", said(DatabaseAnswer { file_size: None, ..full() })).unwrap_err()),
        "D1 API error: Database d response did not contain a numeric file_size"
    );
    assert!(database_count(DatabaseReply::Refused("no".to_owned())).is_err());
    assert!(database_count(said(DatabaseAnswer { total_count: None, ..full() })).is_err());
    assert!(created_database("n", said(DatabaseAnswer { uuid: None, ..full() })).is_err());
    assert!(deleted_database("d", said(DatabaseAnswer { success: false, ..full() })).is_err());
}

#[test]
fn requests_are_tried_again_within_bounds() {
    assert!(is_retryable_status(500) && is_retryable_status(429) && is_retryable_status(408));
    assert!(!is_retryable_status(404) && !is_retryable_status(200));
    assert_eq!((allowed_retries(true), allowed_retries(false)), (0, 3));

    let refused = |status, retry_after| Attempt::Refused {
        status,
        status_text: format!("{status} X"),
        retry_after,
        body: "busy".to_owned(),
    };
    let mut state = RetryState::new(3);
    assert!(matches!(state.next(refused(503, Some(99))), RetryStep::Retry { delay: 30 }));
    assert!(matches!(state.next(Attempt::Unreadable("x".to_owned())), RetryStep::Retry { delay: 2 }));
    let failed = Attempt::Failed { reason: "reset".to_owned(), is_builder: false };
    assert!(matches!(state.next(failed), RetryStep::Retry { delay: 4 }));
    let answered = D1Response { success: true, result: Some(answer(Vec::new())), errors: None };
    assert!(matches!(
        state.next(Attempt::Answered(answered)),
        RetryStep::Done(Ok((results, true))) if results.len() == 1
    ));
    assert!(matches!(
        state.next(refused(503, None)),
        RetryStep::Done(Err(D1Error::ApiError(text))) if text == "HTTP 503 X: busy"
    ));

    let mut first = RetryState::new(3);
    assert!(matches!(first.next(refused(404, None)), RetryStep::Done(Err(_))));
    let builder = Attempt::Failed { reason: "url".to_owned(), is_builder: true };
    assert!(matches!(
        first.next(builder),
        RetryStep::Done(Err(D1Error::Reqwest(text))) if text == "url"
    ));
    let broken = D1Response { success: false, result: None, errors: Some(texts(&["e1", "e2"])) };
    let RetryStep::Done(Err(error)) = first.next(Attempt::Answered(broken)) else {
        panic!("the query failed");
    };
    assert_eq!(error.message(), "D1 query failed: Some([e1, e2])");
}

#[test]
fn errors_have_texts() {
    assert_eq!(D1Error::QueryFailed(None).message(), "D1 query failed: None");
    assert_eq!(
        D1Error::WriteBudgetExhausted { requested: 4, remaining: 3 }.message(),
        "D1 workflow write budget exhausted: requested 4 reserved writes with 3 remaining"
    );
    assert_eq!(
        ProcessorError::D1(D1Error::Reqwest("x".to_owned())).message(),
        "D1 error: Reqwest error: x"
    );
    assert_eq!(ProcessorError::Reqwest("x".to_owned()).message(), "Reqwest error: x");
    assert_eq!(ProcessorError::TaskJoin("x".to_owned()).message(), "task failed to join: x");
    assert_eq!(
        ProcessorError::UploaderClosed.message(),
        "batch uploader closed before extraction completed"
    );
    let json = serde_json::from_str::<u64>("x").unwrap_err();
    let text = json.to_string();
    assert_eq!(ProcessorError::Json(json).message(), format!("JSON error: {text}"));
    let failure = IoFailure { kind: IoErrorKind::Other, message: "disk".to_owned() };
    assert_eq!(ConfigError::Io(failure).message(), "I/O error: disk");
}

// ---------------------------------------------------------------------------
// Budgets
// ---------------------------------------------------------------------------
#[test]
fn a_day_has_one_hundred_thousand_writes() {
    let mut ledger = DailyLedger { day: 0, leased: 0 };
    let lease = ledger.acquire_daily_budget(20_000, 100_000).unwrap();
    assert_eq!(lease, DailyLease { day: 20_000, writes: 100_000 });
    assert_eq!(lease.data_writes(), 98_998);
    // Two writes per row.
    assert_eq!(lease.data_writes() / 2, 49_499);
    assert!(ledger.acquire_daily_budget(20_000, 100_000).is_none());

    ledger.release_daily_budget(&lease, 50_000, 900);
    assert_eq!(ledger.leased, 49_100);
    let second = ledger.acquire_daily_budget(20_000, 100_000).unwrap();
    assert_eq!(second.writes, 50_900);
    assert_eq!(ledger.leased, 100_000);

    // A new day starts again, and an old lease returns nothing to it.
    let third = ledger.acquire_daily_budget(20_001, 1_003).unwrap();
    assert_eq!((third.writes, third.data_writes()), (1_003, 1));
    ledger.release_daily_budget(&second, 10, 10);
    assert_eq!(ledger, DailyLedger { day: 20_001, leased: 1_003 });
    assert!(ledger.acquire_daily_budget(20_001, 1_002).is_none());
}

#[test]
fn leases_close_before_midnight() {
    let lease = DailyLease { day: 1, writes: 2_000 };
    assert_eq!(day_number(86_400), 1);
    assert!(is_open(&lease, 86_400));
    assert!(is_open(&lease, 2 * 86_400 - 61));
    assert!(!is_open(&lease, 2 * 86_400 - 60));
    assert!(!is_open(&lease, 2 * 86_400));
    assert!(is_budget_database("a", "a") && !is_budget_database("a", "b"));
}

#[test]
fn the_ledger_is_kept_in_a_table() {
    assert_eq!(ledger_query().sql, "SELECT Day, Leased FROM daily_import_budget WHERE Id = 1");
    let kept = row(vec![("Day", SqlValue::Unsigned(9)), ("Leased", SqlValue::Unsigned(5))]);
    assert_eq!(ledger_from(&answer(vec![kept])), DailyLedger { day: 9, leased: 5 });
    assert_eq!(ledger_from(&answer(Vec::new())), DailyLedger { day: 0, leased: 0 });
    let update = update_ledger_query(
        &DailyLedger { day: 9, leased: 5 },
        &DailyLedger { day: 9, leased: 8 },
    );
    assert!(matches!(update.params[1], SqlValue::Unsigned(8)));
    assert!(matches!(update.params[3], SqlValue::Unsigned(5)));
}

#[test]
fn a_change_of_the_ledger_must_be_told() {
    let told = |rows_written: u64| {
        vec![D1Result {
            results: Vec::new(),
            meta: Some(D1Meta { rows_read: 1, rows_written }),
            success: Some(true),
        }]
    };
    assert!(ledger_updated(&told(1)).is_ok());
    let lost = ledger_updated(&told(0)).unwrap_err();
    assert!(matches!(lost, D1Error::ApiError(text) if text == "The daily ledger changed meanwhile"));
    for untold in [answer(Vec::new()), Vec::new()] {
        assert!(matches!(
            ledger_updated(&untold).unwrap_err(),
            D1Error::ApiError(text)
                if text == "D1 response omitted rows_written metadata for the daily ledger"
        ));
    }
}

#[test]
fn a_batch_without_statements_needs_no_request() {
    let (results, repeated) = reply_without_request(0).unwrap();
    assert!(results.is_empty() && !repeated);
    assert!(reply_without_request(1).is_none());
}

#[test]
fn checkpoints_reserve_their_writes() {
    let mut metadata = D1WriteBudget::new(3);
    let ReserveStep::Granted(reservation) = reserve_checkpoint(&mut metadata) else {
        panic!("two writes are there");
    };
    assert_eq!(reservation.reserved, 2);
    assert!(matches!(reserve_checkpoint(&mut metadata), ReserveStep::Wait));
    assert!(reservation.finish(&mut metadata, 5).is_err());
    assert_eq!(metadata.remaining, 0);
    assert!(matches!(reserve_checkpoint(&mut metadata), ReserveStep::Exhausted(_)));
}

#[test]
fn storage_is_given_back() {
    let mut storage = TempFeedStorage::new(100);
    let mut feed = TemporaryFeed::new();
    assert!(feed.reserve(&mut storage, 60).is_ok());
    let failure = feed.reserve(&mut storage, 50).unwrap_err();
    assert_eq!(
        failure.message,
        "temporary feed storage would exceed its 100-byte limit (60 bytes already reserved, 50 requested)"
    );
    feed.remove(&mut storage, false);
    assert_eq!(storage.used_bytes, 60);
    TemporaryFeed { reserved_bytes: 60 }.remove(&mut storage, true);
    assert_eq!(storage.used_bytes, 0);
}

#[test]
fn downloads_are_limited() {
    assert!(check_declared_length(Some("100"), 100).is_ok());
    assert!(check_declared_length(None, 0).is_ok());
    assert!(check_declared_length(Some("x"), 0).is_ok());
    assert_eq!(
        check_declared_length(Some("101"), 100).unwrap_err().message(),
        "I/O error: feed declares 101 bytes, exceeding the configured 100-byte download limit"
    );
    let mut storage = TempFeedStorage::new(80);
    let mut receiver = FeedReceiver::new(100);
    assert!(receiver.accept_chunk(&mut storage, 70).is_ok());
    assert!(receiver.accept_chunk(&mut storage, 20).unwrap_err().message().contains("80-byte limit"));
    let mut large = FeedReceiver::new(10);
    assert_eq!(
        large.accept_chunk(&mut storage, 11).unwrap_err().message(),
        "I/O error: feed exceeded the configured 10-byte download limit while streaming"
    );
}

#[test]
fn waves_share_what_is_left() {
    assert_eq!(
        Workflow::start(2, 3, false).unwrap_err(),
        "MAX_ROWS_PER_WORKFLOW=2 cannot provide at least one row to each of the 3 providers with pending work"
    );
    let mut workflow = Workflow::start(10, 3, false).unwrap();
    assert!(workflow.has_wave(3) && !workflow.has_wave(0));
    let plan = workflow.plan_wave(3);
    assert_eq!((plan.shares.as_slice(), plan.allocated), (&[4, 3, 3][..], 10));
    assert!(!plan.is_put_off(2));
    assert_eq!(workflow.plan_wave(0).allocated, 0);
    let crowded = workflow.plan_wave(11);
    assert!(!crowded.is_put_off(9) && crowded.is_put_off(10));
    let done = |max_rows, rows| WaveResult { max_rows, processed: Some((rows, false)) };
    let step = workflow.finish_wave(&vec![done(4, 4), done(3, 1), done(3, 0)], 10);
    assert_eq!(step, WaveStep::Continue);
    assert_eq!((workflow.total_rows_processed, workflow.remaining_budget, workflow.wave), (5, 5, 2));
    assert_eq!(workflow.finish_wave(&vec![done(5, 5)], 5), WaveStep::Stop);
    assert!(!workflow.has_wave(1));

    let mut failed = Workflow::start(10, 1, false).unwrap();
    let broken = WaveResult { max_rows: 5, processed: None };
    assert_eq!(failed.finish_wave(&vec![broken], 10), WaveStep::Stop);
    assert!(failed.has_error);
    let mut exceeded = Workflow::start(10, 1, false).unwrap();
    exceeded.finish_wave(&vec![done(2, 3)], 10);
    assert!(exceeded.has_error);
    assert_eq!(exceeded.total_rows_processed, 2);
    let mut spent = Workflow::start(10, 1, false).unwrap();
    let exhausted = WaveResult { max_rows: 5, processed: Some((1, true)) };
    assert_eq!(spent.finish_wave(&vec![exhausted], 10), WaveStep::Stop);
    assert!(spent.write_budget_exhausted);
}

#[test]
fn names_are_ordered_by_their_characters() {
    assert!(in_order("a", "b") && in_order("a", "ab") && in_order("", ""));
    assert!(!in_order("b", "a") && in_order("Z", "a"));
}
