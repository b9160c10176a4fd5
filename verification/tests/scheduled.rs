use gtfs_worker::importer::d1::SqlValue;
use gtfs_worker::scheduled::config::{
    enum_to_prefix, gtfs_tables, rows_that_fit, table_schema, to_worker_err, ColumnInfo,
    TableSchema, WorkerError,
};
use gtfs_worker::scheduled::dataset::{
    unchanged_dataset, DatasetAction, DatasetEvent, DatasetStep, DatasetTask,
};
use gtfs_worker::scheduled::import::{
    condition_headers, import_items, lock_sql, record_version_query, unlock_sql, version_query,
    DatasetVersion, ImportAction, ImportEvent, ImportTask,
};
use gtfs_worker::scheduled::logger::{LogLevel, Logger};
use gtfs_worker::scheduled::processor::{
    build_multi_row_sql, count_changes, count_rows_sql, log_column_diagnostics, open_archive,
    plan_contents, process_csv_file, resolve_matching_columns, FilePlan,
};
use gtfs_worker::scheduled::route::{fetch_route, request_route, route_reply, ScheduledRoute};
use gtfs_worker::scheduled::schema::{full_table_name, prefetch_table_schemas, table_columns_sql};
use std::io::{Cursor, Write};

fn texts(list: &[&str]) -> Vec<String> {
    list.iter().map(|text| text.to_string()).collect()
}

fn schema(columns: &[&str]) -> TableSchema {
    let columns = columns.iter().map(|name| ColumnInfo { name: name.to_string() }).collect();
    table_schema("stops.txt", "stops", columns).unwrap()
}

fn parameter(value: &SqlValue) -> Option<&str> {
    match value {
        SqlValue::Text(text) => Some(text),
        SqlValue::Null => None,
        _ => panic!("a parameter is a text or null"),
    }
}

#[test]
fn items_become_prefixes() {
    assert_eq!(enum_to_prefix("ktmb"), "ktmb");
    assert_eq!(enum_to_prefix("prasarana?category=rapid-bus-penang"), "rapid_bus_penang");
    assert_eq!(enum_to_prefix("mybas-johor"), "mybas_johor");
    assert_eq!(enum_to_prefix("x; DROP TABLE \"stops\" --"), "xDROPTABLEstops__");
    assert_eq!(enum_to_prefix("category=a category=b"), "a");
    assert_eq!(enum_to_prefix("\u{e9}t\u{e9}?"), "\u{e9}t\u{e9}");
}

#[test]
fn tables_have_as_many_rows_per_statement_as_fit() {
    assert_eq!(rows_that_fit(1), 100);
    assert_eq!(rows_that_fit(7), 14);
    assert_eq!(rows_that_fit(100), 1);
    assert_eq!(rows_that_fit(150), 1);
    assert!(table_schema("stops.txt", "stops", Vec::new()).is_none());
    let schema = schema(&["a", "b", "c"]);
    assert_eq!(schema.rows_per_insert, 33);
    assert_eq!(schema.col_list, "a, b, c");
    assert_eq!(gtfs_tables().len(), 15);
    assert_eq!(gtfs_tables()[5], ("stop_times.txt", "stop_times"));
}

#[test]
fn schemas_are_read_for_the_tables_that_exist() {
    let mut answers: Vec<Vec<ColumnInfo>> = Vec::new();
    for (index, _) in gtfs_tables().iter().enumerate() {
        let columns = if index == 1 || index == 3 { vec!["id", "name"] } else { Vec::new() };
        answers.push(columns.into_iter().map(|name| ColumnInfo { name: name.to_owned() }).collect());
    }
    let schemas = prefetch_table_schemas(answers);
    assert_eq!(schemas.len(), 2);
    assert_eq!((schemas[0].csv_file, schemas[0].base_name), ("routes.txt", "routes"));
    assert_eq!((schemas[1].csv_file, schemas[1].base_name), ("calendar.txt", "calendar"));
    assert_eq!(schemas[1].rows_per_insert, 50);
    assert_eq!(full_table_name("ktmb", "routes"), "ktmb_routes");
    assert_eq!(table_columns_sql("ktmb_routes"), "PRAGMA table_info(ktmb_routes)");
}

#[test]
fn statements_number_their_placeholders() {
    assert_eq!(
        build_multi_row_sql("ktmb_shapes", "c1, c2, c3", 3, 2),
        "INSERT OR REPLACE INTO ktmb_shapes (c1, c2, c3) VALUES (?1, ?2, ?3), (?4, ?5, ?6)"
    );
}

#[test]
fn columns_are_matched_by_name() {
    let headers = texts(&["name", "extra", "id", "id"]);
    let columns = texts(&["id", "code", "name"]);
    let (matched, indices) = resolve_matching_columns(&headers, &columns);
    assert_eq!(matched, ["id", "name"]);
    assert_eq!(indices, [2, 0]);
    assert_eq!(
        log_column_diagnostics("stops.txt", &headers, &columns, &matched).unwrap(),
        "Column alignment for stops.txt \u{2192} `2`  (2 matched): DB-only (will be null): [\"code\"] CSV-only (ignored): [\"extra\"]"
    );
    assert_eq!(log_column_diagnostics("stops.txt", &columns, &columns, &columns), None);
    assert_eq!(
        log_column_diagnostics("a.txt", &texts(&["x"]), &Vec::new(), &Vec::new()).unwrap(),
        "Column alignment for a.txt \u{2192} ``  (0 matched): CSV-only (ignored): [\"x\"]"
    );
}

#[test]
fn rows_become_statements_and_batches() {
    let schema = schema(&["id", "name"]);
    let mut csv = String::from("name,id,extra\n");
    for row in 0..5_120 {
        csv.push_str(&format!("n{row},{row},x\n"));
    }
    let FilePlan::Import { alignment, csv } =
        plan_contents(&schema, "ktmb_stops", &csv)
    else {
        panic!("the file is imported");
    };
    assert!(alignment.is_some());
    assert_eq!(csv.result.unwrap(), 5_120);
    let statements: Vec<usize> = csv.batches.iter().map(Vec::len).collect();
    assert_eq!(statements, [100, 3]);
    let mut expected = 0;
    for query in csv.batches.iter().flatten() {
        assert!(query.params.len() <= 100);
        for pair in query.params.chunks(2) {
            assert_eq!(parameter(&pair[0]), Some(expected.to_string().as_str()));
            assert_eq!(parameter(&pair[1]), Some(format!("n{expected}").as_str()));
            expected += 1;
        }
    }
    assert_eq!(expected, 5_120);
    assert!(csv.batches[1][2]
        .sql
        .ends_with("VALUES (?1, ?2), (?3, ?4), (?5, ?6), (?7, ?8), (?9, ?10), (?11, ?12), (?13, ?14), (?15, ?16), (?17, ?18), (?19, ?20), (?21, ?22), (?23, ?24), (?25, ?26), (?27, ?28), (?29, ?30), (?31, ?32), (?33, ?34), (?35, ?36), (?37, ?38), (?39, ?40)"));
}

#[test]
fn uneven_records_end_an_import() {
    let schema = schema(&["id", "name"]);
    let contents = "id,name\n1,\"a\nb\"\n2\n";
    let FilePlan::Import { csv, .. } = plan_contents(&schema, "t", contents) else {
        panic!("the file is read");
    };
    assert!(csv.batches.is_empty());
    let WorkerError::RustError(message) = csv.result.unwrap_err();
    let text = "CSV error: record 2 (line: 4, byte: 16): found record with 1 fields, but the previous record has 2 fields";
    assert_eq!(message, text);

    // The reader itself says the same.
    let mut reader = csv::ReaderBuilder::new().from_reader(&b"id,name\n1,\"a\nb\"\n2\n"[..]);
    let said = reader.records().find_map(|record| record.err()).unwrap();
    assert_eq!(said.to_string(), text);
}

#[test]
fn files_without_use_are_passed_over() {
    let schema = schema(&["id", "name"]);
    assert!(matches!(
        plan_contents(&schema, "t", "x,y\n1,2\n"),
        FilePlan::NoMatchingColumns
    ));
    assert!(matches!(plan_contents(&schema, "t", ""), FilePlan::NoMatchingColumns));
}

/// An archive with one entry, which is not compressed.
fn archive_of(contents: &[u8]) -> Vec<u8> {
    let mut writer = zip::ZipWriter::new(Cursor::new(Vec::new()));
    let options = zip::write::SimpleFileOptions::default()
        .compression_method(zip::CompressionMethod::Stored);
    writer.start_file("stops.txt", options).unwrap();
    writer.write_all(contents).unwrap();
    writer.finish().unwrap().into_inner()
}

#[test]
fn errors_keep_their_own_words() {
    let schema = schema(&["id", "name"]);
    let failed = |archive: &[u8]| match process_csv_file(archive, &schema, "t") {
        FilePlan::Failed(WorkerError::RustError(message)) => message,
        _ => panic!("the file cannot be read"),
    };
    assert_eq!(failed(&archive_of(b"\xff\xfe")), "stream did not contain valid UTF-8");
    let mut archive = archive_of(b"id,name\n1,Central\n");
    let place = archive.windows(7).position(|window| window == b"Central").unwrap();
    archive[place] = b'K';
    assert_eq!(failed(&archive), "Invalid checksum");
    let WorkerError::RustError(message) = open_archive(b"no archive").unwrap_err();
    let said = zip::ZipArchive::new(Cursor::new(&b"no archive"[..])).err().unwrap();
    assert_eq!(message, said.to_string());
}

#[test]
fn files_are_found_in_an_archive() {
    let mut writer = zip::ZipWriter::new(Cursor::new(Vec::new()));
    writer.start_file("stops.txt", zip::write::SimpleFileOptions::default()).unwrap();
    writer.write_all(b"id,name\n1,Central\n").unwrap();
    let archive = writer.finish().unwrap().into_inner();

    let FilePlan::Import { alignment, csv } =
        process_csv_file(&archive, &schema(&["id", "name"]), "ktmb_stops")
    else {
        panic!("the file is imported");
    };
    assert!(alignment.is_none());
    assert_eq!(csv.batches.len(), 1);
    assert_eq!(
        csv.batches[0][0].sql,
        "INSERT OR REPLACE INTO ktmb_stops (id, name) VALUES (?1, ?2)"
    );
    assert_eq!(parameter(&csv.batches[0][0].params[1]), Some("Central"));

    let mut trips = schema(&["id", "name"]);
    trips.csv_file = "trips.txt";
    assert!(matches!(process_csv_file(&archive, &trips, "t"), FilePlan::Missing));
    assert!(matches!(process_csv_file(b"no archive", &trips, "t"), FilePlan::Missing));
    assert!(open_archive(&archive).is_ok());
    assert!(open_archive(b"no archive").is_err());
}

#[test]
fn empty_fields_are_empty_texts() {
    let mut wide = schema(&["id", "name"]);
    wide.csv_file = "stops.txt";
    let FilePlan::Import { csv, .. } =
        plan_contents(&wide, "t", "id,name\n1,\n")
    else {
        panic!("the file is imported");
    };
    assert_eq!(parameter(&csv.batches[0][0].params[1]), Some(""));
}

#[test]
fn an_unchanged_dataset_brings_nothing() {
    let (size, version) = unchanged_dataset(304).unwrap();
    assert_eq!((size, version.etag, version.last_modified), (0, None, None));
    assert!(unchanged_dataset(200).is_none());
    assert!(unchanged_dataset(404).is_none());
}

#[test]
fn changes_are_counted() {
    assert_eq!(count_rows_sql("ktmb_stops"), "SELECT COUNT(*) AS count FROM ktmb_stops");
    assert_eq!(count_changes(10, 15, 20), (5, 15));
    assert_eq!(count_changes(15, 10, 20), (0, 20));
    assert_eq!(count_changes(0, 30, 20), (30, 0));
}

#[test]
fn messages_go_to_the_console_and_the_table() {
    assert_eq!(LogLevel::Info.metadata(), ("INFO", 2));
    assert_eq!(LogLevel::Warn.metadata(), ("WARN", 3));
    assert_eq!(LogLevel::Error.metadata(), ("ERROR", 4));
    let entry = Logger::new(Some("DB".to_owned())).warn("odd");
    assert_eq!(entry.console, "[WARN] odd");
    let row = entry.row.unwrap();
    assert_eq!(row.sql, "INSERT INTO logs (Level, Message) VALUES (?1, ?2)");
    assert!(matches!(row.params[0], SqlValue::Unsigned(3)));
    assert!(matches!(&row.params[1], SqlValue::Text(text) if text == "odd"));
    let quiet = Logger::new(None);
    assert!(quiet.info("x").row.is_none());
    assert_eq!(quiet.error("x").console, "[ERROR] x");
}

#[test]
fn lists_are_read_over_several_lines() {
    assert_eq!(
        import_items("ktmb,\r\n prasarana?category=rapid-bus-penang ,,\nmybas-johor\n"),
        ["ktmb", "prasarana?category=rapid-bus-penang", "mybas-johor"]
    );
    assert!(import_items(" , ").is_empty());
}

#[test]
fn versions_ask_for_changes_only() {
    let version = DatasetVersion {
        etag: Some("\"abc\"".to_owned()),
        last_modified: Some("Fri, 28 Aug 2026 00:00:00 GMT".to_owned()),
    };
    let headers = condition_headers(&version);
    assert_eq!((headers[0].name, headers[0].value.as_str()), ("If-None-Match", "\"abc\""));
    assert_eq!(
        (headers[1].name, headers[1].value.as_str()),
        ("If-Modified-Since", "Fri, 28 Aug 2026 00:00:00 GMT")
    );
    assert!(condition_headers(&DatasetVersion { etag: None, last_modified: None }).is_empty());
    assert_eq!(
        version_query("ktmb").sql,
        "SELECT ETag, LastModified FROM dataset_versions WHERE Prefix = ?"
    );
    let record = record_version_query(
        "ktmb",
        DatasetVersion { etag: None, last_modified: Some("now".to_owned()) },
    );
    assert!(matches!(record.params[1], SqlValue::Null));
    assert!(matches!(&record.params[2], SqlValue::Text(text) if text == "now"));
}

#[test]
fn an_import_holds_a_lock() {
    assert!(lock_sql().contains("AND (IsRunning = 0 OR LastStarted < datetime('now', '-1 hour'))"));
    assert!(unlock_sql().starts_with("UPDATE sync_status SET IsRunning = 0"));

    let mut task = ImportTask::new();
    assert!(matches!(
        task.import_gtfs(ImportEvent::Locked(Ok(1))),
        ImportAction::ReadSettings
    ));
    let settings = Ok(("https://feeds/".to_owned(), "ktmb, p?category=a-b".to_owned()));
    assert!(matches!(
        task.import_gtfs(ImportEvent::SettingsRead(settings)),
        ImportAction::ImportDataset { prefix, url } if prefix == "ktmb" && url == "https://feeds/ktmb"
    ));
    assert!(matches!(
        task.import_gtfs(ImportEvent::DatasetDone),
        ImportAction::ImportDataset { prefix, url } if prefix == "a_b" && url == "https://feeds/p?category=a-b"
    ));
    assert!(matches!(task.import_gtfs(ImportEvent::DatasetDone), ImportAction::Unlock));
    assert!(matches!(
        task.import_gtfs(ImportEvent::Unlocked),
        ImportAction::Finish(Ok(()))
    ));

    let mut locked_out = ImportTask::new();
    assert!(matches!(
        locked_out.import_gtfs(ImportEvent::Locked(Ok(0))),
        ImportAction::Finish(Ok(()))
    ));
    let mut unset = ImportTask::new();
    unset.import_gtfs(ImportEvent::Locked(Ok(1)));
    assert!(matches!(
        unset.import_gtfs(ImportEvent::SettingsRead(Err("no variable".to_owned()))),
        ImportAction::Unlock
    ));
    assert!(matches!(
        unset.import_gtfs(ImportEvent::Unlocked),
        ImportAction::Finish(Err(reason)) if reason == "no variable"
    ));
}

#[test]
fn a_dataset_is_imported_file_by_file() {
    let version = || DatasetVersion { etag: Some("e".to_owned()), last_modified: None };
    let task = DatasetTask::new("ktmb".to_owned());
    let DatasetStep::Continue(task, DatasetAction::Fetch(headers)) =
        task.import_dataset(DatasetEvent::VersionRead(Ok(version())))
    else {
        panic!("the dataset is fetched");
    };
    assert_eq!(headers.len(), 1);
    let DatasetStep::Continue(task, DatasetAction::ReadSchemas) =
        task.import_dataset(DatasetEvent::Fetched(Ok((10, version()))))
    else {
        panic!("the schemas are read");
    };
    let schemas = vec![schema(&["id"]), schema(&["id", "name"])];
    let DatasetStep::Continue(task, DatasetAction::OpenArchive) =
        task.import_dataset(DatasetEvent::SchemasRead(Ok(schemas)))
    else {
        panic!("the archive is opened");
    };
    let DatasetStep::Continue(task, DatasetAction::ProcessFile { index: 0, table_name }) =
        task.import_dataset(DatasetEvent::ArchiveOpened(Ok(())))
    else {
        panic!("the first file comes");
    };
    assert_eq!(table_name, "ktmb_stops");
    let DatasetStep::Continue(task, DatasetAction::ProcessFile { index: 1, .. }) =
        task.import_dataset(DatasetEvent::FileProcessed(Ok(())))
    else {
        panic!("the second file comes");
    };
    let DatasetStep::Continue(task, DatasetAction::RecordVersion(recorded)) =
        task.import_dataset(DatasetEvent::FileProcessed(Ok(())))
    else {
        panic!("the version comes last");
    };
    assert_eq!(recorded.etag.as_deref(), Some("e"));
    assert!(matches!(
        task.import_dataset(DatasetEvent::VersionRecorded(Ok(()))),
        DatasetStep::Finish(Ok(()))
    ));

    // Nothing comes of a dataset that did not change.
    let task = DatasetTask::new("ktmb".to_owned());
    let DatasetStep::Continue(task, _) =
        task.import_dataset(DatasetEvent::VersionRead(Ok(version())))
    else {
        panic!("the dataset is fetched");
    };
    assert!(matches!(
        task.import_dataset(DatasetEvent::Fetched(Ok((0, version())))),
        DatasetStep::Finish(Ok(()))
    ));
}

#[test]
fn paths_start_imports() {
    assert_eq!(fetch_route("/import"), ScheduledRoute::Import);
    assert_eq!(fetch_route("/"), ScheduledRoute::Health);
    assert_eq!(fetch_route("/import/"), ScheduledRoute::NotFound);
    assert_eq!(request_route("https://x.dev/import?now"), Some(ScheduledRoute::Import));
    assert_eq!(request_route("https://x.dev"), Some(ScheduledRoute::Health));
    assert_eq!(request_route("/import"), None);
    assert_eq!(route_reply(ScheduledRoute::NotFound), ("Not Found", 404));
    assert_eq!(
        route_reply(ScheduledRoute::Health),
        ("Worker is running. Use /import to trigger the database sync.", 200)
    );
    assert_eq!(route_reply(ScheduledRoute::Import).1, 200);
    let WorkerError::RustError(text) = to_worker_err("broken");
    assert_eq!(text, "broken");
}
