use gtfs_worker::importer::batch::Checkpoint;
use gtfs_worker::importer::budget::{D1WriteBudget, ReserveStep};
use gtfs_worker::importer::catalog::{primary_keys, ProviderSchema, SchemaTable};
use gtfs_worker::importer::client::D1Client;
use gtfs_worker::importer::commit::{
    contiguous_committed_checkpoint, producer_checkpoint_is_committed, record_task_result,
    BatchCompletion, BatchTaskResult,
};
use gtfs_worker::importer::config::RuntimeConfig;
use gtfs_worker::importer::d1::{
    parse_retry_after, validate_query_response, validate_result_count, D1Meta, D1Response, D1Result,
    D1Usage,
};
use gtfs_worker::importer::extract::{
    append_positional_json_row, extract_and_batch_csv, try_claim_row, BatchMessage, CsvExtractJob,
    RowCounter,
};
use gtfs_worker::importer::fault::{D1Error, ProcessorError};
use gtfs_worker::importer::record::{read_bounded_record, RecordReader};
use gtfs_worker::importer::rotation::{persist_database_id, RotationRecord};
use gtfs_worker::importer::select::discover_supported_files;
use gtfs_worker::importer::sql::positional_insert_sql;
use gtfs_worker::importer::storage::TempFeedStorage;
use gtfs_worker::importer::waves::fair_row_limits;
use std::collections::BTreeMap;
use std::io::{Cursor, Write};

fn texts(list: &[&str]) -> Vec<String> {
    list.iter().map(|text| text.to_string()).collect()
}

fn archive_with(name: &str, contents: &str) -> Vec<u8> {
    let mut writer = zip::ZipWriter::new(Cursor::new(Vec::new()));
    let options = zip::write::SimpleFileOptions::default()
        .compression_method(zip::CompressionMethod::Deflated);
    writer.start_file(name, options).unwrap();
    writer.write_all(contents.as_bytes()).unwrap();
    writer.finish().unwrap().into_inner()
}

fn catalog() -> Vec<ProviderSchema> {
    let ktmb = "CREATE TABLE stop_times (\n  trip_id TEXT NOT NULL,\n  stop_sequence INTEGER NOT NULL,\n  arrival_time TEXT,\n  PRIMARY KEY (trip_id, stop_sequence)\n);\n";
    let johor = "CREATE TABLE areas (\n  area_id TEXT PRIMARY KEY,\n  area_name TEXT\n);\n\nCREATE TABLE fare_leg_rules (\n  leg_group_id TEXT,\n  network_id TEXT\n);\n";
    vec![
        ProviderSchema::from_sql("ktmb".to_owned(), ktmb.to_owned(), Vec::new()),
        ProviderSchema::from_sql("mybas-johor".to_owned(), johor.to_owned(), Vec::new()),
    ]
}

fn limits() -> RuntimeConfig {
    RuntimeConfig {
        csv_concurrency_limit: 1,
        d1_global_concurrency_limit: 1,
        d1_database_concurrency_limit: 1,
        d1_max_databases: 10,
        query_statement_batch_size: 1,
        d1_statements_per_request: 1,
        max_d1_rows_written_per_workflow: 2,
        max_rows_per_workflow: 1,
        max_feed_download_bytes: 1,
        max_uncompressed_feed_bytes: 1,
        max_csv_record_bytes: 1,
        max_statement_payload_bytes: 1,
        max_temp_feed_storage_bytes: 1,
        db_size_threshold_bytes: 1,
        http_connect_timeout: 1,
        http_request_timeout: 1,
        d1_query_timeout: 1,
    }
}

#[test]
fn retry_after_accepts_delta_seconds() {
    assert_eq!(parse_retry_after(Some("17")), Some(17));
    assert_eq!(parse_retry_after(Some("not-a-number")), None);
}

#[test]
fn failed_statement_rejects_successful_envelope() {
    let response = D1Response {
        success: true,
        result: Some(vec![D1Result { results: Vec::new(), meta: None, success: Some(false) }]),
        errors: None,
    };
    assert!(validate_query_response(response).is_err());
}

#[test]
fn result_count_must_match_submitted_statements() {
    assert!(validate_result_count(Vec::new(), 1).is_err());
    assert!(validate_result_count(
        vec![D1Result { results: Vec::new(), meta: None, success: Some(true) }],
        1
    )
    .is_ok());
}

#[test]
fn usage_metadata_is_aggregated() {
    let client = D1Client::new("account".into(), "token".into(), &limits());
    assert!(client.is_ok());
    let Some(mut client) = client.ok() else {
        return;
    };
    client.record_usage(&vec![
        D1Result {
            results: Vec::new(),
            meta: Some(D1Meta { rows_read: 7, rows_written: 3 }),
            success: Some(true),
        },
        D1Result {
            results: Vec::new(),
            meta: Some(D1Meta { rows_read: 11, rows_written: 5 }),
            success: Some(true),
        },
    ]);
    assert_eq!(client.usage(), D1Usage { rows_read: 18, rows_written: 8 });
}

#[test]
fn write_budget_recycles_noop_capacity_and_hard_stops() {
    let mut budget = D1WriteBudget::new(10);
    let ReserveStep::Granted(reservation) = budget.reserve(8) else {
        panic!("eight of ten writes are available");
    };
    assert!(reservation.finish(&mut budget, 3).is_ok());
    assert_eq!(budget.remaining, 7);

    let ReserveStep::Granted(reservation) = budget.reserve(7) else {
        panic!("seven writes are left");
    };
    reservation.consume_all(&mut budget);
    assert!(matches!(
        budget.reserve(1),
        ReserveStep::Exhausted(D1Error::WriteBudgetExhausted { requested: 1, remaining: 0 })
    ));
}

#[test]
fn write_budget_wakes_waiters_after_capacity_is_released() {
    let mut budget = D1WriteBudget::new(10);
    let ReserveStep::Granted(first) = budget.reserve(8) else {
        panic!("eight of ten writes are available");
    };
    assert!(matches!(budget.reserve(4), ReserveStep::Wait));
    assert!(first.finish(&mut budget, 2).is_ok());

    let ReserveStep::Granted(reservation) = budget.reserve(4) else {
        panic!("the writes that were given back are available");
    };
    assert!(reservation.finish(&mut budget, 0).is_ok());
    assert_eq!(budget.remaining, 8);
}

#[test]
fn dropped_write_reservation_fails_closed() {
    let mut budget = D1WriteBudget::new(10);
    let ReserveStep::Granted(reservation) = budget.reserve(8) else {
        panic!("eight of ten writes are available");
    };
    // A reservation that is dropped is spent whole.
    reservation.consume_all(&mut budget);

    assert_eq!(budget.remaining, 2);
    assert!(matches!(
        budget.reserve(3),
        ReserveStep::Exhausted(D1Error::WriteBudgetExhausted { requested: 3, remaining: 2 })
    ));
}

#[test]
fn fair_row_limits_are_exact_and_balanced() {
    let limits = fair_row_limits(10_000, 6);
    assert_eq!(limits.iter().sum::<u64>(), 10_000);
    assert_eq!(limits, vec![1_667, 1_667, 1_667, 1_667, 1_666, 1_666]);
    assert!(fair_row_limits(10_000, 0).is_empty());
}

#[test]
fn positional_json_escapes_values_and_represents_missing_fields_as_null() {
    let record = texts(&["quoted \"value\"", "line\nbreak"]);
    let mut json = String::from("[");
    assert!(append_positional_json_row(&mut json, &record, &vec![0, 1, 2]).is_ok());
    json.push(']');
    assert_eq!(json, r#"[["quoted \"value\"","line\nbreak",null]]"#);
}

#[test]
fn positional_sql_quotes_identifiers() {
    assert_eq!(
        positional_insert_sql("stop_times", &texts(&["trip_id", "stop_sequence"]), &Vec::new()),
        "INSERT INTO \"stop_times\" (\"trip_id\", \"stop_sequence\") SELECT json_extract(value, '$[0]'), json_extract(value, '$[1]') FROM json_each(?) WHERE TRUE ON CONFLICT DO UPDATE SET \"trip_id\" = excluded.\"trip_id\", \"stop_sequence\" = excluded.\"stop_sequence\" WHERE \"stop_times\".\"trip_id\" IS NOT excluded.\"trip_id\" OR \"stop_times\".\"stop_sequence\" IS NOT excluded.\"stop_sequence\""
    );
}

#[test]
fn upserts_preserve_primary_keys_and_skip_key_only_conflicts() {
    let catalog = catalog();
    let keys = primary_keys(&catalog, "ktmb", "stop_times");
    assert_eq!(keys, &["trip_id", "stop_sequence"]);
    let sql = positional_insert_sql(
        "stop_times",
        &texts(&["trip_id", "stop_sequence", "arrival_time"]),
        &keys,
    );
    let update = sql.split_once("DO UPDATE SET").map(|(_, update)| update).unwrap_or_default();
    assert!(update.contains("\"arrival_time\" = excluded.\"arrival_time\""));
    assert!(!update.contains("\"trip_id\""));
    assert!(!update.contains("\"stop_sequence\""));
    assert!(positional_insert_sql("stop_times", &keys, &keys).ends_with("DO NOTHING"));
    assert_eq!(primary_keys(&catalog, "mybas-johor", "areas"), &["area_id"]);
    assert!(primary_keys(&catalog, "mybas-johor", "fare_leg_rules").is_empty());
}

#[test]
fn byte_checkpoint_resumes_at_a_quoted_record_boundary() {
    let csv = "id,name\n1,alpha\n2,\"two\nlines\"\n3,gamma\n4,delta\n";
    let archive = archive_with("stops.txt", csv);

    let mut first_counter = RowCounter::new();
    let first = extract_and_batch_csv(
        &archive,
        &CsvExtractJob {
            provider_name: "test".to_owned(),
            csv_file: "stops.txt".to_owned(),
            table_name: "stops".to_owned(),
            db_columns: texts(&["id", "name"]),
            checkpoint: Checkpoint::default(),
            batch_size: 10,
            max_rows: 2,
            max_record_bytes: 1024,
            max_payload_bytes: 32,
        },
        &Vec::new(),
        &mut first_counter,
    );
    let first_outcome = first.result.unwrap();
    assert!(!first_outcome.file_done);
    assert_eq!(first_outcome.checkpoint.line, 2);
    assert_eq!(usize::try_from(first_outcome.checkpoint.byte).ok(), csv.find("3,gamma"));

    let mut first_payloads = Vec::new();
    for message in first.messages {
        if let BatchMessage::Data(batch) = message {
            first_payloads.push(batch.payload);
        }
    }
    assert_eq!(first_payloads, ["[[\"1\",\"alpha\"]]", "[[\"2\",\"two\\nlines\"]]"]);

    let mut second_counter = RowCounter::new();
    let second = extract_and_batch_csv(
        &archive,
        &CsvExtractJob {
            provider_name: "test".to_owned(),
            csv_file: "stops.txt".to_owned(),
            table_name: "stops".to_owned(),
            db_columns: texts(&["id", "name"]),
            checkpoint: first_outcome.checkpoint,
            batch_size: 10,
            max_rows: 10,
            max_record_bytes: 1024,
            max_payload_bytes: 4096,
        },
        &Vec::new(),
        &mut second_counter,
    );
    let second_outcome = second.result.unwrap();
    assert!(second_outcome.file_done);
    assert_eq!(
        second_outcome.checkpoint,
        Checkpoint { line: 4, byte: u64::try_from(csv.len()).unwrap() }
    );

    let mut second_payload = None;
    for message in second.messages {
        if let BatchMessage::Data(batch) = message {
            second_payload = Some(batch.payload);
        }
    }
    assert_eq!(second_payload.as_deref(), Some("[[\"3\",\"gamma\"],[\"4\",\"delta\"]]"));
}

#[test]
fn row_budget_is_exact_under_contention() {
    let mut counter = RowCounter::new();
    let mut claimed = 0_u64;
    let mut producers = [true; 8];
    while producers.iter().any(|open| *open) {
        for open in producers.iter_mut() {
            if *open {
                *open = try_claim_row(&mut counter, 10_000);
                if *open {
                    claimed += 1;
                }
            }
        }
    }
    assert!(producers.iter().all(|open| !*open));
    assert_eq!(counter.claimed, 10_000);
    assert_eq!(claimed, 10_000);
}

#[test]
fn temporary_feed_storage_is_globally_bounded() {
    let mut storage = TempFeedStorage::new(10);
    assert!(storage.reserve(6).is_ok());
    assert!(storage.reserve(5).is_err());
    assert_eq!(storage.used_bytes, 6);
    storage.release(6);
    assert!(storage.reserve(10).is_ok());
    assert_eq!(storage.used_bytes, 10);
}

#[test]
fn oversized_csv_record_is_rejected() {
    let input = format!("id,name\n1,{}\n", "x".repeat(128 * 1024));
    let mut reader = RecordReader::new(0);
    let header = read_bounded_record(input.as_bytes(), &None, &mut reader, 1024);
    let Ok(Some(_)) = header else {
        panic!("the header is within the limit");
    };
    let error = match read_bounded_record(input.as_bytes(), &None, &mut reader, 1024) {
        Ok(_) => panic!("oversized record must fail"),
        Err(error) => error,
    };
    assert!(error.message().contains("CSV record"));
}

#[test]
fn declared_uncompressed_feed_size_is_bounded() {
    let archive =
        archive_with("stops.txt", "id,name\n1,a-name-that-exceeds-the-test-limit\n");
    let schemas = vec![SchemaTable {
        table: "stops".to_owned(),
        columns: texts(&["id", "name"]),
        keys: Vec::new(),
    }];
    let error = match discover_supported_files(&archive, &schemas, 8) {
        Ok(_) => panic!("expanded feed must fail"),
        Err(error) => error,
    };
    assert!(error.message().contains("expand"));
}

#[test]
fn committed_progress_stops_at_first_gap_or_failure() {
    let statuses = BTreeMap::from([
        (0, (Checkpoint { line: 100, byte: 1_000 }, true)),
        (100, (Checkpoint { line: 200, byte: 2_000 }, true)),
        (200, (Checkpoint { line: 300, byte: 3_000 }, false)),
        (300, (Checkpoint { line: 400, byte: 4_000 }, true)),
    ]);
    assert_eq!(
        contiguous_committed_checkpoint(Checkpoint::default(), &statuses),
        Checkpoint { line: 200, byte: 2_000 }
    );

    let statuses = BTreeMap::from([(100, (Checkpoint { line: 200, byte: 2_000 }, true))]);
    assert_eq!(
        contiguous_committed_checkpoint(Checkpoint::default(), &statuses),
        Checkpoint::default()
    );
}

#[test]
fn byte_only_producer_progress_does_not_require_a_d1_batch() {
    let initial = Checkpoint::default();
    let header_only = Checkpoint { line: 0, byte: 31 };

    assert!(producer_checkpoint_is_committed(header_only, initial));
    assert!(!producer_checkpoint_is_committed(Checkpoint { line: 1, byte: 31 }, initial));
    assert!(!producer_checkpoint_is_committed(initial, header_only));
}

#[test]
fn write_budget_exhaustion_is_not_reported_as_a_batch_failure() {
    let mut statuses = BTreeMap::new();
    let completion = record_task_result(
        Ok(BatchTaskResult {
            ranges: vec![(Checkpoint::default(), Checkpoint { line: 100, byte: 1_000 })],
            result: Err(ProcessorError::D1(D1Error::WriteBudgetExhausted {
                requested: 200,
                remaining: 50,
            })),
        }),
        &mut statuses,
    );
    assert_eq!(completion, BatchCompletion::WriteBudgetExhausted);
    assert_eq!(
        contiguous_committed_checkpoint(Checkpoint::default(), &statuses),
        Checkpoint::default()
    );
}

#[test]
fn rotation_persists_current_and_retired_database_metadata() {
    let content = persist_database_id(
        "providers.toml",
        r#"[[providers]]
name = "test-provider"
database_id = "old-id"
"#,
        &RotationRecord {
            provider_name: "test-provider".to_owned(),
            retired_database_id: "old-id".to_owned(),
            retired_database_name: "old-name".to_owned(),
            database_id: "new-id".to_owned(),
            retired_at: "2026-08-28T00:00:00Z".to_owned(),
        },
    )
    .unwrap();

    assert!(content.parse::<toml_edit::DocumentMut>().is_ok());
    assert!(content.contains("database_id = \"new-id\""));
    assert!(content.contains("[[retired_databases]]"));
    assert!(content.contains("provider = \"test-provider\""));
    assert!(content.contains("name = \"old-name\""));
    assert!(content.contains("database_id = \"old-id\""));
}
