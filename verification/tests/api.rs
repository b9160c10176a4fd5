use gtfs_worker::api::data::{DataAction, DataEvent, DataTask};
use gtfs_worker::api::database::{database_error, for_provider, provider_not_found};
use gtfs_worker::api::query::{build_query, has_unclosed_range, DataQuery, Parameter};
use gtfs_worker::api::route::{fetch_route, plain_reply, request_route, ApiRoute};
use gtfs_worker::api::sql::{max_rows, read_statement, SqlAction, SqlEvent, SqlTask};
use gtfs_worker::api::status::{
    cache_key, cache_path, StatusAction, StatusEvent, StatusTask,
};
use gtfs_worker::importer::d1::SqlValue;

fn columns() -> Vec<String> {
    vec!["stop_id".to_owned(), "stop_name".to_owned(), "stop_lat".to_owned()]
}

fn parameters(pairs: &[(&str, &str)]) -> Vec<Parameter> {
    pairs
        .iter()
        .map(|(key, value)| Parameter { key: key.to_string(), value: value.to_string() })
        .collect()
}

fn query(pairs: &[(&str, &str)]) -> DataQuery {
    let parameters = parameters(pairs);
    assert!(!has_unclosed_range(&parameters, &columns()));
    build_query(&parameters, "stops", &columns()).unwrap()
}

fn refusal(pairs: &[(&str, &str)]) -> (String, u16) {
    let parameters = parameters(pairs);
    assert!(!has_unclosed_range(&parameters, &columns()));
    let refusal = build_query(&parameters, "stops", &columns()).unwrap_err();
    (refusal.message, refusal.status)
}

#[test]
fn databases_are_named_after_their_providers() {
    assert_eq!(for_provider("mybas-johor"), "DB_MYBAS_JOHOR");
    assert_eq!(for_provider("ktmb"), "DB_KTMB");
    assert_eq!(for_provider("stra\u{df}e"), "DB_STRASSE");
    let missing = provider_not_found("nowhere");
    assert_eq!(missing.message, "Provider 'nowhere' not found or DB not bound");
    assert_eq!(missing.status, 404);
    let broken = database_error("no such table");
    assert_eq!(broken.message, "Database error: no such table");
    assert_eq!(broken.status, 500);
}

#[test]
fn a_request_without_parameters_gets_the_first_page() {
    let query = query(&[]);
    assert_eq!(query.sql, "SELECT * FROM stops   LIMIT ?1 OFFSET ?2");
    assert!(query.values.is_empty());
    assert_eq!((query.limit, query.offset), (100, 0));
}

#[test]
fn pages_are_limited() {
    let large = query(&[("limit", "5000"), ("offset", "20"), ("limit", "3")]);
    assert_eq!((large.limit, large.offset), (1000, 20));
    let odd = query(&[("limit", "ten"), ("offset", "-1")]);
    assert_eq!((odd.limit, odd.offset), (100, 0));
    let none = query(&[("limit", "0")]);
    assert_eq!(none.limit, 0);
}

#[test]
fn columns_are_included_or_excluded() {
    assert_eq!(
        query(&[("include", " stop_name , stop_id,")]).sql,
        "SELECT \"stop_name\", \"stop_id\" FROM stops   LIMIT ?1 OFFSET ?2"
    );
    assert_eq!(
        query(&[("exclude", "stop_name")]).sql,
        "SELECT \"stop_id\", \"stop_lat\" FROM stops   LIMIT ?1 OFFSET ?2"
    );
    assert_eq!(
        refusal(&[("include", "stop_id,secret")]),
        ("Invalid include column: secret".to_owned(), 400)
    );
    assert_eq!(
        refusal(&[("exclude", "secret")]),
        ("Invalid exclude column: secret".to_owned(), 400)
    );
    assert_eq!(
        refusal(&[("exclude", "stop_id,stop_name,stop_lat")]),
        ("Cannot exclude all columns".to_owned(), 400)
    );
}

#[test]
fn filters_become_numbered_conditions() {
    let query = query(&[
        ("filter", "a@b@stop_id"),
        ("ifilter", "Central@stop_name"),
        ("contains", "x@stop_name,y@stop_id"),
        ("icontains", "kl@stop_name"),
        ("range", "stop_lat[1:2],stop_lat[:3],stop_lat[4:],plain"),
        ("sort", "-stop_lat, stop_id,,"),
    ]);
    assert_eq!(
        query.sql,
        "SELECT * FROM stops WHERE \"stop_id\" = ?1 AND \"stop_name\" COLLATE NOCASE = ?2 AND INSTR(\"stop_name\", ?3) > 0 AND INSTR(\"stop_id\", ?4) > 0 AND \"stop_name\" LIKE ?5 AND \"stop_lat\" >= ?6 AND \"stop_lat\" <= ?7 AND \"stop_lat\" <= ?8 AND \"stop_lat\" >= ?9 ORDER BY \"stop_lat\" DESC, \"stop_id\" ASC LIMIT ?10 OFFSET ?11"
    );
    assert_eq!(query.values, ["a@b", "Central", "x", "y", "%kl%", "1", "2", "3", "4"]);
}

#[test]
fn conditions_and_orders_are_checked() {
    assert_eq!(
        refusal(&[("filter", "no-column")]),
        ("Invalid filter format. Expected val@col".to_owned(), 400)
    );
    assert_eq!(
        refusal(&[("icontains", "x@secret")]),
        ("Invalid filter column: secret".to_owned(), 400)
    );
    assert_eq!(
        refusal(&[("range", "secret[1:2]")]),
        ("Invalid range column: secret".to_owned(), 400)
    );
    assert_eq!(
        refusal(&[("range", "stop_lat[1]")]),
        ("Invalid range format for stop_lat. Expected col[begin:end]".to_owned(), 400)
    );
    assert_eq!(
        refusal(&[("sort", "-secret")]),
        ("Invalid sort column: secret".to_owned(), 400)
    );
    // The columns are looked at first, then the conditions, then the order.
    assert_eq!(
        refusal(&[("sort", "a"), ("filter", "b"), ("include", "c")]).0,
        "Invalid include column: c"
    );
    assert_eq!(
        refusal(&[("sort", "a"), ("filter", "b")]).0,
        "Invalid filter format. Expected val@col"
    );
}

#[test]
fn a_range_must_close_behind_its_start() {
    let backwards = parameters(&[("range", "stop_lat]1:2[")]);
    assert!(has_unclosed_range(&backwards, &columns()));
    // A request that is refused before does not reach it.
    let refused = parameters(&[("filter", "x"), ("range", "stop_lat]1:2[")]);
    assert!(!has_unclosed_range(&refused, &columns()));
    assert!(build_query(&refused, "stops", &columns()).is_err());
}

#[test]
fn rows_are_asked_for_step_by_step() {
    let mut task =
        DataTask::new("ktmb".to_owned(), "stops".to_owned(), parameters(&[("limit", "5")]));
    let DataAction::Query(check) = task.handle(DataEvent::Opened(true)) else {
        panic!("the table is looked up");
    };
    assert_eq!(check.sql, "SELECT name FROM sqlite_master WHERE type='table' AND name=?1");
    assert!(matches!(&check.params[0], SqlValue::Text(name) if name == "stops"));
    let DataAction::Query(info) = task.handle(DataEvent::TableChecked(Ok(true))) else {
        panic!("the columns are looked up");
    };
    assert_eq!(info.sql, "SELECT name FROM pragma_table_info(?1)");
    let DataAction::Prepare(rows) = task.handle(DataEvent::ColumnsRead(Ok(Some(columns())))) else {
        panic!("the query is prepared");
    };
    assert_eq!(rows.limit, 5);
    assert!(matches!(task.handle(DataEvent::Prepared(Ok(()))), DataAction::Run));
}

#[test]
fn the_parameters_of_a_request_are_those_of_its_url() {
    let parameters = |url: &str| {
        let task = DataTask::for_url("ktmb".to_owned(), "stops".to_owned(), url).unwrap();
        assert_eq!((task.provider.as_str(), task.table_name.as_str()), ("ktmb", "stops"));
        task.parameters.into_iter().map(|p| (p.key, p.value)).collect::<Vec<_>>()
    };
    let pair = |key: &str, value: &str| (key.to_owned(), value.to_owned());
    assert_eq!(
        parameters("https://x.dev/ktmb/data/stops?limit=5&filter=A%26B+C%40stop_name&&sort#top"),
        [pair("limit", "5"), pair("filter", "A&B C@stop_name"), pair("sort", "")]
    );
    assert_eq!(parameters("https://x.dev/ktmb/data/stops"), []);
    assert_eq!(parameters("https://x.dev/ktmb/data/stops?"), []);
    assert!(DataTask::for_url("ktmb".to_owned(), "stops".to_owned(), "/ktmb/data").is_none());

    let mut task = DataTask::for_url(
        "ktmb".to_owned(),
        "stops".to_owned(),
        "https://x.dev/ktmb/data/stops?limit=7&filter=A%26B@stop_name",
    )
    .unwrap();
    task.handle(DataEvent::Opened(true));
    task.handle(DataEvent::TableChecked(Ok(true)));
    let DataAction::Prepare(rows) = task.handle(DataEvent::ColumnsRead(Ok(Some(columns())))) else {
        panic!("the query is prepared");
    };
    assert_eq!((rows.values, rows.limit), (vec!["A&B".to_owned()], 7));
}

#[test]
fn requests_for_rows_are_refused() {
    let task = || DataTask::new("x".to_owned(), "t".to_owned(), parameters(&[("sort", "a")]));
    let mut unknown = task();
    assert!(matches!(
        unknown.handle(DataEvent::Opened(false)),
        DataAction::Refuse(refusal) if refusal.message == "Provider 'x' not found or DB not bound" && refusal.status == 404
    ));
    let mut missing = task();
    missing.handle(DataEvent::Opened(true));
    assert!(matches!(
        missing.handle(DataEvent::TableChecked(Ok(false))),
        DataAction::Refuse(refusal) if refusal.message == "Table 't' not found" && refusal.status == 404
    ));
    let mut broken = task();
    broken.handle(DataEvent::Opened(true));
    assert!(matches!(
        broken.handle(DataEvent::TableChecked(Err("gone".to_owned()))),
        DataAction::Refuse(refusal) if refusal.message == "Database error: gone" && refusal.status == 500
    ));
    let mut unread = task();
    unread.handle(DataEvent::Opened(true));
    unread.handle(DataEvent::TableChecked(Ok(true)));
    assert!(matches!(
        unread.handle(DataEvent::ColumnsRead(Ok(None))),
        DataAction::Refuse(refusal) if refusal.message == "Invalid sort column: a"
    ));
    let mut unbound = DataTask::new("x".to_owned(), "t".to_owned(), Vec::new());
    unbound.handle(DataEvent::Opened(true));
    unbound.handle(DataEvent::TableChecked(Ok(true)));
    assert!(matches!(
        unbound.handle(DataEvent::ColumnsRead(Err("gone".to_owned()))),
        DataAction::Refuse(_)
    ));
    unbound.handle(DataEvent::ColumnsRead(Ok(Some(columns()))));
    assert!(matches!(
        unbound.handle(DataEvent::Prepared(Err("bad".to_owned()))),
        DataAction::Refuse(refusal) if refusal.message == "Database error: bad"
    ));
}

#[test]
fn statements_must_only_read() {
    assert_eq!(read_statement("  select 1 ; ").unwrap(), "select 1");
    assert_eq!(
        read_statement("\nWITH t AS (SELECT 1) SELECT * FROM t").unwrap(),
        "WITH t AS (SELECT 1) SELECT * FROM t"
    );
    assert_eq!(read_statement(" ; ").unwrap_err().message, "SQL query is required");
    assert_eq!(read_statement("").unwrap_err().status, 400);
    for refused in [
        "DELETE FROM stops",
        "SELECT 1; SELECT 2",
        "SELECT 1 -- all",
        "SELECT /* all */ 1",
        "SELECT 1;;",
        "selection",
    ] {
        let refusal = read_statement(refused).unwrap_err();
        assert_eq!(refusal.message, "Only one SELECT query without comments is allowed");
        assert_eq!(refusal.status, 400);
    }
}

#[test]
fn queries_are_limited_to_a_maximum_of_rows() {
    assert_eq!(max_rows(None), 1000);
    assert_eq!(max_rows(Some(" 250 ".to_owned())), 250);
    assert_eq!(max_rows(Some("0".to_owned())), 1000);
    assert_eq!(max_rows(Some("4294967296".to_owned())), 1000);
    assert_eq!(max_rows(Some("many".to_owned())), 1000);
}

#[test]
fn queries_run_within_another() {
    let mut task = SqlTask::new("ktmb".to_owned(), 7);
    assert!(matches!(task.handle(SqlEvent::Requested(true)), SqlAction::ReadBody));
    assert!(matches!(
        task.handle(SqlEvent::BodyRead("SELECT 1;".to_owned())),
        SqlAction::Open
    ));
    let SqlAction::Run(query) = task.handle(SqlEvent::Opened(true)) else {
        panic!("the query runs");
    };
    assert_eq!(query, "SELECT * FROM (\nSELECT 1\n) LIMIT 7");
    assert!(matches!(
        task.handle(SqlEvent::Failed("near FROM".to_owned())),
        SqlAction::Refuse(refusal) if refusal.message == "Query error: near FROM" && refusal.status == 400
    ));

    let mut get = SqlTask::new("ktmb".to_owned(), 7);
    assert!(matches!(
        get.handle(SqlEvent::Requested(false)),
        SqlAction::Refuse(refusal) if refusal.message == "Method Not Allowed" && refusal.status == 405
    ));
    let mut unknown = SqlTask::new("x".to_owned(), 7);
    unknown.handle(SqlEvent::Requested(true));
    unknown.handle(SqlEvent::BodyRead("SELECT 1".to_owned()));
    assert!(matches!(unknown.handle(SqlEvent::Opened(false)), SqlAction::Refuse(_)));
}

fn progress(provider: &str) -> StatusTask {
    StatusTask::new(provider.to_owned(), "https://x.dev/ktmb/status").unwrap()
}

#[test]
fn neither_query_nor_casing_nor_slash_alter_the_key() {
    let key = |url: &str| {
        let Some(ApiRoute::Status { provider }) = request_route(url) else {
            panic!("progress is asked for");
        };
        cache_key(url, &provider).unwrap()
    };
    for url in [
        "https://x.dev/ktmb/status",
        "https://x.dev/ktmb/status/",
        "https://x.dev/KTMB/status?a=1&b=2",
        "https://X.dev:443//Ktmb/status/?",
        "https://x.dev/ktmb/../ktmb/status?status=/other",
    ] {
        assert_eq!(key(url), "https://x.dev/ktmb/status");
    }
    assert_eq!(key("http://x.dev:8787/a_b/status?q#top"), "http://x.dev:8787/a_b/status#top");
    assert_eq!(key("https://x.dev/a%20b/status"), "https://x.dev/a%20b/status");
    assert_ne!(key("https://y.dev/ktmb/status"), key("https://x.dev/ktmb/status"));
    assert_eq!(cache_key("https://x.dev/?a", "a?b").unwrap(), "https://x.dev/a%3Fb/status");
    assert_eq!(cache_key("no url", "ktmb"), None);
    assert!(StatusTask::new("ktmb".to_owned(), "no url").is_none());
}

#[test]
fn urls_lead_to_routes() {
    assert!(matches!(
        request_route("https://x.dev/ktmb/data/stops?limit=1"),
        Some(ApiRoute::Data { provider, table_name }) if provider == "ktmb" && table_name == "stops"
    ));
    assert!(matches!(request_route("https://x.dev?/ktmb/status"), Some(ApiRoute::Health)));
    assert!(request_route("ktmb/status").is_none());
}

#[test]
fn progress_is_cached_under_one_path() {
    assert_eq!(cache_path("MyBas-Johor"), "/mybas-johor/status");
    assert_eq!(cache_path("mybas-johor"), cache_path("MYBAS-JOHOR"));

    let mut task =
        StatusTask::new("KTMB".to_owned(), "https://x.dev/KTMB/status/?page=2").unwrap();
    assert!(matches!(
        task.handle(StatusEvent::Requested(true)),
        StatusAction::LookUp(key) if key == "https://x.dev/ktmb/status"
    ));
    assert!(matches!(task.handle(StatusEvent::LookedUp(false)), StatusAction::Open));
    assert!(matches!(
        task.handle(StatusEvent::Opened(true)),
        StatusAction::Query(sql) if sql == "SELECT Provider, FileName, CRC, LastProcessedLine, LastProcessedByte, Status, UpdatedAt FROM import_progress"
    ));
    assert!(matches!(
        task.handle(StatusEvent::Read),
        StatusAction::Answer { cache_control: "public, max-age=60" }
    ));

    let mut cached = progress("ktmb");
    cached.handle(StatusEvent::Requested(true));
    assert!(matches!(cached.handle(StatusEvent::LookedUp(true)), StatusAction::AnswerFromCache));
}

#[test]
fn requests_for_progress_are_refused() {
    let mut posted = progress("ktmb");
    assert!(matches!(
        posted.handle(StatusEvent::Requested(false)),
        StatusAction::Refuse(refusal) if refusal.status == 405
    ));
    let reading = || {
        let mut task = progress("ktmb");
        task.handle(StatusEvent::Requested(true));
        task.handle(StatusEvent::LookedUp(false));
        task
    };
    assert!(matches!(
        reading().handle(StatusEvent::Opened(false)),
        StatusAction::Refuse(refusal) if refusal.status == 404
    ));
    let mut failed = reading();
    failed.handle(StatusEvent::Opened(true));
    assert!(matches!(
        failed.handle(StatusEvent::QueryFailed("gone".to_owned())),
        StatusAction::Refuse(refusal) if refusal.message == "Database error: gone"
    ));
    let mut unreadable = reading();
    unreadable.handle(StatusEvent::Opened(true));
    assert!(matches!(
        unreadable.handle(StatusEvent::RowsUnreadable("odd".to_owned())),
        StatusAction::Refuse(refusal) if refusal.message == "Database response error: odd" && refusal.status == 500
    ));
}

#[test]
fn paths_lead_to_routes() {
    assert!(matches!(
        fetch_route("/ktmb/status"),
        ApiRoute::Status { provider } if provider == "ktmb"
    ));
    assert!(matches!(
        fetch_route("/ktmb/status/"),
        ApiRoute::Status { provider } if provider == "ktmb"
    ));
    assert!(matches!(fetch_route("/ktmb/sql"), ApiRoute::Sql { provider } if provider == "ktmb"));
    assert!(matches!(
        fetch_route("//ktmb/data/stops/more"),
        ApiRoute::Data { provider, table_name } if provider == "ktmb" && table_name == "stops"
    ));
    assert!(matches!(fetch_route("/"), ApiRoute::Health));
    assert!(matches!(fetch_route(""), ApiRoute::Health));
    for unknown in ["/ktmb", "/ktmb/data", "/ktmb/status/x", "/ktmb/Status", "/a/b/c"] {
        assert!(matches!(fetch_route(unknown), ApiRoute::NotFound));
    }
    assert_eq!(
        plain_reply(true),
        ("Worker is running. Use /<provider>/status to check GTFS import progress.", 200)
    );
    assert_eq!(plain_reply(false), ("Not Found", 404));
}
