//! The tables of a feed, the limits of D1, and the prefixes of operators.
use crate::outside::std_text::{alphanumeric, is_alphanumeric};
use crate::pieces::{find_pattern, join, join_texts, pattern_index};
use crate::text::{chars_of, string_of, texts};
use vstd::prelude::*;

verus! {

/// The parameters that one statement may have.
pub const D1_MAX_BOUND_PARAMS: usize = 100;

/// The statements that one batch may have.
pub const D1_MAX_BATCH_STATEMENTS: usize = 100;

/// The names of a file of a feed and of its table.
pub struct GtfsTable {
    pub csv_file: Seq<char>,
    pub base_name: Seq<char>,
}

/// The file of a table.
pub open spec fn gtfs_table(csv_file: Seq<char>, base_name: Seq<char>) -> GtfsTable {
    GtfsTable { csv_file, base_name }
}

/// The files of a feed, in the order of their import.
pub open spec fn all_gtfs_tables() -> Seq<GtfsTable> {
    seq![
        gtfs_table("shapes.txt"@, "shapes"@),
        gtfs_table("routes.txt"@, "routes"@),
        gtfs_table("stops.txt"@, "stops"@),
        gtfs_table("calendar.txt"@, "calendar"@),
        gtfs_table("trips.txt"@, "trips"@),
        gtfs_table("stop_times.txt"@, "stop_times"@),
        gtfs_table("agency.txt"@, "agency"@),
        gtfs_table("areas.txt"@, "areas"@),
        gtfs_table("fare_leg_rules.txt"@, "fare_leg_rules"@),
        gtfs_table("fare_media.txt"@, "fare_media"@),
        gtfs_table("fare_products.txt"@, "fare_products"@),
        gtfs_table("rider_categories.txt"@, "rider_categories"@),
        gtfs_table("stop_areas.txt"@, "stop_areas"@),
        gtfs_table("frequencies.txt"@, "frequencies"@),
        gtfs_table("calendar_dates.txt"@, "calendar_dates"@),
    ]
}

/// The files and the tables of a list.
pub open spec fn named_tables(list: Seq<(&'static str, &'static str)>) -> Seq<GtfsTable> {
    list.map_values(|t: (&'static str, &'static str)| gtfs_table(t.0@, t.1@))
}

/// The files of a feed, each with its table, in the order of their import.
pub fn gtfs_tables() -> (tables: Vec<(&'static str, &'static str)>)
    ensures
        named_tables(tables@) == all_gtfs_tables(),
{
    let tables: Vec<(&'static str, &'static str)> = vec![
        ("shapes.txt", "shapes"),
        ("routes.txt", "routes"),
        ("stops.txt", "stops"),
        ("calendar.txt", "calendar"),
        ("trips.txt", "trips"),
        ("stop_times.txt", "stop_times"),
        ("agency.txt", "agency"),
        ("areas.txt", "areas"),
        ("fare_leg_rules.txt", "fare_leg_rules"),
        ("fare_media.txt", "fare_media"),
        ("fare_products.txt", "fare_products"),
        ("rider_categories.txt", "rider_categories"),
        ("stop_areas.txt", "stop_areas"),
        ("frequencies.txt", "frequencies"),
        ("calendar_dates.txt", "calendar_dates"),
    ];
    assert(named_tables(tables@) =~= all_gtfs_tables());
    tables
}

/// A column of a table, as the database describes it.
#[derive(Debug)]
pub struct ColumnInfo {
    pub name: String,
}

/// The rows of some columns that fit into one statement, at least one.
pub open spec fn rows_per_statement(columns: nat) -> nat {
    let rows = D1_MAX_BOUND_PARAMS as nat / columns;
    if rows < 1 {
        1
    } else {
        rows
    }
}

/// A table of a feed, with the columns that the database has for it.
#[derive(Debug)]
pub struct TableSchema {
    pub csv_file: &'static str,
    pub base_name: &'static str,
    pub db_columns: Vec<String>,
    /// The rows of one statement.
    pub rows_per_insert: usize,
    /// The columns, parted by commas.
    pub col_list: String,
}

impl TableSchema {
    /// The table has columns, and the statement is sized for them.
    pub open spec fn wf(&self) -> bool {
        &&& self.db_columns@.len() > 0
        &&& self.rows_per_insert == rows_per_statement(self.db_columns@.len())
        &&& self.col_list@ == join(texts(self.db_columns@), ", "@)
    }
}

/// The rows of some columns that fit into one statement.
pub fn rows_that_fit(columns: usize) -> (rows: usize)
    requires
        columns > 0,
    ensures
        rows == rows_per_statement(columns as nat),
        1 <= rows <= D1_MAX_BOUND_PARAMS,
        rows == 1 || rows * columns <= D1_MAX_BOUND_PARAMS,
{
    let rows: usize = D1_MAX_BOUND_PARAMS / columns;
    proof {
        vstd::arithmetic::div_mod::lemma_fundamental_div_mod(
            D1_MAX_BOUND_PARAMS as int,
            columns as int,
        );
        vstd::arithmetic::div_mod::lemma_div_is_ordered_by_denominator(
            D1_MAX_BOUND_PARAMS as int,
            1,
            columns as int,
        );
        assert(columns * rows == rows * columns) by (nonlinear_arith);
    }
    if rows < 1 {
        1
    } else {
        rows
    }
}

/// The schema of a table with these columns.
pub fn table_schema(csv_file: &'static str, base_name: &'static str, columns: Vec<ColumnInfo>) -> (schema:
    Option<TableSchema>)
    ensures
        match schema {
            Some(table) => columns@.len() > 0 && table.wf() && table.csv_file@ == csv_file@
                && table.base_name@ == base_name@ && texts(table.db_columns@)
                == columns@.map_values(|c: ColumnInfo| c.name@),
            None => columns@.len() == 0,
        },
{
    if columns.len() == 0 {
        return None;
    }
    let mut db_columns: Vec<String> = Vec::new();
    let mut i: usize = 0;
    while i < columns.len()
        invariant
            i <= columns@.len(),
            db_columns@.len() == i,
            forall|k: int| 0 <= k < i ==> (#[trigger] db_columns@[k])@ == columns@[k].name@,
        decreases columns.len() - i,
    {
        db_columns.push(columns[i].name.clone());
        i += 1;
    }
    assert(texts(db_columns@) =~= columns@.map_values(|c: ColumnInfo| c.name@));
    let rows_per_insert = rows_that_fit(db_columns.len());
    let col_list = join_texts(&db_columns, ", ");
    Some(TableSchema { csv_file, base_name, db_columns, rows_per_insert, col_list })
}

/// An error of the worker.
#[derive(Debug)]
pub enum WorkerError {
    RustError(String),
}

/// The error of the worker with a text.
pub fn to_worker_err(text: &str) -> (error: WorkerError)
    ensures
        error matches WorkerError::RustError(message) && message@ == text@,
{
    WorkerError::RustError(text.to_owned())
}

// ---------------------------------------------------------------------------
// Prefixes
// ---------------------------------------------------------------------------
/// The part of an item behind its first `category=`, up to another one; the whole
/// item where it has none.
pub open spec fn category(item: Seq<char>) -> Seq<char> {
    let word = "category="@;
    match find_pattern(item, word) {
        None => item,
        Some(i) => {
            let rest = item.skip(i + word.len());
            match find_pattern(rest, word) {
                None => rest,
                Some(j) => rest.take(j),
            }
        },
    }
}

/// The character may stand in a prefix, with hyphens written as underscores.
pub open spec fn prefix_char(c: char) -> Option<char> {
    if c == '-' {
        Some('_')
    } else if is_alphanumeric(c) || c == '_' {
        Some(c)
    } else {
        None
    }
}

/// The characters of a text that may stand in a prefix.
pub open spec fn prefix_chars(s: Seq<char>) -> Seq<char>
    decreases s.len(),
{
    if s.len() == 0 {
        seq![]
    } else {
        match prefix_char(s.last()) {
            Some(c) => prefix_chars(s.drop_last()).push(c),
            None => prefix_chars(s.drop_last()),
        }
    }
}

/// The character is safe in the name of a table: of the characters of ASCII, only
/// letters, digits and the underscore are.
pub open spec fn is_name_char(c: char) -> bool {
    c as int >= 128 || '0' <= c <= '9' || 'A' <= c <= 'Z' || 'a' <= c <= 'z' || c == '_'
}

/// The prefix of the tables of an operator: `"prasarana?category=rapid-bus-penang"`
/// gives `"rapid_bus_penang"`.
pub fn enum_to_prefix(item: &str) -> (prefix: String)
    ensures
        prefix@ == prefix_chars(category(item@)),
        forall|i: int| 0 <= i < prefix@.len() ==> is_name_char(#[trigger] prefix@[i]),
{
    let chars = chars_of(item);
    let word = chars_of("category=");
    let mut base: &[char] = chars.as_slice();
    if let Some(i) = pattern_index(base, word.as_slice()) {
        let rest = vstd::slice::slice_subrange(base, i + word.len(), base.len());
        assert(rest@ =~= item@.skip(i + word@.len()));
        base = rest;
        if let Some(j) = pattern_index(rest, word.as_slice()) {
            base = vstd::slice::slice_subrange(rest, 0, j);
            assert(base@ =~= rest@.take(j as int));
        }
    }
    assert(base@ == category(item@));
    let mut kept: Vec<char> = Vec::new();
    let mut i: usize = 0;
    while i < base.len()
        invariant
            i <= base@.len(),
            kept@ == prefix_chars(base@.take(i as int)),
            forall|k: int| 0 <= k < kept@.len() ==> is_name_char(#[trigger] kept@[k]),
        decreases base.len() - i,
    {
        assert(base@.take(i + 1).drop_last() =~= base@.take(i as int));
        let c = base[i];
        if c == '-' {
            kept.push('_');
        } else if c == '_' || alphanumeric(c) {
            kept.push(c);
        }
        i += 1;
    }
    assert(base@.take(base@.len() as int) =~= base@);
    string_of(kept.as_slice())
}

/// A prefix holds only letters, numbers and underscores, whatever the item: it is
/// safe in the name of a table.
pub proof fn law_prefixes_are_safe(s: Seq<char>)
    ensures
        forall|i: int|
            0 <= i < prefix_chars(s).len() ==> is_alphanumeric(#[trigger] prefix_chars(s)[i])
                || prefix_chars(s)[i] == '_',
    decreases s.len(),
{
    if s.len() > 0 {
        let front = prefix_chars(s.drop_last());
        law_prefixes_are_safe(s.drop_last());
        assert forall|i: int| 0 <= i < prefix_chars(s).len() implies is_alphanumeric(
            #[trigger] prefix_chars(s)[i],
        ) || prefix_chars(s)[i] == '_' by {
            if i < front.len() {
                assert(prefix_chars(s)[i] == front[i]);
            }
        }
    }
}

} // verus!
