//! The columns that the database has for the tables of a feed.
use crate::scheduled::config::{
    all_gtfs_tables, gtfs_tables, named_tables, table_schema, ColumnInfo, GtfsTable, TableSchema,
};
use crate::text::texts;
use vstd::prelude::*;
use vstd::string::*;

verus! {

/// The name of a table with the prefix of an operator.
pub open spec fn prefixed(prefix: Seq<char>, base_name: Seq<char>) -> Seq<char> {
    prefix + "_"@ + base_name
}

pub fn full_table_name(prefix: &str, base_name: &str) -> (name: String)
    ensures
        name@ == prefixed(prefix@, base_name@),
{
    let mut name = prefix.to_owned();
    name.append("_");
    name.append(base_name);
    name
}

/// The statement that asks for the columns of a table.
pub fn table_columns_sql(table_name: &str) -> (sql: String)
    ensures
        sql@ == "PRAGMA table_info("@ + table_name@ + ")"@,
{
    let mut sql = "PRAGMA table_info(".to_owned();
    sql.append(table_name);
    sql.append(")");
    sql
}

/// The names of some columns.
pub open spec fn column_names(columns: Seq<ColumnInfo>) -> Seq<Seq<char>> {
    columns.map_values(|c: ColumnInfo| c.name@)
}

/// A schema is that of a table with these columns.
pub open spec fn is_schema(schema: TableSchema, table: GtfsTable, columns: Seq<Seq<char>>) -> bool {
    &&& schema.wf()
    &&& schema.csv_file@ == table.csv_file
    &&& schema.base_name@ == table.base_name
    &&& texts(schema.db_columns@) == columns
}

/// The tables that have columns, with those.
pub open spec fn known_tables(tables: Seq<GtfsTable>, columns: Seq<Seq<Seq<char>>>) -> Seq<
    (GtfsTable, Seq<Seq<char>>),
>
    decreases tables.len(),
{
    if tables.len() == 0 || tables.len() != columns.len() {
        seq![]
    } else {
        let front = known_tables(tables.drop_last(), columns.drop_last());
        if columns.last().len() == 0 {
            front
        } else {
            front.push((tables.last(), columns.last()))
        }
    }
}

/// The names of the columns of several tables.
pub open spec fn all_column_names(columns: Seq<Vec<ColumnInfo>>) -> Seq<Seq<Seq<char>>> {
    columns.map_values(|c: Vec<ColumnInfo>| column_names(c@))
}

/// The schemas are those of these tables.
pub open spec fn are_schemas(
    schemas: Seq<TableSchema>,
    known: Seq<(GtfsTable, Seq<Seq<char>>)>,
) -> bool {
    &&& schemas.len() == known.len()
    &&& forall|i: int|
        0 <= i < schemas.len() ==> is_schema(#[trigger] schemas[i], known[i].0, known[i].1)
}

/// The schemas of an operator, given what the database answered about each table
/// of a feed: a table without columns is skipped.
pub fn prefetch_table_schemas(columns: Vec<Vec<ColumnInfo>>) -> (schemas: Vec<TableSchema>)
    requires
        columns@.len() == all_gtfs_tables().len(),
    ensures
        are_schemas(schemas@, known_tables(all_gtfs_tables(), all_column_names(columns@))),
{
    let tables = gtfs_tables();
    let ghost all = named_tables(tables@);
    let ghost answers = all_column_names(columns@);
    let mut rest = columns;
    let mut schemas: Vec<TableSchema> = Vec::new();
    let mut i: usize = 0;
    assert(columns@.skip(0) =~= columns@);
    while i < tables.len()
        invariant
            i <= tables@.len(),
            tables@.len() == columns@.len(),
            all == named_tables(tables@),
            all == all_gtfs_tables(),
            answers == all_column_names(columns@),
            rest@ == columns@.skip(i as int),
            are_schemas(schemas@, known_tables(all.take(i as int), answers.take(i as int))),
        decreases tables.len() - i,
    {
        let ghost known = known_tables(all.take(i as int), answers.take(i as int));
        proof {
            assert(all.take(i + 1).drop_last() =~= all.take(i as int));
            assert(answers.take(i + 1).drop_last() =~= answers.take(i as int));
            assert(all.take(i + 1).last() == all[i as int]);
            assert(answers.take(i + 1).last() == column_names(columns@[i as int]@));
            assert(rest@[0] == columns@[i as int]);
        }
        let answer = rest.remove(0);
        assert(rest@ =~= columns@.skip(i + 1));
        assert(column_names(answer@).len() == answer@.len());
        let (csv_file, base_name) = tables[i];
        let ghost before = schemas@;
        if let Some(schema) = table_schema(csv_file, base_name, answer) {
            schemas.push(schema);
            proof {
                let item = (all[i as int], column_names(answer@));
                assert forall|k: int| 0 <= k < schemas@.len() implies is_schema(
                    #[trigger] schemas@[k],
                    known.push(item)[k].0,
                    known.push(item)[k].1,
                ) by {
                    if k < before.len() {
                        assert(schemas@[k] == before[k]);
                    }
                }
            }
        }
        i += 1;
    }
    assert(all.take(tables@.len() as int) =~= all);
    assert(answers.take(tables@.len() as int) =~= answers);
    schemas
}

} // verus!
