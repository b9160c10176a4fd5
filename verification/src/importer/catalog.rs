//! The tables that the schemas of the providers know.
use crate::importer::schema::{parse_schema_file, schema_tables, TableModel};
use crate::text::{clone_texts, same_text, texts};
use vstd::prelude::*;

verus! {

/// A table, its columns, and those of its primary key.
#[derive(Debug)]
pub struct SchemaTable {
    pub table: String,
    pub columns: Vec<String>,
    pub keys: Vec<String>,
}

/// The tables of a list.
pub open spec fn table_models(tables: Seq<SchemaTable>) -> Seq<TableModel> {
    tables.map_values(
        |t: SchemaTable|
            TableModel { name: t.table@, columns: texts(t.columns@), keys: texts(t.keys@) },
    )
}

/// The columns of the first table of a name.
pub open spec fn table_columns(tables: Seq<SchemaTable>, table: Seq<char>) -> Option<Seq<Seq<char>>>
    decreases tables.len(),
{
    if tables.len() == 0 {
        None
    } else if tables[0].table@ == table {
        Some(texts(tables[0].columns@))
    } else {
        table_columns(tables.drop_first(), table)
    }
}

/// The key columns of the first table of a name, none where there is no such
/// table.
pub open spec fn table_keys(tables: Seq<SchemaTable>, table: Seq<char>) -> Seq<Seq<char>>
    decreases tables.len(),
{
    if tables.len() == 0 {
        seq![]
    } else if tables[0].table@ == table {
        texts(tables[0].keys@)
    } else {
        table_keys(tables.drop_first(), table)
    }
}

/// The columns of a table.
pub fn find_table<'a>(tables: &'a Vec<SchemaTable>, table: &str) -> (columns: Option<&'a Vec<String>>)
    ensures
        match columns {
            Some(list) => table_columns(tables@, table@) == Some(texts(list@)),
            None => table_columns(tables@, table@) is None,
        },
{
    let mut i: usize = 0;
    assert(tables@.skip(0) =~= tables@);
    while i < tables.len()
        invariant
            i <= tables@.len(),
            table_columns(tables@, table@) == table_columns(tables@.skip(i as int), table@),
        decreases tables.len() - i,
    {
        assert(tables@.skip(i as int).drop_first() =~= tables@.skip(i + 1));
        if same_text(tables[i].table.as_str(), table) {
            return Some(&tables[i].columns);
        }
        i += 1;
    }
    None
}

/// The schema of a provider: its tables, and the statements that create them.
#[derive(Debug)]
pub struct ProviderSchema {
    pub provider: String,
    pub tables: Vec<SchemaTable>,
    pub sql: Vec<String>,
}

impl ProviderSchema {
    /// The schema of a provider whose first file describes its tables.
    pub fn from_sql(provider: String, schema_sql: String, further_sql: Vec<String>) -> (schema:
        ProviderSchema)
        ensures
            schema.provider@ == provider@,
            table_models(schema.tables@) == schema_tables(schema_sql@),
            texts(schema.sql@) == seq![schema_sql@] + texts(further_sql@),
    {
        let tables = parse_schema_file(schema_sql.as_str());
        let mut sql: Vec<String> = vec![schema_sql];
        let mut further = further_sql;
        sql.append(&mut further);
        assert(texts(sql@) =~= seq![schema_sql@] + texts(further_sql@));
        ProviderSchema { provider, tables, sql }
    }
}

/// The first schema of a provider.
pub open spec fn schema_of(catalog: Seq<ProviderSchema>, provider: Seq<char>) -> Option<
    ProviderSchema,
>
    decreases catalog.len(),
{
    if catalog.len() == 0 {
        None
    } else if catalog[0].provider@ == provider {
        Some(catalog[0])
    } else {
        schema_of(catalog.drop_first(), provider)
    }
}

fn find_schema<'a>(catalog: &'a Vec<ProviderSchema>, provider: &str) -> (schema: Option<
    &'a ProviderSchema,
>)
    ensures
        match schema {
            Some(found) => schema_of(catalog@, provider@) == Some(*found),
            None => schema_of(catalog@, provider@) is None,
        },
{
    let mut i: usize = 0;
    assert(catalog@.skip(0) =~= catalog@);
    while i < catalog.len()
        invariant
            i <= catalog@.len(),
            schema_of(catalog@, provider@) == schema_of(catalog@.skip(i as int), provider@),
        decreases catalog.len() - i,
    {
        assert(catalog@.skip(i as int).drop_first() =~= catalog@.skip(i + 1));
        if same_text(catalog[i].provider.as_str(), provider) {
            return Some(&catalog[i]);
        }
        i += 1;
    }
    None
}

/// The tables of a provider.
pub fn parse_provider_schemas<'a>(catalog: &'a Vec<ProviderSchema>, provider_name: &str) -> (tables:
    Option<&'a Vec<SchemaTable>>)
    ensures
        match tables {
            Some(list) => schema_of(catalog@, provider_name@) matches Some(schema) && schema.tables
                == list,
            None => schema_of(catalog@, provider_name@) is None,
        },
{
    match find_schema(catalog, provider_name) {
        Some(schema) => Some(&schema.tables),
        None => None,
    }
}

/// The statements that create the tables of a provider.
pub fn get_provider_schema_sql<'a>(catalog: &'a Vec<ProviderSchema>, provider_name: &str) -> (sql:
    Option<&'a Vec<String>>)
    ensures
        match sql {
            Some(list) => schema_of(catalog@, provider_name@) matches Some(schema) && schema.sql
                == list,
            None => schema_of(catalog@, provider_name@) is None,
        },
{
    match find_schema(catalog, provider_name) {
        Some(schema) => Some(&schema.sql),
        None => None,
    }
}

/// The key columns of a table of a provider, none where it is not known.
pub open spec fn keys_of(
    catalog: Seq<ProviderSchema>,
    provider: Seq<char>,
    table: Seq<char>,
) -> Seq<Seq<char>> {
    match schema_of(catalog, provider) {
        Some(schema) => table_keys(schema.tables@, table),
        None => seq![],
    }
}

/// The key columns of a table of a provider.
pub fn primary_keys(catalog: &Vec<ProviderSchema>, provider_name: &str, table_name: &str) -> (keys:
    Vec<String>)
    ensures
        texts(keys@) == keys_of(catalog@, provider_name@, table_name@),
{
    let empty: Vec<String> = Vec::new();
    assert(texts(empty@) =~= seq![]);
    let schema = match find_schema(catalog, provider_name) {
        Some(schema) => schema,
        None => return empty,
    };
    let mut i: usize = 0;
    assert(schema.tables@.skip(0) =~= schema.tables@);
    while i < schema.tables.len()
        invariant
            i <= schema.tables@.len(),
            schema_of(catalog@, provider_name@) == Some(*schema),
            table_keys(schema.tables@, table_name@) == table_keys(
                schema.tables@.skip(i as int),
                table_name@,
            ),
        decreases schema.tables.len() - i,
    {
        assert(schema.tables@.skip(i as int).drop_first() =~= schema.tables@.skip(i + 1));
        if same_text(schema.tables[i].table.as_str(), table_name) {
            return clone_texts(&schema.tables[i].keys);
        }
        i += 1;
    }
    empty
}

} // verus!
