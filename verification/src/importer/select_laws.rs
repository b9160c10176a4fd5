//! What holds of every choice of files: which entries of a feed are imported, into which
//! tables, and where the import of each file goes on.
use crate::importer::batch::Checkpoint;
use crate::importer::catalog::{table_columns, SchemaTable};
use crate::importer::d1::Row;
use crate::importer::fault::ProcessorErrorView;
use crate::importer::select::{
    base_name, chosen_of, pending_files, progress_row, resume_place, supported_files,
    table_of_entry, with_entry, Chosen, Discovered, Prepared,
};
use crate::number::hex_digits;
use crate::number_laws::{hex_value, law_hexadecimals_can_be_read_back, sixteen_digits};
use crate::outside::archive::{entry_at, entry_count};
use crate::pieces::{begins_with, contains_pattern, find_char, lemma_find_char, split};
use crate::text::texts;
use vstd::prelude::*;
use vstd::string::*;

verus! {

// ---------------------------------------------------------------------------
// The tables of entries
// ---------------------------------------------------------------------------
/// A folder of an archive: nothing, or a path that ends with a slash.
pub open spec fn is_folder(path: Seq<char>) -> bool {
    path.len() == 0 || path.last() == '/'
}

/// The name of a folder that an operating system adds does not stand in the path.
pub open spec fn is_no_system_file(path: Seq<char>) -> bool {
    forall|i: int|
        0 <= i <= path.len() - 8 ==> #[trigger] path.subrange(i, i + 8) != seq![
            '_',
            '_',
            'M',
            'A',
            'C',
            'O',
            'S',
            'X',
        ]
}

/// A name that a table of a feed may have: it has no slash, does not begin like the
/// files that an operating system adds, and is not that of the daily budget.
pub open spec fn is_feed_table(table: Seq<char>) -> bool {
    &&& !table.contains('/')
    &&& !(table.len() >= 2 && table[0] == '.' && table[1] == '_')
    &&& table != "daily_import_budget"@
}

/// The path is that of the file of a table, in a folder.
pub open spec fn is_file_of_table(path: Seq<char>, folder: Seq<char>, table: Seq<char>) -> bool {
    &&& is_folder(folder)
    &&& path == folder + table + seq!['.', 't', 'x', 't']
}

proof fn lemma_base_of_path(folder: Seq<char>, name: Seq<char>)
    requires
        is_folder(folder),
        !name.contains('/'),
    ensures
        base_name(folder + name) == name,
    decreases folder.len(),
{
    let path = folder + name;
    let i = find_char(path, '/');
    lemma_find_char(path, '/');
    if folder.len() == 0 {
        assert(path =~= name);
        assert(split(path, '/').last() == path);
    } else {
        assert(path[folder.len() - 1] == '/');
        assert(path.contains('/'));
        assert(i < folder.len());
        let rest = folder.skip(i + 1);
        assert(path.skip(i + 1) =~= rest + name);
        lemma_base_of_path(rest, name);
        lemma_split_is_not_empty(path.skip(i + 1));
    }
}

proof fn lemma_split_is_not_empty(path: Seq<char>)
    ensures
        split(path, '/').len() > 0,
{
}

proof fn lemma_path_has_a_base(path: Seq<char>) -> (folder: Seq<char>)
    ensures
        is_folder(folder),
        path == folder + base_name(path),
        !base_name(path).contains('/'),
    decreases path.len(),
{
    let i = find_char(path, '/');
    lemma_find_char(path, '/');
    if i < path.len() {
        let rest = path.skip(i + 1);
        let folder = lemma_path_has_a_base(rest);
        lemma_split_is_not_empty(rest);
        assert(base_name(path) == base_name(rest));
        let whole = path.take(i + 1) + folder;
        assert(path =~= path.take(i + 1) + rest);
        assert(path =~= whole + base_name(path));
        if folder.len() == 0 {
            assert(whole.last() == path[i]);
        } else {
            assert(whole.last() == folder.last());
        }
        whole
    } else {
        assert(base_name(path) == path);
        assert(path =~= Seq::<char>::empty() + path);
        Seq::empty()
    }
}

/// The file of a table is found wherever it lies in an archive, and no other entry is
/// taken for it: an entry is for a table exactly where its path is some folder, the name
/// of the table and `.txt`, the name is one that a table of a feed may have, and it lies
/// in no folder that an operating system adds.
pub proof fn law_the_file_of_every_table_is_found(path: Seq<char>, table: Seq<char>)
    ensures
        table_of_entry(path) == Some(table) <==> is_feed_table(table) && is_no_system_file(path)
            && exists|folder: Seq<char>| #[trigger] is_file_of_table(path, folder, table),
{
    reveal_strlit(".txt");
    reveal_strlit("__MACOSX");
    reveal_strlit("._");
    let suffix = ".txt"@;
    assert(suffix =~= seq!['.', 't', 'x', 't']);
    assert("__MACOSX"@ =~= seq!['_', '_', 'M', 'A', 'C', 'O', 'S', 'X']);
    assert("._"@ =~= seq!['.', '_']);
    assert(contains_pattern(path, "__MACOSX"@) == !is_no_system_file(path)) by {
        if !is_no_system_file(path) {
            let i = choose|i: int|
                0 <= i <= path.len() - 8 && #[trigger] path.subrange(i, i + 8) == "__MACOSX"@;
            assert(path.subrange(i, i + "__MACOSX"@.len()) == "__MACOSX"@);
        }
    }
    let base = base_name(path);
    if table_of_entry(path) == Some(table) {
        let folder = lemma_path_has_a_base(path);
        assert(base =~= table + suffix);
        assert(path =~= folder + table + suffix);
        assert(is_file_of_table(path, folder, table));
        if table.contains('/') {
            let k = choose|k: int| 0 <= k < table.len() && table[k] == '/';
            assert(base[k] == '/');
        }
        if table.len() >= 2 && table[0] == '.' && table[1] == '_' {
            assert(base.take(2) =~= "._"@);
        }
    }
    if is_feed_table(table) && is_no_system_file(path) && exists|folder: Seq<char>| #[trigger]
        is_file_of_table(path, folder, table) {
        let folder = choose|folder: Seq<char>| #[trigger] is_file_of_table(path, folder, table);
        let name = table + suffix;
        assert(!name.contains('/')) by {
            if name.contains('/') {
                let k = choose|k: int| 0 <= k < name.len() && name[k] == '/';
                assert(k < table.len());
                assert(table[k] == '/');
            }
        }
        assert(path =~= folder + name);
        lemma_base_of_path(folder, name);
        assert(name.skip(name.len() - suffix.len()) =~= suffix);
        assert(name.take(name.len() - suffix.len()) =~= table);
        if begins_with(name, "._"@) {
            assert(name.take(2)[0] == '.' && name.take(2)[1] == '_');
            assert(table.len() >= 2) by {
                if table.len() == 0 {
                    assert(name[1] == 't');
                } else if table.len() == 1 {
                    assert(name[1] == '.');
                }
            }
        }
    }
}

// ---------------------------------------------------------------------------
// The files that are chosen
// ---------------------------------------------------------------------------
/// The table at an index is the first of a name.
pub open spec fn is_first_table(schemas: Seq<SchemaTable>, k: int, table: Seq<char>) -> bool {
    &&& 0 <= k < schemas.len()
    &&& schemas[k].table@ == table
    &&& forall|j: int| 0 <= j < k ==> (#[trigger] schemas[j]).table@ != table
}

/// The columns of a table are those of the first table of its name.
pub proof fn law_tables_are_found_by_name(schemas: Seq<SchemaTable>, table: Seq<char>)
    ensures
        forall|k: int| #[trigger]
            is_first_table(schemas, k, table) ==> table_columns(schemas, table) == Some(
                texts(schemas[k].columns@),
            ),
        (forall|k: int| 0 <= k < schemas.len() ==> (#[trigger] schemas[k]).table@ != table)
            <==> table_columns(schemas, table) is None,
    decreases schemas.len(),
{
    if schemas.len() > 0 {
        let rest = schemas.drop_first();
        law_tables_are_found_by_name(rest, table);
        assert forall|k: int| #[trigger] is_first_table(schemas, k, table) implies table_columns(
            schemas,
            table,
        ) == Some(texts(schemas[k].columns@)) by {
            if k > 0 {
                assert(schemas[0].table@ != table);
                assert(rest[k - 1] == schemas[k]);
                assert forall|j: int| 0 <= j < k - 1 implies (#[trigger] rest[j]).table@
                    != table by {
                    assert(rest[j] == schemas[j + 1]);
                }
                assert(is_first_table(rest, k - 1, table));
            }
        }
        if forall|k: int| 0 <= k < schemas.len() ==> (#[trigger] schemas[k]).table@ != table {
            assert forall|k: int| 0 <= k < rest.len() implies (#[trigger] rest[k]).table@
                != table by {
                assert(rest[k] == schemas[k + 1]);
            }
            assert(schemas[0].table@ != table);
        }
        if table_columns(schemas, table) is None {
            assert forall|k: int| 0 <= k < schemas.len() implies (#[trigger] schemas[k]).table@
                != table by {
                if k > 0 {
                    assert(rest[k - 1] == schemas[k]);
                }
            }
        }
    }
}

/// The file is that of an entry, for a table of the schema: it has the name of the entry,
/// the columns of the first table of that name, of which there is one, and the checksum
/// of the entry in eight hexadecimal digits.
pub open spec fn is_file_of_entry(
    file: Discovered,
    entry: (Seq<char>, u64, u32),
    schemas: Seq<SchemaTable>,
) -> bool {
    &&& file.csv_file == entry.0
    &&& table_of_entry(entry.0) == Some(file.table_name)
    &&& exists|k: int| #[trigger]
        is_first_table(schemas, k, file.table_name) && file.db_columns == texts(
            schemas[k].columns@,
        )
    &&& file.db_columns.len() > 0
    &&& file.crc.len() == 8
    &&& forall|i: int| 0 <= i < 8 ==> sixteen_digits().contains(#[trigger] file.crc[i])
    &&& hex_value(file.crc) == entry.2
}

/// The schema knows the table of the entry, and columns of it.
pub open spec fn is_wanted(entry: (Seq<char>, u64, u32), schemas: Seq<SchemaTable>) -> bool {
    exists|k: int|
        0 <= k < schemas.len() && table_of_entry(entry.0) == Some(
            (#[trigger] schemas[k]).table@,
        ) && is_first_table(schemas, k, schemas[k].table@) && schemas[k].columns@.len() > 0
}

/// The first entries of an archive.
pub open spec fn first_entries(archive: Seq<u8>, count: nat) -> Seq<(Seq<char>, u64, u32)> {
    Seq::new(count, |k: int| entry_at(archive, k as usize)->Some_0)
}

/// The entries whose files are imported.
pub open spec fn wanted_entries(archive: Seq<u8>, count: nat, schemas: Seq<SchemaTable>) -> Seq<
    (Seq<char>, u64, u32),
> {
    first_entries(archive, count).filter(|e: (Seq<char>, u64, u32)| is_wanted(e, schemas))
}

/// The sizes of some entries together.
pub open spec fn total_size(entries: Seq<(Seq<char>, u64, u32)>) -> nat
    decreases entries.len(),
{
    if entries.len() == 0 {
        0
    } else {
        total_size(entries.drop_last()) + entries.last().1 as nat
    }
}

/// All of the first entries can be read.
pub open spec fn all_readable(archive: Seq<u8>, count: nat) -> bool {
    forall|k: int| 0 <= k < count ==> #[trigger] entry_at(archive, k as usize) is Some
}

proof fn lemma_wanted(entry: (Seq<char>, u64, u32), schemas: Seq<SchemaTable>)
    ensures
        is_wanted(entry, schemas) <==> (table_of_entry(entry.0) matches Some(table) && (
        table_columns(schemas, table) matches Some(columns) && columns.len() > 0)),
        table_of_entry(entry.0) matches Some(table) ==> (table_columns(
            schemas,
            table,
        ) matches Some(columns) ==> exists|k: int| #[trigger]
            is_first_table(schemas, k, table) && columns == texts(schemas[k].columns@)),
{
    if let Some(table) = table_of_entry(entry.0) {
        law_tables_are_found_by_name(schemas, table);
        if table_columns(schemas, table) is Some {
            let k = lemma_first_table(schemas, table);
            assert(is_first_table(schemas, k, table));
            assert(texts(schemas[k].columns@).len() == schemas[k].columns@.len());
            assert(schemas[k].table@ == table);
        }
        if is_wanted(entry, schemas) {
            let k = choose|k: int|
                0 <= k < schemas.len() && table_of_entry(entry.0) == Some(
                    (#[trigger] schemas[k]).table@,
                ) && is_first_table(schemas, k, schemas[k].table@) && schemas[k].columns@.len() > 0;
            assert(is_first_table(schemas, k, table));
            assert(texts(schemas[k].columns@).len() == schemas[k].columns@.len());
        }
    }
}

proof fn lemma_first_table(schemas: Seq<SchemaTable>, table: Seq<char>) -> (k: int)
    requires
        table_columns(schemas, table) is Some,
    ensures
        is_first_table(schemas, k, table),
    decreases schemas.len(),
{
    if schemas[0].table@ == table {
        0
    } else {
        let rest = schemas.drop_first();
        let k = lemma_first_table(rest, table);
        assert forall|j: int| 0 <= j < k + 1 implies (#[trigger] schemas[j]).table@ != table by {
            if j > 0 {
                assert(rest[j - 1] == schemas[j]);
            }
        }
        assert(rest[k] == schemas[k + 1]);
        k + 1
    }
}

proof fn lemma_sizes_grow(archive: Seq<u8>, some: nat, all: nat, schemas: Seq<SchemaTable>)
    requires
        some <= all,
    ensures
        total_size(wanted_entries(archive, some, schemas)) <= total_size(
            wanted_entries(archive, all, schemas),
        ),
    decreases all,
{
    if some < all {
        lemma_sizes_grow(archive, some, (all - 1) as nat, schemas);
        lemma_one_more_entry(archive, all, schemas);
    }
}

proof fn lemma_one_more_entry(archive: Seq<u8>, count: nat, schemas: Seq<SchemaTable>)
    requires
        count > 0,
    ensures
        ({
            let entry = entry_at(archive, (count - 1) as usize)->Some_0;
            let before = wanted_entries(archive, (count - 1) as nat, schemas);
            let now = wanted_entries(archive, count, schemas);
            &&& is_wanted(entry, schemas) ==> now == before.push(entry) && total_size(now)
                == total_size(before) + entry.1
            &&& !is_wanted(entry, schemas) ==> now == before
        }),
{
    let entry = entry_at(archive, (count - 1) as usize)->Some_0;
    let all = first_entries(archive, count);
    reveal(Seq::filter);
    assert(all.drop_last() =~= first_entries(archive, (count - 1) as nat));
    assert(all.last() == entry);
    let before = wanted_entries(archive, (count - 1) as nat, schemas);
    assert(before.push(entry).drop_last() =~= before);
}

/// Every file that the schema knows is chosen, once and in the order of the archive, and
/// no other: an archive whose entries can be read is accepted exactly where the chosen
/// files together expand to no more than the maximum.
pub proof fn law_every_known_file_is_chosen(
    archive: Seq<u8>,
    count: nat,
    schemas: Seq<SchemaTable>,
    maximum: u64,
)
    requires
        count <= usize::MAX,
    ensures
        ({
            let wanted = wanted_entries(archive, count, schemas);
            &&& chosen_of(archive, count, schemas, maximum) is Ok <==> all_readable(archive, count)
                && total_size(wanted) <= maximum
            &&& chosen_of(archive, count, schemas, maximum) matches Ok(chosen) ==> chosen.bytes
                == total_size(wanted) && chosen.files.len() == wanted.len() && forall|i: int|
                0 <= i < wanted.len() ==> is_file_of_entry(
                    #[trigger] chosen.files[i],
                    wanted[i],
                    schemas,
                )
        }),
    decreases count,
{
    let wanted = wanted_entries(archive, count, schemas);
    reveal(Seq::filter);
    if count == 0 {
        assert(first_entries(archive, 0) =~= seq![]);
        assert(wanted =~= seq![]);
    } else {
        let fewer = (count - 1) as nat;
        law_every_known_file_is_chosen(archive, fewer, schemas, maximum);
        lemma_one_more_entry(archive, count, schemas);
        let before = wanted_entries(archive, fewer, schemas);
        let found = entry_at(archive, (count - 1) as usize);
        assert(all_readable(archive, count) <==> all_readable(archive, fewer) && found is Some) by {
            if all_readable(archive, count) {
                assert(entry_at(archive, (count - 1) as usize) is Some);
            }
        }
        if chosen_of(archive, fewer, schemas, maximum) is Ok && found is Some {
            let entry = found->Some_0;
            let chosen = chosen_of(archive, fewer, schemas, maximum)->Ok_0;
            lemma_wanted(entry, schemas);
            law_hexadecimals_can_be_read_back(entry.2 as nat, 8);
            assert(vstd::arithmetic::power::pow(16, 8) == 0x1_0000_0000) by {
                reveal_with_fuel(vstd::arithmetic::power::pow, 9);
            }
            if let Ok(now) = chosen_of(archive, count, schemas, maximum) {
                assert forall|i: int| 0 <= i < wanted.len() implies is_file_of_entry(
                    #[trigger] now.files[i],
                    wanted[i],
                    schemas,
                ) by {
                    if i < before.len() {
                        assert(now.files[i] == chosen.files[i]);
                        assert(is_file_of_entry(chosen.files[i], before[i], schemas));
                    } else {
                        let file = now.files[i];
                        let table = table_of_entry(entry.0)->Some_0;
                        assert(is_wanted(entry, schemas));
                        assert(wanted[i] == entry);
                        assert(with_entry(chosen, entry, schemas, maximum) == Ok::<
                            Chosen,
                            ProcessorErrorView,
                        >(now));
                        assert(file == now.files.last());
                        assert(file.table_name == table);
                        assert(table_columns(schemas, table) == Some(file.db_columns));
                        let k = choose|k: int| #[trigger]
                            is_first_table(schemas, k, table) && file.db_columns == texts(
                                schemas[k].columns@,
                            );
                        assert(is_first_table(schemas, k, file.table_name));
                        assert(file.crc == hex_digits(entry.2 as nat, 8));
                    }
                }
            }
        }
    }
}

// ---------------------------------------------------------------------------
// Resuming
// ---------------------------------------------------------------------------
/// The row at an index is the first about the progress of a file.
pub open spec fn is_first_row(rows: Seq<Row>, k: int, csv_file: Seq<char>) -> bool {
    &&& 0 <= k < rows.len()
    &&& rows[k].text("FileName"@) == Some(csv_file)
    &&& forall|j: int| 0 <= j < k ==> (#[trigger] rows[j]).text("FileName"@) != Some(csv_file)
}

/// There is no row about the progress of a file.
pub open spec fn has_no_row(rows: Seq<Row>, csv_file: Seq<char>) -> bool {
    forall|k: int|
        0 <= k < rows.len() ==> (#[trigger] rows[k]).text("FileName"@) != Some(csv_file)
}

/// The row is about a file with this checksum.
pub open spec fn is_about(row: Row, crc: Seq<char>) -> bool {
    match row.text("CRC"@) {
        Some(recorded) => recorded == crc,
        None => crc.len() == 0,
    }
}

/// The file is imported already: its row has its checksum and the status of a file that
/// is complete.
pub open spec fn is_complete(file: Discovered, rows: Seq<Row>) -> bool {
    exists|k: int| #[trigger]
        is_first_row(rows, k, file.csv_file) && is_about(rows[k], file.crc) && rows[k].signed(
            "Status"@,
        ) == Some(0int)
}

/// The number of a column, or none.
pub open spec fn recorded_number(row: Row, column: Seq<char>) -> u64 {
    match row.unsigned(column) {
        Some(n) => n,
        None => 0,
    }
}

/// The place where the import of a file goes on: at its start where no row is about it,
/// else at the line and the byte that its row records.
pub open spec fn goes_on_at(file: Discovered, rows: Seq<Row>, place: Checkpoint) -> bool {
    &&& has_no_row(rows, file.csv_file) ==> place.line == 0 && place.byte == 0
    &&& forall|k: int| #[trigger]
        is_first_row(rows, k, file.csv_file) ==> if is_about(rows[k], file.crc) {
            place.line == recorded_number(rows[k], "LastProcessedLine"@) && place.byte
                == recorded_number(rows[k], "LastProcessedByte"@)
        } else {
            place.line == 0 && place.byte == 0
        }
}

proof fn lemma_progress_row(rows: Seq<Row>, csv_file: Seq<char>)
    ensures
        has_no_row(rows, csv_file) <==> progress_row(rows, csv_file) is None,
        forall|k: int| #[trigger]
            is_first_row(rows, k, csv_file) ==> progress_row(rows, csv_file) == Some(rows[k]),
        progress_row(rows, csv_file) matches Some(row) ==> exists|k: int| #[trigger]
            is_first_row(rows, k, csv_file) && rows[k] == row,
    decreases rows.len(),
{
    if rows.len() > 0 {
        let rest = rows.drop_first();
        lemma_progress_row(rest, csv_file);
        assert(rows[0].text("FileName"@) == rows[0].text("FileName"@));
        assert forall|k: int| #[trigger] is_first_row(rows, k, csv_file) implies progress_row(
            rows,
            csv_file,
        ) == Some(rows[k]) by {
            if k > 0 {
                assert(rows[0].text("FileName"@) != Some(csv_file));
                assert(rest[k - 1] == rows[k]);
                assert forall|j: int| 0 <= j < k - 1 implies (#[trigger] rest[j]).text(
                    "FileName"@,
                ) != Some(csv_file) by {
                    assert(rest[j] == rows[j + 1]);
                }
                assert(is_first_row(rest, k - 1, csv_file));
            }
        }
        if has_no_row(rows, csv_file) {
            assert forall|k: int| 0 <= k < rest.len() implies (#[trigger] rest[k]).text(
                "FileName"@,
            ) != Some(csv_file) by {
                assert(rest[k] == rows[k + 1]);
            }
            assert(rows[0].text("FileName"@) != Some(csv_file));
        }
        if let Some(row) = progress_row(rows, csv_file) {
            if rows[0].text("FileName"@) == Some(csv_file) {
                assert(is_first_row(rows, 0, csv_file) && rows[0] == row);
            } else {
                let k = choose|k: int| #[trigger]
                    is_first_row(rest, k, csv_file) && rest[k] == row;
                assert(rows[k + 1] == rest[k]);
                assert forall|j: int| 0 <= j < k + 1 implies (#[trigger] rows[j]).text(
                    "FileName"@,
                ) != Some(csv_file) by {
                    if j > 0 {
                        assert(rest[j - 1] == rows[j]);
                    }
                }
                assert(is_first_row(rows, k + 1, csv_file));
            }
        } else {
            assert forall|k: int| 0 <= k < rows.len() implies (#[trigger] rows[k]).text(
                "FileName"@,
            ) != Some(csv_file) by {
                if k > 0 {
                    assert(rest[k - 1] == rows[k]);
                }
            }
        }
    }
}

proof fn lemma_resuming(file: Discovered, rows: Seq<Row>)
    ensures
        ({
            let place = resume_place(progress_row(rows, file.csv_file), file.crc);
            &&& place is None <==> is_complete(file, rows)
            &&& place matches Some(checkpoint) ==> goes_on_at(file, rows, checkpoint)
        }),
{
    lemma_progress_row(rows, file.csv_file);
    reveal_strlit("");
    if let Some(row) = progress_row(rows, file.csv_file) {
        let k = choose|k: int| #[trigger]
            is_first_row(rows, k, file.csv_file) && rows[k] == row;
        assert(is_first_row(rows, k, file.csv_file));
        let recorded = match row.text("CRC"@) {
            Some(text) => text,
            None => ""@,
        };
        assert(is_about(row, file.crc) <==> recorded == file.crc) by {
            if row.text("CRC"@) is None && file.crc.len() == 0 {
                assert(file.crc =~= ""@);
            }
        }
    }
}

/// Every import goes on where it stopped. Of the files of a feed, all are planned that
/// are not complete, once and in order, and no other. Each is planned at the line and the
/// byte that the first row about it records, if that row has its checksum, and else at
/// its start.
pub proof fn law_imports_go_on_where_they_stopped(files: Seq<Discovered>, rows: Seq<Row>)
    ensures
        pending_files(files, rows).map_values(|p: Prepared| p.file) == files.filter(
            |f: Discovered| !is_complete(f, rows),
        ),
        forall|i: int|
            0 <= i < pending_files(files, rows).len() ==> goes_on_at(
                (#[trigger] pending_files(files, rows)[i]).file,
                rows,
                pending_files(files, rows)[i].checkpoint,
            ),
    decreases files.len(),
{
    reveal(Seq::filter);
    let planned = pending_files(files, rows);
    let left = files.filter(|f: Discovered| !is_complete(f, rows));
    if files.len() == 0 {
        assert(planned.map_values(|p: Prepared| p.file) =~= left);
    } else {
        let front = pending_files(files.drop_last(), rows);
        law_imports_go_on_where_they_stopped(files.drop_last(), rows);
        lemma_resuming(files.last(), rows);
        assert(planned.map_values(|p: Prepared| p.file) =~= left);
        assert forall|i: int| 0 <= i < planned.len() implies goes_on_at(
            (#[trigger] planned[i]).file,
            rows,
            planned[i].checkpoint,
        ) by {
            if i < front.len() {
                assert(planned[i] == front[i]);
            }
        }
    }
}

/// An archive is accepted exactly where it can be opened, has no more than 256 entries,
/// and its entries can be chosen from; its files are then those that are chosen.
pub proof fn law_archives_have_a_bounded_number_of_entries(
    archive: Seq<u8>,
    schemas: Seq<SchemaTable>,
    maximum: u64,
    count: usize,
)
    requires
        entry_count(archive) == Ok::<usize, Seq<char>>(count),
    ensures
        supported_files(archive, schemas, maximum) is Ok <==> count <= 256 && chosen_of(
            archive,
            count as nat,
            schemas,
            maximum,
        ) is Ok,
        supported_files(archive, schemas, maximum) matches Ok(files) ==> files == chosen_of(
            archive,
            count as nat,
            schemas,
            maximum,
        )->Ok_0.files,
{
}

} // verus!
