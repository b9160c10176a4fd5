//! Choosing the files of a feed: those that the schema of a provider knows, and
//! of those the ones that are not complete yet.
use crate::importer::batch::Checkpoint;
use crate::importer::catalog::{find_table, table_columns, SchemaTable};
use crate::importer::d1::Row;
use crate::importer::fault::{IoErrorKind, ProcessorError, ProcessorErrorView};
use crate::number::{decimal, hex_digits, push_decimal, push_hex};
use crate::outside::archive::{count_entries, describe_entry, entry_at, entry_count};
use crate::pieces::{
    begins_with, contains_pattern, ends_with, has_pattern, has_prefix, has_suffix, split,
    split_chars,
};
use crate::text::{chars_of, clone_texts, same_text, string_of, texts};
use vstd::prelude::*;
use vstd::string::*;

verus! {

/// The entries that a feed may have.
pub const MAX_ARCHIVE_ENTRIES: usize = 256;

/// A file of a feed that the schema knows.
#[derive(Debug)]
pub struct DiscoveredFile {
    pub csv_file: String,
    pub crc: String,
    pub table_name: String,
    pub db_columns: Vec<String>,
}

/// What is known of such a file.
#[verifier::ext_equal]
pub struct Discovered {
    pub csv_file: Seq<char>,
    pub crc: Seq<char>,
    pub table_name: Seq<char>,
    pub db_columns: Seq<Seq<char>>,
}

impl View for DiscoveredFile {
    type V = Discovered;

    open spec fn view(&self) -> Discovered {
        Discovered {
            csv_file: self.csv_file@,
            crc: self.crc@,
            table_name: self.table_name@,
            db_columns: texts(self.db_columns@),
        }
    }
}

/// The files of a list.
pub open spec fn discovered_files(files: Seq<DiscoveredFile>) -> Seq<Discovered> {
    files.map_values(|f: DiscoveredFile| f@)
}

// ---------------------------------------------------------------------------
// Names
// ---------------------------------------------------------------------------
/// The part of a path behind its last slash.
pub open spec fn base_name(path: Seq<char>) -> Seq<char> {
    split(path, '/').last()
}

/// The table that an entry of a feed is for: its base name without `.txt`. There
/// is none for other names, for the files that an operating system adds, and for
/// the table of the daily budget.
pub open spec fn table_of_entry(path: Seq<char>) -> Option<Seq<char>> {
    let base = base_name(path);
    let suffix = ".txt"@;
    let table = base.take(base.len() - suffix.len());
    if !ends_with(base, suffix) || contains_pattern(path, "__MACOSX"@) || begins_with(base, "._"@)
        || table == "daily_import_budget"@ {
        None
    } else {
        Some(table)
    }
}

/// The table that an entry of a feed is for.
pub fn entry_table(path: &str) -> (table: Option<String>)
    ensures
        match table {
            Some(name) => table_of_entry(path@) == Some(name@),
            None => table_of_entry(path@) is None,
        },
{
    let chars = chars_of(path);
    let parts = split_chars(chars.as_slice(), '/');
    let base = &parts[parts.len() - 1];
    assert(base@ == base_name(path@));
    let suffix = chars_of(".txt");
    if !has_suffix(base.as_slice(), suffix.as_slice()) {
        return None;
    }
    if has_pattern(chars.as_slice(), chars_of("__MACOSX").as_slice()) {
        return None;
    }
    if has_prefix(base.as_slice(), chars_of("._").as_slice()) {
        return None;
    }
    let stem = vstd::slice::slice_subrange(base.as_slice(), 0, base.len() - suffix.len());
    assert(stem@ =~= base@.take(base@.len() - ".txt"@.len()));
    let table = string_of(stem);
    if same_text(table.as_str(), "daily_import_budget") {
        return None;
    }
    Some(table)
}

// ---------------------------------------------------------------------------
// Entries
// ---------------------------------------------------------------------------
/// The files that are chosen so far, and the bytes they expand to.
#[verifier::ext_equal]
pub struct Chosen {
    pub files: Seq<Discovered>,
    pub bytes: nat,
}

/// An error in the sizes of a feed.
pub open spec fn size_fault(message: Seq<char>) -> ProcessorErrorView {
    ProcessorErrorView::Io(IoErrorKind::InvalidData, message)
}

/// The text of the error of a feed that expands too far.
pub open spec fn expansion_message(bytes: nat, maximum: u64) -> Seq<char> {
    "supported CSV files expand to "@ + decimal(bytes) + " bytes, exceeding the configured "@
        + decimal(maximum as nat) + "-byte limit"@
}

/// An entry is chosen where its table has columns in the schema, as long as the
/// chosen files together do not expand too far.
pub open spec fn with_entry(
    chosen: Chosen,
    entry: (Seq<char>, u64, u32),
    schemas: Seq<SchemaTable>,
    maximum: u64,
) -> Result<Chosen, ProcessorErrorView> {
    let (path, size, crc) = entry;
    match table_of_entry(path) {
        None => Ok(chosen),
        Some(table) => match table_columns(schemas, table) {
            None => Ok(chosen),
            Some(columns) => if columns.len() == 0 {
                Ok(chosen)
            } else if chosen.bytes + size > u64::MAX {
                Err(size_fault("supported CSV sizes overflowed u64"@))
            } else if chosen.bytes + size > maximum {
                Err(size_fault(expansion_message((chosen.bytes + size) as nat, maximum)))
            } else {
                Ok(
                    Chosen {
                        files: chosen.files.push(
                            Discovered {
                                csv_file: path,
                                crc: hex_digits(crc as nat, 8),
                                table_name: table,
                                db_columns: columns,
                            },
                        ),
                        bytes: (chosen.bytes + size) as nat,
                    },
                )
            },
        },
    }
}

/// The files that are chosen of the first entries of a feed.
pub open spec fn chosen_of(
    archive: Seq<u8>,
    count: nat,
    schemas: Seq<SchemaTable>,
    maximum: u64,
) -> Result<Chosen, ProcessorErrorView>
    decreases count,
{
    if count == 0 {
        Ok(Chosen { files: seq![], bytes: 0 })
    } else {
        match chosen_of(archive, (count - 1) as nat, schemas, maximum) {
            Err(error) => Err(error),
            Ok(chosen) => match entry_at(archive, (count - 1) as usize) {
                None => Err(ProcessorErrorView::Zip),
                Some(entry) => with_entry(chosen, entry, schemas, maximum),
            },
        }
    }
}

/// The text of the error of a feed with too many entries.
pub open spec fn entries_message(count: nat) -> Seq<char> {
    "feed contains "@ + decimal(count) + " archive entries, exceeding the supported maximum of "@
        + decimal(MAX_ARCHIVE_ENTRIES as nat)
}

/// The files that are chosen of a feed.
pub open spec fn supported_files(archive: Seq<u8>, schemas: Seq<SchemaTable>, maximum: u64) -> Result<
    Seq<Discovered>,
    ProcessorErrorView,
> {
    match entry_count(archive) {
        Err(_) => Err(ProcessorErrorView::Zip),
        Ok(count) => if count > MAX_ARCHIVE_ENTRIES {
            Err(size_fault(entries_message(count as nat)))
        } else {
            match chosen_of(archive, count as nat, schemas, maximum) {
                Err(error) => Err(error),
                Ok(chosen) => Ok(chosen.files),
            }
        },
    }
}

/// The files chosen so far, and the bytes they expand to.
#[derive(Debug)]
pub struct Selection {
    pub files: Vec<DiscoveredFile>,
    pub uncompressed_bytes: u64,
}

impl Selection {
    pub open spec fn chosen(&self) -> Chosen {
        Chosen {
            files: discovered_files(self.files@),
            bytes: self.uncompressed_bytes as nat,
        }
    }

    pub fn new() -> (selection: Selection)
        ensures
            selection.chosen() == (Chosen { files: seq![], bytes: 0 }),
    {
        let selection = Selection { files: Vec::new(), uncompressed_bytes: 0 };
        assert(discovered_files(selection.files@) =~= seq![]);
        selection
    }

    /// Chooses an entry, if the schema knows it.
    pub fn select_entry(
        &mut self,
        path: String,
        size: u64,
        crc: u32,
        schemas: &Vec<SchemaTable>,
        maximum_uncompressed_bytes: u64,
    ) -> (selected: Result<(), ProcessorError>)
        ensures
            ({
                let said = with_entry(
                    old(self).chosen(),
                    (path@, size, crc),
                    schemas@,
                    maximum_uncompressed_bytes,
                );
                match selected {
                    Ok(()) => said == Ok::<Chosen, ProcessorErrorView>(final(self).chosen()),
                    Err(error) => said == Err::<Chosen, ProcessorErrorView>(error@),
                }
            }),
    {
        let table = match entry_table(path.as_str()) {
            Some(table) => table,
            None => return Ok(()),
        };
        let columns = match find_table(schemas, table.as_str()) {
            Some(columns) => columns,
            None => return Ok(()),
        };
        if columns.len() == 0 {
            assert(texts(columns@).len() == 0);
            return Ok(());
        }
        assert(texts(columns@).len() > 0);
        match self.uncompressed_bytes.checked_add(size) {
            None => Err(
                ProcessorError::io(
                    IoErrorKind::InvalidData,
                    "supported CSV sizes overflowed u64".to_owned(),
                ),
            ),
            Some(total) => {
                if total > maximum_uncompressed_bytes {
                    let mut message = "supported CSV files expand to ".to_owned();
                    push_decimal(&mut message, total as u128);
                    message.append(" bytes, exceeding the configured ");
                    push_decimal(&mut message, maximum_uncompressed_bytes as u128);
                    message.append("-byte limit");
                    return Err(ProcessorError::io(IoErrorKind::InvalidData, message));
                }
                let mut hex = String::new();
                push_hex(&mut hex, crc, 8);
                let ghost before = self.files@;
                let file = DiscoveredFile {
                    csv_file: path,
                    crc: hex,
                    table_name: table,
                    db_columns: clone_texts(columns),
                };
                assert(file.crc@ =~= hex_digits(crc as nat, 8));
                self.files.push(file);
                self.uncompressed_bytes = total;
                assert(discovered_files(self.files@) =~= discovered_files(before).push(file@));
                Ok(())
            },
        }
    }
}

/// The files of a feed that the schema of a provider knows.
pub fn discover_supported_files(
    archive: &[u8],
    schemas: &Vec<SchemaTable>,
    maximum_uncompressed_bytes: u64,
) -> (files: Result<Vec<DiscoveredFile>, ProcessorError>)
    ensures
        ({
            let said = supported_files(archive@, schemas@, maximum_uncompressed_bytes);
            match files {
                Ok(list) => said == Ok::<Seq<Discovered>, ProcessorErrorView>(
                    discovered_files(list@),
                ),
                Err(error) => said == Err::<Seq<Discovered>, ProcessorErrorView>(error@),
            }
        }),
{
    let count: usize = match count_entries(archive) {
        Ok(count) => count,
        Err((error, _)) => return Err(ProcessorError::Zip(error)),
    };
    if count > MAX_ARCHIVE_ENTRIES {
        let mut message = "feed contains ".to_owned();
        push_decimal(&mut message, count as u128);
        message.append(" archive entries, exceeding the supported maximum of ");
        push_decimal(&mut message, MAX_ARCHIVE_ENTRIES as u128);
        return Err(ProcessorError::io(IoErrorKind::InvalidData, message));
    }
    let mut selection = Selection::new();
    let mut index: usize = 0;
    while index < count
        invariant
            index <= count <= MAX_ARCHIVE_ENTRIES,
            entry_count(archive@) == Ok::<usize, Seq<char>>(count),
            chosen_of(archive@, index as nat, schemas@, maximum_uncompressed_bytes) == Ok::<
                Chosen,
                ProcessorErrorView,
            >(selection.chosen()),
        decreases count - index,
    {
        let (path, size, crc) = match describe_entry(archive, index) {
            Ok(entry) => entry,
            Err(error) => {
                proof {
                    lemma_errors_stay(
                        archive@,
                        (index + 1) as nat,
                        count as nat,
                        schemas@,
                        maximum_uncompressed_bytes,
                    );
                }
                return Err(ProcessorError::Zip(error));
            },
        };
        match selection.select_entry(path, size, crc, schemas, maximum_uncompressed_bytes) {
            Ok(()) => {},
            Err(error) => {
                proof {
                    lemma_errors_stay(
                        archive@,
                        (index + 1) as nat,
                        count as nat,
                        schemas@,
                        maximum_uncompressed_bytes,
                    );
                }
                return Err(error);
            },
        }
        index += 1;
    }
    Ok(selection.files)
}

/// An error of the first entries is an error of all.
proof fn lemma_errors_stay(
    archive: Seq<u8>,
    some: nat,
    all: nat,
    schemas: Seq<SchemaTable>,
    maximum: u64,
)
    requires
        some <= all,
        chosen_of(archive, some, schemas, maximum) is Err,
    ensures
        chosen_of(archive, all, schemas, maximum) == chosen_of(archive, some, schemas, maximum),
    decreases all,
{
    if some < all {
        lemma_errors_stay(archive, some, (all - 1) as nat, schemas, maximum);
    }
}

/// The files that are chosen never expand to more than the maximum together, and
/// each belongs to a table that the schema gives columns.
pub proof fn law_chosen_files_are_known_and_bounded(
    archive: Seq<u8>,
    count: nat,
    schemas: Seq<SchemaTable>,
    maximum: u64,
)
    ensures
        chosen_of(archive, count, schemas, maximum) matches Ok(chosen) ==> chosen.bytes <= maximum
            && chosen.files.len() <= count && forall|i: int|
            0 <= i < chosen.files.len() ==> {
                let file = #[trigger] chosen.files[i];
                &&& table_of_entry(file.csv_file) == Some(file.table_name)
                &&& table_columns(schemas, file.table_name) == Some(file.db_columns)
                &&& file.db_columns.len() > 0
            },
    decreases count,
{
    if count > 0 {
        law_chosen_files_are_known_and_bounded(archive, (count - 1) as nat, schemas, maximum);
    }
}

// ---------------------------------------------------------------------------
// Resuming
// ---------------------------------------------------------------------------
/// Where the import of a file goes on, by the row of its progress: at the start
/// where there is no row or the file has changed, nowhere where it is complete,
/// else at the recorded place.
pub open spec fn resume_place(row: Option<Row>, crc: Seq<char>) -> Option<Checkpoint> {
    let start = Checkpoint { line: 0, byte: 0 };
    match row {
        None => Some(start),
        Some(progress) => {
            let recorded = match progress.text("CRC"@) {
                Some(text) => text,
                None => ""@,
            };
            if recorded != crc {
                Some(start)
            } else if progress.signed("Status"@) == Some(0int) {
                None
            } else {
                Some(
                    Checkpoint {
                        line: match progress.unsigned("LastProcessedLine"@) {
                            Some(n) => n,
                            None => 0,
                        },
                        byte: match progress.unsigned("LastProcessedByte"@) {
                            Some(n) => n,
                            None => 0,
                        },
                    },
                )
            }
        },
    }
}

/// An optional row.
pub open spec fn optional_row(row: Option<&Row>) -> Option<Row> {
    match row {
        Some(r) => Some(*r),
        None => None,
    }
}

/// Where the import of a file goes on.
pub fn get_resume_state(row: Option<&Row>, file_crc: &str) -> (place: Option<Checkpoint>)
    ensures
        place == resume_place(optional_row(row), file_crc@),
{
    let progress = match row {
        Some(progress) => progress,
        None => return Some(Checkpoint { line: 0, byte: 0 }),
    };
    let recorded: &str = match progress.get_text("CRC") {
        Some(text) => text,
        None => "",
    };
    if !same_text(recorded, file_crc) {
        return Some(Checkpoint { line: 0, byte: 0 });
    }
    if let Some(status) = progress.get_signed("Status") {
        if status == 0 {
            return None;
        }
    }
    let line: u64 = match progress.get_unsigned("LastProcessedLine") {
        Some(n) => n,
        None => 0,
    };
    let byte: u64 = match progress.get_unsigned("LastProcessedByte") {
        Some(n) => n,
        None => 0,
    };
    Some(Checkpoint { line, byte })
}

/// A file to import, and where.
#[derive(Debug)]
pub struct PreparedFile {
    pub csv_file: String,
    pub crc: String,
    pub table_name: String,
    pub db_columns: Vec<String>,
    pub checkpoint: Checkpoint,
}

/// What is known of such a file.
#[verifier::ext_equal]
pub struct Prepared {
    pub file: Discovered,
    pub checkpoint: Checkpoint,
}

impl View for PreparedFile {
    type V = Prepared;

    open spec fn view(&self) -> Prepared {
        Prepared {
            file: Discovered {
                csv_file: self.csv_file@,
                crc: self.crc@,
                table_name: self.table_name@,
                db_columns: texts(self.db_columns@),
            },
            checkpoint: self.checkpoint,
        }
    }
}

/// The files of a list.
pub open spec fn prepared_files(files: Seq<PreparedFile>) -> Seq<Prepared> {
    files.map_values(|f: PreparedFile| f@)
}

/// The first row of the progress of a file.
pub open spec fn progress_row(rows: Seq<Row>, csv_file: Seq<char>) -> Option<Row>
    decreases rows.len(),
{
    if rows.len() == 0 {
        None
    } else if rows[0].text("FileName"@) == Some(csv_file) {
        Some(rows[0])
    } else {
        progress_row(rows.drop_first(), csv_file)
    }
}

fn find_progress<'a>(rows: &'a Vec<Row>, csv_file: &str) -> (row: Option<&'a Row>)
    ensures
        optional_row(row) == progress_row(rows@, csv_file@),
{
    let mut i: usize = 0;
    assert(rows@.skip(0) =~= rows@);
    while i < rows.len()
        invariant
            i <= rows@.len(),
            progress_row(rows@, csv_file@) == progress_row(rows@.skip(i as int), csv_file@),
        decreases rows.len() - i,
    {
        assert(rows@.skip(i as int).drop_first() =~= rows@.skip(i + 1));
        if let Some(name) = rows[i].get_text("FileName") {
            if same_text(name, csv_file) {
                return Some(&rows[i]);
            }
        }
        i += 1;
    }
    None
}

/// The files that are left to import, each with its place.
pub open spec fn pending_files(files: Seq<Discovered>, rows: Seq<Row>) -> Seq<Prepared>
    decreases files.len(),
{
    if files.len() == 0 {
        seq![]
    } else {
        let front = pending_files(files.drop_last(), rows);
        let file = files.last();
        match resume_place(progress_row(rows, file.csv_file), file.crc) {
            Some(checkpoint) => front.push(Prepared { file, checkpoint }),
            None => front,
        }
    }
}

/// The files that are left to import.
pub fn plan_files(discovered: Vec<DiscoveredFile>, progress_rows: &Vec<Row>) -> (files: Vec<
    PreparedFile,
>)
    ensures
        prepared_files(files@) == pending_files(discovered_files(discovered@), progress_rows@),
{
    let mut files: Vec<PreparedFile> = Vec::new();
    let mut i: usize = 0;
    assert(prepared_files(files@) =~= seq![]);
    while i < discovered.len()
        invariant
            i <= discovered@.len(),
            prepared_files(files@) == pending_files(
                discovered_files(discovered@.take(i as int)),
                progress_rows@,
            ),
        decreases discovered.len() - i,
    {
        let ghost so_far = discovered_files(discovered@.take(i + 1));
        assert(so_far.drop_last() =~= discovered_files(discovered@.take(i as int)));
        assert(so_far.last() == discovered@[i as int]@);
        let file = &discovered[i];
        let row = find_progress(progress_rows, file.csv_file.as_str());
        let ghost before = files@;
        if let Some(checkpoint) = get_resume_state(row, file.crc.as_str()) {
            let prepared = PreparedFile {
                csv_file: file.csv_file.clone(),
                crc: file.crc.clone(),
                table_name: file.table_name.clone(),
                db_columns: clone_texts(&file.db_columns),
                checkpoint,
            };
            files.push(prepared);
            assert(prepared_files(files@) =~= prepared_files(before).push(prepared@));
        }
        i += 1;
    }
    assert(discovered@.take(discovered@.len() as int) =~= discovered@);
    files
}

} // verus!
