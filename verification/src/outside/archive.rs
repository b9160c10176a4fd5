//! The entries of a ZIP archive held in memory, by the `zip` crate.
use crate::importer::fault::{failure_view, IoErrorKind, IoFailure};
use std::io::{BufReader, Cursor, Error, ErrorKind, Read};
use vstd::prelude::*;

verus! {

/// The errors of the `zip` crate.
#[verifier::external_type_specification]
#[verifier::external_body]
pub struct ExZipError(zip::result::ZipError);

/// The number of entries that `zip::ZipArchive::len` gives, or the text of the error of
/// `zip::ZipArchive::new` where the bytes are no archive.
pub uninterp spec fn entry_count(archive: Seq<u8>) -> Result<usize, Seq<char>>;

/// The name, declared uncompressed size and CRC-32 of an entry that
/// `zip::ZipArchive::by_index` gives, or `None` where it fails.
pub uninterp spec fn entry_at(archive: Seq<u8>, index: usize) -> Option<(Seq<char>, u64, u32)>;

/// What reading an entry of a name gives, that `zip::ZipArchive::by_name` finds: its
/// declared uncompressed size, the bytes that can be read, in pieces of a size, before
/// the entry ends or reading fails, and the kind and the text of the error where it
/// fails. `None` where the entry is not found.
pub uninterp spec fn entry_contents(archive: Seq<u8>, name: Seq<char>, piece: usize) -> Option<
    (u64, Seq<u8>, Option<(IoErrorKind, Seq<char>)>),
>;

/// The text of an entry of a name, that `zip::ZipArchive::by_name` finds; or the text
/// of the error where it cannot be read as UTF-8 text. `None` where the entry is not
/// found.
pub uninterp spec fn entry_text(archive: Seq<u8>, name: Seq<char>) -> Option<
    Result<Seq<char>, Seq<char>>,
>;

/// `zip::ZipArchive::len` of the archive, or the error of `zip::ZipArchive::new` with
/// its text by `ToString`, named by `entry_count`.
#[verifier::external_body]
pub(crate) fn count_entries(archive: &[u8]) -> (count: Result<
    usize,
    (zip::result::ZipError, String),
>)
    ensures
        match count {
            Ok(n) => entry_count(archive@) == Ok::<usize, Seq<char>>(n),
            Err((_, text)) => entry_count(archive@) == Err::<usize, Seq<char>>(text@),
        },
{
    match zip::ZipArchive::new(Cursor::new(archive)) {
        Ok(opened) => Ok(opened.len()),
        Err(error) => {
            let text = error.to_string();
            Err((error, text))
        },
    }
}

/// The entry at an index by `zip::ZipArchive::by_index`: its name, its declared
/// uncompressed size and its CRC-32, named by `entry_at`.
#[verifier::external_body]
pub(crate) fn describe_entry(archive: &[u8], index: usize) -> (entry: Result<
    (String, u64, u32),
    zip::result::ZipError,
>)
    ensures
        match entry {
            Ok((name, size, crc)) => entry_at(archive@, index) == Some((name@, size, crc)),
            Err(_) => entry_at(archive@, index) is None,
        },
{
    let mut opened = zip::ZipArchive::new(Cursor::new(archive))?;
    let file = opened.by_index(index)?;
    Ok((file.name().to_owned(), file.size(), file.crc32()))
}

/// The entry of a name by `zip::ZipArchive::by_name`: its declared uncompressed
/// size, and what `std::io::Read` gives of it in pieces of a size, up to its end or to
/// the first error; all named by `entry_contents`. How many bytes come before an error
/// may depend on the size of the pieces.
#[verifier::external_body]
pub(crate) fn read_entry(archive: &[u8], name: &str, piece: usize) -> (entry: Result<
    (u64, Vec<u8>, Option<IoFailure>),
    zip::result::ZipError,
>)
    requires
        piece > 0,
    ensures
        match entry {
            Ok((size, data, failure)) => entry_contents(archive@, name@, piece) == Some(
                (size, data@, failure_view(failure)),
            ),
            Err(_) => entry_contents(archive@, name@, piece) is None,
        },
{
    let mut opened = zip::ZipArchive::new(Cursor::new(archive))?;
    let file = opened.by_name(name)?;
    let size = file.size();
    let mut failed = None;
    let bytes = BufReader::with_capacity(piece, file).bytes();
    let data = bytes.map_while(|byte| byte.map_err(|error| failed = Some(error)).ok()).collect();
    let kind = |error: &Error| match error.kind() {
        ErrorKind::InvalidData => IoErrorKind::InvalidData,
        ErrorKind::UnexpectedEof => IoErrorKind::UnexpectedEof,
        _ => IoErrorKind::Other,
    };
    Ok((size, data, failed.map(|e| IoFailure { kind: kind(&e), message: e.to_string() })))
}

/// The entry of a name by `zip::ZipArchive::by_name` as text by
/// `std::io::Read::read_to_string`: the text, or the text of the error; named by
/// `entry_text`.
#[verifier::external_body]
pub(crate) fn read_entry_text(archive: &[u8], name: &str) -> (entry: Option<Result<String, String>>)
    ensures
        match entry {
            Some(Ok(text)) => entry_text(archive@, name@) == Some(
                Ok::<Seq<char>, Seq<char>>(text@),
            ),
            Some(Err(reason)) => entry_text(archive@, name@) == Some(
                Err::<Seq<char>, Seq<char>>(reason@),
            ),
            None => entry_text(archive@, name@) is None,
        },
{
    let mut opened = zip::ZipArchive::new(Cursor::new(archive)).ok()?;
    let mut file = opened.by_name(name).ok()?;
    let mut content = String::new();
    let read = file.read_to_string(&mut content);
    Some(read.map(|_| content).map_err(|error| error.to_string()))
}

} // verus!
