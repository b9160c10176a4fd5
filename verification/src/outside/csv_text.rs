//! Reading one record of CSV text, by the `csv` crate.
use crate::text::texts;
use std::io::{Cursor, SeekFrom};
use vstd::prelude::*;

verus! {

/// The errors of the `csv` crate.
#[verifier::external_type_specification]
#[verifier::external_body]
pub struct ExCsvError(csv::Error);

/// What `csv::Reader::read_record` finds first in `data`, read as CSV without a
/// header row and with records of any length: the fields of the first record,
/// or `None` where there is no record, and the number of bytes taken. `None`
/// altogether where a field is no UTF-8.
pub uninterp spec fn first_record(data: Seq<u8>) -> Option<(Option<Seq<Seq<char>>>, u64)>;

/// The bytes that `csv::Reader::read_byte_record` takes for the first record of
/// `data`, read in the same way but whatever its fields hold.
pub uninterp spec fn record_end(data: Seq<u8>) -> u64;

/// The fields of an optional record.
pub open spec fn record_texts(fields: Option<Vec<String>>) -> Option<Seq<Seq<char>>> {
    match fields {
        Some(list) => Some(texts(list@)),
        None => None,
    }
}

/// Reads the first record of `data` with `csv::Reader::read_record`, on a reader
/// of its own that expects no header row and accepts records of any length, and
/// gives the fields together with `csv::Reader::position`. The reader counts from the
/// given byte, line and record, by `csv::Reader::seek_raw`, which shows in the text of
/// an error alone. The fields and the bytes that are taken are named by
/// `first_record`. Only bytes of `data` are taken, and all of them where there is no
/// record. Line ends before a record are skipped: a record takes at least one byte that
/// ends no line.
#[verifier::external_body]
pub(crate) fn read_first_record(data: &[u8], byte: u64, line: u64, record: u64) -> (read: Result<
    (Option<Vec<String>>, u64),
    csv::Error,
>)
    requires
        byte + data@.len() <= u64::MAX,
        line + data@.len() <= u64::MAX,
        record < u64::MAX,
    ensures
        match read {
            Ok((fields, end)) => byte <= end <= byte + data@.len() && first_record(data@) == Some(
                (record_texts(fields), (end - byte) as u64),
            ) && (fields is None ==> end == byte + data@.len()) && (fields is Some ==> exists|
                i: int,
            |
                0 <= i < end - byte && #[trigger] data@[i] != 10 && data@[i] != 13),
            Err(_) => first_record(data@) is None,
        },
{
    let mut reader = csv::ReaderBuilder::new()
        .has_headers(false)
        .flexible(true)
        .from_reader(Cursor::new(data));
    let mut place = csv::Position::new();
    place.set_byte(byte).set_line(line).set_record(record);
    reader.set_byte_headers(csv::ByteRecord::new());
    reader.seek_raw(SeekFrom::Start(0), place)?;
    let mut found = csv::StringRecord::new();
    let is_record = reader.read_record(&mut found)?;
    let fields = found.iter().map(str::to_owned).collect();
    Ok((is_record.then_some(fields), reader.position().byte()))
}

/// The bytes of the first record of `data` by `csv::Reader::read_byte_record` and
/// `csv::Reader::position`, named by `record_end`: bytes of `data` alone. Reading
/// bytes in memory into a record of bytes does not fail.
#[verifier::external_body]
pub(crate) fn measure_record(data: &[u8]) -> (end: u64)
    ensures
        end == record_end(data@),
        end <= data@.len(),
{
    let mut reader = csv::ReaderBuilder::new()
        .has_headers(false)
        .flexible(true)
        .from_reader(data);
    let _ = reader.read_byte_record(&mut csv::ByteRecord::new());
    reader.position().byte()
}

} // verus!
