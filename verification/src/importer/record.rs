//! Reading the records of a CSV file one by one, each within a size limit.
use crate::importer::fault::{
    failure_view, IoErrorKind, IoFailure, ProcessorError, ProcessorErrorView,
};
use crate::number::{decimal, push_decimal};
use crate::outside::csv_text::{
    first_record, measure_record, read_first_record, record_end, record_texts,
};
use crate::text::texts;
use vstd::prelude::*;
use vstd::string::*;

verus! {

/// How far a reader may look beyond the size limit to find the end of a record,
/// before the exact span of the record is tested.
pub const CSV_RECORD_READ_AHEAD_BYTES: u64 = 64 * 1024;

/// The bytes that a reader of CSV text takes of its file at once.
pub const CSV_BUFFER_BYTES: u64 = 8 * 1024;

/// The bytes that may be read for one record.
pub open spec fn allowance(maximum_bytes: u64) -> nat {
    if maximum_bytes + CSV_RECORD_READ_AHEAD_BYTES <= u64::MAX {
        (maximum_bytes + CSV_RECORD_READ_AHEAD_BYTES) as nat
    } else {
        u64::MAX as nat
    }
}

/// Hands out bytes, no more for one record than the limit allows.
pub struct RecordSizeLimiter<'a> {
    pub inner: &'a [u8],
    pub maximum_bytes: u64,
    pub remaining_bytes: u64,
}

/// The text of the error of a reader that has used up its allowance.
pub open spec fn exhausted_message(maximum_bytes: u64) -> Seq<char> {
    "CSV record exceeded the configured "@ + decimal(maximum_bytes as nat) + "-byte limit"@
}

/// The smaller of two numbers.
pub open spec fn smaller(a: int, b: int) -> int {
    if a < b {
        a
    } else {
        b
    }
}

impl<'a> RecordSizeLimiter<'a> {
    pub fn new(inner: &'a [u8], maximum_bytes: u64) -> (limiter: Self)
        ensures
            limiter.inner@ == inner@,
            limiter.maximum_bytes == maximum_bytes,
            limiter.remaining_bytes == allowance(maximum_bytes),
    {
        RecordSizeLimiter {
            inner,
            maximum_bytes,
            remaining_bytes: maximum_bytes.saturating_add(CSV_RECORD_READ_AHEAD_BYTES),
        }
    }

    /// Restores the full allowance for the next record.
    pub fn reset(&mut self)
        ensures
            final(self).inner@ == old(self).inner@,
            final(self).maximum_bytes == old(self).maximum_bytes,
            final(self).remaining_bytes == allowance(old(self).maximum_bytes),
    {
        self.remaining_bytes = self.maximum_bytes.saturating_add(CSV_RECORD_READ_AHEAD_BYTES);
    }

    /// The number of bytes that a request for `wanted` bytes gets.
    pub open spec fn granted(&self, wanted: usize) -> int {
        smaller(smaller(wanted as int, self.remaining_bytes as int), self.inner@.len() as int)
    }

    /// Reads up to `wanted` bytes.
    pub fn read(&mut self, wanted: usize) -> (bytes: Result<&'a [u8], IoFailure>)
        ensures
            final(self).maximum_bytes == old(self).maximum_bytes,
            match bytes {
                Ok(taken) => (wanted == 0 || old(self).remaining_bytes > 0) && taken@ == old(
                    self,
                ).inner@.take(old(self).granted(wanted)) && final(self).inner@ == old(
                    self,
                ).inner@.skip(old(self).granted(wanted)) && final(self).remaining_bytes == old(
                    self,
                ).remaining_bytes - old(self).granted(wanted),
                Err(failure) => wanted > 0 && old(self).remaining_bytes == 0 && failure.kind
                    == IoErrorKind::InvalidData && failure.message@ == exhausted_message(
                    old(self).maximum_bytes,
                ) && final(self).inner@ == old(self).inner@ && final(self).remaining_bytes == 0,
            },
    {
        let whole: &'a [u8] = self.inner;
        if wanted > 0 && self.remaining_bytes == 0 {
            let mut message = "CSV record exceeded the configured ".to_owned();
            push_decimal(&mut message, self.maximum_bytes as u128);
            message.append("-byte limit");
            return Err(IoFailure { kind: IoErrorKind::InvalidData, message });
        }
        let mut count: usize = wanted;
        if self.remaining_bytes < count as u64 {
            count = self.remaining_bytes as usize;
        }
        if whole.len() < count {
            count = whole.len();
        }
        let taken: &'a [u8] = vstd::slice::slice_subrange(whole, 0, count);
        self.inner = vstd::slice::slice_subrange(whole, count, whole.len());
        self.remaining_bytes = self.remaining_bytes - count as u64;
        assert(taken@ =~= whole@.take(count as int));
        assert(self.inner@ =~= whole@.skip(count as int));
        Ok(taken)
    }
}

/// The text of the error of a record that is too long.
pub open spec fn span_message(record_bytes: nat, maximum_bytes: u64) -> Seq<char> {
    "CSV record is "@ + decimal(record_bytes) + " bytes, exceeding the configured "@ + decimal(
        maximum_bytes as nat,
    ) + "-byte limit"@
}

/// The bytes between two positions, none where the end comes first.
pub open spec fn span(start: u64, end: u64) -> nat {
    if end > start {
        (end - start) as nat
    } else {
        0
    }
}

/// Rejects a record that takes more bytes than the limit.
pub fn validate_record_span(start: u64, end: u64, maximum_bytes: u64) -> (valid: Result<
    (),
    ProcessorError,
>)
    ensures
        match valid {
            Ok(()) => span(start, end) <= maximum_bytes,
            Err(error) => span(start, end) > maximum_bytes && error@ == ProcessorErrorView::Io(
                IoErrorKind::InvalidData,
                span_message(span(start, end), maximum_bytes),
            ),
        },
{
    let record_bytes: u64 = end.saturating_sub(start);
    if record_bytes > maximum_bytes {
        let mut message = "CSV record is ".to_owned();
        push_decimal(&mut message, record_bytes as u128);
        message.append(" bytes, exceeding the configured ");
        push_decimal(&mut message, maximum_bytes as u128);
        message.append("-byte limit");
        return Err(ProcessorError::io(IoErrorKind::InvalidData, message));
    }
    Ok(())
}

/// The contents of a file: the bytes that can be read, and the error that comes
/// behind them where the file cannot be read to its end.
#[verifier::ext_equal]
pub struct Contents {
    pub bytes: Seq<u8>,
    pub fault: Option<(IoErrorKind, Seq<char>)>,
}

/// What reading one record gives.
pub enum RecordRead {
    /// A field is no UTF-8.
    Failed,
    /// The record goes on behind all the bytes that may be read for it.
    CutOff,
    /// The file cannot be read as far as the record goes.
    Broken(IoErrorKind, Seq<char>),
    /// The record takes more bytes than the limit.
    TooLong(nat),
    /// There is no record before the end, where reading stops.
    Missing(nat),
    /// The fields of the record, and the position behind it.
    Found(Seq<Seq<char>>, nat),
}

/// The bytes begin with a byte order mark.
pub open spec fn has_byte_order_mark(bytes: Seq<u8>) -> bool {
    bytes.len() >= 3 && bytes[0] == 0xef && bytes[1] == 0xbb && bytes[2] == 0xbf
}

/// The bytes that come before the rest of a file, for the sake of its byte order mark:
/// it is dropped only where reading begins; anywhere else, an empty line put before it
/// keeps it in the record.
pub open spec fn lead(rest: Seq<u8>, fresh: bool) -> Seq<u8> {
    if !fresh && has_byte_order_mark(rest) {
        seq![10u8]
    } else {
        seq![]
    }
}

/// A record as it stands at the beginning of some bytes.
pub struct Parsed {
    /// The fields, or `None` where there is no record; `None` altogether where a field
    /// is no UTF-8.
    pub fields: Option<Option<Seq<Seq<char>>>>,
    pub taken: nat,
    /// The record ends with the bytes, not before: only behind them could more of it
    /// stand.
    pub open: bool,
}

/// The difference of two numbers, none where the first is smaller.
pub open spec fn less(a: nat, b: nat) -> nat {
    if a > b {
        (a - b) as nat
    } else {
        0
    }
}

/// The first record of the rest of a file; all of it is taken where there is none. An
/// open record would take up a line end behind it too.
pub open spec fn parsed(rest: Seq<u8>, fresh: bool) -> Parsed {
    let before = lead(rest, fresh);
    let input = before + rest;
    let (fields, end) = match first_record(input) {
        Some((fields, end)) => (Some(fields), end),
        None => (None, record_end(input)),
    };
    Parsed {
        fields,
        taken: if fields == Some(None::<Seq<Seq<char>>>) {
            rest.len()
        } else {
            less(end as nat, before.len())
        },
        open: fields == Some(None::<Seq<Seq<char>>>) || (end == input.len() && record_end(
            input.push(10u8),
        ) > input.len()),
    }
}

/// The bytes of a file that a reader holds at a position, read but not handed out. It
/// reads piece by piece from where it begins. The pieces are taken to be full: shorter
/// ones would alter nothing but which of the two errors a record that is too long gives.
pub open spec fn held(length: int, begin: int, at: int) -> int {
    let gone = at - begin;
    let fetched = (gone + CSV_BUFFER_BYTES - 1) / (CSV_BUFFER_BYTES as int)
        * CSV_BUFFER_BYTES;
    smaller(fetched, length - begin) - gone
}

/// All the bytes that may be handed out for the record at a position: those that the
/// reader holds, and its allowance.
pub open spec fn reach(length: int, begin: int, at: int, maximum_bytes: u64) -> int {
    held(length, begin, at) + maximum_bytes + CSV_RECORD_READ_AHEAD_BYTES
}

/// What reading the record at a position gives to a reader that began at another.
pub open spec fn record_at(
    contents: Contents,
    at: int,
    begin: int,
    maximum_bytes: u64,
) -> RecordRead {
    let rest = contents.bytes.skip(at);
    let record = parsed(rest, at == begin);
    let limit = reach(contents.bytes.len() as int, begin, at, maximum_bytes);
    if rest.len() == 0 && contents.fault is None {
        RecordRead::Missing(contents.bytes.len())
    } else if record.taken > limit || (record.open && rest.len() >= limit) {
        RecordRead::CutOff
    } else if record.open && contents.fault is Some {
        RecordRead::Broken(contents.fault->Some_0.0, contents.fault->Some_0.1)
    } else {
        match record.fields {
            None => RecordRead::Failed,
            Some(None) => if record.taken > maximum_bytes {
                RecordRead::TooLong(record.taken)
            } else {
                RecordRead::Missing(contents.bytes.len())
            },
            Some(Some(list)) => if record.taken > maximum_bytes {
                RecordRead::TooLong(record.taken)
            } else if 0 < record.taken <= contents.bytes.len() - at {
                RecordRead::Found(list, (at + record.taken) as nat)
            } else {
                RecordRead::Failed
            },
        }
    }
}

/// The error of a record that cannot be read, if it is one.
pub open spec fn record_fault(read: RecordRead, maximum_bytes: u64) -> Option<ProcessorErrorView> {
    match read {
        RecordRead::Failed => Some(ProcessorErrorView::Csv),
        RecordRead::CutOff => Some(
            ProcessorErrorView::CsvRead(
                IoErrorKind::InvalidData,
                exhausted_message(maximum_bytes),
            ),
        ),
        RecordRead::Broken(kind, text) => Some(ProcessorErrorView::CsvRead(kind, text)),
        RecordRead::TooLong(taken) => Some(
            ProcessorErrorView::Io(IoErrorKind::InvalidData, span_message(taken, maximum_bytes)),
        ),
        _ => None,
    }
}

/// Where a reader stands in a file: the position where it began, its own, and the
/// line and the record that it is at, for the text of an error.
#[derive(Clone, Copy, Debug)]
pub struct RecordReader {
    pub begin: u64,
    pub at: u64,
    pub line: u64,
    pub record: u64,
}

impl RecordReader {
    /// A reader that begins at a position.
    pub fn new(begin: u64) -> (reader: RecordReader)
        ensures
            reader == (RecordReader { begin, at: begin, line: 1, record: 0 }),
    {
        RecordReader { begin, at: begin, line: 1, record: 0 }
    }

    /// Moves on behind a record.
    fn pass(&mut self, bytes: &[u8], taken: u64)
        requires
            taken <= bytes@.len(),
            old(self).at + taken <= u64::MAX,
        ensures
            final(self).begin == old(self).begin,
            final(self).at == old(self).at + taken,
    {
        let mut i: usize = 0;
        while i < taken as usize
            invariant
                i <= taken <= bytes@.len(),
                self.begin == old(self).begin,
                self.at == old(self).at,
            decreases taken - i,
        {
            if bytes[i] == 10 {
                self.line = self.line.saturating_add(1);
            }
            i += 1;
        }
        self.record = self.record.saturating_add(1);
        self.at = self.at + taken;
    }
}

/// A number, or the largest one up to a bound.
fn at_most(n: u64, bound: u64) -> (least: u64)
    ensures
        least <= bound,
        least <= n,
{
    if n < bound {
        n
    } else {
        bound
    }
}

/// Some bytes behind others.
fn joined(before: &Vec<u8>, bytes: &[u8]) -> (all: Vec<u8>)
    ensures
        all@ == before@ + bytes@,
{
    let mut all: Vec<u8> = before.clone();
    all.extend_from_slice(bytes);
    assert(all@ =~= before@ + bytes@);
    all
}

/// The first record of some bytes: its fields, the bytes that it takes, and whether it
/// is open.
fn parse_input(input: &[u8], reader: &RecordReader) -> (record: (
    Result<Option<Vec<String>>, csv::Error>,
    u64,
    bool,
))
    requires
        reader.begin <= reader.at,
    ensures
        record.1 <= input@.len(),
        match record.0 {
            Ok(fields) => first_record(input@) == Some((record_texts(fields), record.1)) && (
            fields is None ==> record.1 == input@.len()) && (fields is Some ==> exists|i: int|
                0 <= i < record.1 && #[trigger] input@[i] != 10),
            Err(_) => first_record(input@) is None && record.1 == record_end(input@),
        },
        record.2 == (record.0 matches Ok(fields) && fields is None || (record.1 == input@.len()
            && record_end(input@.push(10u8)) > input@.len())),
{
    let length: usize = input.len();
    let room: u64 = u64::MAX - length as u64;
    let byte: u64 = at_most(reader.at - reader.begin, room);
    let line: u64 = at_most(reader.line, room);
    let number: u64 = at_most(reader.record, u64::MAX - 1);
    let (fields, taken): (Result<Option<Vec<String>>, csv::Error>, u64) = match read_first_record(
        input,
        byte,
        line,
        number,
    ) {
        Ok((fields, end)) => (Ok(fields), end - byte),
        Err(error) => (Err(error), measure_record(input)),
    };
    let none = match &fields {
        Ok(None) => true,
        _ => false,
    };
    let mut open = none;
    if !none && taken == length as u64 {
        let mut longer = joined(&Vec::new(), input);
        longer.push(10u8);
        assert(longer@ =~= input@.push(10u8));
        open = measure_record(longer.as_slice()) > length as u64;
    }
    (fields, taken, open)
}

/// The first record of the rest of a file.
fn parse_rest(rest: &[u8], reader: &RecordReader) -> (record: (
    Result<Option<Vec<String>>, csv::Error>,
    u64,
    bool,
))
    requires
        reader.begin <= reader.at,
    ensures
        ({
            let said = parsed(rest@, reader.at == reader.begin);
            &&& record.1 == said.taken
            &&& record.1 <= rest@.len()
            &&& record.2 == said.open
            &&& match record.0 {
                Ok(fields) => said.fields == Some(record_texts(fields)) && (fields is None
                    ==> record.1 == rest@.len()) && (fields is Some ==> record.1 > 0),
                Err(_) => said.fields is None,
            }
        }),
{
    let fresh = reader.at == reader.begin;
    if !fresh && rest.len() >= 3 && rest[0] == 0xef && rest[1] == 0xbb && rest[2] == 0xbf {
        let input = joined(&vec![10u8], rest);
        assert(input@ =~= lead(rest@, fresh) + rest@);
        let (fields, end, open) = parse_input(input.as_slice(), reader);
        let taken: u64 = end.saturating_sub(1);
        return (fields, taken, open);
    }
    assert(lead(rest@, fresh) + rest@ =~= rest@);
    parse_input(rest, reader)
}

/// The bytes that a reader holds.
fn held_bytes(length: usize, reader: &RecordReader) -> (count: usize)
    requires
        reader.begin <= reader.at <= length,
    ensures
        count == held(length as int, reader.begin as int, reader.at as int),
        count <= length - reader.at,
{
    let gone: u128 = (reader.at - reader.begin) as u128;
    let piece: u128 = CSV_BUFFER_BYTES as u128;
    let pieces: u128 = (gone + piece - 1) / piece;
    let fetched: u128 = pieces * piece;
    let behind: u128 = (length as u64 - reader.begin) as u128;
    if fetched < behind {
        (fetched - gone) as usize
    } else {
        (behind - gone) as usize
    }
}

/// The error of a record that goes on behind all the bytes that may be read for it, if
/// it does: the limiter of the bytes that the reader does not hold yet gives it.
fn cut_off(rest: &[u8], held_count: usize, taken: u64, open: bool, maximum_bytes: u64) -> (failure:
    Option<IoFailure>)
    requires
        held_count <= rest@.len(),
        taken <= rest@.len(),
    ensures
        ({
            let limit = held_count + maximum_bytes + CSV_RECORD_READ_AHEAD_BYTES;
            match failure {
                Some(f) => (taken > limit || (open && rest@.len() >= limit)) && f.kind
                    == IoErrorKind::InvalidData && f.message@ == exhausted_message(maximum_bytes),
                None => !(taken > limit || (open && rest@.len() >= limit)),
            }
        }),
{
    let length: usize = rest.len();
    if maximum_bytes > u64::MAX - CSV_RECORD_READ_AHEAD_BYTES {
        return None;
    }
    let source = vstd::slice::slice_subrange(rest, held_count, length);
    let mut limiter = RecordSizeLimiter::new(source, maximum_bytes);
    if let Ok(granted) = limiter.read(source.len()) {
        let handed_out: u128 = held_count as u128 + granted.len() as u128;
        if limiter.remaining_bytes == 0 && (taken as u128 > handed_out || open) {
            if let Err(failure) = limiter.read(1) {
                return Some(failure);
            }
        }
    }
    None
}

/// Reads the record at a reader's position, within the limit: its fields, or `None`
/// where there is no record. The reader moves on behind what it read.
pub fn read_bounded_record(
    bytes: &[u8],
    fault: &Option<IoFailure>,
    reader: &mut RecordReader,
    maximum_bytes: u64,
) -> (read: Result<Option<Vec<String>>, ProcessorError>)
    requires
        old(reader).begin <= old(reader).at <= bytes@.len(),
    ensures
        final(reader).begin == old(reader).begin,
        ({
            let said = record_at(
                Contents { bytes: bytes@, fault: failure_view(*fault) },
                old(reader).at as int,
                old(reader).begin as int,
                maximum_bytes,
            );
            match read {
                Ok(Some(fields)) => said == RecordRead::Found(
                    texts(fields@),
                    final(reader).at as nat,
                ) && old(reader).at < final(reader).at <= bytes@.len(),
                Ok(None) => said == RecordRead::Missing(final(reader).at as nat)
                    && final(reader).at == bytes@.len(),
                Err(error) => record_fault(said, maximum_bytes) == Some(error@),
            }
        }),
{
    let at: u64 = reader.at;
    let length: usize = bytes.len();
    let rest = vstd::slice::slice_subrange(bytes, at as usize, length);
    assert(rest@ =~= bytes@.skip(at as int));
    if rest.len() == 0 && fault.is_none() {
        return Ok(None);
    }
    let (fields, taken, open) = parse_rest(rest, reader);
    let held_count: usize = held_bytes(length, reader);
    if let Some(failure) = cut_off(rest, held_count, taken, open, maximum_bytes) {
        return Err(ProcessorError::CsvRead(failure));
    }
    if open {
        if let Some(failure) = fault {
            return Err(
                ProcessorError::CsvRead(
                    IoFailure { kind: failure.kind, message: failure.message.clone() },
                ),
            );
        }
    }
    match fields {
        Err(error) => Err(ProcessorError::Csv(error)),
        Ok(found) => {
            let end: u64 = at + taken;
            match validate_record_span(at, end, maximum_bytes) {
                Err(error) => Err(error),
                Ok(()) => {
                    reader.pass(rest, taken);
                    Ok(found)
                },
            }
        },
    }
}

} // verus!
