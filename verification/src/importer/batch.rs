//! Cutting rows into batches whose size and payload are bounded.
use crate::importer::fault::{IoErrorKind, ProcessorError, ProcessorErrorView};
use crate::number::{decimal, push_decimal};
use crate::pieces::{join, lemma_join_push};
use vstd::prelude::*;
use vstd::string::*;
use vstd::utf8::encode_utf8;

verus! {

/// A place between two records of a file: the records before it, and the bytes.
#[derive(Clone, Copy, Debug, PartialEq, Eq, Structural)]
pub struct Checkpoint {
    pub line: u64,
    pub byte: u64,
}

impl Default for Checkpoint {
    fn default() -> (start: Checkpoint)
        ensures
            start == (Checkpoint { line: 0, byte: 0 }),
    {
        Checkpoint { line: 0, byte: 0 }
    }
}

/// A batch of rows as one JSON text, with the places where it starts and ends.
#[derive(Debug)]
pub struct SerializedBatch {
    pub payload: String,
    pub start: Checkpoint,
    pub end: Checkpoint,
}

/// The JSON texts of the rows of a batch, and its places.
#[verifier::ext_equal]
pub struct Batch {
    pub rows: Seq<Seq<char>>,
    pub start: Checkpoint,
    pub end: Checkpoint,
}

/// The JSON array of some rows.
pub open spec fn payload_text(rows: Seq<Seq<char>>) -> Seq<char> {
    "["@ + join(rows, ","@) + "]"@
}

/// The bytes of a text.
pub open spec fn utf8_len(text: Seq<char>) -> nat {
    encode_utf8(text).len()
}

/// The bytes of the JSON array of some rows.
pub open spec fn payload_size(rows: Seq<Seq<char>>) -> nat {
    utf8_len(payload_text(rows))
}

impl SerializedBatch {
    /// The batch is this one, written out.
    pub open spec fn is(&self, batch: Batch) -> bool {
        &&& self.payload@ == payload_text(batch.rows)
        &&& self.start == batch.start
        &&& self.end == batch.end
    }
}

/// The batches of a list are these, written out.
pub open spec fn are_batches(list: Seq<SerializedBatch>, batches: Seq<Batch>) -> bool {
    &&& list.len() == batches.len()
    &&& forall|i: int| 0 <= i < list.len() ==> (#[trigger] list[i]).is(batches[i])
}

/// How large a batch may become: in rows, and in bytes of its payload.
#[derive(Clone, Copy, Debug)]
pub struct BatchLimits {
    pub batch_size: usize,
    pub max_payload_bytes: u64,
}

/// The rows that wait to be sent, and the place where they start.
#[verifier::ext_equal]
pub struct Pending {
    pub rows: Seq<Seq<char>>,
    pub start: Checkpoint,
}

/// What taking one more row does.
#[verifier::ext_equal]
pub struct Batched {
    /// The batches that are sent.
    pub sent: Seq<Batch>,
    /// The rows that wait afterwards.
    pub pending: Pending,
    /// The size of a payload that is too large with this row alone.
    pub too_large: Option<nat>,
}

/// The rows that wait together with a new row, or the new row alone where
/// together they are too large; with the batch that is then sent before it.
pub open spec fn with_row(
    limits: BatchLimits,
    pending: Pending,
    row: Seq<char>,
    at: Checkpoint,
) -> (Seq<Batch>, Pending) {
    let grown = pending.rows.push(row);
    if pending.rows.len() == 0 {
        (seq![], Pending { rows: grown, start: at })
    } else if payload_size(grown) > limits.max_payload_bytes {
        (
            seq![Batch { rows: pending.rows, start: pending.start, end: at }],
            Pending { rows: seq![row], start: at },
        )
    } else {
        (seq![], Pending { rows: grown, start: pending.start })
    }
}

/// Taking the row of the record between two places.
pub open spec fn take_row(
    limits: BatchLimits,
    pending: Pending,
    row: Seq<char>,
    at: Checkpoint,
    end: Checkpoint,
) -> Batched {
    let (sent, grown) = with_row(limits, pending, row, at);
    let size = payload_size(grown.rows);
    if size > limits.max_payload_bytes {
        Batched { sent, pending: grown, too_large: Some(size) }
    } else if grown.rows.len() >= limits.batch_size || size == limits.max_payload_bytes {
        Batched {
            sent: sent.push(Batch { rows: grown.rows, start: grown.start, end }),
            pending: Pending { rows: seq![], start: end },
            too_large: None,
        }
    } else {
        Batched { sent, pending: grown, too_large: None }
    }
}

/// The batch of the rows that wait at the end, if there are any.
pub open spec fn last_batch(pending: Pending, end: Checkpoint) -> Seq<Batch> {
    if pending.rows.len() == 0 {
        seq![]
    } else {
        seq![Batch { rows: pending.rows, start: pending.start, end }]
    }
}

/// The text of the error of a row that is too large for a payload.
pub open spec fn payload_message(size: nat, maximum: u64) -> Seq<char> {
    "serialized CSV row made its statement payload "@ + decimal(size)
        + " bytes, exceeding the configured "@ + decimal(maximum as nat) + "-byte limit"@
}

/// The error of a row that is too large for a payload.
pub open spec fn payload_fault(size: nat, maximum: u64) -> ProcessorErrorView {
    ProcessorErrorView::Io(IoErrorKind::InvalidData, payload_message(size, maximum))
}

/// The bytes of two texts together.
pub proof fn lemma_utf8_len_concat(a: Seq<char>, b: Seq<char>)
    ensures
        utf8_len(a + b) == utf8_len(a) + utf8_len(b),
    decreases a.len(),
{
    if a.len() == 0 {
        assert(a + b =~= b);
    } else {
        assert((a + b).drop_first() =~= a.drop_first() + b);
        lemma_utf8_len_concat(a.drop_first(), b);
    }
}

proof fn lemma_utf8_len_punctuation()
    ensures
        utf8_len("["@) == 1,
        utf8_len("]"@) == 1,
        utf8_len(","@) == 1,
{
    reveal_strlit("[");
    reveal_strlit("]");
    reveal_strlit(",");
    reveal_with_fuel(encode_utf8, 2);
}

/// The rows that wait, as the beginning of a JSON array.
pub struct RowBatcher {
    limits: BatchLimits,
    json: String,
    batch_rows: usize,
    batch_start: Checkpoint,
    rows: Ghost<Seq<Seq<char>>>,
}

impl RowBatcher {
    pub closed spec fn limits(&self) -> BatchLimits {
        self.limits
    }

    pub closed spec fn pending(&self) -> Pending {
        Pending { rows: self.rows@, start: self.batch_start }
    }

    /// The text and the count are those of the rows that wait.
    spec fn spells_rows(&self) -> bool {
        &&& self.json@ == "["@ + join(self.rows@, ","@)
        &&& self.batch_rows == self.rows@.len()
    }

    pub closed spec fn wf(&self) -> bool {
        &&& self.spells_rows()
        &&& self.batch_rows == 0 || self.batch_rows < self.limits.batch_size
    }

    pub fn new(limits: BatchLimits, start: Checkpoint) -> (batcher: RowBatcher)
        ensures
            batcher.wf(),
            batcher.limits() == limits,
            batcher.pending() == (Pending { rows: seq![], start }),
    {
        let json = "[".to_owned();
        assert(json@ =~= "["@ + join(seq![], ","@));
        RowBatcher { limits, json, batch_rows: 0, batch_start: start, rows: Ghost(Seq::empty()) }
    }

    /// Sends the rows that wait.
    fn send(&mut self, end: Checkpoint) -> (batch: SerializedBatch)
        requires
            old(self).spells_rows(),
        ensures
            final(self).wf(),
            final(self).limits() == old(self).limits(),
            final(self).pending() == (Pending { rows: seq![], start: end }),
            batch.is(
                (Batch { rows: old(self).pending().rows, start: old(self).pending().start, end }),
            ),
    {
        let mut payload = "[".to_owned();
        std::mem::swap(&mut payload, &mut self.json);
        payload.append("]");
        let start = self.batch_start;
        self.batch_rows = 0;
        self.batch_start = end;
        self.rows = Ghost(Seq::empty());
        assert(self.json@ =~= "["@ + join(seq![], ","@));
        SerializedBatch { payload, start, end }
    }

    /// The bytes of the payload with one more row.
    fn size_with(&self, row: &str) -> (size: u128)
        requires
            self.wf(),
        ensures
            size == payload_size(self.pending().rows.push(row@)),
    {
        let before: u128 = self.json.as_str().as_bytes().len() as u128;
        let added: u128 = row.as_bytes().len() as u128;
        let comma: u128 = if self.batch_rows == 0 {
            0
        } else {
            1
        };
        proof {
            let rows = self.rows@;
            lemma_join_push(rows, row@, ","@);
            lemma_utf8_len_punctuation();
            lemma_utf8_len_concat("["@ + join(rows.push(row@), ","@), "]"@);
            if rows.len() == 0 {
                assert(join(rows, ","@) =~= seq![]);
                assert("["@ + join(rows, ","@) =~= "["@);
                lemma_utf8_len_concat("["@, row@);
            } else {
                assert("["@ + (join(rows, ","@) + ","@ + row@) =~= ("["@ + join(rows, ","@)) + (","@
                    + row@));
                lemma_utf8_len_concat("["@ + join(rows, ","@), ","@ + row@);
                lemma_utf8_len_concat(","@, row@);
            }
        }
        before + comma + added + 1
    }

    /// Appends a row to those that wait.
    fn append(&mut self, row: &str, at: Checkpoint)
        requires
            old(self).wf(),
        ensures
            final(self).limits() == old(self).limits(),
            final(self).spells_rows(),
            final(self).pending() == (Pending {
                rows: old(self).pending().rows.push(row@),
                start: if old(self).pending().rows.len() == 0 {
                    at
                } else {
                    old(self).pending().start
                },
            }),
    {
        let ghost rows = self.rows@;
        proof {
            lemma_join_push(rows, row@, ","@);
        }
        if self.batch_rows == 0 {
            self.batch_start = at;
        } else {
            self.json.append(",");
        }
        self.json.append(row);
        self.batch_rows = self.batch_rows + 1;
        self.rows = Ghost(rows.push(row@));
        proof {
            if rows.len() == 0 {
                assert(join(rows, ","@) =~= seq![]);
                assert("["@ + join(rows, ","@) + row@ =~= "["@ + row@);
            } else {
                assert("["@ + join(rows, ","@) + ","@ + row@ =~= "["@ + (join(rows, ","@) + ","@
                    + row@));
            }
        }
    }

    /// Takes the row of the record between two places, and sends what is ready.
    /// A row that is too large by itself is an error.
    pub fn take(&mut self, row: &str, at: Checkpoint, end: Checkpoint) -> (taken: (
        Vec<SerializedBatch>,
        Result<(), ProcessorError>,
    ))
        requires
            old(self).wf(),
        ensures
            ({
                let step = take_row(old(self).limits(), old(self).pending(), row@, at, end);
                &&& are_batches(taken.0@, step.sent)
                &&& final(self).limits() == old(self).limits()
                &&& match taken.1 {
                    Ok(()) => step.too_large is None && final(self).wf() && final(self).pending()
                        == step.pending,
                    Err(error) => step.too_large matches Some(size) && error@ == payload_fault(
                        size,
                        old(self).limits().max_payload_bytes,
                    ),
                }
            }),
    {
        let maximum: u64 = self.limits.max_payload_bytes;
        let mut sent: Vec<SerializedBatch> = Vec::new();
        let ghost before = self.pending();
        let mut size: u128 = self.size_with(row);
        if self.batch_rows != 0 && size > maximum as u128 {
            sent.push(self.send(at));
            size = self.size_with(row);
            assert(Seq::<Seq<char>>::empty().push(row@) =~= seq![row@]);
        }
        self.append(row, at);
        assert(are_batches(sent@, with_row(self.limits, before, row@, at).0));
        assert(self.pending() =~= with_row(self.limits, before, row@, at).1);
        if size > maximum as u128 {
            let mut message = "serialized CSV row made its statement payload ".to_owned();
            push_decimal(&mut message, size);
            message.append(" bytes, exceeding the configured ");
            push_decimal(&mut message, maximum as u128);
            message.append("-byte limit");
            return (sent, Err(ProcessorError::io(IoErrorKind::InvalidData, message)));
        }
        if self.batch_rows >= self.limits.batch_size || size == maximum as u128 {
            sent.push(self.send(end));
        }
        (sent, Ok(()))
    }

    /// Sends the rows that still wait at the end.
    pub fn finish(&mut self, end: Checkpoint) -> (batches: Vec<SerializedBatch>)
        requires
            old(self).wf(),
        ensures
            final(self).wf(),
            final(self).limits() == old(self).limits(),
            are_batches(batches@, last_batch(old(self).pending(), end)),
    {
        let mut batches: Vec<SerializedBatch> = Vec::new();
        if self.batch_rows != 0 {
            batches.push(self.send(end));
        }
        batches
    }
}

} // verus!
