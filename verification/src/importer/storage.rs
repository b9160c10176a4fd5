//! The temporary files of a run: all together stay within one limit.
use crate::importer::fault::{IoErrorKind, IoFailure};
use crate::number::{decimal, push_decimal};
use vstd::prelude::*;
use vstd::string::*;

verus! {

/// The bytes that all temporary feeds of a run take, and their limit.
#[derive(Debug)]
pub struct TempFeedStorage {
    pub used_bytes: u64,
    pub maximum_bytes: u64,
}

/// The text of the error of a reservation that does not fit.
pub open spec fn storage_message(storage: TempFeedStorage, bytes: u64) -> Seq<char> {
    "temporary feed storage would exceed its "@ + decimal(storage.maximum_bytes as nat)
        + "-byte limit ("@ + decimal(storage.used_bytes as nat) + " bytes already reserved, "@
        + decimal(bytes as nat) + " requested)"@
}

impl TempFeedStorage {
    /// The limit is kept.
    pub open spec fn wf(&self) -> bool {
        self.used_bytes <= self.maximum_bytes
    }

    pub fn new(maximum_bytes: u64) -> (storage: TempFeedStorage)
        ensures
            storage.wf(),
            storage.used_bytes == 0,
            storage.maximum_bytes == maximum_bytes,
    {
        TempFeedStorage { used_bytes: 0, maximum_bytes }
    }

    /// Reserves bytes, if they fit.
    pub fn reserve(&mut self, bytes: u64) -> (reserved: Result<(), IoFailure>)
        ensures
            final(self).maximum_bytes == old(self).maximum_bytes,
            match reserved {
                Ok(()) => final(self).used_bytes == old(self).used_bytes + bytes && final(
                    self).used_bytes <= old(self).maximum_bytes,
                Err(failure) => old(self).used_bytes + bytes > old(self).maximum_bytes && final(
                    self).used_bytes == old(self).used_bytes && failure.kind == IoErrorKind::Other
                    && failure.message@ == storage_message(*old(self), bytes),
            },
            old(self).wf() ==> final(self).wf(),
    {
        if let Some(total) = self.used_bytes.checked_add(bytes) {
            if total <= self.maximum_bytes {
                self.used_bytes = total;
                return Ok(());
            }
        }
        let mut message = "temporary feed storage would exceed its ".to_owned();
        push_decimal(&mut message, self.maximum_bytes as u128);
        message.append("-byte limit (");
        push_decimal(&mut message, self.used_bytes as u128);
        message.append(" bytes already reserved, ");
        push_decimal(&mut message, bytes as u128);
        message.append(" requested)");
        Err(IoFailure { kind: IoErrorKind::Other, message })
    }

    /// Gives bytes back that were reserved.
    pub fn release(&mut self, bytes: u64)
        requires
            bytes <= old(self).used_bytes,
        ensures
            final(self).used_bytes == old(self).used_bytes - bytes,
            final(self).maximum_bytes == old(self).maximum_bytes,
            old(self).wf() ==> final(self).wf(),
    {
        self.used_bytes = self.used_bytes - bytes;
    }
}

/// One temporary feed: the bytes that are reserved for it.
#[derive(Debug)]
pub struct TemporaryFeed {
    pub reserved_bytes: u64,
}

impl TemporaryFeed {
    pub fn new() -> (feed: TemporaryFeed)
        ensures
            feed.reserved_bytes == 0,
    {
        TemporaryFeed { reserved_bytes: 0 }
    }

    /// The bytes of the feed are among those of the storage.
    pub open spec fn is_within(&self, storage: &TempFeedStorage) -> bool {
        self.reserved_bytes <= storage.used_bytes
    }

    /// Reserves more bytes for the feed.
    pub fn reserve(&mut self, storage: &mut TempFeedStorage, bytes: u64) -> (reserved: Result<
        (),
        IoFailure,
    >)
        requires
            old(self).is_within(old(storage)),
        ensures
            final(self).is_within(final(storage)),
            final(storage).maximum_bytes == old(storage).maximum_bytes,
            match reserved {
                Ok(()) => final(self).reserved_bytes == old(self).reserved_bytes + bytes && final(
                    storage).used_bytes == old(storage).used_bytes + bytes && final(
                    storage).used_bytes <= old(storage).maximum_bytes,
                Err(failure) => old(storage).used_bytes + bytes > old(storage).maximum_bytes
                    && final(self).reserved_bytes == old(self).reserved_bytes && final(
                    storage).used_bytes == old(storage).used_bytes && failure.kind
                    == IoErrorKind::Other && failure.message@ == storage_message(
                    *old(storage),
                    bytes,
                ),
            },
            old(storage).wf() ==> final(storage).wf(),
    {
        match storage.reserve(bytes) {
            Err(failure) => Err(failure),
            Ok(()) => {
                self.reserved_bytes = self.reserved_bytes + bytes;
                Ok(())
            },
        }
    }

    /// Gives up the feed: its bytes become available again where its file is gone,
    /// removed just now or not there any more.
    pub fn remove(self, storage: &mut TempFeedStorage, file_is_gone: bool)
        requires
            self.is_within(old(storage)),
        ensures
            final(storage).used_bytes == old(storage).used_bytes - (if file_is_gone {
                self.reserved_bytes as int
            } else {
                0
            }),
            final(storage).maximum_bytes == old(storage).maximum_bytes,
            old(storage).wf() ==> final(storage).wf(),
    {
        if file_is_gone {
            storage.release(self.reserved_bytes);
        }
    }
}

} // verus!
