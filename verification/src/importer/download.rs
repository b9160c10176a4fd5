//! Downloading a feed: only where it changed or its import is not complete, and
//! within a size limit.
use crate::importer::config::ProviderConfig;
use crate::importer::fault::{D1Error, IoErrorKind, ProcessorError, ProcessorErrorView};
use crate::importer::provider::DownloadedFeed;
use crate::importer::storage::{storage_message, TempFeedStorage, TemporaryFeed};
use crate::number::{decimal, parse_text, parse_unsigned, push_decimal};
use crate::outside::json_text::optional_chars;
use crate::text::chars_of;
use vstd::prelude::*;
use vstd::string::*;

verus! {

/// The address of the feed of a provider.
pub fn feed_url(provider: &ProviderConfig) -> (url: String)
    ensures
        url@ == provider.static_url@ + provider.static_provider@,
{
    let mut url = provider.static_url.clone();
    url.append(provider.static_provider.as_str());
    url
}

/// The length that a header declares, if it is a number.
pub open spec fn declared_length(header: Option<Seq<char>>) -> Option<nat> {
    match header {
        Some(text) => parse_unsigned(text, u64::MAX as nat),
        None => None,
    }
}

/// The text of the error of a feed that declares too many bytes.
pub open spec fn declared_message(declared: nat, maximum: u64) -> Seq<char> {
    "feed declares "@ + decimal(declared) + " bytes, exceeding the configured "@ + decimal(
        maximum as nat,
    ) + "-byte download limit"@
}

/// The text of the error of a feed that sends too many bytes.
pub open spec fn streamed_message(maximum: u64) -> Seq<char> {
    "feed exceeded the configured "@ + decimal(maximum as nat)
        + "-byte download limit while streaming"@
}

/// Rejects a feed that declares more bytes than the limit.
pub fn check_declared_length(header: Option<&str>, maximum_bytes: u64) -> (checked: Result<
    (),
    ProcessorError,
>)
    ensures
        ({
            let declared = declared_length(optional_chars(header));
            match checked {
                Ok(()) => declared is None || declared->Some_0 <= maximum_bytes,
                Err(error) => declared is Some && declared->Some_0 > maximum_bytes && error@
                    == ProcessorErrorView::Io(
                    IoErrorKind::InvalidData,
                    declared_message(declared->Some_0, maximum_bytes),
                ),
            }
        }),
{
    if let Some(text) = header {
        if let Some(declared) = parse_text(text, u64::MAX) {
            if declared > maximum_bytes {
                let mut message = "feed declares ".to_owned();
                push_decimal(&mut message, declared as u128);
                message.append(" bytes, exceeding the configured ");
                push_decimal(&mut message, maximum_bytes as u128);
                message.append("-byte download limit");
                return Err(ProcessorError::io(IoErrorKind::InvalidData, message));
            }
        }
    }
    Ok(())
}

/// A feed whose bytes are being received.
#[derive(Debug)]
pub struct FeedReceiver {
    pub size: u64,
    pub maximum_bytes: u64,
    pub feed: TemporaryFeed,
}

impl FeedReceiver {
    pub fn new(maximum_bytes: u64) -> (receiver: FeedReceiver)
        ensures
            receiver.size == 0,
            receiver.maximum_bytes == maximum_bytes,
            receiver.feed.reserved_bytes == 0,
    {
        FeedReceiver { size: 0, maximum_bytes, feed: TemporaryFeed::new() }
    }

    /// Takes note of a chunk before it is written: it counts against the limit of
    /// the feed and against the storage of all feeds.
    pub fn accept_chunk(&mut self, storage: &mut TempFeedStorage, bytes: u64) -> (accepted: Result<
        (),
        ProcessorError,
    >)
        requires
            old(self).feed.is_within(old(storage)),
        ensures
            final(self).maximum_bytes == old(self).maximum_bytes,
            final(self).feed.is_within(final(storage)),
            final(storage).maximum_bytes == old(storage).maximum_bytes,
            old(storage).wf() ==> final(storage).wf(),
            match accepted {
                Ok(()) => final(self).size == old(self).size + bytes && final(self).size <= old(
                    self).maximum_bytes && final(self).feed.reserved_bytes == old(
                    self).feed.reserved_bytes + bytes && final(storage).used_bytes == old(
                    storage).used_bytes + bytes && final(storage).used_bytes <= old(
                    storage).maximum_bytes,
                Err(error) => final(storage).used_bytes == old(storage).used_bytes && final(
                    self).feed.reserved_bytes == old(self).feed.reserved_bytes && error@
                    == ProcessorErrorView::Io(
                    if old(self).size + bytes > u64::MAX {
                        IoErrorKind::Other
                    } else if old(self).size + bytes > old(self).maximum_bytes {
                        IoErrorKind::InvalidData
                    } else {
                        IoErrorKind::Other
                    },
                    if old(self).size + bytes > u64::MAX {
                        "downloaded feed size overflowed u64"@
                    } else if old(self).size + bytes > old(self).maximum_bytes {
                        streamed_message(old(self).maximum_bytes)
                    } else {
                        storage_message(*old(storage), bytes)
                    },
                ) && (old(self).size + bytes > old(self).maximum_bytes || old(storage).used_bytes
                    + bytes > old(storage).maximum_bytes),
            },
    {
        let size: u64 = match self.size.checked_add(bytes) {
            Some(size) => size,
            None => {
                return Err(
                    ProcessorError::io(
                        IoErrorKind::Other,
                        "downloaded feed size overflowed u64".to_owned(),
                    ),
                );
            },
        };
        if size > self.maximum_bytes {
            let mut message = "feed exceeded the configured ".to_owned();
            push_decimal(&mut message, self.maximum_bytes as u128);
            message.append("-byte download limit while streaming");
            return Err(ProcessorError::io(IoErrorKind::InvalidData, message));
        }
        self.size = size;
        match self.feed.reserve(storage, bytes) {
            Ok(()) => Ok(()),
            Err(failure) => Err(ProcessorError::Io(failure)),
        }
    }
}

// ---------------------------------------------------------------------------
// Step by step
// ---------------------------------------------------------------------------
/// The head of an answer to a request for a feed.
#[derive(Debug)]
pub struct FeedHead {
    pub not_modified: bool,
    pub etag: Option<String>,
    pub content_length: Option<String>,
}

/// What a download waits for.
#[derive(Debug)]
pub enum DownloadPhase {
    ReadingVersion,
    Requesting { previous_etag: String },
    ReadingSummary { previous_etag: String },
    RequestingAgain { previous_etag: String },
    Receiving { previous_etag: String, remote_etag: String },
}

/// Something that a download waited for.
#[derive(Debug)]
pub enum DownloadEvent {
    VersionRead(Result<Option<String>, D1Error>),
    /// The answer, or what went wrong with it.
    Answered(Result<FeedHead, String>),
    /// The number of files, and of those not complete.
    SummaryRead(Result<(u64, u64), D1Error>),
    /// The size of the feed that was received, or what went wrong.
    Received(Result<u64, ProcessorError>),
}

/// What to do next for a download.
#[derive(Debug)]
pub enum DownloadAction {
    /// Request the feed, only if it changed since a version.
    Request { if_none_match: Option<String> },
    ReadSummary,
    /// Receive the feed into a temporary file.
    Receive,
}

/// The download of one feed.
#[derive(Debug)]
pub struct DownloadTask {
    pub maximum_bytes: u64,
    pub phase: DownloadPhase,
}

/// What comes after an event.
#[derive(Debug)]
pub enum DownloadStep {
    Continue(DownloadTask, DownloadAction),
    Finish(Result<Option<DownloadedFeed>, ProcessorError>),
}

/// The event is what the download waits for.
pub open spec fn download_awaits(phase: DownloadPhase, event: DownloadEvent) -> bool {
    match event {
        DownloadEvent::VersionRead(_) => phase is ReadingVersion,
        DownloadEvent::Answered(_) => phase is Requesting || phase is RequestingAgain,
        DownloadEvent::SummaryRead(_) => phase is ReadingSummary,
        DownloadEvent::Received(_) => phase is Receiving,
    }
}

impl DownloadStep {
    /// The download fails with this error.
    pub open spec fn fails(&self, error: ProcessorErrorView) -> bool {
        *self matches DownloadStep::Finish(Err(given)) && given@ == error
    }

    /// There is nothing to do for the feed.
    pub open spec fn skips(&self) -> bool {
        *self matches DownloadStep::Finish(Ok(None))
    }
}

/// An optional text, or the empty one.
pub open spec fn text_or_empty(text: Option<String>) -> Seq<char> {
    match text {
        Some(s) => s@,
        None => ""@,
    }
}

/// The version that was known before the download.
pub open spec fn known_version(phase: DownloadPhase) -> Seq<char> {
    match phase {
        DownloadPhase::ReadingVersion => ""@,
        DownloadPhase::Requesting { previous_etag } => previous_etag@,
        DownloadPhase::ReadingSummary { previous_etag } => previous_etag@,
        DownloadPhase::RequestingAgain { previous_etag } => previous_etag@,
        DownloadPhase::Receiving { previous_etag, .. } => previous_etag@,
    }
}

/// What an answer that is not `304 Not Modified` leads to: an error where it
/// declares too many bytes, else the feed is received.
pub open spec fn accepts(step: DownloadStep, task: DownloadTask, head: FeedHead) -> bool {
    let declared = declared_length(
        match head.content_length {
            Some(text) => Some(text@),
            None => None,
        },
    );
    if declared is Some && declared->Some_0 > task.maximum_bytes {
        step.fails(
            ProcessorErrorView::Io(
                IoErrorKind::InvalidData,
                declared_message(declared->Some_0, task.maximum_bytes),
            ),
        )
    } else {
        step matches DownloadStep::Continue(next, DownloadAction::Receive) && next.maximum_bytes
            == task.maximum_bytes && (
        next.phase matches DownloadPhase::Receiving { previous_etag, remote_etag }
            && previous_etag@ == known_version(task.phase) && remote_etag@ == text_or_empty(
            head.etag,
        ))
    }
}

fn text_or_none(text: Option<String>) -> (owned: String)
    ensures
        owned@ == text_or_empty(text),
{
    match text {
        Some(s) => s,
        None => "".to_owned(),
    }
}

impl DownloadTask {
    pub fn new(maximum_bytes: u64) -> (task: DownloadTask)
        ensures
            task.maximum_bytes == maximum_bytes,
            task.phase is ReadingVersion,
    {
        DownloadTask { maximum_bytes, phase: DownloadPhase::ReadingVersion }
    }

    /// Receives the feed whose head is known.
    fn receive(maximum_bytes: u64, previous_etag: String, head: FeedHead, Ghost(task): Ghost<
        DownloadTask,
    >) -> (step: DownloadStep)
        requires
            task.maximum_bytes == maximum_bytes,
            known_version(task.phase) == previous_etag@,
        ensures
            accepts(step, task, head),
    {
        let header: Option<&str> = match &head.content_length {
            Some(text) => Some(text.as_str()),
            None => None,
        };
        if let Err(error) = check_declared_length(header, maximum_bytes) {
            return DownloadStep::Finish(Err(error));
        }
        DownloadStep::Continue(
            DownloadTask {
                maximum_bytes,
                phase: DownloadPhase::Receiving {
                    previous_etag,
                    remote_etag: text_or_none(head.etag),
                },
            },
            DownloadAction::Receive,
        )
    }

    /// What to do after an event. A feed that did not change since the recorded
    /// version is downloaded again only where its import is not complete.
    pub fn download_feed(self, event: DownloadEvent) -> (step: DownloadStep)
        requires
            download_awaits(self.phase, event),
        ensures
            match event {
                DownloadEvent::VersionRead(Err(error)) => step.fails(
                    ProcessorErrorView::D1(error@),
                ),
                DownloadEvent::VersionRead(Ok(version)) => {
                    let known = text_or_empty(version);
                    &&& step matches DownloadStep::Continue(
                        next,
                        DownloadAction::Request { if_none_match },
                    ) && next.maximum_bytes == self.maximum_bytes && next.phase is Requesting
                        && known_version(next.phase) == known && if known.len() == 0 {
                        if_none_match is None
                    } else {
                        if_none_match matches Some(etag) && etag@ == known
                    }
                },
                DownloadEvent::Answered(Err(reason)) => step.fails(
                    ProcessorErrorView::Reqwest(reason@),
                ),
                DownloadEvent::Answered(Ok(head)) => if head.not_modified
                    && self.phase is Requesting {
                    step matches DownloadStep::Continue(next, DownloadAction::ReadSummary)
                        && next.maximum_bytes == self.maximum_bytes && next.phase is ReadingSummary
                        && known_version(next.phase) == known_version(self.phase)
                } else {
                    accepts(step, self, head)
                },
                DownloadEvent::SummaryRead(Err(error)) => step.fails(
                    ProcessorErrorView::D1(error@),
                ),
                DownloadEvent::SummaryRead(Ok((total, incomplete))) => if total != 0 && incomplete
                    == 0 {
                    step.skips()
                } else {
                    step matches DownloadStep::Continue(
                        next,
                        DownloadAction::Request { if_none_match },
                    ) && if_none_match is None && next.maximum_bytes == self.maximum_bytes
                        && next.phase is RequestingAgain && known_version(next.phase)
                        == known_version(self.phase)
                },
                DownloadEvent::Received(Err(error)) => step.fails(error@),
                DownloadEvent::Received(Ok(size)) => {
                    &&& step matches DownloadStep::Finish(Ok(Some(feed))) && feed.size == size
                        && feed.previous_etag@ == known_version(self.phase) && feed.remote_etag@
                        == self.phase->Receiving_remote_etag@
                },
            },
    {
        let maximum_bytes: u64 = self.maximum_bytes;
        match event {
            DownloadEvent::VersionRead(read) => match read {
                Err(error) => DownloadStep::Finish(Err(ProcessorError::D1(error))),
                Ok(version) => {
                    let previous_etag = text_or_none(version);
                    let if_none_match = if chars_of(previous_etag.as_str()).len() == 0 {
                        None
                    } else {
                        Some(previous_etag.clone())
                    };
                    DownloadStep::Continue(
                        DownloadTask {
                            maximum_bytes,
                            phase: DownloadPhase::Requesting { previous_etag },
                        },
                        DownloadAction::Request { if_none_match },
                    )
                },
            },
            DownloadEvent::Answered(answer) => match answer {
                Err(reason) => DownloadStep::Finish(Err(ProcessorError::Reqwest(reason))),
                Ok(head) => match self.phase {
                    DownloadPhase::Requesting { previous_etag } => {
                        if head.not_modified {
                            return DownloadStep::Continue(
                                DownloadTask {
                                    maximum_bytes,
                                    phase: DownloadPhase::ReadingSummary { previous_etag },
                                },
                                DownloadAction::ReadSummary,
                            );
                        }
                        DownloadTask::receive(maximum_bytes, previous_etag, head, Ghost(self))
                    },
                    DownloadPhase::RequestingAgain { previous_etag } => DownloadTask::receive(
                        maximum_bytes,
                        previous_etag,
                        head,
                        Ghost(self),
                    ),
                    _ => DownloadStep::Finish(Ok(None)),
                },
            },
            DownloadEvent::SummaryRead(read) => match read {
                Err(error) => DownloadStep::Finish(Err(ProcessorError::D1(error))),
                Ok((total, incomplete)) => {
                    if total != 0 && incomplete == 0 {
                        return DownloadStep::Finish(Ok(None));
                    }
                    match self.phase {
                        DownloadPhase::ReadingSummary { previous_etag } => DownloadStep::Continue(
                            DownloadTask {
                                maximum_bytes,
                                phase: DownloadPhase::RequestingAgain { previous_etag },
                            },
                            DownloadAction::Request { if_none_match: None },
                        ),
                        _ => DownloadStep::Finish(Ok(None)),
                    }
                },
            },
            DownloadEvent::Received(received) => match received {
                Err(error) => DownloadStep::Finish(Err(error)),
                Ok(size) => match self.phase {
                    DownloadPhase::Receiving { previous_etag, remote_etag } => DownloadStep::Finish(
                        Ok(Some(DownloadedFeed { size, previous_etag, remote_etag })),
                    ),
                    _ => DownloadStep::Finish(Ok(None)),
                },
            },
        }
    }
}

} // verus!
