//! The progress of the imports of a provider, which is cached for a minute.
use crate::api::database::{
    database_error, database_failure, provider_not_found, unknown_provider, Refusal, Refused,
};
use crate::api::route::{law_a_trailing_slash_does_not_matter, route_of, Route};
use crate::outside::url_text::{
    fragment_text, is_plain_path, replace_path, url_parts, with_path, UrlParts, MAX_URL_CHARS,
};
use crate::text::{ascii_lowercase, lowercase_ascii};
use vstd::prelude::*;
use vstd::string::*;

verus! {

/// The path under which the progress of a provider is cached.
pub open spec fn status_path(provider: Seq<char>) -> Seq<char> {
    "/"@ + ascii_lowercase(provider) + "/status"@
}

/// The path under which the progress of a provider is cached.
pub fn cache_path(provider: &str) -> (path: String)
    ensures
        path@ == status_path(provider@),
{
    let mut path = "/".to_owned();
    path.append(lowercase_ascii(provider).as_str());
    path.append("/status");
    path
}

/// The key under which the progress of a provider is cached, which a request to a URL
/// asks for: the URL with the path of the progress and without its query. `None` where
/// it is no URL.
pub open spec fn cache_key_of(url: Seq<char>, provider: Seq<char>) -> Option<Seq<char>> {
    match url_parts(url) {
        Some(parts) => Some(
            with_path(parts.base, parts.opaque, parts.fragment, status_path(provider)),
        ),
        None => None,
    }
}

/// The URL is short enough to be given the path of the progress of a provider.
pub open spec fn can_be_a_key(url: Seq<char>, provider: Seq<char>) -> bool {
    url.len() + status_path(provider).len() <= MAX_URL_CHARS
}

/// The key under which the progress of a provider is cached. It is the URL up to its
/// path, the path of the progress, and the fragment of the URL, where that path can be
/// written as it is.
pub fn cache_key(url: &str, provider: &str) -> (key: Option<String>)
    requires
        can_be_a_key(url@, provider@),
    ensures
        match key {
            Some(text) => cache_key_of(url@, provider@) == Some(text@) && (url_parts(
                url@,
            ) matches Some(parts) && (!parts.opaque && is_plain_path(status_path(provider@))
                ==> text@ == parts.base + status_path(provider@) + fragment_text(
                parts.fragment,
            ))),
            None => cache_key_of(url@, provider@) is None,
        },
{
    replace_path(url, cache_path(provider).as_str())
}

/// What a request for progress waits for.
#[derive(Clone, Copy, Debug, PartialEq, Eq, Structural)]
pub enum StatusPhase {
    Starting,
    Looking,
    Opening,
    Reading,
    Finished,
}

/// Something that a request for progress waited for.
#[derive(Debug)]
pub enum StatusEvent {
    /// A request came, and whether it is a GET.
    Requested(bool),
    /// Whether an answer is in the cache.
    LookedUp(bool),
    /// Whether the provider has a database.
    Opened(bool),
    /// The progress was read.
    Read,
    /// The query failed, for a reason.
    QueryFailed(String),
    /// The rows are not those of progress, for a reason.
    RowsUnreadable(String),
}

/// What to do next for a request for progress.
#[derive(Debug)]
pub enum StatusAction {
    /// Look in the cache, under a key.
    LookUp(String),
    AnswerFromCache,
    Open,
    Query(&'static str),
    /// Answer with the progress and the header `Cache-Control`, and put the answer
    /// into the cache.
    Answer { cache_control: &'static str },
    Refuse(Refusal),
}

/// A request for the progress of a provider.
#[derive(Debug)]
pub struct StatusTask {
    pub provider: String,
    /// The key of the answer in the cache.
    pub cache_key: String,
    pub phase: StatusPhase,
}

/// The event is what the request waits for.
pub open spec fn status_awaits(phase: StatusPhase, event: StatusEvent) -> bool {
    match event {
        StatusEvent::Requested(_) => phase is Starting,
        StatusEvent::LookedUp(_) => phase is Looking,
        StatusEvent::Opened(_) => phase is Opening,
        StatusEvent::Read => phase is Reading,
        StatusEvent::QueryFailed(_) => phase is Reading,
        StatusEvent::RowsUnreadable(_) => phase is Reading,
    }
}

impl StatusAction {
    pub open spec fn refuses(&self, refused: Refused) -> bool {
        *self matches StatusAction::Refuse(refusal) && refusal@ == refused
    }
}

impl StatusTask {
    /// A request to a URL, if it is one.
    pub fn new(provider: String, url: &str) -> (task: Option<StatusTask>)
        requires
            can_be_a_key(url@, provider@),
        ensures
            match task {
                Some(given) => given.provider == provider && given.phase is Starting
                    && cache_key_of(url@, provider@) == Some(given.cache_key@),
                None => cache_key_of(url@, provider@) is None,
            },
    {
        match cache_key(url, provider.as_str()) {
            None => None,
            Some(key) => Some(
                StatusTask { provider, cache_key: key, phase: StatusPhase::Starting },
            ),
        }
    }

    /// What to do after an event. The database is read only where the cache holds
    /// no answer.
    pub fn handle(&mut self, event: StatusEvent) -> (action: StatusAction)
        requires
            status_awaits(old(self).phase, event),
        ensures
            final(self).provider == old(self).provider,
            final(self).cache_key == old(self).cache_key,
            match event {
                StatusEvent::Requested(is_get) => if is_get {
                    final(self).phase is Looking && (action matches StatusAction::LookUp(key)
                        && key@ == old(self).cache_key@)
                } else {
                    final(self).phase is Finished && action.refuses(
                        Refused { message: "Method Not Allowed"@, status: 405 },
                    )
                },
                StatusEvent::LookedUp(found) => if found {
                    final(self).phase is Finished && action is AnswerFromCache
                } else {
                    final(self).phase is Opening && action is Open
                },
                StatusEvent::Opened(found) => if found {
                    final(self).phase is Reading && (action matches StatusAction::Query(sql) && sql@
                        == "SELECT Provider, FileName, CRC, LastProcessedLine, LastProcessedByte, Status, UpdatedAt FROM import_progress"@)
                } else {
                    final(self).phase is Finished && action.refuses(
                        unknown_provider(old(self).provider@),
                    )
                },
                StatusEvent::Read => final(self).phase is Finished && (
                action matches StatusAction::Answer { cache_control } && cache_control@
                    == "public, max-age=60"@),
                StatusEvent::QueryFailed(reason) => final(self).phase is Finished
                    && action.refuses(database_failure(reason@)),
                StatusEvent::RowsUnreadable(reason) => final(self).phase is Finished
                    && action.refuses(
                    Refused { message: "Database response error: "@ + reason@, status: 500 },
                ),
            },
    {
        self.phase = StatusPhase::Finished;
        match event {
            StatusEvent::Requested(is_get) => {
                if !is_get {
                    return StatusAction::Refuse(Refusal::new("Method Not Allowed", 405));
                }
                self.phase = StatusPhase::Looking;
                StatusAction::LookUp(self.cache_key.clone())
            },
            StatusEvent::LookedUp(found) => {
                if found {
                    return StatusAction::AnswerFromCache;
                }
                self.phase = StatusPhase::Opening;
                StatusAction::Open
            },
            StatusEvent::Opened(found) => {
                if !found {
                    return StatusAction::Refuse(provider_not_found(self.provider.as_str()));
                }
                self.phase = StatusPhase::Reading;
                StatusAction::Query(
                    "SELECT Provider, FileName, CRC, LastProcessedLine, LastProcessedByte, Status, UpdatedAt FROM import_progress",
                )
            },
            StatusEvent::Read => StatusAction::Answer { cache_control: "public, max-age=60" },
            StatusEvent::QueryFailed(reason) => StatusAction::Refuse(
                database_error(reason.as_str()),
            ),
            StatusEvent::RowsUnreadable(reason) => StatusAction::Refuse(
                Refusal::named("Database response error: ", reason.as_str(), 500),
            ),
        }
    }
}

/// Providers that differ in ASCII case alone share one place in the cache, and
/// others do not.
pub proof fn law_casing_does_not_alter_the_cache(a: Seq<char>, b: Seq<char>)
    ensures
        status_path(a) == status_path(b) <==> ascii_lowercase(a) == ascii_lowercase(b),
{
    if status_path(a) == status_path(b) {
        let x = ascii_lowercase(a);
        let y = ascii_lowercase(b);
        assert(status_path(a).len() == "/"@.len() + x.len() + "/status"@.len());
        assert(status_path(b).len() == "/"@.len() + y.len() + "/status"@.len());
        let start = "/"@.len() as int;
        assert(status_path(a).subrange(start, start + x.len()) =~= x);
        assert(status_path(b).subrange(start, start + y.len()) =~= y);
    }
}

/// Two URLs agree but for their paths and their queries.
pub open spec fn same_place(a: UrlParts, b: UrlParts) -> bool {
    a.base == b.base && a.opaque == b.opaque && a.fragment == b.fragment
}

/// Requests for the progress of one provider share one key, whatever their queries and
/// their paths are: it does not matter in which ASCII case they name the provider.
pub proof fn law_the_query_does_not_alter_the_key(
    a: Seq<char>,
    b: Seq<char>,
    provider_a: Seq<char>,
    provider_b: Seq<char>,
)
    requires
        url_parts(a) is Some,
        url_parts(b) is Some,
        same_place(url_parts(a)->Some_0, url_parts(b)->Some_0),
        ascii_lowercase(provider_a) == ascii_lowercase(provider_b),
    ensures
        cache_key_of(a, provider_a) is Some,
        cache_key_of(b, provider_b) == cache_key_of(a, provider_a),
{
}

/// The provider whose progress a path asks for, if it does.
pub open spec fn status_provider(path: Seq<char>) -> Option<Seq<char>> {
    match route_of(path) {
        Route::Status { provider } => Some(provider),
        _ => None,
    }
}

/// A request for progress whose URL has another query, or a slash behind its path, asks
/// for the same progress, under the same key.
pub proof fn law_a_query_and_a_slash_do_not_matter(a: Seq<char>, b: Seq<char>)
    requires
        url_parts(a) is Some,
        url_parts(b) is Some,
        same_place(url_parts(a)->Some_0, url_parts(b)->Some_0),
        ({
            let path = url_parts(a)->Some_0.path;
            let other = url_parts(b)->Some_0.path;
            status_provider(path) is Some && (other == path || other == path.push('/'))
        }),
    ensures
        ({
            let provider = status_provider(url_parts(a)->Some_0.path);
            &&& status_provider(url_parts(b)->Some_0.path) == provider
            &&& cache_key_of(b, provider->Some_0) == cache_key_of(a, provider->Some_0)
        }),
{
    law_a_trailing_slash_does_not_matter(url_parts(a)->Some_0.path);
}

} // verus!
