//! Reading and rewriting the text of a URL, by the `url` crate that `worker` hands on.
use crate::api::query::{pairs, Parameter};
use vstd::prelude::*;

verus! {

/// The most characters that a URL and a new path of it may have together: the offsets
/// of the result, written in bytes, fit in 32 bits then.
pub const MAX_URL_CHARS: usize = 16 * 1024 * 1024;

/// The parts of a URL.
pub struct UrlParts {
    /// All that comes before the path.
    pub base: Seq<char>,
    /// The path is no hierarchy: it does not begin with a slash, and no host stands
    /// before it.
    pub opaque: bool,
    pub path: Seq<char>,
    pub query: Option<Seq<char>>,
    pub fragment: Option<Seq<char>>,
}

/// The parts of the URL that `worker::Url::parse` reads, as `&url[..Position::BeforePath]`,
/// `cannot_be_a_base`, `path`, `query` and `fragment` give them. `None` where the text
/// is no URL.
pub uninterp spec fn url_parts(url: Seq<char>) -> Option<UrlParts>;

/// The pairs of keys and values of a query, as `worker::Url::query_pairs` gives them.
pub uninterp spec fn form_pairs(query: Seq<char>) -> Seq<(Seq<char>, Seq<char>)>;

/// The text of a URL with these parts after `worker::Url::set_path` with a path and
/// `set_query` with none.
pub uninterp spec fn with_path(
    base: Seq<char>,
    opaque: bool,
    fragment: Option<Seq<char>>,
    path: Seq<char>,
) -> Seq<char>;

/// The text that a query is, empty where there is none.
pub open spec fn query_text(query: Option<Seq<char>>) -> Seq<char> {
    match query {
        Some(text) => text,
        None => seq![],
    }
}

/// A fragment behind its sign.
pub open spec fn fragment_text(fragment: Option<Seq<char>>) -> Seq<char> {
    match fragment {
        Some(text) => seq!['#'] + text,
        None => seq![],
    }
}

/// The character stands in a path as it is: an ASCII letter, a digit, `-`, `_` or `/`.
pub open spec fn is_plain_char(c: char) -> bool {
    'a' <= c <= 'z' || 'A' <= c <= 'Z' || '0' <= c <= '9' || c == '-' || c == '_' || c == '/'
}

/// The path begins with one slash, and all its characters stand in it as they are.
pub open spec fn is_plain_path(path: Seq<char>) -> bool {
    &&& path.len() >= 2
    &&& path[0] == '/'
    &&& path[1] != '/'
    &&& forall|i: int| 0 <= i < path.len() ==> is_plain_char(#[trigger] path[i])
}

/// `worker::Url::parse` and `path`: the path of a URL, a part that `url_parts` names.
#[verifier::external_body]
pub(crate) fn read_path(url: &str) -> (found: Option<String>)
    ensures
        match found {
            Some(path) => url_parts(url@) matches Some(parts) && path@ == parts.path,
            None => url_parts(url@) is None,
        },
{
    worker::Url::parse(url).ok().map(|parsed| parsed.path().to_owned())
}

/// `worker::Url::parse` and `query_pairs`: the decoded parameters of a URL, which depend
/// on its query alone and are named by `form_pairs`. A URL without a query has none.
#[verifier::external_body]
pub(crate) fn read_parameters(url: &str) -> (found: Option<Vec<Parameter>>)
    ensures
        match found {
            Some(list) => url_parts(url@) matches Some(parts) && pairs(list@) == form_pairs(
                query_text(parts.query),
            ) && (query_text(parts.query).len() == 0 ==> list@.len() == 0),
            None => url_parts(url@) is None,
        },
{
    let parsed = worker::Url::parse(url).ok()?;
    let decoded = parsed.query_pairs().into_owned();
    Some(decoded.map(|(key, value)| Parameter { key, value }).collect())
}

/// `worker::Url::parse`, `set_path`, and `set_query` with none: the text of a URL with
/// another path and without its query. It depends on what came before the path, on
/// whether that path was a hierarchy, on the fragment, which is kept, and on the new
/// path, and is named by `with_path`. A plain path is put into a hierarchy as it is.
#[verifier::external_body]
pub(crate) fn replace_path(url: &str, path: &str) -> (found: Option<String>)
    requires
        url@.len() + path@.len() <= MAX_URL_CHARS,
    ensures
        match found {
            Some(text) => url_parts(url@) matches Some(parts) && text@ == with_path(
                parts.base,
                parts.opaque,
                parts.fragment,
                path@,
            ) && (!parts.opaque && is_plain_path(path@) ==> text@ == parts.base + path@
                + fragment_text(parts.fragment)),
            None => url_parts(url@) is None,
        },
{
    let mut parsed = worker::Url::parse(url).ok()?;
    parsed.set_path(path);
    parsed.set_query(None);
    Some(parsed.to_string())
}

} // verus!
