//! The routes of the API.
use crate::outside::url_text::{read_path, url_parts};
use crate::pieces::{
    split, split_chars, trim_end_char, trim_start_char, trimmed_end_char, trimmed_start_char,
};
use crate::text::{chars_of, same_text, string_of, views};
use vstd::prelude::*;
use vstd::string::*;

verus! {

/// What a request to the API asks for.
#[derive(Debug)]
pub enum ApiRoute {
    /// The progress of the imports of a provider.
    Status { provider: String },
    /// A query on the database of a provider.
    Sql { provider: String },
    /// Rows of a table of a provider.
    Data { provider: String, table_name: String },
    /// Tell that the worker runs.
    Health,
    NotFound,
}

/// What a route is.
pub enum Route {
    Status { provider: Seq<char> },
    Sql { provider: Seq<char> },
    Data { provider: Seq<char>, table_name: Seq<char> },
    Health,
    NotFound,
}

impl View for ApiRoute {
    type V = Route;

    open spec fn view(&self) -> Route {
        match *self {
            ApiRoute::Status { provider } => Route::Status { provider: provider@ },
            ApiRoute::Sql { provider } => Route::Sql { provider: provider@ },
            ApiRoute::Data { provider, table_name } => Route::Data {
                provider: provider@,
                table_name: table_name@,
            },
            ApiRoute::Health => Route::Health,
            ApiRoute::NotFound => Route::NotFound,
        }
    }
}

/// The segments of a path. Slashes at its ends part nothing.
pub open spec fn segments(path: Seq<char>) -> Seq<Seq<char>> {
    split(trim_end_char(trim_start_char(path, '/'), '/'), '/')
}

/// The route of a path.
pub open spec fn route_of(path: Seq<char>) -> Route {
    let parts = segments(path);
    if parts.len() == 2 && parts[1] == "status"@ {
        Route::Status { provider: parts[0] }
    } else if parts.len() == 2 && parts[1] == "sql"@ {
        Route::Sql { provider: parts[0] }
    } else if parts.len() >= 3 && parts[1] == "data"@ {
        Route::Data { provider: parts[0], table_name: parts[2] }
    } else if parts.len() == 1 && parts[0].len() == 0 {
        Route::Health
    } else {
        Route::NotFound
    }
}

/// The route of a path.
pub fn fetch_route(path: &str) -> (route: ApiRoute)
    ensures
        route@ == route_of(path@),
{
    let chars = chars_of(path);
    let trimmed = trimmed_end_char(trimmed_start_char(chars.as_slice(), '/'), '/');
    let parts = split_chars(trimmed, '/');
    assert(views(parts@) == segments(path@));
    assert(views(parts@).len() == parts@.len());
    assert(forall|i: int| 0 <= i < parts@.len() ==> views(parts@)[i] == (#[trigger] parts@[i])@);
    if parts.len() == 1 {
        if parts[0].len() == 0 {
            return ApiRoute::Health;
        }
        return ApiRoute::NotFound;
    }
    if parts.len() < 2 {
        return ApiRoute::NotFound;
    }
    let provider = string_of(parts[0].as_slice());
    let kind = string_of(parts[1].as_slice());
    if parts.len() == 2 {
        if same_text(kind.as_str(), "status") {
            return ApiRoute::Status { provider };
        }
        if same_text(kind.as_str(), "sql") {
            return ApiRoute::Sql { provider };
        }
        return ApiRoute::NotFound;
    }
    if same_text(kind.as_str(), "data") {
        let table_name = string_of(parts[2].as_slice());
        return ApiRoute::Data { provider, table_name };
    }
    ApiRoute::NotFound
}

/// The route of a request to a URL, if it is one.
pub fn request_route(url: &str) -> (route: Option<ApiRoute>)
    ensures
        match route {
            Some(found) => url_parts(url@) matches Some(parts) && found@ == route_of(parts.path),
            None => url_parts(url@) is None,
        },
{
    match read_path(url) {
        None => None,
        Some(path) => Some(fetch_route(path.as_str())),
    }
}

/// The answer to a path without anything behind it, and to one that is unknown.
pub fn plain_reply(found: bool) -> (reply: (&'static str, u16))
    ensures
        found ==> reply.0@
            == "Worker is running. Use /<provider>/status to check GTFS import progress."@
            && reply.1 == 200,
        !found ==> reply.0@ == "Not Found"@ && reply.1 == 404,
{
    if found {
        ("Worker is running. Use /<provider>/status to check GTFS import progress.", 200)
    } else {
        ("Not Found", 404)
    }
}

/// A slash behind a path leads to the same place.
pub proof fn law_a_trailing_slash_does_not_matter(path: Seq<char>)
    ensures
        route_of(path.push('/')) == route_of(path),
{
    lemma_trailing_slash(path);
}

proof fn lemma_trailing_slash(path: Seq<char>)
    ensures
        trim_end_char(trim_start_char(path.push('/'), '/'), '/') == trim_end_char(
            trim_start_char(path, '/'),
            '/',
        ),
    decreases path.len(),
{
    let longer = path.push('/');
    if path.len() == 0 {
        assert(longer.drop_first() =~= seq![]);
        assert(path =~= seq![]);
        assert(trim_start_char(longer, '/') == trim_start_char(longer.drop_first(), '/'));
    } else if path[0] == '/' {
        assert(longer.drop_first() =~= path.drop_first().push('/'));
        lemma_trailing_slash(path.drop_first());
    } else {
        assert(longer.drop_last() =~= path);
        assert(longer[0] == path[0]);
    }
}

} // verus!
