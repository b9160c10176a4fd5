//! The routes of the scheduled worker.
use crate::outside::url_text::{read_path, url_parts};
use crate::text::same_text;
use vstd::prelude::*;

verus! {

/// What a request to the scheduled worker asks for.
#[derive(Clone, Copy, Debug, PartialEq, Eq, Structural)]
pub enum ScheduledRoute {
    /// Start an import in the background.
    Import,
    /// Tell that the worker runs.
    Health,
    NotFound,
}

/// The route of a path.
pub open spec fn scheduled_route(path: Seq<char>) -> ScheduledRoute {
    if path == "/import"@ {
        ScheduledRoute::Import
    } else if path == "/"@ {
        ScheduledRoute::Health
    } else {
        ScheduledRoute::NotFound
    }
}

/// The route of a path.
pub fn fetch_route(path: &str) -> (route: ScheduledRoute)
    ensures
        route == scheduled_route(path@),
{
    if same_text(path, "/import") {
        return ScheduledRoute::Import;
    }
    if same_text(path, "/") {
        return ScheduledRoute::Health;
    }
    ScheduledRoute::NotFound
}

/// The route of a request to a URL, if it is one.
pub fn request_route(url: &str) -> (route: Option<ScheduledRoute>)
    ensures
        match route {
            Some(found) => url_parts(url@) matches Some(parts) && found == scheduled_route(
                parts.path,
            ),
            None => url_parts(url@) is None,
        },
{
    match read_path(url) {
        None => None,
        Some(path) => Some(fetch_route(path.as_str())),
    }
}

/// The text and the status of the answer to a route.
pub fn route_reply(route: ScheduledRoute) -> (reply: (&'static str, u16))
    ensures
        match route {
            ScheduledRoute::Import => reply.0@
                == "GTFS import started in background. Check Cloudflare logs or D1 `logs` table for progress."@
                && reply.1 == 200,
            ScheduledRoute::Health => reply.0@
                == "Worker is running. Use /import to trigger the database sync."@ && reply.1
                == 200,
            ScheduledRoute::NotFound => reply.0@ == "Not Found"@ && reply.1 == 404,
        },
{
    match route {
        ScheduledRoute::Import => (
            "GTFS import started in background. Check Cloudflare logs or D1 `logs` table for progress.",
            200,
        ),
        ScheduledRoute::Health => (
            "Worker is running. Use /import to trigger the database sync.",
            200,
        ),
        ScheduledRoute::NotFound => ("Not Found", 404),
    }
}

} // verus!
