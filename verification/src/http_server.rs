//! Which answer the status endpoint owes to which path.

use vstd::prelude::*;
use crate::text::str_eq;

verus! {

/// What a request path asks for.
#[derive(Clone, Copy, Debug, PartialEq, Eq, Structural)]
pub enum Route {
    /// `/status`: the full report, as JSON.
    Status,
    /// `/health`: a fixed sign of life, as JSON.
    Health,
    /// `/metrics`: the report as plain text, one gauge per line.
    Metrics,
    /// Anything else.
    NotFound,
}

/// What a request path asks for.
pub open spec fn route_of(path: Seq<char>) -> Route {
    if path == "/status"@ {
        Route::Status
    } else if path == "/health"@ {
        Route::Health
    } else if path == "/metrics"@ {
        Route::Metrics
    } else {
        Route::NotFound
    }
}

/// What a request path asks for.
pub fn route(path: &str) -> (asked: Route)
    ensures
        asked == route_of(path@),
{
    if str_eq(path, "/status") {
        Route::Status
    } else if str_eq(path, "/health") {
        Route::Health
    } else if str_eq(path, "/metrics") {
        Route::Metrics
    } else {
        Route::NotFound
    }
}

impl Route {
    /// The status code of the answer: 200, and 404 for what is not there.
    pub open spec fn spec_status_code(self) -> u16 {
        match self {
            Route::NotFound => 404,
            _ => 200,
        }
    }

    /// The status code of the answer.
    pub fn status_code(self) -> (code: u16)
        ensures
            code == self.spec_status_code(),
    {
        match self {
            Route::NotFound => 404,
            _ => 200,
        }
    }

    /// The content type of the answer.
    pub open spec fn spec_content_type(self) -> Seq<char> {
        match self {
            Route::Metrics => "text/plain; version=0.0.4"@,
            _ => "application/json"@,
        }
    }

    /// The content type of the answer.
    pub fn content_type(self) -> (kind: &'static str)
        ensures
            kind@ == self.spec_content_type(),
    {
        match self {
            Route::Metrics => "text/plain; version=0.0.4",
            _ => "application/json",
        }
    }

    /// Whether the answer may be read from any origin: every answer but
    /// the one for what is not there.
    pub fn open_to_any_origin(self) -> (open: bool)
        ensures
            open == (self != Route::NotFound),
    {
        match self {
            Route::NotFound => false,
            _ => true,
        }
    }
}

} // verus!
