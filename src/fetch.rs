use vstd::prelude::*;
use crate::model::{LogEvent, LogGroup, LogStream};

verus! {

/// A query for the data source, issued by a screen for one of its lists.
///
/// A request without a token asks for the first page and replaces the list;
/// one with a token asks for the page after it and extends the list.
pub enum FetchRequest {
    Groups { token: Option<String> },
    Streams { group_name: String, token: Option<String> },
    Events {
        group_name: String,
        /// `None` queries the whole group.
        stream_name: Option<String>,
        start_ms: Option<i64>,
        end_ms: Option<i64>,
        pattern: Option<String>,
        token: Option<String>,
    },
}

/// What the data source answered to a `FetchRequest`.
#[allow(inconsistent_fields)]
pub enum FetchOutcome {
    Groups { items: Vec<LogGroup>, next_token: Option<String> },
    Streams { items: Vec<LogStream>, next_token: Option<String> },
    Events { items: Vec<LogEvent>, next_token: Option<String> },
    Failed { message: String },
}

impl FetchRequest {
    /// The request asks for a page after the first.
    pub open spec fn is_append(&self) -> bool {
        match self {
            FetchRequest::Groups { token } => token is Some,
            FetchRequest::Streams { token, .. } => token is Some,
            FetchRequest::Events { token, .. } => token is Some,
        }
    }

    /// Whether the request asks for a page after the first.
    pub fn appends(&self) -> (r: bool)
        ensures
            r == self.is_append(),
    {
        match self {
            FetchRequest::Groups { token } => token.is_some(),
            FetchRequest::Streams { token, .. } => token.is_some(),
            FetchRequest::Events { token, .. } => token.is_some(),
        }
    }
}

} // verus!
