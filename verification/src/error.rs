//! The error contract shared by every command and by the service IPC channel.
//!
//! Every failure is a stable code from [`crate::codes`] plus an optional raw diagnostic. The
//! diagnostic is English by convention, never localized, and never the headline message.
use vstd::prelude::*;

verus! {

/// A failure crossing the boundary to the frontend or the IPC peer.
#[derive(Debug, Clone)]
pub struct AppError {
    /// Stable code from [`crate::codes`].
    pub code: String,
    /// Raw diagnostic; absent rather than empty.
    pub detail: Option<String>,
}

/// The detail an error carries for a diagnostic `d`: an empty diagnostic is no diagnostic.
pub open spec fn detail_of(d: Seq<char>) -> Option<Seq<char>> {
    if d.len() == 0 { None } else { Some(d) }
}

/// The view of an optional owned string.
pub open spec fn opt_view(o: Option<String>) -> Option<Seq<char>> {
    match o {
        Some(s) => Some(s@),
        None => None,
    }
}

impl AppError {
    /// The error as plain values: its code and its optional detail.
    pub open spec fn spec_parts(self) -> (Seq<char>, Option<Seq<char>>) {
        (self.code@, opt_view(self.detail))
    }

    /// An error with no diagnostic attached.
    pub fn new(code: &str) -> (e: Self)
        ensures
            e.code@ == code@,
            e.detail is None,
    {
        AppError { code: String::from_str(code), detail: None }
    }

    /// An error carrying a raw diagnostic. An empty diagnostic is treated as absent, so a
    /// possibly-empty stderr can be passed through without branching.
    pub fn with_detail(code: &str, detail: &str) -> (e: Self)
        ensures
            e.code@ == code@,
            opt_view(e.detail) == detail_of(detail@),
    {
        let d = if detail.is_empty() {
            None
        } else {
            Some(String::from_str(detail))
        };
        AppError { code: String::from_str(code), detail: d }
    }

    /// An error whose diagnostic is the rendered text of a lower-level error: the code says
    /// what failed, the cause says why.
    pub fn cause(code: &str, cause: &str) -> (e: Self)
        ensures
            e.code@ == code@,
            opt_view(e.detail) == detail_of(cause@),
    {
        Self::with_detail(code, cause)
    }
}

} // verus!
