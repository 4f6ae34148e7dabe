//! The error taxonomy of one merge run: the first fatal condition aborts
//! the whole run and is the only thing the caller sees.

use vstd::prelude::*;
use vstd::string::StringExecFns;

verus! {

/// The first fatal condition of a run.
#[derive(Debug)]
pub enum KnitError {
    /// The request held an empty input-path list or an empty world list;
    /// nothing was loaded.
    InvalidRequest(String),
    /// A path could not be read, or a document failed grammar or semantic
    /// validation; the payload names the offending path.
    LoadError { path: String, message: String },
    /// Two inputs declared a package with the same identity, or the
    /// structural union itself failed.
    MergeConflict(String),
    /// A requested world name occurs nowhere in the merged graph.
    WorldNotFound(String),
    /// Two unioned worlds bind the same name incompatibly.
    WorldMergeConflict(String),
    /// The printer failed on one package.
    RenderError(String),
}

impl KnitError {
    /// The one-line rendering of the error: a tag for the kind, then the
    /// detail.
    pub open spec fn message_view(&self) -> Seq<char> {
        match self {
            KnitError::InvalidRequest(m) => "invalid request: "@ + m@,
            KnitError::LoadError { path, message } => "load error at "@ + path@ + ": "@
                + message@,
            KnitError::MergeConflict(m) => "merge conflict: "@ + m@,
            KnitError::WorldNotFound(m) => "world not found: "@ + m@,
            KnitError::WorldMergeConflict(m) => "world merge conflict: "@ + m@,
            KnitError::RenderError(m) => "render error: "@ + m@,
        }
    }

    /// One descriptive line for the caller.
    pub fn message(&self) -> (r: String)
        ensures
            r@ == self.message_view(),
    {
        match self {
            KnitError::InvalidRequest(m) => {
                let mut s = "invalid request: ".to_owned();
                s.append(m.as_str());
                s
            },
            KnitError::LoadError { path, message } => {
                let mut s = "load error at ".to_owned();
                s.append(path.as_str());
                s.append(": ");
                s.append(message.as_str());
                s
            },
            KnitError::MergeConflict(m) => {
                let mut s = "merge conflict: ".to_owned();
                s.append(m.as_str());
                s
            },
            KnitError::WorldNotFound(m) => {
                let mut s = "world not found: ".to_owned();
                s.append(m.as_str());
                s
            },
            KnitError::WorldMergeConflict(m) => {
                let mut s = "world merge conflict: ".to_owned();
                s.append(m.as_str());
                s
            },
            KnitError::RenderError(m) => {
                let mut s = "render error: ".to_owned();
                s.append(m.as_str());
                s
            },
        }
    }
}

} // verus!
