use vstd::prelude::*;

verus! {

/// The error kinds a graph computation can surface.
///
/// Any failure during a walk, node build or fetch aborts the whole
/// computation; partial results are discarded and a single error is
/// surfaced. An ambiguous diff is *not* an error: the differ falls back to
/// a full reset instead.
#[derive(Clone, Copy, PartialEq, Eq, Structural, Debug)]
pub enum GraphError {
    /// No repository is currently open.
    NoOpenRepository,
    /// A ref name, commit summary or file path was not decodable text.
    NonUtf8Text,
    /// A referenced commit object is missing or corrupt.
    MissingObject,
    /// The repository backend failed while reading raw facts.
    BackendFailure,
}

impl GraphError {
    /// A human-readable description, for the caller's error signal.
    pub fn message(&self) -> (r: String)
        ensures
            self is NoOpenRepository ==> r@ == "no repository is open"@,
            self is NonUtf8Text ==> r@ == "text was not valid utf-8"@,
            self is MissingObject ==> r@ == "a commit object is missing or corrupt"@,
            self is BackendFailure ==> r@ == "the repository backend failed"@,
    {
        match self {
            GraphError::NoOpenRepository => String::from_str("no repository is open"),
            GraphError::NonUtf8Text => String::from_str("text was not valid utf-8"),
            GraphError::MissingObject => String::from_str("a commit object is missing or corrupt"),
            GraphError::BackendFailure => String::from_str("the repository backend failed"),
        }
    }
}

} // verus!
