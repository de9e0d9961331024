//! The library error type.
//!
//! Kept independent of the repository and the terminal: repository and
//! I/O errors are converted to strings at that boundary so this enum
//! stays a stable, typed surface.

use vstd::prelude::*;

verus! {

/// Errors that abort a redate run.
#[derive(Debug, Clone, PartialEq, Eq)]
pub enum RedateError {
    /// The current directory is not inside a git working tree.
    NotARepo(String),
    /// A revision (commit or range endpoint) could not be resolved.
    BadRevspec(String),
    /// The selected range contains a merge commit (more than one
    /// parent), which v1 does not rewrite.
    MergeInRange(String),
    /// The resolved range selected no commits.
    EmptyRange,
    /// HEAD does not point at a commit yet (fresh repository).
    UnbornHead,
    /// An `A..B` range was missing one of its endpoints.
    BadRange(String),
    /// The range's lower boundary is not an ancestor of the tip.
    NotAnAncestor(String),
    /// The range does not end at HEAD, which v1 cannot rewrite safely.
    TipNotHead,
    /// The interactive editor was requested without a terminal.
    NotATty,
    /// Writing objects or moving the ref failed.
    Write(String),
    /// Re-signing a rewritten commit or tag failed.
    Signing(String),
}

/// The message of each error.
pub open spec fn error_message(e: RedateError) -> Seq<char> {
    match e {
        RedateError::NotARepo(s) => "not a git repository (or any parent): "@ + s@,
        RedateError::BadRevspec(s) => "could not resolve revision '"@ + s@ + "'"@,
        RedateError::MergeInRange(s) => "merge commit "@ + s@
            + " is in the selected range; git-redate v1 supports linear history only"@,
        RedateError::EmptyRange => "no commits selected to redate"@,
        RedateError::UnbornHead => "HEAD is unborn (no commits yet)"@,
        RedateError::BadRange(s) => "range '"@ + s@ + "' needs both endpoints, as in A..B"@,
        RedateError::NotAnAncestor(s) => "'"@ + s@
            + "' is not an ancestor of HEAD, so it cannot bound the range"@,
        RedateError::TipNotHead => "git-redate v1 can only rewrite a range that ends at HEAD"@,
        RedateError::NotATty => "git-redate needs an interactive terminal (use --dry-run in scripts)"@,
        RedateError::Write(s) => "failed to rewrite history: "@ + s@,
        RedateError::Signing(s) => "failed to sign: "@ + s@,
    }
}

/// `prefix` followed by `s` and `suffix`.
fn wrap(prefix: &str, s: &String, suffix: &str) -> (r: String)
    ensures
        r@ == prefix@ + s@ + suffix@,
{
    let mut r = String::from_str(prefix);
    r.append(s.as_str());
    r.append(suffix);
    r
}

impl RedateError {
    /// The message shown to the user.
    pub fn to_string(&self) -> (m: String)
        ensures
            m@ == error_message(*self),
    {
        proof {
            reveal_strlit("");
            assert forall|x: Seq<char>| x + ""@ =~= x by {}
        }
        match self {
            RedateError::NotARepo(s) => wrap("not a git repository (or any parent): ", s, ""),
            RedateError::BadRevspec(s) => wrap("could not resolve revision '", s, "'"),
            RedateError::MergeInRange(s) => wrap(
                "merge commit ",
                s,
                " is in the selected range; git-redate v1 supports linear history only",
            ),
            RedateError::EmptyRange => String::from_str("no commits selected to redate"),
            RedateError::UnbornHead => String::from_str("HEAD is unborn (no commits yet)"),
            RedateError::BadRange(s) => wrap("range '", s, "' needs both endpoints, as in A..B"),
            RedateError::NotAnAncestor(s) => wrap(
                "'",
                s,
                "' is not an ancestor of HEAD, so it cannot bound the range",
            ),
            RedateError::TipNotHead => String::from_str(
                "git-redate v1 can only rewrite a range that ends at HEAD",
            ),
            RedateError::NotATty => String::from_str(
                "git-redate needs an interactive terminal (use --dry-run in scripts)",
            ),
            RedateError::Write(s) => wrap("failed to rewrite history: ", s, ""),
            RedateError::Signing(s) => wrap("failed to sign: ", s, ""),
        }
    }
}

} // verus!
