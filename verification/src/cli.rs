//! Command-line surface and its normalization into a [`RangeRequest`].
//!
//! `normalize` is pure (string manipulation only): it turns the parsed
//! flags into an abstract range description that is later resolved
//! against a real repository.

use vstd::prelude::*;
use crate::error::RedateError;
use crate::text::{
    ascii_lower, ascii_lower_chars, chars_of, contains_sub, eq_chars, find_sub,
    lemma_split_once_sub, lemma_split_once_sub_none, split_once_sub, string_of, trim, trim_chars,
};

verus! {

/// Startup editing behaviour. `single` edits only the selected commit;
/// `shift` moves the selected commit and every newer one by the same
/// delta (relative gaps preserved). Toggled live with `s`.
#[derive(Clone, Copy, Debug, PartialEq, Eq, Structural)]
pub enum EditMode {
    Single,
    Shift,
}

/// The name of an edit mode.
pub open spec fn mode_name(m: EditMode) -> Seq<char> {
    match m {
        EditMode::Single => "single"@,
        EditMode::Shift => "shift"@,
    }
}

/// What parsing `s` as an edit mode gives: the mode, or the message of
/// the error.
pub open spec fn parse_mode_spec(s: Seq<char>) -> Result<EditMode, Seq<char>> {
    let t = ascii_lower(trim(s));
    if t == "single"@ {
        Ok(EditMode::Single)
    } else if t == "shift"@ {
        Ok(EditMode::Shift)
    } else {
        Err("unknown edit mode '"@ + t + "' (expected single or shift)"@)
    }
}

impl Default for EditMode {
    fn default() -> (m: Self)
        ensures
            m == EditMode::Single,
    {
        EditMode::Single
    }
}

impl EditMode {
    /// The mode's name, as shown in the editor and accepted by `--mode`.
    pub fn to_string(&self) -> (s: String)
        ensures
            s@ == mode_name(*self),
    {
        match self {
            EditMode::Single => String::from_str("single"),
            EditMode::Shift => String::from_str("shift"),
        }
    }

    /// Parses a mode name, ignoring surrounding white space and ASCII
    /// case.
    pub fn parse(s: &str) -> (r: Result<Self, String>)
        ensures
            r.is_ok() == parse_mode_spec(s@).is_ok(),
            r.is_ok() ==> r->Ok_0 == parse_mode_spec(s@)->Ok_0,
            r.is_err() ==> r->Err_0@ == parse_mode_spec(s@)->Err_0,
    {
        let cs = chars_of(s);
        let t = ascii_lower_chars(&trim_chars(&cs));
        if eq_chars(&t, &chars_of("single")) {
            Ok(EditMode::Single)
        } else if eq_chars(&t, &chars_of("shift")) {
            Ok(EditMode::Shift)
        } else {
            let mut m = String::from_str("unknown edit mode '");
            m.append(string_of(&t).as_str());
            m.append("' (expected single or shift)");
            Err(m)
        }
    }
}

impl std::str::FromStr for EditMode {
    type Err = String;

    fn from_str(s: &str) -> (r: Result<Self, String>)
        ensures
            r.is_ok() == parse_mode_spec(s@).is_ok(),
            r.is_ok() ==> r->Ok_0 == parse_mode_spec(s@)->Ok_0,
            r.is_err() ==> r->Err_0@ == parse_mode_spec(s@)->Err_0,
    {
        EditMode::parse(s)
    }
}

/// Interactively edit git commit dates: the parsed command line.
#[derive(Debug, Clone, PartialEq, Eq)]
pub struct Cli {
    /// A commit (edits <commit>..HEAD, exclusive) or an A..B range.
    /// Omit to edit the last -n commits.
    pub revspec: Option<String>,
    /// Number of commits back from HEAD when no revspec is given.
    pub number: usize,
    /// Include the root commit (edit the entire history to HEAD).
    pub root: bool,
    /// Print the planned changes and write nothing.
    pub dry_run: bool,
    /// Start with author/committer rows expanded for separate editing.
    pub separate: bool,
    /// Startup edit mode; overrides `git config redate.mode`.
    pub mode: Option<EditMode>,
    /// Drop GPG/SSH signatures instead of re-signing rewritten commits.
    pub no_sign: bool,
    /// Leave tags pointing at the old commits instead of moving them.
    pub no_retag: bool,
}

/// An abstract range to resolve against a repository. Exactly one of
/// `boundary` / `limit` bounds the walk (or neither, with
/// `include_root`, to take the whole history).
#[derive(Debug, Clone, PartialEq, Eq)]
pub struct RangeRequest {
    /// Revision to resolve as the newest end of the range.
    pub tip: String,
    /// Exclusive lower bound; `None` means bound by `limit`/root.
    pub boundary: Option<String>,
    /// Max commits to take when there is no `boundary`.
    pub limit: Option<usize>,
    /// Walk down to and include the parentless root commit.
    pub include_root: bool,
}

/// The abstract value of a range request.
pub struct RangeView {
    pub tip: Seq<char>,
    pub boundary: Option<Seq<char>>,
    pub limit: Option<usize>,
    pub include_root: bool,
}

/// The abstract value of a range request.
pub open spec fn range_view(r: RangeRequest) -> RangeView {
    RangeView {
        tip: r.tip@,
        boundary: match r.boundary {
            Some(b) => Some(b@),
            None => None,
        },
        limit: r.limit,
        include_root: r.include_root,
    }
}

/// The abstract value of a normalization: the range, or the spec that
/// a `BadRange` error carries.
pub open spec fn normalize_view(r: Result<RangeRequest, RedateError>) -> Result<RangeView, Seq<char>> {
    match r {
        Ok(rr) => Ok(range_view(rr)),
        Err(RedateError::BadRange(s)) => Err(s@),
        Err(_) => Err(seq!['?']),
    }
}

/// What [`parse_range`] gives for `spec`.
pub open spec fn parse_range_spec(spec: Seq<char>) -> Result<RangeView, Seq<char>> {
    if contains_sub(spec, "..."@) {
        Err(spec)
    } else {
        match split_once_sub(spec, ".."@) {
            None => Err(spec),
            Some((a, b)) => if a.len() == 0 {
                Err(spec)
            } else {
                Ok(
                    RangeView {
                        tip: if b.len() == 0 { "HEAD"@ } else { b },
                        boundary: Some(a),
                        limit: None,
                        include_root: false,
                    },
                )
            },
        }
    }
}

/// What [`normalize`] gives for a command line.
pub open spec fn normalize_spec(cli: Cli) -> Result<RangeView, Seq<char>> {
    if cli.root {
        Ok(RangeView { tip: "HEAD"@, boundary: None, limit: None, include_root: true })
    } else {
        match cli.revspec {
            None => Ok(
                RangeView { tip: "HEAD"@, boundary: None, limit: Some(cli.number), include_root: false },
            ),
            Some(spec) => if contains_sub(spec@, ".."@) {
                parse_range_spec(spec@)
            } else {
                Ok(
                    RangeView {
                        tip: "HEAD"@,
                        boundary: Some(spec@),
                        limit: None,
                        include_root: false,
                    },
                )
            },
        }
    }
}

/// Exactly one of `boundary` / `limit` bounds a normalized range, or
/// neither when `include_root` takes the whole history; and the only
/// rejected command lines are bad `A..B` ranges.
pub proof fn lemma_range_bounded_once(cli: Cli)
    ensures
        (normalize_spec(cli) matches Ok(r) ==> (r.boundary is Some) != (r.limit is Some) || (r.include_root
            && r.boundary is None && r.limit is None)),
        (normalize_spec(cli) matches Ok(r) ==> (r.include_root <==> cli.root)),
        normalize_spec(cli) is Err ==> !cli.root && cli.revspec is Some && contains_sub(
            cli.revspec->0@,
            ".."@,
        ),
{
}

/// Turn the parsed CLI into an abstract [`RangeRequest`]. The only error
/// is `BadRange`.
pub fn normalize(cli: &Cli) -> (r: Result<RangeRequest, RedateError>)
    ensures
        normalize_view(r) == normalize_spec(*cli),
        r.is_err() ==> r->Err_0 is BadRange,
{
    // `--root` (which the parser keeps from co-occurring with a revspec):
    // edit the entire history, root included.
    if cli.root {
        return Ok(
            RangeRequest {
                tip: String::from_str("HEAD"),
                boundary: None,
                limit: None,
                include_root: true,
            },
        );
    }
    match &cli.revspec {
        // No revspec: the last N commits from HEAD.
        None => Ok(
            RangeRequest {
                tip: String::from_str("HEAD"),
                boundary: None,
                limit: Some(cli.number),
                include_root: false,
            },
        ),
        Some(spec) => {
            let cs = chars_of(spec.as_str());
            let dots = chars_of("..");
            match find_sub(&cs, &dots) {
                Some(i) => {
                    proof {
                        lemma_split_once_sub(cs@, dots@, i as int);
                    }
                    parse_range(spec.as_str())
                },
                None => {
                    // A single commit is the exclusive boundary of <commit>..HEAD.
                    Ok(
                        RangeRequest {
                            tip: String::from_str("HEAD"),
                            boundary: Some(spec.clone()),
                            limit: None,
                            include_root: false,
                        },
                    )
                },
            }
        },
    }
}

/// Parse an `A..B` range. `A` is the exclusive boundary and is
/// required; an empty `B` means HEAD. The three-dot form `A...B`
/// (symmetric difference) is not supported in v1.
pub fn parse_range(spec: &str) -> (r: Result<RangeRequest, RedateError>)
    ensures
        normalize_view(r) == parse_range_spec(spec@),
        r.is_err() ==> r->Err_0 is BadRange,
{
    proof {
        reveal_strlit("..");
        reveal_strlit("...");
        reveal_strlit("HEAD");
    }
    let cs = chars_of(spec);
    let bad = Err(RedateError::BadRange(String::from_str(spec)));
    if find_sub(&cs, &chars_of("...")).is_some() {
        return bad;
    }
    let dots = chars_of("..");
    let i = match find_sub(&cs, &dots) {
        Some(i) => i,
        None => {
            proof {
                lemma_split_once_sub_none(cs@, dots@);
            }
            return bad;
        },
    };
    proof {
        lemma_split_once_sub(cs@, dots@, i as int);
    }
    if i == 0 {
        return bad;
    }
    let mut a: Vec<char> = Vec::new();
    let mut k: usize = 0;
    while k < i
        invariant
            k <= i,
            i + 2 <= cs.len(),
            a@ == cs@.take(k as int),
        decreases i - k,
    {
        a.push(cs[k]);
        k = k + 1;
        assert(a@ =~= cs@.take(k as int));
    }
    let mut b: Vec<char> = Vec::new();
    let mut k: usize = i + 2;
    while k < cs.len()
        invariant
            i + 2 <= k <= cs.len(),
            b@ == cs@.subrange(i + 2, k as int),
        decreases cs.len() - k,
    {
        b.push(cs[k]);
        k = k + 1;
        assert(b@ =~= cs@.subrange(i + 2, k as int));
    }
    assert(b@ =~= cs@.skip(i + 2));
    let tip = if b.len() == 0 {
        String::from_str("HEAD")
    } else {
        string_of(&b)
    };
    Ok(RangeRequest { tip, boundary: Some(string_of(&a)), limit: None, include_root: false })
}

} // verus!
