//! Effective settings, resolved by precedence.
//!
//! The only configurable setting in v1 is the startup edit mode:
//!
//! `--mode` flag  >  `git config redate.mode`  >  built-in default.
//!
//! The caller fetches the raw `redate.mode` string from the repository
//! and passes it in. An unparseable git config value is ignored (with a
//! warning) rather than aborting the run.

use vstd::prelude::*;
use crate::cli::{parse_mode_spec, EditMode};
use crate::text::{chars_of, string_of, trim, trim_chars};

verus! {

/// The resolved settings plus any non-fatal note to surface.
#[derive(Debug, Clone, PartialEq, Eq)]
pub struct EffectiveConfig {
    pub mode: EditMode,
    /// A warning to show the user (e.g. an ignored bad config value).
    pub warning: Option<String>,
}

/// The warning for an unusable `redate.mode` value.
pub open spec fn invalid_mode_warning(raw: Seq<char>) -> Seq<char> {
    "ignoring invalid redate.mode '"@ + trim(raw) + "' (expected single or shift)"@
}

/// Resolve the startup edit mode. `cli_mode` is the `--mode` flag (if
/// given); `git_mode` is the raw `redate.mode` git config value (if
/// set). Precedence: CLI, then git config, then the built-in default.
pub fn resolve(cli_mode: Option<EditMode>, git_mode: Option<&str>) -> (c: EffectiveConfig)
    ensures
        cli_mode.is_some() ==> c.mode == cli_mode.unwrap() && c.warning.is_none(),
        cli_mode.is_none() && git_mode.is_none() ==> c.mode == EditMode::Single
            && c.warning.is_none(),
        cli_mode.is_none() && git_mode.is_some() && parse_mode_spec(git_mode.unwrap()@).is_ok()
            ==> c.mode == parse_mode_spec(git_mode.unwrap()@)->Ok_0 && c.warning.is_none(),
        cli_mode.is_none() && git_mode.is_some() && parse_mode_spec(git_mode.unwrap()@).is_err()
            ==> c.mode == EditMode::Single && c.warning.is_some() && c.warning.unwrap()@
            == invalid_mode_warning(git_mode.unwrap()@),
{
    if let Some(mode) = cli_mode {
        return EffectiveConfig { mode, warning: None };
    }
    match git_mode {
        Some(raw) => match EditMode::parse(raw) {
            Ok(mode) => EffectiveConfig { mode, warning: None },
            Err(_) => {
                let mut w = String::from_str("ignoring invalid redate.mode '");
                w.append(string_of(&trim_chars(&chars_of(raw))).as_str());
                w.append("' (expected single or shift)");
                EffectiveConfig { mode: EditMode::Single, warning: Some(w) }
            },
        },
        None => EffectiveConfig { mode: EditMode::Single, warning: None },
    }
}

} // verus!
