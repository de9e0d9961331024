//! What the editor screen says: the title, the status line, and which
//! part of a date is highlighted. Drawing it on a terminal happens
//! outside the library.

use vstd::prelude::*;
use crate::app::{App, ConfirmKind, Mode, SubField};
use crate::cli::mode_name;
use crate::datetime::Component;
use crate::model::EditableCommit;
use crate::text::{decimal, push_padded, zero_pad};

verus! {

/// The key hints shown in the status line while navigating.
pub open spec fn hints() -> Seq<char> {
    "[up/down] row  [left/right] field  [+/-] adjust  [Space] expand  [Tab] author/committer  [s] mode  [e] type  [c] copy-prev  [=] spread  [u] reset  [?] help  [w] write  [q] quit"@
}

/// How many of `commits` have unsaved edits.
pub open spec fn changed_count(commits: Seq<EditableCommit>) -> nat
    decreases commits.len(),
{
    if commits.len() == 0 {
        0
    } else {
        changed_count(commits.drop_last()) + if commits.last().is_changed() {
            1nat
        } else {
            0nat
        }
    }
}

/// The number of commits with unsaved edits.
pub fn count_changed(commits: &[EditableCommit]) -> (n: usize)
    ensures
        n == changed_count(commits@),
{
    let mut n: usize = 0;
    let mut j: usize = 0;
    while j < commits.len()
        invariant
            j <= commits@.len(),
            n == changed_count(commits@.take(j as int)),
            n <= j,
        decreases commits@.len() - j,
    {
        assert(commits@.take(j + 1).drop_last() =~= commits@.take(j as int));
        if commits[j].changed() {
            n = n + 1;
        }
        j = j + 1;
    }
    assert(commits@.take(commits@.len() as int) =~= commits@);
    n
}

/// The characters of `YYYY-MM-DD HH:MM` that show component `c` (the
/// offset is shown apart).
pub open spec fn comp_range_spec(c: Component) -> Option<(usize, usize)> {
    match c {
        Component::Year => Some((0, 4)),
        Component::Month => Some((5, 7)),
        Component::Day => Some((8, 10)),
        Component::Hour => Some((11, 13)),
        Component::Minute => Some((14, 16)),
        Component::Offset => None,
    }
}

/// Where component `c` stands in a `YYYY-MM-DD HH:MM` date.
pub fn comp_range(c: Component) -> (r: Option<(usize, usize)>)
    ensures
        r == comp_range_spec(c),
{
    match c {
        Component::Year => Some((0, 4)),
        Component::Month => Some((5, 7)),
        Component::Day => Some((8, 10)),
        Component::Hour => Some((11, 13)),
        Component::Minute => Some((14, 16)),
        Component::Offset => None,
    }
}

/// The component highlighted in the `which` stamp of a row: the focused
/// one, when the row is selected and `which` is the focused stamp.
pub fn focus_for(app: &App, selected: bool, which: SubField) -> (r: Option<Component>)
    ensures
        r == if selected && app.sub == which {
            Some(app.component)
        } else {
            None
        },
{
    if selected && app.sub == which {
        Some(app.component)
    } else {
        None
    }
}

/// The title line.
pub open spec fn title_spec(count: nat, mode: Seq<char>, dry_run: bool) -> Seq<char> {
    "git redate  -  "@ + decimal(count) + " commit(s)  [mode: "@ + mode + "]"@ + if dry_run {
        "  [dry-run]"@
    } else {
        ""@
    }
}

/// The title: how many commits are loaded, the edit mode, and whether
/// this is a dry run.
pub fn title_text(app: &App) -> (r: String)
    ensures
        r@ == title_spec(app.commits@.len() as nat, mode_name(app.edit_mode), app.dry_run),
{
    let mut r = String::from_str("git redate  -  ");
    let n = app.commits.len();
    push_padded(&mut r, n as u64, 0);
    r.append(" commit(s)  [mode: ");
    r.append(app.edit_mode.to_string().as_str());
    r.append("]");
    if app.dry_run {
        r.append("  [dry-run]");
    }
    proof {
        reveal_strlit("");
        assert(zero_pad(decimal(n as nat), 0) == decimal(n as nat));
        assert(r@ =~= title_spec(n as nat, mode_name(app.edit_mode), app.dry_run));
    }
    r
}

/// The status line: the text being typed, the confirmation prompt with
/// the number of edited commits, or else the last message or the key
/// hints.
pub open spec fn status_spec(
    mode: Mode,
    changed: nat,
    message: Option<Seq<char>>,
) -> Seq<char> {
    match mode {
        Mode::Editing { buffer } => "type date (YYYY-MM-DD HH:MM): "@ + buffer@
            + "_    [Enter] apply  [Esc] cancel"@,
        Mode::Confirm { kind } => match kind {
            ConfirmKind::Write => "rewrite "@ + decimal(changed) + " commit(s)?   [y] yes    [n/Esc] no"@,
            ConfirmKind::Quit => "discard "@ + decimal(changed)
                + " change(s) and quit?   [y] yes    [n/Esc] no"@,
        },
        Mode::Navigate => match message {
            Some(m) => m,
            None => hints(),
        },
    }
}

/// The text of the status line.
pub fn status_text(app: &App) -> (r: String)
    ensures
        r@ == status_spec(
            app.mode,
            changed_count(app.commits@),
            match app.message {
                Some(m) => Some(m@),
                None => None,
            },
        ),
{
    match &app.mode {
        Mode::Editing { buffer } => {
            let mut r = String::from_str("type date (YYYY-MM-DD HH:MM): ");
            r.append(buffer.as_str());
            r.append("_    [Enter] apply  [Esc] cancel");
            r
        },
        Mode::Confirm { kind } => {
            let n = count_changed(app.commits.as_slice());
            let mut r = match kind {
                ConfirmKind::Write => String::from_str("rewrite "),
                ConfirmKind::Quit => String::from_str("discard "),
            };
            push_padded(&mut r, n as u64, 0);
            match kind {
                ConfirmKind::Write => r.append(" commit(s)?   [y] yes    [n/Esc] no"),
                ConfirmKind::Quit => r.append(" change(s) and quit?   [y] yes    [n/Esc] no"),
            }
            proof {
                assert(zero_pad(decimal(n as nat), 0) == decimal(n as nat));
            }
            r
        },
        Mode::Navigate => match &app.message {
            Some(m) => m.clone(),
            None => String::from_str(
                "[up/down] row  [left/right] field  [+/-] adjust  [Space] expand  [Tab] author/committer  [s] mode  [e] type  [c] copy-prev  [=] spread  [u] reset  [?] help  [w] write  [q] quit",
            ),
        },
    }
}

} // verus!
