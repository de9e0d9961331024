use git_redate::app::{App, ConfirmKind, Mode};
use git_redate::cli::EditMode;
use git_redate::datetime::{self, parse_in_offset, Component};
use git_redate::input::{Action, Context};
use git_redate::model::{any_changed, Commit, EditableCommit, Target};

fn app(walls: &[&str], mode: EditMode) -> App {
    let commits = walls
        .iter()
        .enumerate()
        .map(|(i, w)| {
            let s = parse_in_offset(w, 0).unwrap();
            EditableCommit::new(Commit {
                id: format!("{i:040x}"),
                short_id: format!("{i:07}"),
                summary: format!("c{i}"),
                author: s,
                committer: s,
            })
        })
        .collect();
    App::new(commits, mode, false, false)
}

fn wall(app: &App, i: usize) -> String {
    datetime::format(app.commits[i].author)
}

#[test]
fn navigation_clamps_at_the_ends() {
    let mut a = app(&["2024-01-01 01:00", "2024-01-01 02:00"], EditMode::Single);
    a.handle(Action::PrevRow);
    assert_eq!(a.selected, 0);
    a.handle(Action::NextRow);
    a.handle(Action::NextRow);
    assert_eq!(a.selected, 1);
}

#[test]
fn increment_minute_single_touches_one_row() {
    let mut a = app(&["2024-01-01 01:00", "2024-01-01 02:00"], EditMode::Single);
    a.component = Component::Hour;
    a.handle(Action::Increment);
    assert_eq!(wall(&a, 0), "2024-01-01 02:00");
    assert_eq!(wall(&a, 1), "2024-01-01 02:00"); // unchanged
}

#[test]
fn increment_shift_cascades_to_newer_rows() {
    let mut a = app(
        &["2024-01-01 01:00", "2024-01-01 01:30", "2024-01-01 03:00"],
        EditMode::Shift,
    );
    a.component = Component::Hour;
    a.handle(Action::Increment); // +1h on row 0, cascades
    assert_eq!(wall(&a, 0), "2024-01-01 02:00");
    assert_eq!(wall(&a, 1), "2024-01-01 02:30");
    assert_eq!(wall(&a, 2), "2024-01-01 04:00");
}

#[test]
fn toggle_mode_switches_cascade() {
    let mut a = app(&["2024-01-01 01:00"], EditMode::Single);
    assert!(!a.cascade());
    a.handle(Action::ToggleMode);
    assert!(a.cascade());
    assert_eq!(a.message.as_deref(), Some("mode: shift"));
}

#[test]
fn expand_adds_offset_to_the_component_cycle() {
    let mut a = app(&["2024-01-01 01:00"], EditMode::Single);
    assert_eq!(a.components().len(), 5);
    a.handle(Action::ToggleExpand);
    assert!(a.expanded());
    assert_eq!(a.components().len(), 6);
}

#[test]
fn expanded_targets_the_focused_subfield() {
    let mut a = app(&["2024-01-01 01:00"], EditMode::Single);
    a.handle(Action::ToggleExpand);
    assert_eq!(a.target(), Target::Author);
    a.component = Component::Hour;
    a.handle(Action::Increment);
    assert_eq!(datetime::format(a.commits[0].author), "2024-01-01 02:00");
    assert_eq!(datetime::format(a.commits[0].committer), "2024-01-01 01:00");
    // Switch to committer and edit it independently.
    a.handle(Action::ToggleSubField);
    assert_eq!(a.target(), Target::Committer);
    a.handle(Action::Increment);
    assert_eq!(datetime::format(a.commits[0].committer), "2024-01-01 02:00");
}

#[test]
fn text_edit_sets_an_absolute_time() {
    let mut a = app(&["2024-01-01 01:00"], EditMode::Single);
    a.handle(Action::BeginEdit);
    assert!(a.is_editing());
    // Clear and type a new value.
    for _ in 0..16 {
        a.handle(Action::Backspace);
    }
    for c in "2024-06-15 09:30".chars() {
        a.handle(Action::Char(c));
    }
    a.handle(Action::CommitEdit);
    assert!(!a.is_editing());
    assert_eq!(wall(&a, 0), "2024-06-15 09:30");
}

#[test]
fn text_edit_rejects_bad_input_and_stays_open() {
    let mut a = app(&["2024-01-01 01:00"], EditMode::Single);
    a.handle(Action::BeginEdit);
    for _ in 0..16 {
        a.handle(Action::Backspace);
    }
    for c in "nonsense".chars() {
        a.handle(Action::Char(c));
    }
    a.handle(Action::CommitEdit);
    assert!(a.is_editing()); // still editing
    assert!(a.message.is_some());
    assert_eq!(wall(&a, 0), "2024-01-01 01:00"); // unchanged
}

#[test]
fn write_and_quit_without_edits_go_straight_through() {
    // Nothing changed -> no confirmation prompt.
    let mut a = app(&["2024-01-01 01:00"], EditMode::Single);
    a.handle(Action::Write);
    assert!(a.write_requested);
    assert!(a.quit);

    let mut b = app(&["2024-01-01 01:00"], EditMode::Single);
    b.handle(Action::Quit);
    assert!(!b.write_requested);
    assert!(b.quit);
}

fn edited(mode: EditMode) -> App {
    let mut a = app(&["2024-01-01 01:00", "2024-01-01 02:00"], mode);
    a.component = Component::Hour;
    a.handle(Action::Increment); // make row 0 dirty
    assert!(any_changed(&a.commits));
    a
}

#[test]
fn write_with_edits_prompts_then_confirms() {
    let mut a = edited(EditMode::Single);
    a.handle(Action::Write);
    assert!(matches!(
        a.mode,
        Mode::Confirm {
            kind: ConfirmKind::Write
        }
    ));
    assert_eq!(a.context(), Context::Confirm);
    assert!(!a.write_requested && !a.quit);
    a.handle(Action::ConfirmYes);
    assert!(a.write_requested && a.quit);
}

#[test]
fn write_prompt_can_be_cancelled() {
    let mut a = edited(EditMode::Single);
    a.handle(Action::Write);
    a.handle(Action::ConfirmNo);
    assert_eq!(a.mode, Mode::Navigate);
    assert!(!a.write_requested && !a.quit);
}

#[test]
fn force_write_skips_the_prompt() {
    let mut a = edited(EditMode::Single);
    a.handle(Action::WriteForce);
    assert!(a.write_requested && a.quit);
}

#[test]
fn quit_with_edits_prompts_then_discards() {
    let mut a = edited(EditMode::Single);
    a.handle(Action::Quit);
    assert!(matches!(
        a.mode,
        Mode::Confirm {
            kind: ConfirmKind::Quit
        }
    ));
    a.handle(Action::ConfirmYes);
    assert!(a.quit && !a.write_requested);
}

#[test]
fn force_quit_aborts_from_any_mode() {
    // Even mid text-edit, a hard abort (Ctrl-C -> QuitForce) quits.
    let mut a = edited(EditMode::Single);
    a.handle(Action::BeginEdit);
    assert!(a.is_editing());
    a.handle(Action::QuitForce);
    assert!(a.quit && !a.write_requested);
}

#[test]
fn distribute_and_copy_and_reset() {
    let mut a = app(
        &["2024-01-01 00:00", "2024-01-01 05:00", "2024-01-01 02:00"],
        EditMode::Single,
    );
    a.handle(Action::Distribute);
    assert_eq!(wall(&a, 1), "2024-01-01 01:00"); // midpoint of 00:00..02:00

    a.selected = 1;
    a.handle(Action::CopyPrevious);
    assert_eq!(wall(&a, 1), wall(&a, 0));

    a.handle(Action::ResetRow);
    assert_eq!(wall(&a, 1), "2024-01-01 05:00"); // back to snapshot
}

#[test]
fn separate_start_expands_every_row() {
    let commits = vec![
        EditableCommit::new(Commit {
            id: "a".into(),
            short_id: "a".into(),
            summary: "a".into(),
            author: parse_in_offset("2024-01-01 01:00", 0).unwrap(),
            committer: parse_in_offset("2024-01-01 01:00", 0).unwrap(),
        });
        3
    ];
    let a = App::new(commits, EditMode::Shift, true, true);
    assert!(a.commits.iter().all(|c| c.expanded));
    assert!(a.dry_run);
    assert_eq!(a.context(), Context::Navigate);
    assert_eq!(a.component, Component::Minute);
}

#[test]
fn component_cycle_wraps_both_ways() {
    let mut a = app(&["2024-01-01 01:00"], EditMode::Single);
    assert_eq!(a.component, Component::Minute);
    a.handle(Action::NextComponent);
    assert_eq!(a.component, Component::Year);
    a.handle(Action::PrevComponent);
    assert_eq!(a.component, Component::Minute);
    a.handle(Action::ToggleExpand);
    a.handle(Action::NextComponent);
    assert_eq!(a.component, Component::Offset);
    // Collapsing drops the offset field from the cycle.
    a.handle(Action::ToggleExpand);
    assert_eq!(a.component, Component::Minute);
}

#[test]
fn cancelled_edit_changes_nothing() {
    let mut a = app(&["2024-01-01 01:00"], EditMode::Single);
    a.handle(Action::BeginEdit);
    assert_eq!(a.mode, Mode::Editing { buffer: "2024-01-01 01:00".to_string() });
    a.handle(Action::Char('x'));
    a.handle(Action::CancelEdit);
    assert_eq!(a.mode, Mode::Navigate);
    assert!(!any_changed(&a.commits));
}

#[test]
fn bad_date_message_names_the_text() {
    let mut a = app(&["2024-01-01 01:00"], EditMode::Single);
    a.handle(Action::BeginEdit);
    a.handle(Action::Char('x'));
    a.handle(Action::CommitEdit);
    // A field that is no number reports no text.
    assert_eq!(
        a.message.as_deref(),
        Some("invalid date/time (expected YYYY-MM-DD HH:MM): ")
    );
    a.handle(Action::Backspace);
    for _ in 0..5 {
        a.handle(Action::Backspace);
    }
    for c in "25:00".chars() {
        a.handle(Action::Char(c));
    }
    a.handle(Action::CommitEdit);
    assert_eq!(
        a.message.as_deref(),
        Some("invalid date/time (expected YYYY-MM-DD HH:MM): 2024-01-01 25:00")
    );
    // The next action clears the message.
    a.handle(Action::Backspace);
    assert_eq!(a.message, None);
}

#[test]
fn can_handle_refuses_only_overflowing_edits() {
    let a = app(&["2024-01-01 01:00"], EditMode::Single);
    assert!(a.can_handle(Action::Increment));
    assert!(a.can_handle(Action::Distribute));
    assert!(a.can_handle(Action::QuitForce));
}
