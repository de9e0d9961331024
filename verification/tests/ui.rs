use git_redate::app::{App, ConfirmKind, Mode, SubField};
use git_redate::cli::EditMode;
use git_redate::datetime::{parse_in_offset, Component};
use git_redate::model::{Commit, EditableCommit};
use git_redate::ui::{comp_range, count_changed, focus_for, status_text, title_text};

fn app() -> App {
    let commits = ["2024-01-01 01:00", "2024-01-02 02:30"]
        .iter()
        .enumerate()
        .map(|(i, w)| {
            let s = parse_in_offset(w, 0).unwrap();
            EditableCommit::new(Commit {
                id: format!("{i:040x}"),
                short_id: format!("abc{i}"),
                summary: format!("summary {i}"),
                author: s,
                committer: s,
            })
        })
        .collect();
    App::new(commits, EditMode::Single, false, false)
}

#[test]
fn title_shows_count_mode_and_dry_run() {
    let mut a = app();
    assert_eq!(title_text(&a), "git redate  -  2 commit(s)  [mode: single]");
    a.dry_run = true;
    a.edit_mode = EditMode::Shift;
    assert_eq!(title_text(&a), "git redate  -  2 commit(s)  [mode: shift]  [dry-run]");
}

#[test]
fn editing_status_shows_the_buffer() {
    let mut a = app();
    a.mode = Mode::Editing {
        buffer: "2024-06-15 09:30".to_string(),
    };
    assert_eq!(
        status_text(&a),
        "type date (YYYY-MM-DD HH:MM): 2024-06-15 09:30_    [Enter] apply  [Esc] cancel"
    );
}

#[test]
fn confirm_prompts_show_the_count() {
    let mut a = app();
    a.commits[0].author = parse_in_offset("2024-02-02 02:00", 0).unwrap();
    assert_eq!(count_changed(&a.commits), 1);
    a.mode = Mode::Confirm {
        kind: ConfirmKind::Write,
    };
    assert_eq!(status_text(&a), "rewrite 1 commit(s)?   [y] yes    [n/Esc] no");
    a.mode = Mode::Confirm {
        kind: ConfirmKind::Quit,
    };
    assert_eq!(
        status_text(&a),
        "discard 1 change(s) and quit?   [y] yes    [n/Esc] no"
    );
}

#[test]
fn navigate_status_shows_message_or_hints() {
    let mut a = app();
    assert!(status_text(&a).starts_with("[up/down] row  [left/right] field"));
    assert!(status_text(&a).ends_with("[?] help  [w] write  [q] quit"));
    a.message = Some("distributed evenly".to_string());
    assert_eq!(status_text(&a), "distributed evenly");
}

#[test]
fn component_ranges_cover_the_date() {
    let date = "2024-03-01 14:32";
    let pick = |c| comp_range(c).map(|(s, e)| &date[s..e]);
    assert_eq!(pick(Component::Year), Some("2024"));
    assert_eq!(pick(Component::Month), Some("03"));
    assert_eq!(pick(Component::Day), Some("01"));
    assert_eq!(pick(Component::Hour), Some("14"));
    assert_eq!(pick(Component::Minute), Some("32"));
    assert_eq!(comp_range(Component::Offset), None);
}

#[test]
fn focus_follows_the_selected_stamp() {
    let mut a = app();
    a.component = Component::Day;
    assert_eq!(focus_for(&a, true, SubField::Author), Some(Component::Day));
    assert_eq!(focus_for(&a, true, SubField::Committer), None);
    assert_eq!(focus_for(&a, false, SubField::Author), None);
    a.sub = SubField::Committer;
    assert_eq!(focus_for(&a, true, SubField::Committer), Some(Component::Day));
}
