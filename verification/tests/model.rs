use git_redate::datetime::{self, parse_in_offset, Component, Stamp};
use git_redate::model::{
    any_changed, bump, copy_from_previous, distribute, interpolation_share, reset, Commit,
    EditableCommit, Target,
};

fn commit(id: &str, wall: &str) -> Commit {
    let s = parse_in_offset(wall, 0).unwrap();
    Commit {
        id: id.to_string(),
        short_id: id[..id.len().min(7)].to_string(),
        summary: format!("commit {id}"),
        author: s,
        committer: s,
    }
}

fn editable(walls: &[&str]) -> Vec<EditableCommit> {
    walls
        .iter()
        .enumerate()
        .map(|(k, w)| EditableCommit::new(commit(&format!("id{k}0000000"), w)))
        .collect()
}

fn walls(commits: &[EditableCommit]) -> Vec<String> {
    commits.iter().map(|c| datetime::format(c.author)).collect()
}

#[test]
fn new_mirrors_snapshot_and_is_unchanged() {
    let ec = EditableCommit::new(commit("abc", "2024-01-01 01:01"));
    assert!(!ec.changed());
    assert!(ec.linked);
    assert!(!ec.expanded);
    assert_eq!(ec.author, ec.original.author);
}

#[test]
fn bump_single_touches_only_that_commit() {
    let mut cs = editable(&["2024-01-01 01:01", "2024-01-01 01:02", "2024-01-01 02:00"]);
    bump(&mut cs, 0, Target::Both, Component::Hour, 1, false);
    assert_eq!(
        walls(&cs),
        ["2024-01-01 02:01", "2024-01-01 01:02", "2024-01-01 02:00"]
    );
    assert!(cs[0].changed());
    assert!(!cs[1].changed());
}

#[test]
fn bump_shift_matches_the_worked_example() {
    // 01:01, 01:02, 02:00 -> edit the first by +1h in shift mode ->
    // 02:01, 02:02, 03:00 (relative gaps preserved).
    let mut cs = editable(&["2024-01-01 01:01", "2024-01-01 01:02", "2024-01-01 02:00"]);
    bump(&mut cs, 0, Target::Both, Component::Hour, 1, true);
    assert_eq!(
        walls(&cs),
        ["2024-01-01 02:01", "2024-01-01 02:02", "2024-01-01 03:00"]
    );
    // committer moved in lockstep with author (linked / Both).
    assert!(cs.iter().all(|c| c.author == c.committer));
}

#[test]
fn bump_shift_from_the_middle_leaves_older_untouched() {
    let mut cs = editable(&["2024-01-01 01:00", "2024-01-01 02:00", "2024-01-01 03:00"]);
    bump(&mut cs, 1, Target::Both, Component::Hour, 1, true);
    assert_eq!(
        walls(&cs),
        ["2024-01-01 01:00", "2024-01-01 03:00", "2024-01-01 04:00"]
    );
    assert!(!cs[0].changed());
}

#[test]
fn set_absolute_single_and_cascade() {
    let mut cs = editable(&["2024-01-01 01:00", "2024-01-01 01:30", "2024-01-01 02:00"]);
    let target_time = parse_in_offset("2024-01-01 05:00", 0).unwrap();
    // single: only commit 0 changes.
    git_redate::model::set(&mut cs, 0, Target::Both, target_time, false);
    assert_eq!(walls(&cs)[0], "2024-01-01 05:00");
    assert_eq!(walls(&cs)[1], "2024-01-01 01:30");

    // cascade from a fresh set: delta +4h propagates.
    let mut cs = editable(&["2024-01-01 01:00", "2024-01-01 01:30", "2024-01-01 02:00"]);
    git_redate::model::set(&mut cs, 0, Target::Both, target_time, true);
    assert_eq!(
        walls(&cs),
        ["2024-01-01 05:00", "2024-01-01 05:30", "2024-01-01 06:00"]
    );
}

#[test]
fn target_author_only_leaves_committer() {
    let mut cs = editable(&["2024-01-01 01:00"]);
    bump(&mut cs, 0, Target::Author, Component::Hour, 2, false);
    assert_eq!(datetime::format(cs[0].author), "2024-01-01 03:00");
    assert_eq!(datetime::format(cs[0].committer), "2024-01-01 01:00");
}

#[test]
fn copy_from_previous_takes_the_older_neighbour() {
    let mut cs = editable(&["2024-01-01 01:00", "2024-01-01 09:00"]);
    copy_from_previous(&mut cs, 1);
    assert_eq!(datetime::format(cs[1].author), "2024-01-01 01:00");
    // No-op at the oldest.
    let mut cs2 = editable(&["2024-01-01 01:00"]);
    copy_from_previous(&mut cs2, 0);
    assert!(!cs2[0].changed());
}

#[test]
fn distribute_spaces_interior_evenly() {
    // 00:00 .. 04:00 across 5 commits -> hourly steps.
    let mut cs = editable(&[
        "2024-01-01 00:00",
        "2024-01-01 03:00",
        "2024-01-01 03:10",
        "2024-01-01 03:20",
        "2024-01-01 04:00",
    ]);
    distribute(&mut cs);
    assert_eq!(
        walls(&cs),
        [
            "2024-01-01 00:00",
            "2024-01-01 01:00",
            "2024-01-01 02:00",
            "2024-01-01 03:00",
            "2024-01-01 04:00",
        ]
    );
    // Endpoints untouched.
    assert!(!cs[0].changed());
    assert!(!cs[4].changed());
}

#[test]
fn distribute_is_noop_below_three() {
    let mut cs = editable(&["2024-01-01 00:00", "2024-01-01 09:00"]);
    distribute(&mut cs);
    assert!(!cs[0].changed());
    assert!(!cs[1].changed());
}

#[test]
fn reset_restores_the_snapshot() {
    let mut cs = editable(&["2024-01-01 01:00"]);
    bump(&mut cs, 0, Target::Both, Component::Day, 5, false);
    assert!(cs[0].changed());
    reset(&mut cs, 0);
    assert!(!cs[0].changed());
}

#[test]
fn any_changed_reflects_edits() {
    let mut cs = editable(&["2024-01-01 01:00", "2024-01-01 02:00"]);
    assert!(!any_changed(&cs));
    bump(&mut cs, 1, Target::Both, Component::Minute, 1, false);
    assert!(any_changed(&cs));
}

#[test]
fn bump_offset_preserved_on_cascade() {
    // Different offsets per commit; a Both shift keeps each offset.
    let mut cs = vec![
        EditableCommit::new(Commit {
            id: "a".into(),
            short_id: "a".into(),
            summary: "a".into(),
            author: Stamp::new(0, 8 * 3600),
            committer: Stamp::new(0, 8 * 3600),
        }),
        EditableCommit::new(Commit {
            id: "b".into(),
            short_id: "b".into(),
            summary: "b".into(),
            author: Stamp::new(3600, -5 * 3600),
            committer: Stamp::new(3600, -5 * 3600),
        }),
    ];
    bump(&mut cs, 0, Target::Both, Component::Hour, 1, true);
    assert_eq!(cs[0].author.offset, 8 * 3600);
    assert_eq!(cs[1].author.offset, -5 * 3600);
    // Both advanced by exactly one hour (3600s).
    assert_eq!(cs[0].author.seconds, 3600);
    assert_eq!(cs[1].author.seconds, 3600 + 3600);
}

#[test]
fn shift_mode_keeps_every_gap() {
    let mut cs = editable(&["2024-01-01 01:00", "2024-01-01 01:07", "2024-01-03 20:00"]);
    let gaps = |cs: &[EditableCommit]| {
        vec![
            cs[1].author.seconds - cs[0].author.seconds,
            cs[2].author.seconds - cs[1].author.seconds,
        ]
    };
    let before = gaps(&cs);
    bump(&mut cs, 0, Target::Both, Component::Month, -3, true);
    assert_eq!(gaps(&cs), before);
    assert_eq!(walls(&cs)[0], "2023-10-01 01:00");
}

#[test]
fn committer_target_cascades_committer_only() {
    let mut cs = editable(&["2024-01-01 01:00", "2024-01-01 02:00"]);
    bump(&mut cs, 0, Target::Committer, Component::Minute, 30, true);
    assert_eq!(datetime::format(cs[0].committer), "2024-01-01 01:30");
    assert_eq!(datetime::format(cs[1].committer), "2024-01-01 02:30");
    assert_eq!(walls(&cs), ["2024-01-01 01:00", "2024-01-01 02:00"]);
}

#[test]
fn distribute_rounds_to_the_nearest_second() {
    // 0 .. 10 s over 4 commits: 10/3 = 3.33 -> 3, 20/3 = 6.67 -> 7.
    let mut cs = vec![
        EditableCommit::new(Commit {
            id: "a".into(),
            short_id: "a".into(),
            summary: "a".into(),
            author: Stamp::new(0, 0),
            committer: Stamp::new(0, 0),
        });
        4
    ];
    cs[3].author = Stamp::new(10, 0);
    cs[3].committer = Stamp::new(10, 0);
    distribute(&mut cs);
    let secs: Vec<i64> = cs.iter().map(|c| c.author.seconds).collect();
    assert_eq!(secs, [0, 3, 7, 10]);
    assert_eq!(interpolation_share(0, 10, 1, 3), 3);
    assert_eq!(interpolation_share(0, 10, 2, 3), 7);
    assert_eq!(interpolation_share(10, 0, 1, 3), -3);
}

#[test]
fn out_of_range_rows_are_left_alone() {
    let mut cs = editable(&["2024-01-01 01:00"]);
    bump(&mut cs, 5, Target::Both, Component::Hour, 1, true);
    reset(&mut cs, 5);
    copy_from_previous(&mut cs, 5);
    assert_eq!(walls(&cs), ["2024-01-01 01:00"]);
    assert!(!any_changed(&cs));
}

#[test]
fn linked_edits_unify_differing_dates() {
    // A rebased commit: committed an hour after it was authored.
    let a = parse_in_offset("2024-01-01 01:00", 0).unwrap();
    let c = parse_in_offset("2024-01-01 02:00", 0).unwrap();
    let mut cs = vec![
        EditableCommit::new(Commit {
            id: "a".into(),
            short_id: "a".into(),
            summary: "a".into(),
            author: a,
            committer: c,
        });
        2
    ];
    bump(&mut cs, 0, Target::Both, Component::Minute, 5, true);
    for ec in &cs {
        assert_eq!(datetime::format(ec.author), "2024-01-01 01:05");
        assert_eq!(ec.author, ec.committer);
    }
    // Expanded editing keeps them apart.
    bump(&mut cs, 1, Target::Committer, Component::Hour, 1, false);
    assert_eq!(datetime::format(cs[1].committer), "2024-01-01 02:05");
    assert_eq!(datetime::format(cs[1].author), "2024-01-01 01:05");
}
