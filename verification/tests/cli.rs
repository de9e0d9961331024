use git_redate::cli::{normalize, parse_range, Cli, EditMode, RangeRequest};
use git_redate::error::RedateError;

/// The command line as parsed from `revspec` / `-n` / `--root`, with
/// the other flags at their defaults.
fn cli(revspec: Option<&str>, number: usize, root: bool) -> Cli {
    Cli {
        revspec: revspec.map(|s| s.to_string()),
        number,
        root,
        dry_run: false,
        separate: false,
        mode: None,
        no_sign: false,
        no_retag: false,
    }
}

/// No arguments: `-n` defaults to ten.
fn no_args() -> Cli {
    cli(None, 10, false)
}

#[test]
fn no_args_takes_last_ten() {
    let r = normalize(&no_args()).unwrap();
    assert_eq!(
        r,
        RangeRequest {
            tip: "HEAD".into(),
            boundary: None,
            limit: Some(10),
            include_root: false,
        }
    );
}

#[test]
fn number_flag_sets_the_limit() {
    let r = normalize(&cli(None, 3, false)).unwrap();
    assert_eq!(r.limit, Some(3));
    assert_eq!(r.boundary, None);
}

#[test]
fn single_commit_is_exclusive_boundary_to_head() {
    let r = normalize(&cli(Some("abc123"), 10, false)).unwrap();
    assert_eq!(r.tip, "HEAD");
    assert_eq!(r.boundary.as_deref(), Some("abc123"));
    assert_eq!(r.limit, None);
}

#[test]
fn range_splits_on_two_dots() {
    let r = normalize(&cli(Some("v1.0..HEAD~1"), 10, false)).unwrap();
    assert_eq!(r.boundary.as_deref(), Some("v1.0"));
    assert_eq!(r.tip, "HEAD~1");
    assert_eq!(r.limit, None);
}

#[test]
fn range_empty_tip_defaults_to_head() {
    let r = normalize(&cli(Some("abc.."), 10, false)).unwrap();
    assert_eq!(r.boundary.as_deref(), Some("abc"));
    assert_eq!(r.tip, "HEAD");
}

#[test]
fn range_empty_boundary_is_rejected() {
    assert!(matches!(
        normalize(&cli(Some("..HEAD"), 10, false)),
        Err(RedateError::BadRange(_))
    ));
}

#[test]
fn three_dot_range_is_rejected() {
    assert!(matches!(
        normalize(&cli(Some("a...b"), 10, false)),
        Err(RedateError::BadRange(_))
    ));
}

#[test]
fn root_takes_whole_history() {
    let r = normalize(&cli(None, 10, true)).unwrap();
    assert_eq!(
        r,
        RangeRequest {
            tip: "HEAD".into(),
            boundary: None,
            limit: None,
            include_root: true,
        }
    );
}

#[test]
fn edit_mode_from_str_and_display_round_trip() {
    assert_eq!("shift".parse::<EditMode>().unwrap(), EditMode::Shift);
    assert_eq!("SINGLE".parse::<EditMode>().unwrap(), EditMode::Single);
    assert!("bogus".parse::<EditMode>().is_err());
    assert_eq!(EditMode::Shift.to_string(), "shift");
    assert_eq!(EditMode::default(), EditMode::Single);
}

#[test]
fn unknown_edit_mode_names_the_value() {
    assert_eq!(
        EditMode::parse("  Bogus "),
        Err("unknown edit mode 'bogus' (expected single or shift)".to_string())
    );
    assert_eq!(EditMode::parse(" Shift\t"), Ok(EditMode::Shift));
}

#[test]
fn parse_range_reports_the_whole_spec() {
    assert_eq!(
        parse_range("a...b"),
        Err(RedateError::BadRange("a...b".to_string()))
    );
    assert_eq!(
        parse_range("..x"),
        Err(RedateError::BadRange("..x".to_string()))
    );
    // Endpoints are taken as written, spaces included.
    let r = parse_range(" a .. b ").unwrap();
    assert_eq!(r.boundary.as_deref(), Some(" a "));
    assert_eq!(r.tip, " b ");
}
