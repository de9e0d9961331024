use git_redate::cli::EditMode;
use git_redate::config::resolve;

#[test]
fn built_in_default_is_single() {
    let c = resolve(None, None);
    assert_eq!(c.mode, EditMode::Single);
    assert_eq!(c.warning, None);
}

#[test]
fn git_config_sets_the_mode() {
    assert_eq!(resolve(None, Some("shift")).mode, EditMode::Shift);
    assert_eq!(resolve(None, Some("single")).mode, EditMode::Single);
}

#[test]
fn cli_flag_overrides_git_config() {
    let c = resolve(Some(EditMode::Single), Some("shift"));
    assert_eq!(c.mode, EditMode::Single);
    assert_eq!(c.warning, None);
}

#[test]
fn invalid_git_config_falls_back_with_warning() {
    let c = resolve(None, Some("nope"));
    assert_eq!(c.mode, EditMode::Single);
    assert!(c.warning.as_deref().unwrap().contains("nope"));
}

#[test]
fn cli_flag_wins_even_over_invalid_git_config() {
    let c = resolve(Some(EditMode::Shift), Some("nope"));
    assert_eq!(c.mode, EditMode::Shift);
    assert_eq!(c.warning, None);
}

#[test]
fn invalid_git_config_warning_is_exact() {
    let c = resolve(None, Some("  Nope "));
    assert_eq!(
        c.warning.as_deref(),
        Some("ignoring invalid redate.mode 'Nope' (expected single or shift)")
    );
    // Case and surrounding blanks do not matter for a valid value.
    assert_eq!(resolve(None, Some(" SHIFT ")).mode, EditMode::Shift);
}
