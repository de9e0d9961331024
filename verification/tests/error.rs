use git_redate::error::RedateError;

#[test]
fn merge_message_includes_the_oid() {
    let e = RedateError::MergeInRange("abc1234".into());
    assert!(e.to_string().contains("abc1234"));
    assert!(e.to_string().contains("linear history"));
}

#[test]
fn bad_revspec_quotes_the_spec() {
    let e = RedateError::BadRevspec("nope~3".into());
    assert_eq!(e.to_string(), "could not resolve revision 'nope~3'");
}

#[test]
fn every_error_has_its_message() {
    let cases = vec![
        (RedateError::NotARepo("x".into()), "not a git repository (or any parent): x"),
        (
            RedateError::MergeInRange("m".into()),
            "merge commit m is in the selected range; git-redate v1 supports linear history only",
        ),
        (RedateError::EmptyRange, "no commits selected to redate"),
        (RedateError::UnbornHead, "HEAD is unborn (no commits yet)"),
        (RedateError::BadRange("a..".into()), "range 'a..' needs both endpoints, as in A..B"),
        (
            RedateError::NotAnAncestor("v1".into()),
            "'v1' is not an ancestor of HEAD, so it cannot bound the range",
        ),
        (RedateError::TipNotHead, "git-redate v1 can only rewrite a range that ends at HEAD"),
        (
            RedateError::NotATty,
            "git-redate needs an interactive terminal (use --dry-run in scripts)",
        ),
        (RedateError::Write("w".into()), "failed to rewrite history: w"),
        (RedateError::Signing("s".into()), "failed to sign: s"),
    ];
    for (e, want) in cases {
        assert_eq!(e.to_string(), want);
    }
}
