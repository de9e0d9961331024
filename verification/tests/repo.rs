use git_redate::error::RedateError;
use git_redate::repo::{abbreviate, walk_error, walk_linear, WalkError};
use std::collections::HashMap;

/// Build a parent lookup for a linear chain n -> n-1 -> ... -> 0,
/// where 0 is the root. Higher number = newer.
fn linear(parents: &[(i32, Vec<i32>)]) -> impl Fn(i32) -> Vec<i32> + '_ {
    let map: HashMap<i32, Vec<i32>> = parents.iter().cloned().collect();
    move |id| map.get(&id).cloned().unwrap_or_default()
}

// Chain: 3 -> 2 -> 1 -> 0 (root).
fn chain() -> Vec<(i32, Vec<i32>)> {
    vec![(3, vec![2]), (2, vec![1]), (1, vec![0]), (0, vec![])]
}

#[test]
fn boundary_is_exclusive() {
    let got = walk_linear(3, Some(1), None, linear(&chain())).unwrap();
    assert_eq!(got, vec![3, 2]); // 1 excluded
}

#[test]
fn limit_caps_the_walk() {
    let got = walk_linear(3, None, Some(2), linear(&chain())).unwrap();
    assert_eq!(got, vec![3, 2]);
}

#[test]
fn no_boundary_reaches_and_includes_root() {
    let got = walk_linear(3, None, None, linear(&chain())).unwrap();
    assert_eq!(got, vec![3, 2, 1, 0]);
}

#[test]
fn merge_aborts() {
    let mut c = chain();
    c[1] = (2, vec![1, 9]); // 2 becomes a merge of 1 and 9
    let err = walk_linear(3, None, None, linear(&c)).unwrap_err();
    assert_eq!(err, WalkError::Merge(2));
}

#[test]
fn tip_equal_boundary_is_empty() {
    let err = walk_linear(3, Some(3), None, linear(&chain())).unwrap_err();
    assert_eq!(err, WalkError::Empty);
}

#[test]
fn boundary_not_in_ancestry_is_reported() {
    let err = walk_linear(3, Some(42), None, linear(&chain())).unwrap_err();
    assert_eq!(err, WalkError::BoundaryNotAncestor(42));
}

#[test]
fn single_commit_repo_takes_the_root() {
    let got = walk_linear(0, None, Some(10), linear(&[(0, vec![])])).unwrap();
    assert_eq!(got, vec![0]);
}

#[test]
fn limit_zero_takes_no_commit() {
    let err = walk_linear(3, None, Some(0), linear(&chain())).unwrap_err();
    assert_eq!(err, WalkError::Empty);
    // With a boundary it was never reached.
    let err = walk_linear(3, Some(1), Some(0), linear(&chain())).unwrap_err();
    assert_eq!(err, WalkError::BoundaryNotAncestor(1));
    // Nor is a merge at the tip looked at.
    let m = vec![(3, vec![2, 9])];
    assert_eq!(walk_linear(3, None, Some(0), linear(&m)).unwrap_err(), WalkError::Empty);
    // A limit of one takes just the tip.
    assert_eq!(walk_linear(3, None, Some(1), linear(&chain())).unwrap(), vec![3]);
}

#[test]
fn limit_reached_before_the_boundary_is_not_an_ancestor() {
    let err = walk_linear(3, Some(0), Some(2), linear(&chain())).unwrap_err();
    assert_eq!(err, WalkError::BoundaryNotAncestor(0));
}

#[test]
fn merge_at_the_tip_aborts_before_taking_it() {
    let c = vec![(3, vec![2, 7]), (2, vec![])];
    assert_eq!(walk_linear(3, Some(3), None, linear(&c)).unwrap_err(), WalkError::Empty);
    assert_eq!(walk_linear(3, None, None, linear(&c)).unwrap_err(), WalkError::Merge(3));
}

#[test]
fn walk_errors_become_user_errors() {
    assert_eq!(walk_error(WalkError::Empty, None), RedateError::EmptyRange);
    assert_eq!(
        walk_error(WalkError::Merge("0123456789abcdef".to_string()), None),
        RedateError::MergeInRange("0123456789".to_string())
    );
    assert_eq!(
        walk_error(WalkError::BoundaryNotAncestor("x".to_string()), Some("v1.0".to_string())),
        RedateError::NotAnAncestor("v1.0".to_string())
    );
    assert_eq!(
        walk_error(WalkError::BoundaryNotAncestor("x".to_string()), None),
        RedateError::NotAnAncestor(String::new())
    );
}

#[test]
fn abbreviate_takes_a_prefix() {
    assert_eq!(abbreviate("0123456789abcdef", 7), "0123456");
    assert_eq!(abbreviate("abc", 7), "abc");
    assert_eq!(abbreviate("", 3), "");
}
