use git_redate::datetime::{parse_in_offset, Component};
use git_redate::model::{bump, Commit, EditableCommit, Target};
use git_redate::rewrite::{first_changed, remap_parents, signature_outcome, TagSig};
use gix::ObjectId;
use std::collections::HashMap;

fn oid(n: u32) -> ObjectId {
    ObjectId::from_hex(format!("{n:040x}").as_bytes()).unwrap()
}

#[test]
fn remap_replaces_only_rewritten_parents() {
    let mut map = HashMap::new();
    map.insert(oid(1), oid(101));
    // parent 1 was rewritten -> 101; parent 2 was not -> kept.
    let got = remap_parents(&[oid(1), oid(2)], &map);
    assert_eq!(got, vec![oid(101), oid(2)]);
}

#[test]
fn remap_empty_parents_is_empty() {
    let map: HashMap<ObjectId, ObjectId> = HashMap::new();
    assert!(remap_parents(&[], &map).is_empty());
}

#[test]
fn remap_keeps_order_and_duplicates() {
    let mut map = HashMap::new();
    map.insert(7u64, 70u64);
    assert_eq!(remap_parents(&[7, 8, 7], &map), vec![70, 8, 70]);
}

fn commits(n: usize) -> Vec<EditableCommit> {
    (0..n)
        .map(|i| {
            let s = parse_in_offset("2024-01-01 01:00", 0).unwrap();
            EditableCommit::new(Commit {
                id: format!("{i:040x}"),
                short_id: format!("{i:07}"),
                summary: format!("c{i}"),
                author: s,
                committer: s,
            })
        })
        .collect()
}

#[test]
fn rewriting_starts_at_the_first_change() {
    let mut cs = commits(3);
    assert_eq!(first_changed(&cs), None);
    bump(&mut cs, 2, Target::Both, Component::Minute, 1, false);
    assert_eq!(first_changed(&cs), Some(2));
    bump(&mut cs, 1, Target::Author, Component::Day, 1, false);
    assert_eq!(first_changed(&cs), Some(1));
    assert_eq!(first_changed(&[]), None);
}

#[test]
fn signature_outcomes() {
    assert_eq!(signature_outcome(false, true), TagSig::Unsigned);
    assert_eq!(signature_outcome(false, false), TagSig::Unsigned);
    assert_eq!(signature_outcome(true, true), TagSig::Resigned);
    assert_eq!(signature_outcome(true, false), TagSig::Dropped);
}

use git_redate::error::RedateError;
use git_redate::rewrite::{
    drop_signature_header, message_for_signing, require_tip_is_head, strip_embedded_signature,
    tag_moves,
};

#[test]
fn tip_must_be_head() {
    assert_eq!(require_tip_is_head(oid(1), oid(1)), Ok(()));
    assert_eq!(require_tip_is_head(oid(1), oid(2)), Err(RedateError::TipNotHead));
}

#[test]
fn tags_move_from_the_first_change_on() {
    assert!(!tag_moves(0, None));
    assert!(!tag_moves(0, Some(1)));
    assert!(tag_moves(1, Some(1)));
    assert!(tag_moves(4, Some(1)));
}

#[test]
fn signature_header_is_dropped_in_place() {
    let h = |k: &str, v: &str| (k.as_bytes().to_vec(), v.as_bytes().to_vec());
    let (kept, signed) = drop_signature_header(vec![h("mergetag", "x"), h("gpgsig", "SIG"), h("other", "y")]);
    assert!(signed);
    assert_eq!(kept, vec![h("mergetag", "x"), h("other", "y")]);
    let (kept, signed) = drop_signature_header(vec![h("gpgsigx", "z")]);
    assert!(!signed);
    assert_eq!(kept, vec![h("gpgsigx", "z")]);
    assert_eq!(drop_signature_header(Vec::new()), (Vec::new(), false));
}

#[test]
fn embedded_tag_signature_is_cut_off() {
    let (m, found) = strip_embedded_signature(b"a tag\n-----BEGIN SSH SIGNATURE-----\nabc\n");
    assert!(found);
    assert_eq!(m, b"a tag\n".to_vec());
    let (m, found) = strip_embedded_signature(b"plain message\n");
    assert!(!found);
    assert_eq!(m, b"plain message\n".to_vec());
}

#[test]
fn one_final_newline_moves_to_the_payload() {
    assert_eq!(message_for_signing(b"msg\n\n".to_vec()), b"msg\n".to_vec());
    assert_eq!(message_for_signing(b"msg".to_vec()), b"msg".to_vec());
    assert_eq!(message_for_signing(Vec::new()), Vec::<u8>::new());
}
