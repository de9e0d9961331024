//! Rewriting helpers: the decisions of rebuilding the edited commits.
//!
//! Rewriting is done oldest-first over the range. Only commits from the
//! first *changed* one onward are rebuilt: earlier commits keep their
//! object ids, and every commit at or after the first change is rebuilt
//! so its parent link points at the rewritten ancestor. Writing the
//! objects and moving the refs happens outside the library.

use vstd::prelude::*;
use std::collections::HashMap;
use std::hash::Hash;
use vstd::std_specs::hash::obeys_key_model;
use crate::error::RedateError;
use crate::model::{some_changed, EditableCommit};
use crate::sign::{ascii_bytes, bytes_of, embedded_signature, signature_block_at};
use vstd::laws_eq::obeys_concrete_eq;
use vstd::std_specs::cmp::PartialEqSpec;

verus! {

/// What happened to a moved tag's signature.
#[derive(Debug, Clone, Copy, PartialEq, Eq, Structural)]
pub enum TagSig {
    /// The tag had no signature (or is lightweight).
    Unsigned,
    /// Originally signed; re-signed for the new target.
    Resigned,
    /// Originally signed; signature dropped (`--no-sign`).
    Dropped,
}

/// What becomes of the signature of a rebuilt commit or tag: an object
/// that had none stays unsigned; a signed one is re-signed when a signer
/// is configured and loses its signature otherwise (`--no-sign`).
pub fn signature_outcome(had_signature: bool, signing: bool) -> (t: TagSig)
    ensures
        !had_signature ==> t == TagSig::Unsigned,
        had_signature && signing ==> t == TagSig::Resigned,
        had_signature && !signing ==> t == TagSig::Dropped,
{
    if !had_signature {
        TagSig::Unsigned
    } else if signing {
        TagSig::Resigned
    } else {
        TagSig::Dropped
    }
}

/// The index of the first commit with edits: rewriting starts there,
/// and nothing is rewritten when there is none.
pub fn first_changed(commits: &[EditableCommit]) -> (r: Option<usize>)
    ensures
        (r matches Some(i) ==> i < commits@.len() && commits@[i as int].is_changed()),
        (r matches Some(i) ==> forall|j: int| 0 <= j < i ==> !(#[trigger] commits@[j]).is_changed()),
        r is None <==> !some_changed(commits@),
{
    let mut j: usize = 0;
    while j < commits.len()
        invariant
            j <= commits@.len(),
            forall|k: int| 0 <= k < j ==> !(#[trigger] commits@[k]).is_changed(),
        decreases commits@.len() - j,
    {
        if commits[j].changed() {
            return Some(j);
        }
        j = j + 1;
    }
    None
}

/// The parent `p` after the rewrite: its new id when it was rewritten.
pub open spec fn remapped<Id>(map: Map<Id, Id>, p: Id) -> Id {
    if map.contains_key(p) {
        map[p]
    } else {
        p
    }
}

/// Replace each parent that was rewritten (present in `map`) with its
/// new id; leave the rest unchanged.
pub fn remap_parents<Id: Copy + Eq + Hash>(parents: &[Id], map: &HashMap<Id, Id>) -> (r: Vec<Id>)
    requires
        obeys_key_model::<Id>(),
    ensures
        r@.len() == parents@.len(),
        forall|k: int| 0 <= k < parents@.len() ==> r@[k] == remapped(map@, #[trigger] parents@[k]),
{
    let mut r: Vec<Id> = Vec::new();
    let mut k: usize = 0;
    while k < parents.len()
        invariant
            obeys_key_model::<Id>(),
            k <= parents@.len(),
            r@.len() == k,
            forall|j: int| 0 <= j < k ==> r@[j] == remapped(map@, #[trigger] parents@[j]),
        decreases parents@.len() - k,
    {
        let p = parents[k];
        let q = match map.get(&p) {
            Some(n) => *n,
            None => p,
        };
        r.push(q);
        k = k + 1;
    }
    r
}

/// A rewrite must end at the checked-out tip: the range's tip must be
/// HEAD's commit.
pub fn require_tip_is_head<Id: Eq>(tip: Id, head: Id) -> (r: Result<(), RedateError>)
    requires
        obeys_concrete_eq::<Id>(),
    ensures
        r is Ok <==> tip == head,
        r is Err ==> r == Err::<(), RedateError>(RedateError::TipNotHead),
{
    proof {
        reveal(obeys_concrete_eq);
    }
    if tip == head {
        Ok(())
    } else {
        Err(RedateError::TipNotHead)
    }
}

/// A tag moves with the rewrite when its commit (at `commit_index`,
/// oldest first) is rewritten: when it is at or after the first change.
pub fn tag_moves(commit_index: usize, first_change: Option<usize>) -> (b: bool)
    ensures
        b == (first_change is Some && commit_index >= first_change->0),
{
    match first_change {
        Some(f) => commit_index >= f,
        None => false,
    }
}

/// The key of the header that holds a commit's signature.
pub open spec fn signature_key() -> Seq<u8> {
    ascii_bytes("gpgsig"@)
}

/// The abstract value of an extra header: its key and value.
pub open spec fn header_view(h: (Vec<u8>, Vec<u8>)) -> (Seq<u8>, Seq<u8>) {
    (h.0@, h.1@)
}

/// The abstract values of extra headers.
pub open spec fn headers_view(hs: Seq<(Vec<u8>, Vec<u8>)>) -> Seq<(Seq<u8>, Seq<u8>)> {
    hs.map_values(|h: (Vec<u8>, Vec<u8>)| header_view(h))
}

/// The extra headers a rebuilt commit keeps, in order: all but the
/// signature header, which the date change invalidates.
pub open spec fn unsigned_headers(hs: Seq<(Seq<u8>, Seq<u8>)>) -> Seq<(Seq<u8>, Seq<u8>)>
    decreases hs.len(),
{
    if hs.len() == 0 {
        Seq::empty()
    } else {
        let rest = unsigned_headers(hs.drop_last());
        if hs.last().0 == signature_key() {
            rest
        } else {
            rest.push(hs.last())
        }
    }
}

/// Whether one of the headers is the signature header.
pub open spec fn has_signature_header(hs: Seq<(Seq<u8>, Seq<u8>)>) -> bool {
    exists|j: int| 0 <= j < hs.len() && (#[trigger] hs[j]).0 == signature_key()
}

/// Whether two byte vectors are equal.
fn eq_bytes(a: &Vec<u8>, b: &Vec<u8>) -> (r: bool)
    ensures
        r == (a@ == b@),
{
    if a.len() != b.len() {
        return false;
    }
    let mut k: usize = 0;
    while k < a.len()
        invariant
            a.len() == b.len(),
            k <= a.len(),
            forall|j: int| 0 <= j < k ==> a@[j] == b@[j],
        decreases a.len() - k,
    {
        if a[k] != b[k] {
            return false;
        }
        k = k + 1;
    }
    assert(a@ =~= b@);
    true
}

/// Split a commit's extra headers into those its rebuilt commit keeps
/// (all but the signature header, in order) and whether it was signed.
pub fn drop_signature_header(headers: Vec<(Vec<u8>, Vec<u8>)>) -> (r: (Vec<(Vec<u8>, Vec<u8>)>, bool))
    ensures
        headers_view(r.0@) == unsigned_headers(headers_view(headers@)),
        r.1 == has_signature_header(headers_view(headers@)),
{
    let key = bytes_of("gpgsig");
    let ghost hs = headers_view(headers@);
    let n = headers.len();
    let mut rest = headers;
    let mut kept: Vec<(Vec<u8>, Vec<u8>)> = Vec::new();
    let mut signed = false;
    let mut k: usize = 0;
    while rest.len() > 0
        invariant
            key@ == signature_key(),
            hs.len() == n,
            k + rest@.len() == n,
            headers_view(rest@) == hs.skip(k as int),
            headers_view(kept@) == unsigned_headers(hs.take(k as int)),
            signed == has_signature_header(hs.take(k as int)),
        decreases rest@.len(),
    {
        let ghost before = rest@;
        let h = rest.remove(0);
        assert(header_view(h) == hs[k as int]) by {
            assert(hs.skip(k as int)[0] == headers_view(before)[0]);
        }
        assert forall|i: int| 0 <= i < rest@.len() implies headers_view(rest@)[i] == hs.skip(k + 1)[i] by {
            assert(rest@[i] == before[i + 1]);
            assert(headers_view(before)[i + 1] == hs.skip(k as int)[i + 1]);
        }
        assert(headers_view(rest@) =~= hs.skip(k + 1));
        let ghost t = hs.take(k + 1);
        assert(t.drop_last() =~= hs.take(k as int));
        assert(t.last() == hs[k as int]);
        if eq_bytes(&h.0, &key) {
            signed = true;
            assert(has_signature_header(t)) by {
                assert(t[k as int].0 == signature_key());
            }
        } else {
            let ghost old_kept = kept@;
            kept.push(h);
            assert(headers_view(kept@) =~= headers_view(old_kept).push(header_view(h)));
            assert(has_signature_header(t) == has_signature_header(hs.take(k as int))) by {
                if has_signature_header(t) {
                    let j = choose|j: int| 0 <= j < t.len() && (#[trigger] t[j]).0 == signature_key();
                    assert(j < k);
                    assert(hs.take(k as int)[j] == t[j]);
                }
                if has_signature_header(hs.take(k as int)) {
                    let j = choose|j: int| 0 <= j < k && (#[trigger] hs.take(k as int)[j]).0 == signature_key();
                    assert(t[j] == hs.take(k as int)[j]);
                }
            }
        }
        k = k + 1;
    }
    assert(hs.take(n as int) =~= hs);
    (kept, signed)
}

/// A tag message without a signature block embedded in it (cut where
/// the first block begins), and whether there was one. The newline that
/// ended the message itself is kept.
pub fn strip_embedded_signature(message: &[u8]) -> (r: (Vec<u8>, bool))
    ensures
        r.1 == exists|j: int| 0 <= j <= message@.len() && signature_block_at(message@, j),
        r.1 ==> (exists|j: int|
            0 <= j <= message@.len() && signature_block_at(message@, j) && r.0@ == message@.take(j) && forall|
                i: int,
            |
                0 <= i < j ==> !signature_block_at(message@, i)),
        !r.1 ==> r.0@ == message@,
{
    let (cut, found) = match embedded_signature(message) {
        Some(p) => (p, true),
        None => (message.len(), false),
    };
    let mut out: Vec<u8> = Vec::new();
    let mut k: usize = 0;
    while k < cut
        invariant
            cut <= message@.len(),
            k <= cut,
            out@ == message@.take(k as int),
        decreases cut - k,
    {
        out.push(message[k]);
        k = k + 1;
        assert(out@ =~= message@.take(k as int));
    }
    if !found {
        assert(message@.take(cut as int) =~= message@);
    }
    (out, found)
}

/// The message of a tag about to be signed: git signs the bytes before
/// the signature, the newline that ends the message included, and that
/// newline is written with the signature; so one final newline comes
/// off the message and goes onto the signed bytes.
pub fn message_for_signing(message: Vec<u8>) -> (r: Vec<u8>)
    ensures
        message@.len() > 0 && message@.last() == 10u8 ==> r@ == message@.drop_last(),
        !(message@.len() > 0 && message@.last() == 10u8) ==> r@ == message@,
{
    let mut m = message;
    if m.len() > 0 && m[m.len() - 1] == 10u8 {
        m.pop();
    }
    m
}

} // verus!
