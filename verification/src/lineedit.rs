//! A tiny readline-style single-line text editor.
//!
//! ratatui owns the event loop, so a full line-editing crate that drives
//! the terminal itself cannot be used inside the TUI. This is a pure,
//! terminal-free buffer with a cursor that the app feeds one [`LineOp`]
//! per key press.
//!
//! The cursor is a byte index that always sits on a `char` boundary, so
//! non-ASCII input is handled correctly: the editor works on characters
//! and reports the byte offset of the character boundary it stands on.

use vstd::prelude::*;
use crate::text::{chars_of, is_whitespace, string_of, white_space};

verus! {

/// The number of bytes of `c` in UTF-8.
pub open spec fn utf8_len(c: char) -> nat {
    let u = c as u32;
    if u < 0x80 {
        1
    } else if u < 0x800 {
        2
    } else if u < 0x10000 {
        3
    } else {
        4
    }
}

/// The number of bytes of `s` in UTF-8.
pub open spec fn byte_len(s: Seq<char>) -> nat
    decreases s.len(),
{
    if s.len() == 0 {
        0
    } else {
        byte_len(s.drop_last()) + utf8_len(s.last())
    }
}

/// Whether `c` is alphanumeric in Unicode's sense (the standard library's
/// `char::is_alphanumeric`: the `Alphabetic` or a `Numeric_Type`
/// property).
pub uninterp spec fn alphanumeric(c: char) -> bool;

/// `char::is_alphanumeric`. Its result is named by [`alphanumeric`]; the
/// Unicode tables behind it are not restated here.
#[verifier::external_body]
fn is_alphanumeric(c: char) -> (b: bool)
    ensures
        b == alphanumeric(c),
{
    c.is_alphanumeric()
}

/// A single line of text plus a cursor position.
#[derive(Debug, PartialEq, Eq)]
pub struct LineEditor {
    text: String,
    /// Byte index, always on a char boundary.
    cursor: usize,
}

/// One editing operation, the vocabulary the input layer maps keys to.
#[derive(Clone, Copy, Debug, PartialEq, Eq)]
pub enum LineOp {
    Insert(char),
    /// Delete the char before the cursor.
    Backspace,
    /// Delete the char at the cursor.
    Delete,
    Left,
    Right,
    WordLeft,
    WordRight,
    Home,
    End,
    /// ctrl-w: delete the word before the cursor.
    KillWordBack,
    /// ctrl-u: delete from the cursor to the start.
    KillToStart,
    /// ctrl-k: delete from the cursor to the end.
    KillToEnd,
}

/// Whether an op can change the text.
pub open spec fn op_mutates(op: LineOp) -> bool {
    match op {
        LineOp::Insert(_) | LineOp::Backspace | LineOp::Delete | LineOp::KillWordBack
        | LineOp::KillToStart | LineOp::KillToEnd => true,
        _ => false,
    }
}

impl LineOp {
    /// Whether this op can change the text (as opposed to only moving the
    /// cursor), so a caller can skip recomputing derived state on moves.
    pub fn mutates(&self) -> (b: bool)
        ensures
            b == op_mutates(*self),
    {
        match self {
            LineOp::Insert(_) | LineOp::Backspace | LineOp::Delete | LineOp::KillWordBack
            | LineOp::KillToStart | LineOp::KillToEnd => true,
            _ => false,
        }
    }
}

/// The character classes that word motion and word deletion skip over.
#[derive(Clone, Copy, PartialEq, Eq, Structural)]
pub enum Class {
    Word,
    NotWord,
    Space,
    NotSpace,
}

/// Whether `c` belongs to class `k`: a word character is alphanumeric,
/// every other character is a separator.
pub open spec fn in_class(k: Class, c: char) -> bool {
    match k {
        Class::Word => alphanumeric(c),
        Class::NotWord => !alphanumeric(c),
        Class::Space => white_space(c),
        Class::NotSpace => !white_space(c),
    }
}

/// Walking left from `i` while the preceding character is in class `k`.
pub open spec fn scan_back(s: Seq<char>, i: int, k: Class) -> int
    decreases i,
{
    if 0 < i <= s.len() && in_class(k, s[i - 1]) {
        scan_back(s, i - 1, k)
    } else {
        i
    }
}

/// Walking right from `i` while the current character is in class `k`.
pub open spec fn scan_fwd(s: Seq<char>, i: int, k: Class) -> int
    decreases s.len() - i,
{
    if 0 <= i < s.len() && in_class(k, s[i]) {
        scan_fwd(s, i + 1, k)
    } else {
        i
    }
}

/// `s` with the characters `from..to` replaced by `ins`.
pub open spec fn splice(s: Seq<char>, from: int, to: int, ins: Seq<char>) -> Seq<char> {
    s.subrange(0, from) + ins + s.subrange(to, s.len() as int)
}

/// The text and cursor (as a character index) after applying `op`.
pub open spec fn apply_spec(s: Seq<char>, p: int, op: LineOp) -> (Seq<char>, int) {
    let n = s.len() as int;
    match op {
        LineOp::Insert(c) => (splice(s, p, p, seq![c]), p + 1),
        LineOp::Backspace => if p > 0 {
            (splice(s, p - 1, p, Seq::empty()), p - 1)
        } else {
            (s, p)
        },
        LineOp::Delete => if p < n {
            (splice(s, p, p + 1, Seq::empty()), p)
        } else {
            (s, p)
        },
        LineOp::Left => if p > 0 {
            (s, p - 1)
        } else {
            (s, p)
        },
        LineOp::Right => if p < n {
            (s, p + 1)
        } else {
            (s, p)
        },
        // Skip separators, then the word.
        LineOp::WordLeft => (s, scan_back(s, scan_back(s, p, Class::NotWord), Class::Word)),
        LineOp::WordRight => (s, scan_fwd(s, scan_fwd(s, p, Class::NotWord), Class::Word)),
        LineOp::Home => (s, 0),
        LineOp::End => (s, n),
        // unix-word-rubout: back over white space, then non-white space.
        LineOp::KillWordBack => {
            let start = scan_back(s, scan_back(s, p, Class::Space), Class::NotSpace);
            (splice(s, start, p, Seq::empty()), start)
        },
        LineOp::KillToStart => (splice(s, 0, p, Seq::empty()), 0),
        LineOp::KillToEnd => (s.subrange(0, p), p),
    }
}

proof fn lemma_byte_len_take_step(s: Seq<char>, k: int)
    requires
        0 <= k < s.len(),
    ensures
        byte_len(s.take(k + 1)) == byte_len(s.take(k)) + utf8_len(s[k]),
{
    assert(s.take(k + 1).drop_last() =~= s.take(k));
}

/// Byte offsets of character boundaries grow strictly with the index.
proof fn lemma_byte_len_take_mono(s: Seq<char>, j: int, k: int)
    requires
        0 <= j <= k <= s.len(),
    ensures
        byte_len(s.take(j)) <= byte_len(s.take(k)),
        j < k ==> byte_len(s.take(j)) < byte_len(s.take(k)),
    decreases k - j,
{
    if j < k {
        lemma_byte_len_take_step(s, k - 1);
        lemma_byte_len_take_mono(s, j, k - 1);
    }
}

proof fn lemma_scan_back_bounds(s: Seq<char>, i: int, k: Class)
    requires
        0 <= i <= s.len(),
    ensures
        0 <= scan_back(s, i, k) <= i,
    decreases i,
{
    if 0 < i && in_class(k, s[i - 1]) {
        lemma_scan_back_bounds(s, i - 1, k);
    }
}

proof fn lemma_scan_fwd_bounds(s: Seq<char>, i: int, k: Class)
    requires
        0 <= i <= s.len(),
    ensures
        i <= scan_fwd(s, i, k) <= s.len(),
    decreases s.len() - i,
{
    if i < s.len() && in_class(k, s[i]) {
        lemma_scan_fwd_bounds(s, i + 1, k);
    }
}

/// Whether `c` belongs to class `k`.
fn class_has(k: Class, c: char) -> (b: bool)
    ensures
        b == in_class(k, c),
{
    match k {
        Class::Word => is_alphanumeric(c),
        Class::NotWord => !is_alphanumeric(c),
        Class::Space => is_whitespace(c),
        Class::NotSpace => !is_whitespace(c),
    }
}

/// Walk left from `i` while the preceding char is in class `k`.
fn scan_back_exec(cs: &Vec<char>, i: usize, k: Class) -> (r: usize)
    requires
        i <= cs.len(),
    ensures
        r == scan_back(cs@, i as int, k),
        r <= i,
{
    let mut j = i;
    proof {
        lemma_scan_back_bounds(cs@, i as int, k);
    }
    while j > 0 && class_has(k, cs[j - 1])
        invariant
            j <= i <= cs.len(),
            scan_back(cs@, i as int, k) == scan_back(cs@, j as int, k),
        decreases j,
    {
        j = j - 1;
    }
    j
}

/// Walk right from `i` while the current char is in class `k`.
fn scan_fwd_exec(cs: &Vec<char>, i: usize, k: Class) -> (r: usize)
    requires
        i <= cs.len(),
    ensures
        r == scan_fwd(cs@, i as int, k),
        i <= r <= cs.len(),
{
    let mut j = i;
    while j < cs.len() && class_has(k, cs[j])
        invariant
            i <= j <= cs.len(),
            scan_fwd(cs@, i as int, k) == scan_fwd(cs@, j as int, k),
        decreases cs.len() - j,
    {
        j = j + 1;
    }
    j
}

/// The number of UTF-8 bytes of `c`.
fn char_len(c: char) -> (n: usize)
    ensures
        n == utf8_len(c),
{
    let u = c as u32;
    if u < 0x80 {
        1
    } else if u < 0x800 {
        2
    } else if u < 0x10000 {
        3
    } else {
        4
    }
}

/// The byte offset of character `p` of `cs`.
fn byte_offset(cs: &Vec<char>, p: usize) -> (r: usize)
    requires
        p <= cs.len(),
        byte_len(cs@) <= isize::MAX,
    ensures
        r == byte_len(cs@.take(p as int)),
{
    let mut b: usize = 0;
    let mut k: usize = 0;
    assert(cs@.take(0) =~= Seq::<char>::empty());
    while k < p
        invariant
            k <= p <= cs.len(),
            byte_len(cs@) <= isize::MAX,
            b == byte_len(cs@.take(k as int)),
        decreases p - k,
    {
        proof {
            lemma_byte_len_take_step(cs@, k as int);
            lemma_byte_len_take_mono(cs@, k + 1, cs@.len() as int);
            assert(cs@.take(cs@.len() as int) =~= cs@);
        }
        b = b + char_len(cs[k]);
        k = k + 1;
    }
    b
}

/// The characters `cs[..from] + ins + cs[to..]`.
fn splice_exec(cs: &Vec<char>, from: usize, to: usize, ins: Option<char>) -> (r: Vec<char>)
    requires
        from <= to <= cs.len(),
    ensures
        r@ == splice(cs@, from as int, to as int, match ins {
            Some(c) => seq![c],
            None => Seq::empty(),
        }),
{
    let mut r: Vec<char> = Vec::new();
    let mut k: usize = 0;
    while k < from
        invariant
            k <= from <= to <= cs.len(),
            r@ == cs@.subrange(0, k as int),
        decreases from - k,
    {
        r.push(cs[k]);
        k = k + 1;
        assert(r@ =~= cs@.subrange(0, k as int));
    }
    let ghost mid = r@;
    match ins {
        Some(c) => r.push(c),
        None => {},
    }
    let ghost head = r@;
    let mut k: usize = to;
    while k < cs.len()
        invariant
            to <= k <= cs.len(),
            r@ == head + cs@.subrange(to as int, k as int),
        decreases cs.len() - k,
    {
        r.push(cs[k]);
        k = k + 1;
        assert(r@ =~= head + cs@.subrange(to as int, k as int));
    }
    assert(r@ =~= splice(cs@, from as int, to as int, match ins {
        Some(c) => seq![c],
        None => Seq::empty(),
    }));
    r
}

/// Whether `s` fits the editor's byte budget (what a `String` can hold).
pub open spec fn fits(s: Seq<char>) -> bool {
    byte_len(s) <= isize::MAX
}

impl LineEditor {
    /// The cursor stands on a character boundary of a text a `String` can
    /// hold.
    #[verifier::type_invariant]
    spec fn boundary(self) -> bool {
        &&& fits(self.text@)
        &&& exists|k: int|
            0 <= k <= self.text@.len() && #[trigger] byte_len(self.text@.take(k)) == self.cursor
    }

    /// The character index of the cursor.
    pub closed spec fn pos(self) -> int {
        choose|k: int| 0 <= k <= self.text@.len() && #[trigger] byte_len(self.text@.take(k)) == self.cursor
    }

    /// The text.
    pub closed spec fn chars(self) -> Seq<char> {
        self.text@
    }

    pub fn text(&self) -> (r: &str)
        ensures
            r@ == self.chars(),
            0 <= self.pos() <= self.chars().len(),
            fits(self.chars()),
    {
        proof {
            use_type_invariant(self);
        }
        self.text.as_str()
    }

    /// The cursor's byte index.
    pub fn cursor(&self) -> (r: usize)
        ensures
            r == byte_len(self.chars().take(self.pos())),
    {
        proof {
            use_type_invariant(self);
        }
        self.cursor
    }

    pub fn is_empty(&self) -> (b: bool)
        ensures
            b == (self.chars().len() == 0),
    {
        self.text.as_str().is_empty()
    }

    /// The character index of the cursor, computed from the byte index.
    fn char_pos(&self, cs: &Vec<char>) -> (p: usize)
        requires
            cs@ == self.chars(),
        ensures
            p == self.pos(),
            p <= cs.len(),
    {
        proof {
            use_type_invariant(self);
        }
        let ghost k0 = self.pos();
        let mut b: usize = 0;
        let mut k: usize = 0;
        assert(cs@.take(0) =~= Seq::<char>::empty());
        while b < self.cursor
            invariant
                cs@ == self.chars(),
                0 <= k0 <= cs.len(),
                byte_len(cs@.take(k0)) == self.cursor,
                k <= k0,
                b == byte_len(cs@.take(k as int)),
            decreases k0 - k,
        {
            proof {
                if k == k0 {
                    assert(false);
                }
                lemma_byte_len_take_step(cs@, k as int);
                lemma_byte_len_take_mono(cs@, k + 1, k0);
            }
            b = b + char_len(cs[k]);
            k = k + 1;
        }
        proof {
            if k < k0 {
                lemma_byte_len_take_mono(cs@, k as int, k0);
            }
        }
        k
    }

    /// Apply one editing operation.
    pub fn apply(&mut self, op: LineOp)
        requires
            op is Insert ==> fits(apply_spec(old(self).chars(), old(self).pos(), op).0),
        ensures
            (final(self).chars(), final(self).pos()) == apply_spec(old(self).chars(), old(self).pos(), op),
    {
        proof {
            use_type_invariant(&*self);
            lemma_pos_of(self.text@, self.pos());
            lemma_only_insert_grows(self.text@, self.pos(), op);
        }
        let cs = chars_of(self.text.as_str());
        let p = self.char_pos(&cs);
        let n = cs.len();
        proof {
            lemma_byte_len_ge_len(cs@);
        }
        let (ncs, np): (Vec<char>, usize) = match op {
            LineOp::Insert(c) => (splice_exec(&cs, p, p, Some(c)), p + 1),
            LineOp::Backspace => if p > 0 {
                (splice_exec(&cs, p - 1, p, None), p - 1)
            } else {
                (cs, p)
            },
            LineOp::Delete => if p < n {
                (splice_exec(&cs, p, p + 1, None), p)
            } else {
                (cs, p)
            },
            LineOp::Left => if p > 0 {
                (cs, p - 1)
            } else {
                (cs, p)
            },
            LineOp::Right => if p < n {
                (cs, p + 1)
            } else {
                (cs, p)
            },
            LineOp::WordLeft => {
                // Skip separators, then the word.
                let i = scan_back_exec(&cs, p, Class::NotWord);
                let j = scan_back_exec(&cs, i, Class::Word);
                (cs, j)
            },
            LineOp::WordRight => {
                // Skip separators, then the word.
                let i = scan_fwd_exec(&cs, p, Class::NotWord);
                let j = scan_fwd_exec(&cs, i, Class::Word);
                (cs, j)
            },
            LineOp::Home => (cs, 0),
            LineOp::End => (cs, n),
            LineOp::KillWordBack => {
                // unix-word-rubout: back over whitespace, then non-whitespace.
                let i = scan_back_exec(&cs, p, Class::Space);
                let start = scan_back_exec(&cs, i, Class::NotSpace);
                (splice_exec(&cs, start, p, None), start)
            },
            LineOp::KillToStart => (splice_exec(&cs, 0, p, None), 0),
            LineOp::KillToEnd => (splice_exec(&cs, p, n, None), p),
        };
        proof {
            assert(ncs@ == apply_spec(cs@, p as int, op).0) by {
                if op == LineOp::KillToEnd {
                    assert(splice(cs@, p as int, n as int, Seq::empty()) =~= cs@.subrange(0, p as int));
                }
            }
        }
        assert(np <= ncs.len());
        let text = string_of(&ncs);
        let cursor = byte_offset(&ncs, np);
        proof {
            lemma_pos_of(ncs@, np as int);
            assert(0 <= np <= text@.len() && byte_len(text@.take(np as int)) == cursor);
            assert(cs@ == old(self).chars());
            assert(p == old(self).pos());
            assert(fits(text@));
            let ghost g = LineEditor { text: text, cursor: cursor };
            assert(byte_len(g.text@.take(np as int)) == g.cursor);
        }
        *self = LineEditor { text, cursor };
    }
}

impl Clone for LineEditor {
    fn clone(&self) -> (r: Self)
        ensures
            r.chars() == self.chars(),
            r.pos() == self.pos(),
    {
        proof {
            use_type_invariant(self);
        }
        LineEditor { text: self.text.clone(), cursor: self.cursor }
    }
}

impl Default for LineEditor {
    fn default() -> (r: Self)
        ensures
            r.chars() == Seq::<char>::empty(),
            r.pos() == 0,
    {
        let text = String::new();
        proof {
            assert(text@.take(0) =~= Seq::<char>::empty());
            assert(byte_len(text@.take(0)) == 0);
            assert(byte_len(text@) == 0);
            let ghost g = LineEditor { text: text, cursor: 0 };
            assert(byte_len(g.text@.take(0)) == 0);
        }
        LineEditor { text, cursor: 0 }
    }
}

proof fn lemma_byte_len_ge_len(s: Seq<char>)
    ensures
        byte_len(s) >= s.len(),
    decreases s.len(),
{
    if s.len() > 0 {
        lemma_byte_len_ge_len(s.drop_last());
    }
}

proof fn lemma_pos_of(s: Seq<char>, p: int)
    requires
        0 <= p <= s.len(),
    ensures
        forall|k: int|
            0 <= k <= s.len() && byte_len(s.take(k)) == byte_len(s.take(p)) ==> k == p,
{
    assert forall|k: int| 0 <= k <= s.len() && byte_len(s.take(k)) == byte_len(s.take(p)) implies k
        == p by {
        if k < p {
            lemma_byte_len_take_mono(s, k, p);
        } else if p < k {
            lemma_byte_len_take_mono(s, p, k);
        }
    }
}

/// Every operation keeps the cursor within the text.
pub proof fn lemma_apply_keeps_cursor_in_text(s: Seq<char>, p: int, op: LineOp)
    requires
        0 <= p <= s.len(),
    ensures
        0 <= apply_spec(s, p, op).1 <= apply_spec(s, p, op).0.len(),
{
    match op {
        LineOp::WordLeft => {
            lemma_scan_back_bounds(s, p, Class::NotWord);
            lemma_scan_back_bounds(s, scan_back(s, p, Class::NotWord), Class::Word);
        },
        LineOp::WordRight => {
            lemma_scan_fwd_bounds(s, p, Class::NotWord);
            lemma_scan_fwd_bounds(s, scan_fwd(s, p, Class::NotWord), Class::Word);
        },
        LineOp::KillWordBack => {
            lemma_scan_back_bounds(s, p, Class::Space);
            lemma_scan_back_bounds(s, scan_back(s, p, Class::Space), Class::NotSpace);
        },
        _ => {},
    }
}

/// The bytes of two texts put together are the bytes of each.
proof fn lemma_byte_len_concat(a: Seq<char>, b: Seq<char>)
    ensures
        byte_len(a + b) == byte_len(a) + byte_len(b),
    decreases b.len(),
{
    if b.len() > 0 {
        lemma_byte_len_concat(a, b.drop_last());
        assert((a + b).drop_last() =~= a + b.drop_last());
    } else {
        assert(a + b =~= a);
    }
}

/// Cutting the characters from `from` to `to` out of a text leaves no
/// more bytes than it had.
proof fn lemma_cut_shrinks(s: Seq<char>, from: int, to: int)
    requires
        0 <= from <= to <= s.len(),
    ensures
        byte_len(splice(s, from, to, Seq::empty())) <= byte_len(s),
{
    let a = s.subrange(0, from);
    let m = s.subrange(from, to);
    let b = s.subrange(to, s.len() as int);
    assert(splice(s, from, to, Seq::empty()) =~= a + b);
    assert(s =~= (a + m) + b);
    lemma_byte_len_concat(a, b);
    lemma_byte_len_concat(a + m, b);
    lemma_byte_len_concat(a, m);
}

/// Only typing grows the text: inserting `c` adds its UTF-8 bytes, and
/// every other operation leaves a text of no more bytes. So the room a
/// `String` must have for [`LineEditor::apply`] is needed only to insert.
pub proof fn lemma_only_insert_grows(s: Seq<char>, p: int, op: LineOp)
    requires
        0 <= p <= s.len(),
    ensures
        op matches LineOp::Insert(c) ==> byte_len(apply_spec(s, p, op).0) == byte_len(s) + utf8_len(c),
        !(op is Insert) ==> byte_len(apply_spec(s, p, op).0) <= byte_len(s),
{
    let n = s.len() as int;
    match op {
        LineOp::Insert(c) => {
            let a = s.subrange(0, p);
            let b = s.subrange(p, n);
            assert(s =~= a + b);
            lemma_byte_len_concat(a, b);
            lemma_byte_len_concat(a + seq![c], b);
            lemma_byte_len_concat(a, seq![c]);
            let one = seq![c];
            assert(one.drop_last() =~= Seq::<char>::empty());
            assert(one.last() == c);
            assert(byte_len(Seq::<char>::empty()) == 0);
            assert(byte_len(one) == byte_len(one.drop_last()) + utf8_len(one.last()));
            assert(byte_len(one) == utf8_len(c));
        },
        LineOp::Backspace => if p > 0 {
            lemma_cut_shrinks(s, p - 1, p);
        },
        LineOp::Delete => if p < n {
            lemma_cut_shrinks(s, p, p + 1);
        },
        LineOp::KillWordBack => {
            lemma_scan_back_bounds(s, p, Class::Space);
            lemma_scan_back_bounds(s, scan_back(s, p, Class::Space), Class::NotSpace);
            let start = scan_back(s, scan_back(s, p, Class::Space), Class::NotSpace);
            lemma_cut_shrinks(s, start, p);
        },
        LineOp::KillToStart => lemma_cut_shrinks(s, 0, p),
        LineOp::KillToEnd => {
            lemma_cut_shrinks(s, p, n);
            assert(splice(s, p, n, Seq::empty()) =~= s.subrange(0, p));
        },
        _ => {},
    }
}

/// Operations that do not mutate (cursor motion) leave the text as it is.
pub proof fn lemma_motion_keeps_text(s: Seq<char>, p: int, op: LineOp)
    requires
        !op_mutates(op),
    ensures
        apply_spec(s, p, op).0 == s,
{
}

/// Typing a character and deleting it with backspace restores both the
/// text and the cursor.
pub proof fn lemma_insert_then_backspace(s: Seq<char>, p: int, c: char)
    requires
        0 <= p <= s.len(),
    ensures
        ({
            let (t, q) = apply_spec(s, p, LineOp::Insert(c));
            apply_spec(t, q, LineOp::Backspace) == (s, p)
        }),
{
    let (t, q) = apply_spec(s, p, LineOp::Insert(c));
    assert(splice(t, q - 1, q, Seq::empty()) =~= s);
}

/// Killing to the start and to the end split the text at the cursor.
pub proof fn lemma_kills_split_at_cursor(s: Seq<char>, p: int)
    requires
        0 <= p <= s.len(),
    ensures
        apply_spec(s, p, LineOp::KillToStart).0 == s.subrange(p, s.len() as int),
        apply_spec(s, p, LineOp::KillToEnd).0 + apply_spec(s, p, LineOp::KillToStart).0 == s,
{
    assert(splice(s, 0, p, Seq::empty()) =~= s.subrange(p, s.len() as int));
    assert(s.subrange(0, p) + s.subrange(p, s.len() as int) =~= s);
}

} // verus!
