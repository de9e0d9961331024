//! Small string and character helpers shared by the other modules.

use vstd::prelude::*;

verus! {

/// The characters of the decimal digit `d` (`0 <= d < 10`).
pub open spec fn digit_char(d: int) -> char {
    if d == 0 { '0' }
    else if d == 1 { '1' }
    else if d == 2 { '2' }
    else if d == 3 { '3' }
    else if d == 4 { '4' }
    else if d == 5 { '5' }
    else if d == 6 { '6' }
    else if d == 7 { '7' }
    else if d == 8 { '8' }
    else { '9' }
}

/// The shortest decimal spelling of `n`.
pub open spec fn decimal(n: nat) -> Seq<char>
    decreases n,
{
    if n < 10 {
        seq![digit_char(n as int)]
    } else {
        decimal(n / 10).push(digit_char((n % 10) as int))
    }
}

/// `s` left-padded with `'0'` up to `width` characters.
pub open spec fn zero_pad(s: Seq<char>, width: nat) -> Seq<char> {
    if s.len() >= width {
        s
    } else {
        Seq::new((width - s.len()) as nat, |i: int| '0') + s
    }
}

/// `String::push`: appends one character.
#[verifier::external_body]
pub fn push_char(s: &mut String, c: char)
    ensures
        final(s)@ == old(s)@.push(c),
{
    s.push(c);
}

/// `String::pop`: removes and returns the last character, if any.
#[verifier::external_body]
pub fn pop_char(s: &mut String) -> (r: Option<char>)
    ensures
        old(s)@.len() == 0 ==> r.is_none() && final(s)@ == old(s)@,
        old(s)@.len() > 0 ==> r == Some(old(s)@.last()) && final(s)@ == old(s)@.drop_last(),
{
    s.pop()
}

fn digit(d: u64) -> (c: char)
    requires
        d < 10,
    ensures
        c == digit_char(d as int),
{
    match d {
        0 => '0',
        1 => '1',
        2 => '2',
        3 => '3',
        4 => '4',
        5 => '5',
        6 => '6',
        7 => '7',
        8 => '8',
        _ => '9',
    }
}

/// The decimal digits of `n`.
pub fn decimal_chars(n: u64) -> (r: Vec<char>)
    ensures
        r@ == decimal(n as nat),
    decreases n,
{
    if n < 10 {
        let mut r = Vec::new();
        r.push(digit(n));
        r
    } else {
        let mut r = decimal_chars(n / 10);
        r.push(digit(n % 10));
        r
    }
}

/// Appends `n` in decimal, left-padded with zeros to `width` characters.
pub fn push_padded(out: &mut String, n: u64, width: usize)
    ensures
        final(out)@ == old(out)@ + zero_pad(decimal(n as nat), width as nat),
{
    let ds = decimal_chars(n);
    let ghost start = out@;
    let mut k: usize = ds.len();
    while k < width
        invariant
            ds@ == decimal(n as nat),
            ds.len() <= k <= width || (k == ds.len() && k >= width),
            out@ == start + Seq::new((k - ds.len()) as nat, |i: int| '0'),
        decreases width - k,
    {
        push_char(out, '0');
        k = k + 1;
        assert(out@ =~= start + Seq::new((k - ds.len()) as nat, |i: int| '0'));
    }
    let ghost mid = out@;
    let mut j: usize = 0;
    while j < ds.len()
        invariant
            j <= ds.len(),
            out@ == mid + ds@.take(j as int),
        decreases ds.len() - j,
    {
        push_char(out, ds[j]);
        j = j + 1;
        assert(out@ =~= mid + ds@.take(j as int));
    }
    assert(ds@.take(ds.len() as int) =~= ds@);
    assert(out@ =~= old(out)@ + zero_pad(decimal(n as nat), width as nat));
}

/// The characters of `s`.
pub fn chars_of(s: &str) -> (r: Vec<char>)
    ensures
        r@ == s@,
{
    let n = s.unicode_len();
    let mut r: Vec<char> = Vec::new();
    let mut i: usize = 0;
    while i < n
        invariant
            n == s@.len(),
            i <= n,
            r@ == s@.take(i as int),
        decreases n - i,
    {
        r.push(s.get_char(i));
        i = i + 1;
        assert(r@ =~= s@.take(i as int));
    }
    assert(s@.take(n as int) =~= s@);
    r
}

/// A `String` holding `cs`.
pub fn string_of(cs: &Vec<char>) -> (s: String)
    ensures
        s@ == cs@,
{
    let mut s = String::new();
    let mut i: usize = 0;
    while i < cs.len()
        invariant
            i <= cs.len(),
            s@ == cs@.take(i as int),
        decreases cs.len() - i,
    {
        push_char(&mut s, cs[i]);
        i = i + 1;
        assert(s@ =~= cs@.take(i as int));
    }
    assert(cs@.take(cs.len() as int) =~= cs@);
    s
}


/// Whether `c` has the Unicode `White_Space` property (the code points
/// listed for it in the Unicode Character Database, `PropList.txt`).
pub open spec fn white_space(c: char) -> bool {
    let u = c as u32;
    ||| 0x9 <= u <= 0xD
    ||| u == 0x20
    ||| u == 0x85
    ||| u == 0xA0
    ||| u == 0x1680
    ||| 0x2000 <= u <= 0x200A
    ||| u == 0x2028
    ||| u == 0x2029
    ||| u == 0x202F
    ||| u == 0x205F
    ||| u == 0x3000
}

/// Whether `c` has the Unicode `White_Space` property, as
/// `char::is_whitespace` decides it: the code points of [`white_space`].
pub fn is_whitespace(c: char) -> (b: bool)
    ensures
        b == white_space(c),
{
    let u = c as u32;
    (0x9 <= u && u <= 0xD) || u == 0x20 || u == 0x85 || u == 0xA0 || u == 0x1680 || (0x2000 <= u && u
        <= 0x200A) || u == 0x2028 || u == 0x2029 || u == 0x202F || u == 0x205F || u == 0x3000
}

/// `s` without its leading white space.
pub open spec fn trim_start(s: Seq<char>) -> Seq<char>
    decreases s.len(),
{
    if s.len() > 0 && white_space(s[0]) {
        trim_start(s.drop_first())
    } else {
        s
    }
}

/// `s` without its trailing white space.
pub open spec fn trim_end(s: Seq<char>) -> Seq<char>
    decreases s.len(),
{
    if s.len() > 0 && white_space(s.last()) {
        trim_end(s.drop_last())
    } else {
        s
    }
}

/// `s` without leading and trailing white space, as `str::trim` leaves it.
pub open spec fn trim(s: Seq<char>) -> Seq<char> {
    trim_end(trim_start(s))
}

/// The index of the first character that `trim_start` keeps.
pub fn trim_start_index(cs: &Vec<char>) -> (i: usize)
    ensures
        i <= cs.len(),
        cs@.subrange(i as int, cs.len() as int) == trim_start(cs@),
{
    let n = cs.len();
    let mut i: usize = 0;
    assert(cs@.subrange(0, n as int) =~= cs@);
    while i < n && is_whitespace(cs[i])
        invariant
            n == cs.len(),
            i <= n,
            trim_start(cs@) == trim_start(cs@.subrange(i as int, n as int)),
        decreases n - i,
    {
        assert(cs@.subrange(i as int, n as int).drop_first() =~= cs@.subrange(i + 1, n as int));
        i = i + 1;
    }
    i
}

/// The characters of `cs` that `trim` keeps.
pub fn trim_chars(cs: &Vec<char>) -> (r: Vec<char>)
    ensures
        r@ == trim(cs@),
{
    let n = cs.len();
    let i = trim_start_index(cs);
    let ghost t = cs@.subrange(i as int, n as int);
    let mut j: usize = n;
    assert(t.subrange(0, (n - i) as int) =~= t);
    while j > i && is_whitespace(cs[j - 1])
        invariant
            n == cs.len(),
            i <= j <= n,
            t == cs@.subrange(i as int, n as int),
            trim_end(t) == trim_end(t.subrange(0, (j - i) as int)),
        decreases j,
    {
        assert(t.subrange(0, (j - i) as int).drop_last() =~= t.subrange(0, (j - 1 - i) as int));
        j = j - 1;
    }
    let mut r: Vec<char> = Vec::new();
    let mut k: usize = i;
    while k < j
        invariant
            n == cs.len(),
            i <= k <= j <= n,
            r@ == cs@.subrange(i as int, k as int),
        decreases j - k,
    {
        r.push(cs[k]);
        k = k + 1;
        assert(r@ =~= cs@.subrange(i as int, k as int));
    }
    assert(r@ =~= t.subrange(0, (j - i) as int));
    r
}


/// `i` is the index of the first `c` in `s`.
pub open spec fn is_first(s: Seq<char>, c: char, i: int) -> bool {
    &&& 0 <= i < s.len()
    &&& s[i] == c
    &&& forall|j: int| 0 <= j < i ==> s[j] != c
}

/// `str::split_once` with a `char` pattern: the parts before and after
/// the first `c`, or `None` when `s` holds no `c`.
pub open spec fn split_once(s: Seq<char>, c: char) -> Option<(Seq<char>, Seq<char>)> {
    if exists|i: int| is_first(s, c, i) {
        let i = choose|i: int| is_first(s, c, i);
        Some((s.take(i), s.skip(i + 1)))
    } else {
        None
    }
}

/// `str::split` with a `char` pattern: every piece between occurrences
/// of `c` (at least one piece, possibly empty).
pub open spec fn split_all(s: Seq<char>, c: char) -> Seq<Seq<char>>
    decreases s.len(),
{
    if exists|i: int| is_first(s, c, i) {
        let i = choose|i: int| is_first(s, c, i);
        seq![s.take(i)] + split_all(s.skip(i + 1), c)
    } else {
        seq![s]
    }
}

/// The views of a vector of character vectors.
pub open spec fn views(v: Seq<Vec<char>>) -> Seq<Seq<char>> {
    v.map_values(|x: Vec<char>| x@)
}

/// A first index is unique.
pub proof fn lemma_first_unique(s: Seq<char>, c: char, i: int, j: int)
    requires
        is_first(s, c, i),
        is_first(s, c, j),
    ensures
        i == j,
{
}

/// Splitting `a + [c] + b` when `a` holds no `c`.
pub proof fn lemma_split_once_at(a: Seq<char>, c: char, b: Seq<char>)
    requires
        forall|j: int| 0 <= j < a.len() ==> a[j] != c,
    ensures
        split_once(a + seq![c] + b, c) == Some((a, b)),
        split_all(a + seq![c] + b, c) == seq![a] + split_all(b, c),
{
    let s = a + seq![c] + b;
    assert(is_first(s, c, a.len() as int));
    let i = choose|i: int| is_first(s, c, i);
    lemma_first_unique(s, c, i, a.len() as int);
    assert(s.take(a.len() as int) =~= a);
    assert(s.skip(a.len() + 1int) =~= b);
}

/// A sequence without `c` splits into itself.
pub proof fn lemma_split_none(a: Seq<char>, c: char)
    requires
        forall|j: int| 0 <= j < a.len() ==> a[j] != c,
    ensures
        split_once(a, c) == None::<(Seq<char>, Seq<char>)>,
        split_all(a, c) == seq![a],
{
}

/// `split_once` on a vector of characters.
pub fn split_once_chars(cs: &Vec<char>, c: char) -> (r: Option<(Vec<char>, Vec<char>)>)
    ensures
        r.is_some() == split_once(cs@, c).is_some(),
        r.is_some() ==> r.unwrap().0@ == split_once(cs@, c).unwrap().0 && r.unwrap().1@
            == split_once(cs@, c).unwrap().1,
{
    let n = cs.len();
    let mut i: usize = 0;
    while i < n
        invariant
            n == cs.len(),
            i <= n,
            forall|j: int| 0 <= j < i ==> cs@[j] != c,
        decreases n - i,
    {
        if cs[i] == c {
            let mut a: Vec<char> = Vec::new();
            let mut k: usize = 0;
            while k < i
                invariant
                    n == cs.len(),
                    k <= i < n,
                    a@ == cs@.take(k as int),
                decreases i - k,
            {
                a.push(cs[k]);
                k = k + 1;
                assert(a@ =~= cs@.take(k as int));
            }
            let mut b: Vec<char> = Vec::new();
            let mut k: usize = i + 1;
            while k < n
                invariant
                    n == cs.len(),
                    i < n,
                    i + 1 <= k <= n,
                    b@ == cs@.subrange(i + 1, k as int),
                decreases n - k,
            {
                b.push(cs[k]);
                k = k + 1;
                assert(b@ =~= cs@.subrange(i + 1, k as int));
            }
            proof {
                assert(is_first(cs@, c, i as int));
                let w = choose|w: int| is_first(cs@, c, w);
                lemma_first_unique(cs@, c, w, i as int);
                assert(b@ =~= cs@.skip(i + 1));
            }
            return Some((a, b));
        }
        i = i + 1;
    }
    None
}

/// `split` on a vector of characters.
pub fn split_chars(cs: &Vec<char>, c: char) -> (r: Vec<Vec<char>>)
    ensures
        views(r@) == split_all(cs@, c),
{
    let n = cs.len();
    let mut pieces: Vec<Vec<char>> = Vec::new();
    let mut cur: Vec<char> = Vec::new();
    let mut i: usize = 0;
    assert(cur@ + cs@.skip(0) =~= cs@);
    while i < n
        invariant
            n == cs.len(),
            i <= n,
            forall|j: int| 0 <= j < cur@.len() ==> cur@[j] != c,
            split_all(cs@, c) == views(pieces@) + split_all(cur@ + cs@.skip(i as int), c),
        decreases n - i,
    {
        let x = cs[i];
        if x == c {
            proof {
                assert(cur@ + cs@.skip(i as int) =~= cur@ + seq![c] + cs@.skip(i + 1));
                lemma_split_once_at(cur@, c, cs@.skip(i + 1));
            }
            let ghost old_pieces = pieces@;
            let ghost old_cur = cur@;
            pieces.push(cur);
            cur = Vec::new();
            proof {
                assert(views(pieces@) =~= views(old_pieces) + seq![old_cur]);
                assert(cur@ + cs@.skip(i + 1) =~= cs@.skip(i + 1));
                assert(views(old_pieces) + (seq![old_cur] + split_all(cs@.skip(i + 1), c))
                    =~= views(pieces@) + split_all(cs@.skip(i + 1), c));
            }
        } else {
            let ghost old_cur = cur@;
            cur.push(x);
            assert(cur@ + cs@.skip(i + 1) =~= old_cur + cs@.skip(i as int));
        }
        i = i + 1;
    }
    proof {
        assert(cur@ + cs@.skip(n as int) =~= cur@);
        lemma_split_none(cur@, c);
    }
    let ghost old_pieces = pieces@;
    pieces.push(cur);
    assert(views(pieces@) =~= views(old_pieces) + seq![views(pieces@).last()]);
    pieces
}

/// All characters of `s` are ASCII digits.
pub open spec fn all_digits(s: Seq<char>) -> bool {
    forall|i: int| 0 <= i < s.len() ==> '0' <= #[trigger] s[i] <= '9'
}

/// The value of a string of ASCII digits.
pub open spec fn digits_value(s: Seq<char>) -> int
    decreases s.len(),
{
    if s.len() == 0 {
        0
    } else {
        digits_value(s.drop_last()) * 10 + (s.last() as int - '0' as int)
    }
}

/// What the standard library's `FromStr` for a signed integer type with
/// the range `lo..=hi` gives for `s`: an optional `+` or `-` followed by
/// at least one ASCII digit, with the value in range.
pub open spec fn parse_signed(s: Seq<char>, lo: int, hi: int) -> Option<int> {
    let neg = s.len() > 0 && s[0] == '-';
    let body = if s.len() > 0 && (s[0] == '-' || s[0] == '+') { s.drop_first() } else { s };
    if body.len() == 0 || !all_digits(body) {
        None
    } else {
        let v = if neg { -digits_value(body) } else { digits_value(body) };
        if lo <= v <= hi { Some(v) } else { None }
    }
}

proof fn lemma_digits_grow(s: Seq<char>, k: int)
    requires
        all_digits(s),
        0 <= k <= s.len(),
    ensures
        digits_value(s.take(k)) <= digits_value(s),
        0 <= digits_value(s.take(k)),
    decreases s.len() - k,
{
    if k < s.len() {
        lemma_digits_grow(s, k + 1);
        assert(s.take(k + 1).drop_last() =~= s.take(k));
        assert(s.take(k + 1).last() == s[k]);
    } else {
        assert(s.take(k) =~= s);
        lemma_digits_nonneg(s);
    }
}

proof fn lemma_digits_nonneg(s: Seq<char>)
    requires
        all_digits(s),
    ensures
        0 <= digits_value(s),
    decreases s.len(),
{
    if s.len() > 0 {
        lemma_digits_nonneg(s.drop_last());
    }
}

proof fn lemma_digits_zeros(z: Seq<char>)
    requires
        forall|i: int| 0 <= i < z.len() ==> z[i] == '0',
    ensures
        digits_value(z) == 0,
    decreases z.len(),
{
    if z.len() > 0 {
        lemma_digits_zeros(z.drop_last());
    }
}

proof fn lemma_digits_leading_zeros(z: Seq<char>, s: Seq<char>)
    requires
        forall|i: int| 0 <= i < z.len() ==> z[i] == '0',
    ensures
        digits_value(z + s) == digits_value(s),
    decreases s.len(),
{
    if s.len() == 0 {
        assert(z + s =~= z);
        lemma_digits_zeros(z);
    } else {
        assert((z + s).drop_last() =~= z + s.drop_last());
        lemma_digits_leading_zeros(z, s.drop_last());
    }
}

proof fn lemma_digit_char(k: int)
    requires
        0 <= k < 10,
    ensures
        digit_char(k) as int == '0' as int + k,
        '0' <= digit_char(k) <= '9',
{
    assert('0' as int == 48);
    assert('9' as int == 57);
    if k == 0 { assert(digit_char(k) as int == 48); }
    else if k == 1 { assert('1' as int == 49); }
    else if k == 2 { assert('2' as int == 50); }
    else if k == 3 { assert('3' as int == 51); }
    else if k == 4 { assert('4' as int == 52); }
    else if k == 5 { assert('5' as int == 53); }
    else if k == 6 { assert('6' as int == 54); }
    else if k == 7 { assert('7' as int == 55); }
    else if k == 8 { assert('8' as int == 56); }
    else { assert(digit_char(k) as int == 57); }
}

/// The decimal spelling of `n` is a non-empty string of digits worth `n`.
pub proof fn lemma_decimal(n: nat)
    ensures
        decimal(n).len() >= 1,
        all_digits(decimal(n)),
        digits_value(decimal(n)) == n,
    decreases n,
{
    if n >= 10 {
        lemma_decimal(n / 10);
        lemma_digit_char((n % 10) as int);
        assert(decimal(n).drop_last() =~= decimal(n / 10));
        assert(decimal(n).last() == digit_char((n % 10) as int));
        assert(digits_value(decimal(n)) == digits_value(decimal(n / 10)) * 10 + (n % 10));
        assert((n / 10) * 10 + n % 10 == n);
        assert forall|i: int| 0 <= i < decimal(n).len() implies '0' <= #[trigger] decimal(n)[i] <= '9' by {
            if i < decimal(n).len() - 1 {
                assert(decimal(n)[i] == decimal(n / 10)[i]);
            }
        }
    } else {
        lemma_digit_char(n as int);
        assert(seq![digit_char(n as int)].drop_last() =~= Seq::<char>::empty());
        assert(digits_value(decimal(n)) == digits_value(Seq::<char>::empty()) * 10 + n);
    }
}

/// A zero-padded decimal is a non-empty string of digits worth `n`.
pub proof fn lemma_padded(n: nat, width: nat)
    ensures
        zero_pad(decimal(n), width).len() >= 1,
        zero_pad(decimal(n), width).len() >= width,
        all_digits(zero_pad(decimal(n), width)),
        digits_value(zero_pad(decimal(n), width)) == n,
{
    lemma_decimal(n);
    let d = decimal(n);
    if d.len() < width {
        let z = Seq::new((width - d.len()) as nat, |i: int| '0');
        lemma_digits_leading_zeros(z, d);
        assert forall|i: int| 0 <= i < (z + d).len() implies '0' <= #[trigger] (z + d)[i] <= '9' by {
            if i >= z.len() {
                assert((z + d)[i] == d[i - z.len()]);
            }
        }
    }
}

/// A non-empty string of digits parses as its value when that is in range.
pub proof fn lemma_parse_digits(s: Seq<char>, lo: int, hi: int)
    requires
        s.len() >= 1,
        all_digits(s),
        lo <= digits_value(s) <= hi,
    ensures
        parse_signed(s, lo, hi) == Some(digits_value(s)),
{
    assert('0' <= s[0] <= '9');
}

/// A string that starts and ends with a character that is not white
/// space is its own trim.
pub proof fn lemma_trim_noop(s: Seq<char>)
    requires
        s.len() >= 1,
        !white_space(s[0]),
        !white_space(s.last()),
    ensures
        trim(s) == s,
{
}

/// Parses `cs` as `FromStr` does for a signed type with range `lo..=hi`.
pub fn parse_signed_chars(cs: &Vec<char>, lo: i64, hi: i64) -> (r: Option<i64>)
    requires
        -1000000 <= lo <= 0 <= hi <= 1000000,
    ensures
        r.is_some() == parse_signed(cs@, lo as int, hi as int).is_some(),
        r.is_some() ==> r.unwrap() == parse_signed(cs@, lo as int, hi as int).unwrap(),
{
    let n = cs.len();
    let mut start: usize = 0;
    let mut neg = false;
    if n > 0 && (cs[0] == '-' || cs[0] == '+') {
        neg = cs[0] == '-';
        start = 1;
    }
    let ghost body = if n > 0 && (cs@[0] == '-' || cs@[0] == '+') { cs@.drop_first() } else { cs@ };
    assert(body =~= cs@.skip(start as int));
    if start >= n {
        return None;
    }
    let bound: i64 = if neg { -lo } else { hi };
    let mut v: i64 = 0;
    let mut i: usize = start;
    while i < n
        invariant
            n == cs.len(),
            start <= i <= n,
            body == cs@.skip(start as int),
            body == (if cs@.len() > 0 && (cs@[0] == '-' || cs@[0] == '+') { cs@.drop_first() } else { cs@ }),
            neg == (cs@.len() > 0 && cs@[0] == '-'),
            -1000000 <= lo <= 0 <= hi <= 1000000,
            bound == (if neg { -lo } else { hi as int }),
            0 <= bound <= 1000000,
            0 <= v <= bound,
            all_digits(cs@.subrange(start as int, i as int)),
            v == digits_value(cs@.subrange(start as int, i as int)),
        decreases n - i,
    {
        let x = cs[i];
        if !('0' <= x && x <= '9') {
            assert(body[i - start] == x);
            assert(!all_digits(body));
            return None;
        }
        let d: i64 = (x as u32 - '0' as u32) as i64;
        assert(d == x as int - '0' as int);
        proof {
            assert(cs@.subrange(start as int, i + 1).drop_last() =~= cs@.subrange(start as int, i as int));
        }
        let nv = v * 10 + d;
        if nv > bound {
            proof {
                assert(all_digits(cs@.subrange(start as int, i + 1)));
                assert(nv == digits_value(cs@.subrange(start as int, i + 1)));
                if all_digits(body) {
                    assert(body.take(i + 1 - start) =~= cs@.subrange(start as int, i + 1));
                    lemma_digits_grow(body, i + 1 - start);
                    assert(digits_value(body) > bound);
                }
            }
            return None;
        }
        v = nv;
        i = i + 1;
    }
    assert(cs@.subrange(start as int, n as int) =~= body);
    if neg {
        Some(-v)
    } else {
        Some(v)
    }
}

/// `pat` occurs in `s` at index `i`.
pub open spec fn occurs_at(s: Seq<char>, pat: Seq<char>, i: int) -> bool {
    0 <= i && i + pat.len() <= s.len() && s.subrange(i, i + pat.len()) == pat
}

/// `i` is the index of the first occurrence of `pat` in `s`.
pub open spec fn is_first_sub(s: Seq<char>, pat: Seq<char>, i: int) -> bool {
    &&& occurs_at(s, pat, i)
    &&& forall|j: int| 0 <= j < i ==> !occurs_at(s, pat, j)
}

/// `str::contains` with a string pattern.
pub open spec fn contains_sub(s: Seq<char>, pat: Seq<char>) -> bool {
    exists|i: int| occurs_at(s, pat, i)
}

/// `str::split_once` with a string pattern.
pub open spec fn split_once_sub(s: Seq<char>, pat: Seq<char>) -> Option<(Seq<char>, Seq<char>)> {
    if exists|i: int| is_first_sub(s, pat, i) {
        let i = choose|i: int| is_first_sub(s, pat, i);
        Some((s.take(i), s.skip(i + pat.len())))
    } else {
        None
    }
}

/// Whether `pat` occurs at index `i` of `cs`.
fn occurs_at_exec(cs: &Vec<char>, pat: &Vec<char>, i: usize) -> (b: bool)
    requires
        i + pat.len() <= cs.len(),
    ensures
        b == occurs_at(cs@, pat@, i as int),
{
    let mut k: usize = 0;
    while k < pat.len()
        invariant
            i + pat.len() <= cs.len(),
            k <= pat.len(),
            forall|j: int| 0 <= j < k ==> cs@[i + j] == pat@[j],
        decreases pat.len() - k,
    {
        if cs[i + k] != pat[k] {
            assert(cs@.subrange(i as int, i + pat.len())[k as int] != pat@[k as int]);
            return false;
        }
        k = k + 1;
    }
    assert(cs@.subrange(i as int, i + pat.len()) =~= pat@);
    true
}

/// The index of the first occurrence of `pat` in `cs`.
pub fn find_sub(cs: &Vec<char>, pat: &Vec<char>) -> (r: Option<usize>)
    ensures
        r.is_some() ==> is_first_sub(cs@, pat@, r.unwrap() as int),
        r.is_none() ==> !contains_sub(cs@, pat@),
{
    if pat.len() > cs.len() {
        return None;
    }
    let last = cs.len() - pat.len();
    let mut i: usize = 0;
    while i <= last
        invariant
            last + pat.len() == cs.len(),
            forall|j: int| 0 <= j < i ==> !occurs_at(cs@, pat@, j),
        decreases last + 1 - i,
    {
        if occurs_at_exec(cs, pat, i) {
            return Some(i);
        }
        if i == last {
            return None;
        }
        i = i + 1;
    }
    None
}

/// Splitting at the first occurrence found by [`find_sub`].
pub proof fn lemma_split_once_sub(s: Seq<char>, pat: Seq<char>, i: int)
    requires
        is_first_sub(s, pat, i),
    ensures
        split_once_sub(s, pat) == Some((s.take(i), s.skip(i + pat.len()))),
        contains_sub(s, pat),
{
    let w = choose|w: int| is_first_sub(s, pat, w);
    assert(w == i) by {
        if w < i {
            assert(!occurs_at(s, pat, w));
        } else if i < w {
            assert(!occurs_at(s, pat, i));
        }
    }
}

/// Absent patterns do not split.
pub proof fn lemma_split_once_sub_none(s: Seq<char>, pat: Seq<char>)
    requires
        !contains_sub(s, pat),
    ensures
        split_once_sub(s, pat).is_none(),
{
}

/// `str::to_ascii_lowercase`: ASCII upper-case letters to lower case.
pub open spec fn ascii_lower(s: Seq<char>) -> Seq<char> {
    s.map_values(|c: char| if 'A' <= c <= 'Z' { (c as int + 32) as char } else { c })
}

/// Lower-cases the ASCII letters of `cs`.
pub fn ascii_lower_chars(cs: &Vec<char>) -> (r: Vec<char>)
    ensures
        r@ == ascii_lower(cs@),
{
    let mut r: Vec<char> = Vec::new();
    let mut k: usize = 0;
    while k < cs.len()
        invariant
            k <= cs.len(),
            r@ == ascii_lower(cs@.take(k as int)),
        decreases cs.len() - k,
    {
        let c = cs[k];
        let l = if 'A' <= c && c <= 'Z' {
            ((c as u8) + 32) as char
        } else {
            c
        };
        r.push(l);
        k = k + 1;
        assert(r@ =~= ascii_lower(cs@.take(k as int)));
    }
    assert(cs@.take(cs.len() as int) =~= cs@);
    r
}

/// Whether two character vectors are equal.
pub fn eq_chars(a: &Vec<char>, b: &Vec<char>) -> (r: bool)
    ensures
        r == (a@ == b@),
{
    if a.len() != b.len() {
        return false;
    }
    let mut k: usize = 0;
    while k < a.len()
        invariant
            a.len() == b.len(),
            k <= a.len(),
            forall|j: int| 0 <= j < k ==> a@[j] == b@[j],
        decreases a.len() - k,
    {
        if a[k] != b[k] {
            return false;
        }
        k = k + 1;
    }
    assert(a@ =~= b@);
    true
}

} // verus!
