//! Character-level helpers shared by the parsers of this crate.
//!
//! Every string is handled as the sequence of its characters (`s@`).

use vstd::prelude::*;

verus! {

broadcast use vstd::string::group_string_axioms;

/// `String::push` appends one character at the end.
pub assume_specification[ String::push ](s: &mut String, ch: char)
    ensures
        final(s)@ == old(s)@.push(ch),
;

/// The characters of `s`, in order.
pub fn chars_of(s: &str) -> (v: Vec<char>)
    ensures
        v@ == s@,
{
    let mut v: Vec<char> = Vec::new();
    for c in it: s.chars()
        invariant
            v@ == it.seq().take(it.index()),
            it.seq() == s@,
    {
        v.push(c);
    }
    v
}

/// A `String` holding exactly the characters of `v`.
pub fn string_of(v: &[char]) -> (s: String)
    ensures
        s@ == v@,
{
    let mut s = String::new();
    let mut i: usize = 0;
    while i < v.len()
        invariant
            i <= v@.len(),
            s@ == v@.take(i as int),
        decreases v@.len() - i,
    {
        s.push(v[i]);
        i += 1;
        assert(s@ =~= v@.take(i as int));
    }
    assert(v@.take(v@.len() as int) =~= v@);
    s
}

/// A `String` holding the characters of `v` between `lo` and `hi`.
pub fn string_of_range(v: &[char], lo: usize, hi: usize) -> (s: String)
    requires
        lo <= hi <= v@.len(),
    ensures
        s@ == v@.subrange(lo as int, hi as int),
{
    let mut s = String::new();
    let mut i: usize = lo;
    while i < hi
        invariant
            lo <= i <= hi <= v@.len(),
            s@ == v@.subrange(lo as int, i as int),
        decreases hi - i,
    {
        s.push(v[i]);
        i += 1;
        assert(s@ =~= v@.subrange(lo as int, i as int));
    }
    s
}

/// The characters of `v` between `lo` and `hi`, as a new vector.
pub fn sub_chars(v: &[char], lo: usize, hi: usize) -> (r: Vec<char>)
    requires
        lo <= hi <= v@.len(),
    ensures
        r@ == v@.subrange(lo as int, hi as int),
{
    let mut r: Vec<char> = Vec::new();
    let mut i: usize = lo;
    while i < hi
        invariant
            lo <= i <= hi <= v@.len(),
            r@ == v@.subrange(lo as int, i as int),
        decreases hi - i,
    {
        r.push(v[i]);
        i += 1;
        assert(r@ =~= v@.subrange(lo as int, i as int));
    }
    r
}

/// Whether two character sequences are equal.
pub fn chars_eq(a: &[char], b: &[char]) -> (r: bool)
    ensures
        r == (a@ == b@),
{
    if a.len() != b.len() {
        return false;
    }
    let mut i: usize = 0;
    while i < a.len()
        invariant
            a@.len() == b@.len(),
            i <= a@.len(),
            forall|j: int| 0 <= j < i ==> a@[j] == b@[j],
        decreases a@.len() - i,
    {
        if a[i] != b[i] {
            return false;
        }
        i += 1;
    }
    assert(a@ =~= b@);
    true
}

/// Whether `s` and `t` hold the same characters.
pub fn str_eq(s: &str, t: &str) -> (r: bool)
    ensures
        r == (s@ == t@),
{
    let a = chars_of(s);
    let b = chars_of(t);
    chars_eq(a.as_slice(), b.as_slice())
}

/// `p` occurs in `s` at position `i`.
pub open spec fn occurs_at(s: Seq<char>, i: int, p: Seq<char>) -> bool {
    0 <= i && i + p.len() <= s.len() && s.subrange(i, i + p.len()) == p
}

pub open spec fn starts_with(s: Seq<char>, p: Seq<char>) -> bool {
    occurs_at(s, 0, p)
}

pub open spec fn ends_with(s: Seq<char>, p: Seq<char>) -> bool {
    occurs_at(s, s.len() - p.len(), p)
}

/// First position at or after `i` where `p` occurs in `s`.
pub open spec fn find_from(s: Seq<char>, p: Seq<char>, i: int) -> Option<int>
    decreases s.len() + 1 - i,
{
    if i < 0 || i + p.len() > s.len() {
        None
    } else if occurs_at(s, i, p) {
        Some(i)
    } else {
        find_from(s, p, i + 1)
    }
}

/// First position where `p` occurs in `s`.
pub open spec fn find(s: Seq<char>, p: Seq<char>) -> Option<int> {
    find_from(s, p, 0)
}

/// Last position at or before `i` where `p` occurs in `s`.
pub open spec fn rfind_to(s: Seq<char>, p: Seq<char>, i: int) -> Option<int>
    decreases i + 1,
{
    if i < 0 {
        None
    } else if occurs_at(s, i, p) {
        Some(i)
    } else {
        rfind_to(s, p, i - 1)
    }
}

/// Last position where `p` occurs in `s`.
pub open spec fn rfind(s: Seq<char>, p: Seq<char>) -> Option<int> {
    rfind_to(s, p, s.len() - p.len())
}

pub open spec fn contains(s: Seq<char>, p: Seq<char>) -> bool {
    find(s, p) is Some
}

/// Whether `p` occurs at position `i` of `s`.
pub fn chars_occur_at(s: &[char], i: usize, p: &[char]) -> (r: bool)
    ensures
        r == occurs_at(s@, i as int, p@),
{
    if i > s.len() || p.len() > s.len() - i {
        return false;
    }
    let n = s.len();
    let mut j: usize = 0;
    while j < p.len()
        invariant
            n == s@.len(),
            i + p@.len() <= n,
            j <= p@.len(),
            forall|k: int| 0 <= k < j ==> s@[i + k] == p@[k],
        decreases p@.len() - j,
    {
        assert(i + j < s@.len());
        if s[i + j] != p[j] {
            assert(s@.subrange(i as int, i + p@.len())[j as int] != p@[j as int]);
            return false;
        }
        j += 1;
    }
    assert(s@.subrange(i as int, i + p@.len()) =~= p@);
    true
}

proof fn lemma_find_from_none(s: Seq<char>, p: Seq<char>, i: int)
    requires
        0 <= i,
        i + p.len() > s.len(),
    ensures
        find_from(s, p, i) is None,
{
}

/// First position at or after `from` where `p` occurs in `s`.
pub fn chars_find_from(s: &[char], p: &[char], from: usize) -> (r: Option<usize>)
    ensures
        match r {
            Some(i) => find_from(s@, p@, from as int) == Some(i as int) && from <= i && occurs_at(
                s@,
                i as int,
                p@,
            ) && forall|j: int| from <= j < i ==> !occurs_at(s@, j, p@),
            None => find_from(s@, p@, from as int) is None && forall|j: int|
                from <= j ==> !occurs_at(s@, j, p@),
        },
{
    if p.len() > s.len() {
        proof {
            lemma_find_from_none(s@, p@, from as int);
        }
        return None;
    }
    let last = s.len() - p.len();
    let mut i: usize = from;
    while i <= last
        invariant
            last == s@.len() - p@.len(),
            from <= i,
            find_from(s@, p@, from as int) == find_from(s@, p@, i as int),
            forall|j: int| from <= j < i ==> !occurs_at(s@, j, p@),
        decreases last + 1 - i,
    {
        if chars_occur_at(s, i, p) {
            return Some(i);
        }
        if i == last {
            proof {
                lemma_find_from_none(s@, p@, i + 1);
            }
            return None;
        }
        i += 1;
    }
    proof {
        lemma_find_from_none(s@, p@, i as int);
    }
    None
}

/// First position where `p` occurs in `s`.
pub fn chars_find(s: &[char], p: &[char]) -> (r: Option<usize>)
    ensures
        match r {
            Some(i) => find(s@, p@) == Some(i as int) && occurs_at(s@, i as int, p@) && forall|
                j: int,
            | 0 <= j < i ==> !occurs_at(s@, j, p@),
            None => find(s@, p@) is None && forall|j: int| 0 <= j ==> !occurs_at(s@, j, p@),
        },
{
    chars_find_from(s, p, 0)
}

/// Last position where `p` occurs in `s`.
pub fn chars_rfind(s: &[char], p: &[char]) -> (r: Option<usize>)
    ensures
        match r {
            Some(i) => rfind(s@, p@) == Some(i as int) && occurs_at(s@, i as int, p@),
            None => rfind(s@, p@) is None,
        },
{
    if p.len() > s.len() {
        return None;
    }
    let mut i: usize = s.len() - p.len();
    loop
        invariant
            i <= s@.len() - p@.len(),
            rfind(s@, p@) == rfind_to(s@, p@, i as int),
        decreases i,
    {
        if chars_occur_at(s, i, p) {
            return Some(i);
        }
        if i == 0 {
            assert(rfind_to(s@, p@, -1) is None);
            return None;
        }
        i -= 1;
    }
}

pub fn chars_starts_with(s: &[char], p: &[char]) -> (r: bool)
    ensures
        r == starts_with(s@, p@),
{
    chars_occur_at(s, 0, p)
}

pub fn chars_ends_with(s: &[char], p: &[char]) -> (r: bool)
    ensures
        r == ends_with(s@, p@),
{
    if p.len() > s.len() {
        return false;
    }
    chars_occur_at(s, s.len() - p.len(), p)
}

pub fn chars_contains(s: &[char], p: &[char]) -> (r: bool)
    ensures
        r == contains(s@, p@),
{
    chars_find(s, p).is_some()
}

} // verus!

verus! {

/// Unicode `White_Space`, the set that `char::is_whitespace` tests.
pub open spec fn is_ws(c: char) -> bool {
    let u = c as u32;
    (0x09 <= u && u <= 0x0D) || u == 0x20 || u == 0x85 || u == 0xA0 || u == 0x1680 || (0x2000
        <= u && u <= 0x200A) || u == 0x2028 || u == 0x2029 || u == 0x202F || u == 0x205F || u
        == 0x3000
}

pub fn is_whitespace(c: char) -> (r: bool)
    ensures
        r == is_ws(c),
{
    let u = c as u32;
    (0x09 <= u && u <= 0x0D) || u == 0x20 || u == 0x85 || u == 0xA0 || u == 0x1680 || (0x2000
        <= u && u <= 0x200A) || u == 0x2028 || u == 0x2029 || u == 0x202F || u == 0x205F || u
        == 0x3000
}

pub open spec fn is_digit(c: char) -> bool {
    '0' <= c && c <= '9'
}

/// `s` without its leading white space.
pub open spec fn trim_start(s: Seq<char>) -> Seq<char>
    decreases s.len(),
{
    if s.len() > 0 && is_ws(s[0]) {
        trim_start(s.drop_first())
    } else {
        s
    }
}

/// `s` without its trailing white space.
pub open spec fn trim_end(s: Seq<char>) -> Seq<char>
    decreases s.len(),
{
    if s.len() > 0 && is_ws(s.last()) {
        trim_end(s.drop_last())
    } else {
        s
    }
}

/// `s` without leading and trailing white space (`str::trim`).
pub open spec fn trim(s: Seq<char>) -> Seq<char> {
    trim_end(trim_start(s))
}

/// Bounds of `v[lo..hi]` once white space is trimmed from both ends.
pub fn trim_bounds(v: &[char], lo: usize, hi: usize) -> (r: (usize, usize))
    requires
        lo <= hi <= v@.len(),
    ensures
        lo <= r.0 <= r.1 <= hi,
        v@.subrange(r.0 as int, r.1 as int) == trim(v@.subrange(lo as int, hi as int)),
{
    let mut a: usize = lo;
    while a < hi && is_whitespace(v[a])
        invariant
            lo <= a <= hi <= v@.len(),
            trim_start(v@.subrange(lo as int, hi as int)) == trim_start(
                v@.subrange(a as int, hi as int),
            ),
        decreases hi - a,
    {
        assert(v@.subrange(a as int, hi as int).drop_first() =~= v@.subrange(
            a + 1,
            hi as int,
        ));
        a += 1;
    }
    let mut b: usize = hi;
    while b > a && is_whitespace(v[b - 1])
        invariant
            lo <= a <= b <= hi <= v@.len(),
            trim(v@.subrange(lo as int, hi as int)) == trim_end(v@.subrange(a as int, b as int)),
        decreases b - a,
    {
        assert(v@.subrange(a as int, b as int).drop_last() =~= v@.subrange(a as int, b - 1));
        b -= 1;
    }
    (a, b)
}

/// The characters of `v` with white space trimmed from both ends.
pub fn trim_chars(v: &[char]) -> (r: Vec<char>)
    ensures
        r@ == trim(v@),
{
    let (a, b) = trim_bounds(v, 0, v.len());
    assert(v@.subrange(0, v@.len() as int) =~= v@);
    sub_chars(v, a, b)
}

/// `s` with white space trimmed from both ends (`str::trim`).
pub fn trim_str(s: &str) -> (r: String)
    ensures
        r@ == trim(s@),
{
    let v = chars_of(s);
    let (a, b) = trim_bounds(v.as_slice(), 0, v.len());
    assert(v@.subrange(0, v@.len() as int) =~= v@);
    string_of_range(v.as_slice(), a, b)
}

} // verus!

verus! {

/// Bytes that `c` takes in UTF-8 (`char::len_utf8`).
pub open spec fn utf8_width(c: char) -> int {
    let u = c as u32;
    if u < 0x80 {
        1
    } else if u < 0x800 {
        2
    } else if u < 0x10000 {
        3
    } else {
        4
    }
}

/// Bytes that `s` takes in UTF-8 (`str::len`).
pub open spec fn byte_len(s: Seq<char>) -> int
    decreases s.len(),
{
    if s.len() == 0 {
        0
    } else {
        byte_len(s.drop_last()) + utf8_width(s.last())
    }
}

/// Byte offset `k` of the UTF-8 form of `s` starts a character (or is its
/// end), so that slicing there does not panic.
pub open spec fn is_boundary(s: Seq<char>, k: int) -> bool {
    exists|i: int| 0 <= i <= s.len() && #[trigger] byte_len(s.take(i)) == k
}

} // verus!

verus! {

/// `s` up to the first `c`, or all of `s` when `c` does not occur.
pub open spec fn before(s: Seq<char>, c: char) -> Seq<char> {
    match find(s, seq![c]) {
        Some(i) => s.take(i),
        None => s,
    }
}

/// `s` after the first `c`, when `c` occurs.
pub open spec fn after(s: Seq<char>, c: char) -> Option<Seq<char>> {
    match find(s, seq![c]) {
        Some(i) => Some(s.skip(i + 1)),
        None => None,
    }
}

/// `s` split at its first `c` (`str::split_once`, with the head also given
/// when `c` does not occur).
pub fn split_once_char(v: &[char], c: char) -> (r: (Vec<char>, Option<Vec<char>>))
    ensures
        r.0@ == before(v@, c),
        match r.1 {
            Some(t) => after(v@, c) == Some(t@),
            None => after(v@, c) is None,
        },
{
    let p = vec![c];
    assert(p@ =~= seq![c]);
    match chars_find(v, p.as_slice()) {
        Some(i) => {
            assert(p@.len() == 1);
            let n = v.len();
            assert(i + 1 <= n);
            let head = sub_chars(v, 0, i);
            let tail = sub_chars(v, i + 1, n);
            assert(tail@ =~= v@.skip(i + 1));
            (head, Some(tail))
        },
        None => (sub_chars_all(v), None),
    }
}

/// A copy of `v`.
pub fn sub_chars_all(v: &[char]) -> (r: Vec<char>)
    ensures
        r@ == v@,
{
    let r = sub_chars(v, 0, v.len());
    assert(r@ =~= v@);
    r
}

} // verus!

verus! {

/// Appends the characters of `v` to `out`.
pub fn push_all(out: &mut Vec<char>, v: &[char])
    ensures
        final(out)@ == old(out)@ + v@,
{
    let mut i: usize = 0;
    while i < v.len()
        invariant
            i <= v@.len(),
            out@ == old(out)@ + v@.take(i as int),
        decreases v@.len() - i,
    {
        out.push(v[i]);
        i += 1;
        assert(out@ =~= old(out)@ + v@.take(i as int));
    }
    assert(v@.take(v@.len() as int) =~= v@);
}

} // verus!

verus! {

/// `a` followed by `b`.
pub fn concat(a: &str, b: &str) -> (r: String)
    ensures
        r@ == a@ + b@,
{
    let mut v = chars_of(a);
    let w = chars_of(b);
    push_all(&mut v, w.as_slice());
    string_of(v.as_slice())
}

/// `a`, `b` and `c` one after the other.
pub fn concat3(a: &str, b: &str, c: &str) -> (r: String)
    ensures
        r@ == a@ + b@ + c@,
{
    let mut v = chars_of(a);
    let w = chars_of(b);
    let x = chars_of(c);
    push_all(&mut v, w.as_slice());
    push_all(&mut v, x.as_slice());
    string_of(v.as_slice())
}

/// Copy of `s` as an owned string.
pub fn owned(s: &str) -> (r: String)
    ensures
        r@ == s@,
{
    let v = chars_of(s);
    string_of(v.as_slice())
}

} // verus!

verus! {

pub proof fn lemma_find_from_some(s: Seq<char>, p: Seq<char>, i: int)
    ensures
        find_from(s, p, i) matches Some(j) ==> i <= j && occurs_at(s, j, p),
    decreases s.len() + 1 - i,
{
    if !(i < 0 || i + p.len() > s.len()) && !occurs_at(s, i, p) {
        lemma_find_from_some(s, p, i + 1);
    }
}

pub proof fn lemma_rfind_to_some(s: Seq<char>, p: Seq<char>, i: int)
    ensures
        rfind_to(s, p, i) matches Some(j) ==> j <= i && occurs_at(s, j, p),
    decreases i + 1,
{
    if i >= 0 && !occurs_at(s, i, p) {
        lemma_rfind_to_some(s, p, i - 1);
    }
}

pub proof fn lemma_after_shorter(s: Seq<char>, c: char)
    ensures
        after(s, c) matches Some(t) ==> t.len() < s.len(),
        find(s, seq![c]) matches Some(i) ==> 0 <= i < s.len() && s[i] == c,
{
    lemma_find_from_some(s, seq![c], 0);
    if let Some(i) = find(s, seq![c]) {
        assert(s.subrange(i, i + 1)[0] == s[i]);
    }
}

} // verus!

verus! {

/// `s` without the prefix `p` when it starts with it (`strip_prefix`,
/// falling back to `s`).
pub open spec fn strip_prefix_or_self(s: Seq<char>, p: Seq<char>) -> Seq<char> {
    if starts_with(s, p) {
        s.skip(p.len() as int)
    } else {
        s
    }
}

/// The first white-space separated word of `s`, or nothing
/// (`split_whitespace().next()`).
pub open spec fn first_word(s: Seq<char>) -> Seq<char> {
    word_prefix(trim_start(s))
}

/// The characters of `s` before its first white space.
pub open spec fn word_prefix(s: Seq<char>) -> Seq<char>
    decreases s.len(),
{
    if s.len() == 0 || is_ws(s[0]) {
        seq![]
    } else {
        seq![s[0]] + word_prefix(s.drop_first())
    }
}

pub fn strip_prefix_chars(s: &[char], p: &[char]) -> (r: Vec<char>)
    ensures
        r@ == strip_prefix_or_self(s@, p@),
{
    if chars_starts_with(s, p) {
        let r = sub_chars(s, p.len(), s.len());
        assert(r@ =~= s@.skip(p@.len() as int));
        r
    } else {
        sub_chars_all(s)
    }
}

pub fn first_word_chars(s: &[char]) -> (r: Vec<char>)
    ensures
        r@ == first_word(s@),
{
    let n = s.len();
    let mut a: usize = 0;
    assert(s@.skip(0) =~= s@);
    while a < n && is_whitespace(s[a])
        invariant
            n == s@.len(),
            a <= n,
            trim_start(s@) == trim_start(s@.skip(a as int)),
        decreases n - a,
    {
        assert(s@.skip(a as int).drop_first() =~= s@.skip(a + 1));
        a += 1;
    }
    let mut b: usize = a;
    while b < n && !is_whitespace(s[b])
        invariant
            n == s@.len(),
            a <= b <= n,
            word_prefix(s@.skip(a as int)) == s@.subrange(a as int, b as int) + word_prefix(
                s@.skip(b as int),
            ),
        decreases n - b,
    {
        assert(s@.skip(b as int).drop_first() =~= s@.skip(b + 1));
        assert(s@.subrange(a as int, b + 1) =~= s@.subrange(a as int, b as int) + seq![s@[b as int]]);
        b += 1;
    }
    assert(s@.skip(0) =~= s@);
    assert(word_prefix(s@.skip(b as int)) =~= seq![]);
    let r = sub_chars(s, a, b);
    assert(r@ =~= s@.subrange(a as int, b as int) + Seq::<char>::empty());
    r
}

} // verus!

verus! {

/// Whether `p` occurs in `s`.
pub fn str_contains(s: &str, p: &str) -> (r: bool)
    ensures
        r == contains(s@, p@),
{
    let a = chars_of(s);
    let b = chars_of(p);
    chars_contains(a.as_slice(), b.as_slice())
}

/// Whether `s` begins with `p`.
pub fn str_starts_with(s: &str, p: &str) -> (r: bool)
    ensures
        r == starts_with(s@, p@),
{
    let a = chars_of(s);
    let b = chars_of(p);
    chars_starts_with(a.as_slice(), b.as_slice())
}

/// Whether `s` ends with `p`.
pub fn str_ends_with(s: &str, p: &str) -> (r: bool)
    ensures
        r == ends_with(s@, p@),
{
    let a = chars_of(s);
    let b = chars_of(p);
    chars_ends_with(a.as_slice(), b.as_slice())
}

} // verus!

verus! {

/// Each character takes at least one byte.
pub proof fn lemma_byte_len_grows(s: Seq<char>, i: int, j: int)
    requires
        0 <= i <= j <= s.len(),
    ensures
        byte_len(s.take(j)) >= byte_len(s.take(i)) + (j - i),
    decreases j - i,
{
    if i < j {
        lemma_byte_len_grows(s, i, j - 1);
        assert(s.take(j).drop_last() =~= s.take(j - 1));
    }
}

fn width_of(c: char) -> (r: u128)
    ensures
        r as int == utf8_width(c),
{
    let u = c as u32;
    if u < 0x80 {
        1
    } else if u < 0x800 {
        2
    } else if u < 0x10000 {
        3
    } else {
        4
    }
}

/// The length of `s` in UTF-8 bytes.
pub fn utf8_len(s: &str) -> (r: u128)
    ensures
        r as int == byte_len(s@),
{
    let v = chars_of(s);
    let n = v.len();
    let mut acc: u128 = 0;
    let mut i: usize = 0;
    while i < n
        invariant
            n == v@.len(),
            i <= n,
            acc as int == byte_len(v@.take(i as int)),
            acc <= 4 * i,
        decreases n - i,
    {
        assert(v@.take(i + 1).drop_last() =~= v@.take(i as int));
        acc = acc + width_of(v[i]);
        i += 1;
    }
    assert(v@.take(n as int) =~= v@);
    acc
}

/// Whether byte offset `k` of `s` starts a character or is its end.
pub fn is_boundary_at(s: &str, k: usize) -> (r: bool)
    ensures
        r == is_boundary(s@, k as int),
{
    let v = chars_of(s);
    let n = v.len();
    let mut acc: u128 = 0;
    let mut i: usize = 0;
    while i < n
        invariant
            n == v@.len(),
            v@ == s@,
            i <= n,
            acc as int == byte_len(v@.take(i as int)),
            acc <= 4 * i,
            forall|j: int| 0 <= j < i ==> byte_len(#[trigger] v@.take(j)) != k,
        decreases n - i,
    {
        if acc == k as u128 {
            return true;
        }
        if acc > k as u128 {
            proof {
                assert forall|j: int| 0 <= j <= n implies byte_len(#[trigger] v@.take(j)) != k by {
                    if j >= i {
                        lemma_byte_len_grows(v@, i as int, j);
                    }
                }
            }
            return false;
        }
        assert(v@.take(i + 1).drop_last() =~= v@.take(i as int));
        acc = acc + width_of(v[i]);
        i += 1;
    }
    acc == k as u128
}

} // verus!
