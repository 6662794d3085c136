//! Decimal integers: parsing with the rules of `str::parse` and formatting.

use vstd::prelude::*;

use crate::text::is_digit;

verus! {

pub open spec fn digit_value(c: char) -> int {
    (c as int) - ('0' as int)
}

pub open spec fn all_digits(s: Seq<char>) -> bool {
    forall|i: int| 0 <= i < s.len() ==> is_digit(#[trigger] s[i])
}

/// The number that the decimal digits `s` denote.
pub open spec fn digits_value(s: Seq<char>) -> nat
    decreases s.len(),
{
    if s.len() == 0 {
        0
    } else {
        (digits_value(s.drop_last()) * 10 + digit_value(s.last())) as nat
    }
}

/// What `str::parse` reads from `s` for an unsigned type before checking
/// its range: an optional `+` and at least one ASCII digit.
pub open spec fn parse_unsigned(s: Seq<char>) -> Option<int> {
    let d = if s.len() > 0 && s[0] == '+' {
        s.drop_first()
    } else {
        s
    };
    if d.len() > 0 && all_digits(d) {
        Some(digits_value(d) as int)
    } else {
        None
    }
}

/// What `str::parse` reads from `s` for a signed type before checking its
/// range: an optional `+` or `-` and at least one ASCII digit.
pub open spec fn parse_signed(s: Seq<char>) -> Option<int> {
    if s.len() > 0 && s[0] == '-' {
        let d = s.drop_first();
        if d.len() > 0 && all_digits(d) {
            Some(-(digits_value(d) as int))
        } else {
            None
        }
    } else {
        parse_unsigned(s)
    }
}

/// `parsed` read within `lo..=hi`, as `str::parse` reports it.
pub open spec fn in_range(parsed: Option<int>, lo: int, hi: int) -> Option<int> {
    match parsed {
        Some(v) => if lo <= v <= hi {
            Some(v)
        } else {
            None
        },
        None => None,
    }
}

proof fn lemma_digits_value_grows(s: Seq<char>, i: int, j: int)
    requires
        0 <= i <= j <= s.len(),
        all_digits(s),
    ensures
        digits_value(s.take(i)) <= digits_value(s.take(j)),
    decreases j - i,
{
    if i < j {
        lemma_digits_value_grows(s, i, j - 1);
        assert(s.take(j).drop_last() =~= s.take(j - 1));
    }
}

/// The value of the digits `s[lo..hi]`, or `None` when one of them is not
/// an ASCII digit or the value exceeds `u64::MAX`.
fn digits_to_u64(s: &[char], lo: usize, hi: usize) -> (r: Option<u64>)
    requires
        lo <= hi <= s@.len(),
    ensures
        match r {
            Some(v) => all_digits(s@.subrange(lo as int, hi as int)) && v == digits_value(
                s@.subrange(lo as int, hi as int),
            ),
            None => !all_digits(s@.subrange(lo as int, hi as int)) || digits_value(
                s@.subrange(lo as int, hi as int),
            ) > u64::MAX,
        },
{
    let ghost d = s@.subrange(lo as int, hi as int);
    let mut v: u64 = 0;
    let mut i: usize = lo;
    while i < hi
        invariant
            lo <= i <= hi <= s@.len(),
            d == s@.subrange(lo as int, hi as int),
            all_digits(d.take(i - lo)),
            v == digits_value(d.take(i - lo)),
        decreases hi - i,
    {
        let c = s[i];
        if !('0' <= c && c <= '9') {
            assert(d[i - lo] == c);
            return None;
        }
        let dv = (c as u32 - '0' as u32) as u64;
        assert(d.take(i - lo + 1).drop_last() =~= d.take(i - lo));
        if v > (u64::MAX - dv) / 10 {
            proof {
                assert(all_digits(d.take(i - lo + 1)));
                assert(digits_value(d.take(i - lo + 1)) > u64::MAX) by (nonlinear_arith)
                    requires
                        digits_value(d.take(i - lo + 1)) == v * 10 + dv,
                        v > (u64::MAX - dv) / 10,
                        dv <= 9,
                ;
                if all_digits(d) {
                    lemma_digits_value_grows(d, i - lo + 1, d.len() as int);
                    assert(d.take(d.len() as int) =~= d);
                }
            }
            return None;
        }
        v = v * 10 + dv;
        i += 1;
    }
    assert(d.take(i - lo) =~= d);
    Some(v)
}

pub fn parse_u64(s: &[char]) -> (r: Option<u64>)
    ensures
        r matches Some(v) ==> in_range(parse_unsigned(s@), 0, u64::MAX as int) == Some(v as int),
        r is None ==> in_range(parse_unsigned(s@), 0, u64::MAX as int) is None,
{
    let start: usize = if s.len() > 0 && s[0] == '+' {
        1
    } else {
        0
    };
    if start >= s.len() {
        return None;
    }
    let r = digits_to_u64(s, start, s.len());
    assert(s@.subrange(start as int, s@.len() as int) =~= if s@.len() > 0 && s@[0] == '+' {
        s@.drop_first()
    } else {
        s@
    });
    r
}

pub fn parse_u32(s: &[char]) -> (r: Option<u32>)
    ensures
        r matches Some(v) ==> in_range(parse_unsigned(s@), 0, u32::MAX as int) == Some(v as int),
        r is None ==> in_range(parse_unsigned(s@), 0, u32::MAX as int) is None,
{
    match parse_u64(s) {
        Some(v) => if v <= u32::MAX as u64 {
            Some(v as u32)
        } else {
            None
        },
        None => None,
    }
}

pub fn parse_i64(s: &[char]) -> (r: Option<i64>)
    ensures
        r matches Some(v) ==> in_range(parse_signed(s@), i64::MIN as int, i64::MAX as int) == Some(
            v as int,
        ),
        r is None ==> in_range(parse_signed(s@), i64::MIN as int, i64::MAX as int) is None,
{
    if s.len() > 0 && s[0] == '-' {
        if s.len() == 1 {
            return None;
        }
        let m = digits_to_u64(s, 1, s.len());
        assert(s@.subrange(1, s@.len() as int) =~= s@.drop_first());
        match m {
            Some(m) => if m <= 9223372036854775808u64 {
                if m == 9223372036854775808u64 {
                    Some(i64::MIN)
                } else {
                    Some(-(m as i64))
                }
            } else {
                None
            },
            None => None,
        }
    } else {
        match parse_u64(s) {
            Some(v) => if v <= i64::MAX as u64 {
                Some(v as i64)
            } else {
                None
            },
            None => None,
        }
    }
}

pub fn parse_i32(s: &[char]) -> (r: Option<i32>)
    ensures
        r matches Some(v) ==> in_range(parse_signed(s@), i32::MIN as int, i32::MAX as int) == Some(
            v as int,
        ),
        r is None ==> in_range(parse_signed(s@), i32::MIN as int, i32::MAX as int) is None,
{
    match parse_i64(s) {
        Some(v) => if i32::MIN as i64 <= v && v <= i32::MAX as i64 {
            Some(v as i32)
        } else {
            None
        },
        None => None,
    }
}

pub open spec fn digit_char(d: int) -> char {
    (d + ('0' as int)) as char
}

/// Decimal digits of `n`, most significant first, without leading zeros.
pub open spec fn decimal(n: nat) -> Seq<char>
    decreases n,
{
    if n < 10 {
        seq![digit_char(n as int)]
    } else {
        decimal(n / 10).push(digit_char((n % 10) as int))
    }
}

/// Decimal text of a signed integer, with `-` before negative ones.
pub open spec fn signed_decimal(n: int) -> Seq<char> {
    if n < 0 {
        seq!['-'] + decimal((-n) as nat)
    } else {
        decimal(n as nat)
    }
}

/// Appends the decimal digits of `n` to `s`.
pub fn push_decimal(s: &mut String, n: u64)
    ensures
        final(s)@ == old(s)@ + decimal(n as nat),
    decreases n,
{
    if n >= 10 {
        push_decimal(s, n / 10);
    }
    let d = (n % 10) as u8;
    let c = (48u8 + d) as char;
    assert(c == digit_char((n % 10) as int));
    s.push(c);
    if n >= 10 {
        assert(decimal(n as nat) == decimal((n / 10) as nat).push(digit_char((n % 10) as int)));
    }
}

/// Decimal text of `n` (as `n.to_string()` gives it).
pub fn u64_to_string(n: u64) -> (r: String)
    ensures
        r@ == decimal(n as nat),
{
    let mut s = String::new();
    push_decimal(&mut s, n);
    s
}

/// Decimal text of `n` (as `n.to_string()` gives it).
pub fn i64_to_string(n: i64) -> (r: String)
    ensures
        r@ == signed_decimal(n as int),
{
    let mut s = String::new();
    if n < 0 {
        s.push('-');
        let m: u64 = if n == i64::MIN {
            9223372036854775808u64
        } else {
            (-n) as u64
        };
        push_decimal(&mut s, m);
    } else {
        push_decimal(&mut s, n as u64);
    }
    s
}

} // verus!

verus! {

pub open spec fn pow10(n: nat) -> nat
    decreases n,
{
    if n == 0 {
        1
    } else {
        10 * pow10((n - 1) as nat)
    }
}

pub proof fn lemma_digits_value_bound(s: Seq<char>)
    requires
        all_digits(s),
    ensures
        digits_value(s) < pow10(s.len()),
    decreases s.len(),
{
    if s.len() > 0 {
        lemma_digits_value_bound(s.drop_last());
        let a = digits_value(s.drop_last());
        let p = pow10(s.drop_last().len());
        let d = digit_value(s.last());
        assert(a * 10 + d < 10 * p) by (nonlinear_arith)
            requires
                a < p,
                0 <= d <= 9,
        ;
    }
}

/// A number read from at most four characters lies within `-9999..=9999`.
pub proof fn lemma_parse_short(s: Seq<char>)
    requires
        s.len() <= 4,
    ensures
        parse_signed(s) matches Some(v) ==> -9999 <= v <= 9999,
        parse_unsigned(s) matches Some(v) ==> 0 <= v <= 9999,
        s.len() <= 2 ==> (parse_signed(s) matches Some(v) ==> -99 <= v <= 99),
{
    reveal_with_fuel(pow10, 5);
    if s.len() > 0 {
        let d = s.drop_first();
        if all_digits(d) {
            lemma_digits_value_bound(d);
        }
    }
    if all_digits(s) {
        lemma_digits_value_bound(s);
    }
}

} // verus!

verus! {

pub open spec fn is_hex_digit(c: char) -> bool {
    ('0' <= c && c <= '9') || ('a' <= c && c <= 'f') || ('A' <= c && c <= 'F')
}

pub open spec fn hex_digit_value(c: char) -> int {
    if '0' <= c && c <= '9' {
        (c as int) - ('0' as int)
    } else if 'a' <= c && c <= 'f' {
        (c as int) - ('a' as int) + 10
    } else {
        (c as int) - ('A' as int) + 10
    }
}

pub open spec fn all_hex(s: Seq<char>) -> bool {
    forall|i: int| 0 <= i < s.len() ==> is_hex_digit(#[trigger] s[i])
}

/// The number that the hexadecimal digits `s` denote.
pub open spec fn hex_value(s: Seq<char>) -> nat
    decreases s.len(),
{
    if s.len() == 0 {
        0
    } else {
        (hex_value(s.drop_last()) * 16 + hex_digit_value(s.last())) as nat
    }
}

/// What `u32::from_str_radix(s, 16)` reads before checking the range: an
/// optional `+` and at least one hexadecimal digit.
pub open spec fn parse_hex(s: Seq<char>) -> Option<int> {
    let d = if s.len() > 0 && s[0] == '+' {
        s.drop_first()
    } else {
        s
    };
    if d.len() > 0 && all_hex(d) {
        Some(hex_value(d) as int)
    } else {
        None
    }
}

proof fn lemma_hex_value_grows(s: Seq<char>, i: int, j: int)
    requires
        0 <= i <= j <= s.len(),
        all_hex(s),
    ensures
        hex_value(s.take(i)) <= hex_value(s.take(j)),
    decreases j - i,
{
    if i < j {
        lemma_hex_value_grows(s, i, j - 1);
        assert(s.take(j).drop_last() =~= s.take(j - 1));
    }
}

fn hex_to_u32(s: &[char], lo: usize, hi: usize) -> (r: Option<u32>)
    requires
        lo <= hi <= s@.len(),
    ensures
        match r {
            Some(v) => all_hex(s@.subrange(lo as int, hi as int)) && v == hex_value(
                s@.subrange(lo as int, hi as int),
            ),
            None => !all_hex(s@.subrange(lo as int, hi as int)) || hex_value(
                s@.subrange(lo as int, hi as int),
            ) > u32::MAX,
        },
{
    let ghost d = s@.subrange(lo as int, hi as int);
    let mut v: u32 = 0;
    let mut i: usize = lo;
    while i < hi
        invariant
            lo <= i <= hi <= s@.len(),
            d == s@.subrange(lo as int, hi as int),
            all_hex(d.take(i - lo)),
            v == hex_value(d.take(i - lo)),
        decreases hi - i,
    {
        let c = s[i];
        assert(d[i - lo] == c);
        let dv: u32 = if '0' <= c && c <= '9' {
            c as u32 - '0' as u32
        } else if 'a' <= c && c <= 'f' {
            c as u32 - 'a' as u32 + 10
        } else if 'A' <= c && c <= 'F' {
            c as u32 - 'A' as u32 + 10
        } else {
            assert(!is_hex_digit(d[i - lo]));
            return None;
        };
        assert(dv == hex_digit_value(c));
        assert(d.take(i - lo + 1).drop_last() =~= d.take(i - lo));
        if v > (u32::MAX - dv) / 16 {
            proof {
                assert(all_hex(d.take(i - lo + 1)));
                assert(hex_value(d.take(i - lo + 1)) > u32::MAX) by (nonlinear_arith)
                    requires
                        hex_value(d.take(i - lo + 1)) == v * 16 + dv,
                        v > (u32::MAX - dv) / 16,
                        dv <= 15,
                ;
                if all_hex(d) {
                    lemma_hex_value_grows(d, i - lo + 1, d.len() as int);
                    assert(d.take(d.len() as int) =~= d);
                }
            }
            return None;
        }
        v = v * 16 + dv;
        i += 1;
    }
    assert(d.take(i - lo) =~= d);
    Some(v)
}

/// `u32::from_str_radix(s, 16)`.
pub fn parse_hex_u32(s: &[char]) -> (r: Option<u32>)
    ensures
        r matches Some(v) ==> in_range(parse_hex(s@), 0, u32::MAX as int) == Some(v as int),
        r is None ==> in_range(parse_hex(s@), 0, u32::MAX as int) is None,
{
    let start: usize = if s.len() > 0 && s[0] == '+' {
        1
    } else {
        0
    };
    if start >= s.len() {
        return None;
    }
    let r = hex_to_u32(s, start, s.len());
    assert(s@.subrange(start as int, s@.len() as int) =~= if s@.len() > 0 && s@[0] == '+' {
        s@.drop_first()
    } else {
        s@
    });
    r
}

} // verus!
