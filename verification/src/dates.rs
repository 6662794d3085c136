//! Calendar dates and timestamps found in video metadata, as milliseconds
//! since 1970-01-01 UTC.

use vstd::prelude::*;

use crate::numbers::{
    in_range, lemma_parse_short, parse_i32, parse_i64, parse_signed, parse_u32, parse_unsigned,
};
use crate::text::{
    after, before, byte_len, chars_of, is_boundary, split_once_char, sub_chars, trim, trim_chars,
};

verus! {

pub open spec fn as_int_opt(o: Option<i64>) -> Option<int> {
    match o {
        Some(v) => Some(v as int),
        None => None,
    }
}

/// Division rounding towards zero, as Rust's `/` on signed integers.
pub open spec fn tdiv(a: int, b: int) -> int {
    if a >= 0 {
        a / b
    } else {
        -((-a) / b)
    }
}

/// Days from 1970-01-01 to the given date of the proleptic Gregorian
/// calendar, by the shifted-year formula the metadata code uses (with
/// Rust's truncating division).
pub open spec fn days_from_civil(year: int, month: int, day: int) -> int {
    let y = if month <= 2 {
        year - 1
    } else {
        year
    };
    let m = if month <= 2 {
        month + 9
    } else {
        month - 3
    };
    365 * y + tdiv(y, 4) - tdiv(y, 100) + tdiv(y, 400) + (m * 306 + 5) / 10 + (day - 1) - 719468
}

pub open spec fn is_leap_year(y: int) -> bool {
    (y % 4 == 0 && y % 100 != 0) || y % 400 == 0
}

pub open spec fn days_in_month(y: int, m: int) -> int {
    if m == 2 {
        if is_leap_year(y) {
            29
        } else {
            28
        }
    } else if m == 4 || m == 6 || m == 9 || m == 11 {
        30
    } else {
        31
    }
}

/// Days since 1970-01-01 of a valid calendar date; `None` for a month
/// outside `1..=12` or a day outside the month.
pub open spec fn civil(year: int, month: int, day: int) -> Option<int> {
    if 1 <= month <= 12 && 1 <= day <= days_in_month(year, month) {
        Some(days_from_civil(year, month, day))
    } else {
        None
    }
}

pub const MILLIS_PER_DAY: i64 = 86400000;

fn tdiv_exec(a: i64, b: i64) -> (r: i64)
    requires
        b > 0,
        a > i64::MIN,
    ensures
        r == tdiv(a as int, b as int),
{
    if a >= 0 {
        a / b
    } else {
        -((-a) / b)
    }
}

/// Days since 1970-01-01 of a calendar date, or `None` when the month or
/// the day does not exist.
pub fn civil_days(year: i32, month: u32, day: u32) -> (r: Option<i64>)
    ensures
        as_int_opt(r) == civil(year as int, month as int, day as int),
{
    if month < 1 || month > 12 || day < 1 {
        return None;
    }
    let y = year as i64;
    let leap = (y % 4 == 0 && y % 100 != 0) || y % 400 == 0;
    assert(leap == is_leap_year(y as int)) by {
        assert((y % 4 == 0) == (y as int % 4 == 0));
        assert((y % 100 == 0) == (y as int % 100 == 0));
        assert((y % 400 == 0) == (y as int % 400 == 0));
    }
    let dim: u32 = if month == 2 {
        if leap {
            29
        } else {
            28
        }
    } else if month == 4 || month == 6 || month == 9 || month == 11 {
        30
    } else {
        31
    };
    if day > dim {
        return None;
    }
    let yy: i64 = if month <= 2 {
        y - 1
    } else {
        y
    };
    let mm: i64 = if month <= 2 {
        month as i64 + 9
    } else {
        month as i64 - 3
    };
    let d = day as i64;
    Some(
        365 * yy + tdiv_exec(yy, 4) - tdiv_exec(yy, 100) + tdiv_exec(yy, 400) + (mm * 306 + 5) / 10
            + (d - 1) - 719468,
    )
}

} // verus!

verus! {

pub open spec fn i32_field(s: Seq<char>) -> Option<int> {
    in_range(parse_signed(s), i32::MIN as int, i32::MAX as int)
}

pub open spec fn u32_field(s: Seq<char>) -> Option<int> {
    in_range(parse_unsigned(s), 0, u32::MAX as int)
}

pub open spec fn i64_field(s: Seq<char>) -> Option<int> {
    in_range(parse_signed(s), i64::MIN as int, i64::MAX as int)
}

/// Milliseconds of the date `YYYY-MM-DD` at 00:00 UTC, or `None` when `s`
/// is not ten characters with dashes at positions 4 and 7 and numeric,
/// existing year, month and day fields.
pub open spec fn ymd_millis(s: Seq<char>) -> Option<int> {
    if s.len() == 10 && s[4] == '-' && s[7] == '-' {
        match (i32_field(s.take(4)), u32_field(s.subrange(5, 7)), u32_field(s.subrange(8, 10))) {
            (Some(y), Some(m), Some(d)) => match civil(y, m, d) {
                Some(days) => Some(days * 86400000),
                None => None,
            },
            _ => None,
        }
    } else {
        None
    }
}

proof fn lemma_ymd_small(s: Seq<char>)
    requires
        s.len() == 10,
    ensures
        i32_field(s.take(4)) matches Some(y) ==> -9999 <= y <= 9999,
        u32_field(s.subrange(5, 7)) matches Some(m) ==> m <= 9999,
        u32_field(s.subrange(8, 10)) matches Some(d) ==> d <= 9999,
{
    lemma_parse_short(s.take(4));
    lemma_parse_short(s.subrange(5, 7));
    lemma_parse_short(s.subrange(8, 10));
}

/// Reads the year, month and day of `YYYY-MM-DD` in `v` and converts them
/// to days since 1970-01-01.
fn ymd_days(v: &[char]) -> (r: Option<i64>)
    requires
        v@.len() == 10,
        v@[4] == '-',
        v@[7] == '-',
    ensures
        as_int_opt(r) == (match (
            i32_field(v@.take(4)),
            u32_field(v@.subrange(5, 7)),
            u32_field(v@.subrange(8, 10)),
        ) {
            (Some(y), Some(m), Some(d)) => civil(y, m, d),
            _ => None,
        }),
        r matches Some(days) ==> -5000000 <= days <= 5000000,
{
    proof {
        lemma_ymd_small(v@);
    }
    let ys = sub_chars(v, 0, 4);
    let ms = sub_chars(v, 5, 7);
    let ds = sub_chars(v, 8, 10);
    assert(ys@ =~= v@.take(4));
    let y = match parse_i32(ys.as_slice()) {
        Some(y) => y,
        None => return None,
    };
    let m = match parse_u32(ms.as_slice()) {
        Some(m) => m,
        None => return None,
    };
    let d = match parse_u32(ds.as_slice()) {
        Some(d) => d,
        None => return None,
    };
    let r = civil_days(y, m, d);
    assert(r matches Some(days) ==> -5000000 <= days <= 5000000) by {
        if r is Some {
            assert(-9999 <= y <= 9999);
            assert(1 <= m <= 12 && 1 <= d <= 31);
        }
    }
    r
}

/// `YYYY-MM-DD` (the upload date embedded in a watch page) as milliseconds
/// at 00:00 UTC; `None` for anything else, such as `20240501` or a month 13.
pub fn parse_yt_date_ymd(date: &str) -> (r: Option<i64>)
    ensures
        as_int_opt(r) == ymd_millis(date@),
{
    let v = chars_of(date);
    if v.len() != 10 || v[4] != '-' || v[7] != '-' {
        return None;
    }
    match ymd_days(v.as_slice()) {
        Some(days) => Some(days * MILLIS_PER_DAY),
        None => None,
    }
}

/// Milliseconds of a compact `YYYYMMDD` upload date at 00:00 UTC. Only
/// the ranges `1..=12` and `1..=31` of month and day are checked.
pub open spec fn upload_date_millis(s: Seq<char>) -> Option<int> {
    if s.len() == 8 {
        match (i32_field(s.take(4)), u32_field(s.subrange(4, 6)), u32_field(s.subrange(6, 8))) {
            (Some(y), Some(m), Some(d)) => if 1 <= m <= 12 && 1 <= d <= 31 {
                Some(days_from_civil(y, m, d) * 86400000)
            } else {
                None
            },
            _ => None,
        }
    } else {
        None
    }
}

/// Parses a `YYYYMMDD` upload date as yt-dlp reports it.
///
/// The caller guarantees that an eight-byte input is not cut inside a
/// character at byte 4 or 6 (slicing there panics).
pub fn parse_upload_date(date_str: &str) -> (r: Option<i64>)
    requires
        byte_len(date_str@) == 8 ==> is_boundary(date_str@, 4) && is_boundary(date_str@, 6),
    ensures
        as_int_opt(r) == upload_date_millis(date_str@),
{
    let v = chars_of(date_str);
    if v.len() != 8 {
        return None;
    }
    proof {
        lemma_parse_short(v@.take(4));
        lemma_parse_short(v@.subrange(4, 6));
        lemma_parse_short(v@.subrange(6, 8));
    }
    let ys = sub_chars(v.as_slice(), 0, 4);
    let ms = sub_chars(v.as_slice(), 4, 6);
    let ds = sub_chars(v.as_slice(), 6, 8);
    assert(ys@ =~= v@.take(4));
    let year = match parse_i32(ys.as_slice()) {
        Some(y) => y,
        None => return None,
    };
    let month = match parse_u32(ms.as_slice()) {
        Some(m) => m,
        None => return None,
    };
    let day = match parse_u32(ds.as_slice()) {
        Some(d) => d,
        None => return None,
    };
    if month < 1 || month > 12 || day < 1 || day > 31 {
        return None;
    }
    let y0 = year as i64;
    let y: i64 = if month <= 2 {
        y0 - 1
    } else {
        y0
    };
    let m: i64 = if month <= 2 {
        month as i64 + 9
    } else {
        month as i64 - 3
    };
    let d = day as i64;
    let days = 365 * y + tdiv_exec(y, 4) - tdiv_exec(y, 100) + tdiv_exec(y, 400) + (m * 306 + 5)
        / 10 + (d - 1) - 719468;
    Some(days * MILLIS_PER_DAY)
}

} // verus!

verus! {

pub open spec fn is_zone_start(c: char) -> bool {
    c == 'Z' || c == '+' || c == '-'
}

/// Position of the first `Z`, `+` or `-` at or after `i`, or the length.
pub open spec fn zone_start_from(s: Seq<char>, i: int) -> int
    decreases s.len() - i,
{
    if i < 0 || i >= s.len() {
        s.len() as int
    } else if is_zone_start(s[i]) {
        i
    } else {
        zone_start_from(s, i + 1)
    }
}

/// `s` with every `:` removed.
pub open spec fn remove_colons(s: Seq<char>) -> Seq<char>
    decreases s.len(),
{
    if s.len() == 0 {
        s
    } else if s.last() == ':' {
        remove_colons(s.drop_last())
    } else {
        remove_colons(s.drop_last()).push(s.last())
    }
}

/// Milliseconds after midnight of `HH:MM:SS[.frac]`.
pub open spec fn clock_millis(clock: Seq<char>) -> Option<int> {
    match after(clock, ':') {
        None => None,
        Some(a1) => match after(a1, ':') {
            None => None,
            Some(a2) => match (
                i64_field(before(clock, ':')),
                i64_field(before(a1, ':')),
                i64_field(before(before(a2, ':'), '.')),
            ) {
                (Some(hh), Some(mm), Some(ss)) => if 0 <= hh < 24 && 0 <= mm < 60 && 0 <= ss < 61 {
                    Some((hh * 3600 + mm * 60 + ss) * 1000)
                } else {
                    None
                },
                _ => None,
            },
        },
    }
}

/// The digits of a `±HH:MM` or `±HHMM` zone, colons removed.
pub open spec fn zone_digits(zone: Seq<char>) -> Seq<char> {
    remove_colons(zone.skip(1))
}

/// Milliseconds that a `±HH:MM` or `±HHMM` zone lies ahead of UTC.
pub open spec fn zone_offset(zone: Seq<char>) -> Option<int> {
    let d = zone_digits(zone);
    let sign = if zone[0] == '+' {
        1int
    } else {
        -1int
    };
    if !(zone[0] == '+' || zone[0] == '-') || d.len() != 4 {
        None
    } else {
        match (i64_field(d.take(2)), i64_field(d.subrange(2, 4))) {
            (Some(zh), Some(zm)) => if zh > 14 || zm > 59 {
                None
            } else {
                Some(sign * (zh * 3600 + zm * 60) * 1000)
            },
            _ => None,
        }
    }
}

/// The trimmed time part and zone of an ISO date-time whose date part reads
/// as `days`.
pub open spec fn iso_time_parts(s: Seq<char>) -> (Seq<char>, Seq<char>) {
    let rest = trim(s.skip(10));
    let te = zone_start_from(rest, 0);
    (trim(rest.subrange(1, te)), trim(rest.skip(te)))
}

/// Milliseconds since the epoch of `YYYY-MM-DD`, `YYYY-MM-DDTHH:MM:SS[.f]Z`
/// or `YYYY-MM-DDTHH:MM:SS[.f]±HH[:]MM`, surrounding white space ignored.
pub open spec fn iso_millis(s0: Seq<char>) -> Option<int> {
    let s = trim(s0);
    if s.len() < 10 || s[4] != '-' || s[7] != '-' {
        None
    } else {
        match ymd_millis(s.take(10)) {
            None => None,
            Some(dm) => {
                let rest = trim(s.skip(10));
                if rest.len() == 0 {
                    Some(dm)
                } else if rest[0] != 'T' {
                    None
                } else {
                    let (clock, zone) = iso_time_parts(s);
                    match clock_millis(clock) {
                        None => None,
                        Some(cm) => if zone.len() == 0 || zone == "Z"@ {
                            Some(dm + cm)
                        } else {
                            match zone_offset(zone) {
                                Some(off) => Some(dm + cm - off),
                                None => None,
                            }
                        },
                    }
                }
            },
        }
    }
}

/// The zone digits that reading `s0` slices at byte 2, if it gets there.
pub open spec fn iso_zone_digits(s0: Seq<char>) -> Option<Seq<char>> {
    let s = trim(s0);
    if s.len() < 10 || s[4] != '-' || s[7] != '-' || ymd_millis(s.take(10)) is None {
        None
    } else {
        let rest = trim(s.skip(10));
        let (clock, zone) = iso_time_parts(s);
        if rest.len() == 0 || rest[0] != 'T' || clock_millis(clock) is None || zone.len() == 0
            || zone == "Z"@ || !(zone[0] == '+' || zone[0] == '-') {
            None
        } else {
            Some(zone_digits(zone))
        }
    }
}

fn remove_colons_exec(v: &[char]) -> (r: Vec<char>)
    ensures
        r@ == remove_colons(v@),
{
    let mut r: Vec<char> = Vec::new();
    let mut i: usize = 0;
    while i < v.len()
        invariant
            i <= v@.len(),
            r@ == remove_colons(v@.take(i as int)),
        decreases v@.len() - i,
    {
        assert(v@.take(i + 1).drop_last() =~= v@.take(i as int));
        if v[i] != ':' {
            r.push(v[i]);
        }
        i += 1;
    }
    assert(v@.take(v@.len() as int) =~= v@);
    r
}

fn clock_millis_exec(clock: &[char]) -> (r: Option<i64>)
    ensures
        as_int_opt(r) == clock_millis(clock@),
        r matches Some(c) ==> 0 <= c < 100000000,
{
    let (p0, a1) = split_once_char(clock, ':');
    let a1 = match a1 {
        Some(a) => a,
        None => return None,
    };
    let (p1, a2) = split_once_char(a1.as_slice(), ':');
    let a2 = match a2 {
        Some(a) => a,
        None => return None,
    };
    let (p2, _) = split_once_char(a2.as_slice(), ':');
    let (ss_s, _) = split_once_char(p2.as_slice(), '.');
    let hh = match parse_i64(p0.as_slice()) {
        Some(v) => v,
        None => return None,
    };
    let mm = match parse_i64(p1.as_slice()) {
        Some(v) => v,
        None => return None,
    };
    let ss = match parse_i64(ss_s.as_slice()) {
        Some(v) => v,
        None => return None,
    };
    if !(0 <= hh && hh < 24) || !(0 <= mm && mm < 60) || !(0 <= ss && ss < 61) {
        return None;
    }
    Some((hh * 3600 + mm * 60 + ss) * 1000)
}

fn zone_offset_exec(zone: &[char]) -> (r: Option<i64>)
    requires
        zone@.len() > 0,
    ensures
        as_int_opt(r) == zone_offset(zone@),
        r matches Some(o) ==> -1000000000 <= o <= 1000000000,
{
    let sign: i64 = if zone[0] == '+' {
        1
    } else if zone[0] == '-' {
        -1
    } else {
        return None;
    };
    let tail = sub_chars(zone, 1, zone.len());
    assert(tail@ =~= zone@.skip(1));
    let d = remove_colons_exec(tail.as_slice());
    if d.len() != 4 {
        return None;
    }
    let hs = sub_chars(d.as_slice(), 0, 2);
    let ms = sub_chars(d.as_slice(), 2, 4);
    assert(hs@ =~= d@.take(2));
    proof {
        lemma_parse_short(d@.take(2));
        lemma_parse_short(d@.subrange(2, 4));
    }
    let zh = match parse_i64(hs.as_slice()) {
        Some(v) => v,
        None => return None,
    };
    let zm = match parse_i64(ms.as_slice()) {
        Some(v) => v,
        None => return None,
    };
    if zh > 14 || zm > 59 {
        return None;
    }
    let mag = (zh * 3600 + zm * 60) * 1000;
    if sign == 1 {
        Some(mag)
    } else {
        Some(-mag)
    }
}

/// Parses the `datePublished` timestamp of a watch page (or a bare date)
/// into milliseconds since the epoch.
///
/// The caller guarantees that the zone digits, when the parser reaches
/// them, are not four bytes cut inside a character at byte 2 (slicing
/// there panics).
pub fn parse_iso_datetime(s: &str) -> (r: Option<i64>)
    requires
        iso_zone_digits(s@) matches Some(d) ==> !(byte_len(d) == 4 && !is_boundary(d, 2)),
    ensures
        as_int_opt(r) == iso_millis(s@),
{
    let raw = chars_of(s);
    let t = trim_chars(raw.as_slice());
    if t.len() < 10 || t[4] != '-' || t[7] != '-' {
        return None;
    }
    let date = sub_chars(t.as_slice(), 0, 10);
    assert(date@ =~= t@.take(10));
    let days = match ymd_days(date.as_slice()) {
        Some(d) => d,
        None => return None,
    };
    let dm = days * MILLIS_PER_DAY;
    let after_date = sub_chars(t.as_slice(), 10, t.len());
    assert(after_date@ =~= t@.skip(10));
    let rest = trim_chars(after_date.as_slice());
    if rest.len() == 0 {
        return Some(dm);
    }
    if rest[0] != 'T' {
        return None;
    }
    let mut te: usize = 0;
    while te < rest.len() && !(rest[te] == 'Z' || rest[te] == '+' || rest[te] == '-')
        invariant
            te <= rest@.len(),
            zone_start_from(rest@, 0) == zone_start_from(rest@, te as int),
        decreases rest@.len() - te,
    {
        te += 1;
    }
    assert(te >= 1);
    let clock_raw = sub_chars(rest.as_slice(), 1, te);
    let zone_raw = sub_chars(rest.as_slice(), te, rest.len());
    assert(zone_raw@ =~= rest@.skip(te as int));
    let clock = trim_chars(clock_raw.as_slice());
    let zone = trim_chars(zone_raw.as_slice());
    let cm = match clock_millis_exec(clock.as_slice()) {
        Some(c) => c,
        None => return None,
    };
    proof {
        reveal_strlit("Z");
    }
    if zone.len() == 0 || (zone.len() == 1 && zone[0] == 'Z') {
        assert(zone.len() == 1 && zone[0] == 'Z' ==> zone@ =~= "Z"@);
        return Some(dm + cm);
    }
    assert(zone@ != "Z"@);
    match zone_offset_exec(zone.as_slice()) {
        Some(off) => Some(dm + cm - off),
        None => None,
    }
}

} // verus!

verus! {

/// Whether `parse_iso_datetime` can read `s`: the zone digits it reaches,
/// if any, are not four bytes cut inside a character at byte 2.
pub fn iso_datetime_is_readable(s: &str) -> (r: bool)
    ensures
        r == (iso_zone_digits(s@) matches Some(d) ==> !(byte_len(d) == 4 && !is_boundary(d, 2))),
{
    let raw = chars_of(s);
    let t = trim_chars(raw.as_slice());
    if t.len() < 10 || t[4] != '-' || t[7] != '-' {
        return true;
    }
    let date = sub_chars(t.as_slice(), 0, 10);
    assert(date@ =~= t@.take(10));
    if ymd_days(date.as_slice()).is_none() {
        return true;
    }
    let after_date = sub_chars(t.as_slice(), 10, t.len());
    assert(after_date@ =~= t@.skip(10));
    let rest = trim_chars(after_date.as_slice());
    if rest.len() == 0 || rest[0] != 'T' {
        return true;
    }
    let mut te: usize = 0;
    while te < rest.len() && !(rest[te] == 'Z' || rest[te] == '+' || rest[te] == '-')
        invariant
            te <= rest@.len(),
            zone_start_from(rest@, 0) == zone_start_from(rest@, te as int),
        decreases rest@.len() - te,
    {
        te += 1;
    }
    assert(te >= 1);
    let clock_raw = sub_chars(rest.as_slice(), 1, te);
    let zone_raw = sub_chars(rest.as_slice(), te, rest.len());
    assert(zone_raw@ =~= rest@.skip(te as int));
    let clock = trim_chars(clock_raw.as_slice());
    let zone = trim_chars(zone_raw.as_slice());
    if clock_millis_exec(clock.as_slice()).is_none() {
        return true;
    }
    proof {
        reveal_strlit("Z");
    }
    if zone.len() == 0 || (zone.len() == 1 && zone[0] == 'Z') {
        assert(zone.len() == 1 && zone[0] == 'Z' ==> zone@ =~= "Z"@);
        return true;
    }
    assert(zone@ != "Z"@);
    if !(zone[0] == '+' || zone[0] == '-') {
        return true;
    }
    let tail = sub_chars(zone.as_slice(), 1, zone.len());
    assert(tail@ =~= zone@.skip(1));
    let d = remove_colons_exec(tail.as_slice());
    let ds = crate::text::string_of(d.as_slice());
    !(crate::text::utf8_len(ds.as_str()) == 4 && !crate::text::is_boundary_at(ds.as_str(), 2))
}

} // verus!
