//! Version strings of the external tools and update decisions.

use vstd::prelude::*;

use std::cmp::Ordering;

use crate::numbers::{all_digits, digits_value, parse_u64};
use crate::text::{chars_of, concat, concat3, string_of, sub_chars};

verus! {

pub open spec fn is_version_char(c: char) -> bool {
    ('0' <= c && c <= '9') || c == '.'
}

/// Position of the first ASCII digit at or after `i`.
pub open spec fn first_digit_from(s: Seq<char>, i: int) -> Option<int>
    decreases s.len() - i,
{
    if i < 0 || i >= s.len() {
        None
    } else if '0' <= s[i] && s[i] <= '9' {
        Some(i)
    } else {
        first_digit_from(s, i + 1)
    }
}

/// Position of the first character at or after `i` that is neither an
/// ASCII digit nor a dot, or the length.
pub open spec fn version_end_from(s: Seq<char>, i: int) -> int
    decreases s.len() - i,
{
    if i < 0 || i >= s.len() {
        s.len() as int
    } else if !is_version_char(s[i]) {
        i
    } else {
        version_end_from(s, i + 1)
    }
}

/// `s` without trailing dots.
pub open spec fn trim_dots_end(s: Seq<char>) -> Seq<char>
    decreases s.len(),
{
    if s.len() > 0 && s.last() == '.' {
        trim_dots_end(s.drop_last())
    } else {
        s
    }
}

/// The version number inside a tool's version text or release tag: the
/// run of digits and dots that starts at the first digit, trailing dots
/// dropped (`v2.9.5` gives `2.9.5`, `8.0.1-essentials` gives `8.0.1`).
pub open spec fn version_token_of(s: Seq<char>) -> Option<Seq<char>> {
    match first_digit_from(s, 0) {
        None => None,
        Some(start) => {
            let c = s.skip(start);
            let t = trim_dots_end(c.take(version_end_from(c, 0)));
            if t.len() > 0 {
                Some(t)
            } else {
                None
            }
        },
    }
}

/// Finds the version number in `value`.
pub fn version_token(value: &str) -> (r: Option<String>)
    ensures
        match r {
            Some(t) => version_token_of(value@) == Some(t@),
            None => version_token_of(value@) is None,
        },
{
    let v = chars_of(value);
    let n = v.len();
    let mut start: usize = 0;
    while start < n && !('0' <= v[start] && v[start] <= '9')
        invariant
            n == v@.len(),
            start <= n,
            first_digit_from(v@, 0) == first_digit_from(v@, start as int),
        decreases n - start,
    {
        start += 1;
    }
    if start == n {
        return None;
    }
    let ghost c = v@.skip(start as int);
    let mut end: usize = start;
    while end < n && (('0' <= v[end] && v[end] <= '9') || v[end] == '.')
        invariant
            n == v@.len(),
            start <= end <= n,
            c == v@.skip(start as int),
            version_end_from(c, 0) == version_end_from(c, end - start),
        decreases n - end,
    {
        end += 1;
    }
    assert(version_end_from(c, 0) == end - start);
    assert(c.take(end - start) =~= v@.subrange(start as int, end as int));
    let mut e = end;
    while e > start && v[e - 1] == '.'
        invariant
            start <= e <= end <= n,
            n == v@.len(),
            trim_dots_end(c.take(end - start)) == trim_dots_end(v@.subrange(start as int, e as int)),
            c == v@.skip(start as int),
        decreases e - start,
    {
        assert(v@.subrange(start as int, e as int).drop_last() =~= v@.subrange(
            start as int,
            e - 1,
        ));
        e -= 1;
    }
    assert(c.take(end - start) =~= v@.subrange(start as int, end as int));
    assert(trim_dots_end(v@.subrange(start as int, e as int)) == v@.subrange(
        start as int,
        e as int,
    ));
    if e == start {
        return None;
    }
    Some(string_of(sub_chars(v.as_slice(), start, e).as_slice()))
}

} // verus!

verus! {

/// The pieces of `s` between the occurrences of `c` (`str::split`).
pub open spec fn split_char(s: Seq<char>, c: char) -> Seq<Seq<char>>
    decreases s.len(),
{
    match crate::text::find(s, seq![c]) {
        None => seq![s],
        Some(i) => if 0 <= i < s.len() {
            seq![s.take(i)] + split_char(s.skip(i + 1), c)
        } else {
            seq![s]
        },
    }
}

/// The text with which `str::parse::<u64>` rejects a piece of a version.
pub open spec fn int_error_text(p: Seq<char>) -> Seq<char> {
    let d = if p.len() > 0 && p[0] == '+' {
        p.drop_first()
    } else {
        p
    };
    if p.len() == 0 {
        "cannot parse integer from empty string"@
    } else if d.len() == 0 || !all_digits(d) {
        "invalid digit found in string"@
    } else {
        "number too large to fit in target type"@
    }
}

pub open spec fn u64_of(p: Seq<char>) -> Option<int> {
    crate::numbers::in_range(crate::numbers::parse_unsigned(p), 0, u64::MAX as int)
}

/// The numbers of `pieces`, or the error for the first one that is no
/// `u64`.
pub open spec fn parse_pieces(pieces: Seq<Seq<char>>, value: Seq<char>) -> Result<
    Seq<int>,
    Seq<char>,
>
    decreases pieces.len(),
{
    if pieces.len() == 0 {
        Ok(seq![])
    } else {
        match u64_of(pieces[0]) {
            Some(v) => match parse_pieces(pieces.drop_first(), value) {
                Ok(rest) => Ok(seq![v] + rest),
                Err(e) => Err(e),
            },
            None => Err("err_invalid_tool_version:"@ + value + ":"@ + int_error_text(pieces[0])),
        }
    }
}

/// The numeric segments of the version number in `value`.
pub open spec fn version_parts_of(value: Seq<char>) -> Result<Seq<int>, Seq<char>> {
    match version_token_of(value) {
        None => Err("err_invalid_tool_version:"@ + value),
        Some(t) => parse_pieces(split_char(t, '.'), value),
    }
}

pub open spec fn prepend_ok(prefix: Seq<int>, r: Result<Seq<int>, Seq<char>>) -> Result<
    Seq<int>,
    Seq<char>,
> {
    match r {
        Ok(v) => Ok(prefix + v),
        Err(e) => Err(e),
    }
}

pub open spec fn u64s_view(v: Seq<u64>) -> Seq<int> {
    v.map_values(|x: u64| x as int)
}

pub open spec fn result_view(r: Result<Vec<u64>, String>) -> Result<Seq<int>, Seq<char>> {
    match r {
        Ok(v) => Ok(u64s_view(v@)),
        Err(e) => Err(e@),
    }
}

fn int_error_text_exec(p: &[char]) -> (r: &'static str)
    ensures
        r@ == int_error_text(p@),
{
    if p.len() == 0 {
        return "cannot parse integer from empty string";
    }
    let start: usize = if p[0] == '+' {
        1
    } else {
        0
    };
    let ghost d = if p@.len() > 0 && p@[0] == '+' {
        p@.drop_first()
    } else {
        p@
    };
    assert(d =~= p@.subrange(start as int, p@.len() as int));
    if start == p.len() {
        return "invalid digit found in string";
    }
    let mut i = start;
    while i < p.len()
        invariant
            p@.len() > 0,
            d == (if p@.len() > 0 && p@[0] == '+' {
                p@.drop_first()
            } else {
                p@
            }),
            start <= i <= p@.len(),
            d =~= p@.subrange(start as int, p@.len() as int),
            forall|k: int| start <= k < i ==> crate::text::is_digit(#[trigger] p@[k]),
        decreases p@.len() - i,
    {
        if !('0' <= p[i] && p[i] <= '9') {
            assert(d[i - start] == p@[i as int]);
            return "invalid digit found in string";
        }
        i += 1;
    }
    assert(all_digits(d)) by {
        assert forall|k: int| 0 <= k < d.len() implies crate::text::is_digit(#[trigger] d[k]) by {
            assert(d[k] == p@[k + start]);
        }
    }
    "number too large to fit in target type"
}

/// The numeric segments of the version number in `value`, such as
/// `[2026, 7, 4]` for `2026.07.04`.
pub fn version_parts(value: &str) -> (r: Result<Vec<u64>, String>)
    ensures
        result_view(r) == version_parts_of(value@),
{
    let token = match version_token(value) {
        Some(t) => t,
        None => return Err(concat("err_invalid_tool_version:", value)),
    };
    let t = chars_of(token.as_str());
    let mut out: Vec<u64> = Vec::new();
    let mut rest = t;
    loop
        invariant_except_break
            prepend_ok(u64s_view(out@), parse_pieces(split_char(rest@, '.'), value@))
                == parse_pieces(split_char(token@, '.'), value@),
        invariant
            version_token_of(value@) == Some(token@),
        ensures
            Ok::<Seq<int>, Seq<char>>(u64s_view(out@)) == parse_pieces(
                split_char(token@, '.'),
                value@,
            ),
        decreases rest@.len(),
    {
        let ghost old_out = out@;
        let ghost old_rest = rest@;
        let (head, tail) = crate::text::split_once_char(rest.as_slice(), '.');
        assert(split_char(old_rest, '.')[0] == head@ && split_char(old_rest, '.').drop_first() == (
        match tail {
            Some(t) => split_char(t@, '.'),
            None => Seq::<Seq<char>>::empty(),
        })) by {
            crate::text::lemma_after_shorter(old_rest, '.');
            match crate::text::find(old_rest, seq!['.']) {
                Some(i) => {
                    assert(split_char(old_rest, '.') == seq![old_rest.take(i)] + split_char(
                        old_rest.skip(i + 1),
                        '.',
                    ));
                },
                None => {},
            }
        }
        let v = match parse_u64(head.as_slice()) {
            Some(v) => v,
            None => {
                let msg = int_error_text_exec(head.as_slice());
                let e = concat3("err_invalid_tool_version:", value, ":");
                let e = concat(e.as_str(), msg);
                assert(split_char(old_rest, '.').len() > 0);
                assert(parse_pieces(split_char(old_rest, '.'), value@) == Err::<Seq<int>, Seq<char>>(
                    e@));
                return Err(e);
            },
        };
        out.push(v);
        assert(u64s_view(out@) =~= u64s_view(old_out) + seq![v as int]);
        match tail {
            Some(t) => {
                proof {
                    crate::text::lemma_after_shorter(old_rest, '.');
                    let pieces = split_char(old_rest, '.');
                    assert(pieces.drop_first() == split_char(t@, '.'));
                    match parse_pieces(split_char(t@, '.'), value@) {
                        Ok(r) => {
                            assert(parse_pieces(pieces, value@) == Ok::<Seq<int>, Seq<char>>(
                                seq![v as int] + r));
                            assert(u64s_view(old_out) + (seq![v as int] + r) =~= u64s_view(out@)
                                + r);
                        },
                        Err(e) => {},
                    }
                }
                rest = t;
            },
            None => {
                assert(split_char(old_rest, '.') =~= seq![head@]);
                assert(seq![head@].drop_first() =~= Seq::<Seq<char>>::empty());
                assert(parse_pieces(Seq::<Seq<char>>::empty(), value@) == Ok::<
                    Seq<int>,
                    Seq<char>,
                >(Seq::<int>::empty()));
                assert(seq![v as int] + Seq::<int>::empty() =~= seq![v as int]);
                assert(parse_pieces(seq![head@], value@) == Ok::<Seq<int>, Seq<char>>(
                    seq![v as int]));
                break ;
            },
        }
    }
    let mut r: Vec<u64> = Vec::new();
    let mut i: usize = 0;
    while i < out.len()
        invariant
            i <= out@.len(),
            r@ == out@.take(i as int),
        decreases out@.len() - i,
    {
        r.push(out[i]);
        i += 1;
        assert(r@ =~= out@.take(i as int));
    }
    assert(r@ =~= out@);
    Ok(r)
}

} // verus!

verus! {

/// `-1`, `0` or `1` as version `a` is older than, equal to or newer than
/// `b`, comparing segments from position `i` on, a missing segment counting
/// as `0`.
pub open spec fn version_order(a: Seq<int>, b: Seq<int>, i: int) -> int
    decreases (if a.len() > b.len() {
        a.len()
    } else {
        b.len()
    }) - i,
{
    if i < 0 || (i >= a.len() && i >= b.len()) {
        0
    } else {
        let x = if i < a.len() {
            a[i]
        } else {
            0
        };
        let y = if i < b.len() {
            b[i]
        } else {
            0
        };
        if x < y {
            -1
        } else if x > y {
            1
        } else {
            version_order(a, b, i + 1)
        }
    }
}

pub open spec fn usize_int(i: usize) -> int {
    i as int
}

pub open spec fn ordering_value(o: Ordering) -> int {
    match o {
        Ordering::Less => -1,
        Ordering::Equal => 0,
        Ordering::Greater => 1,
    }
}

/// Compares the version numbers in `left` and `right` segment by segment.
pub fn compare_versions(left: &str, right: &str) -> (r: Result<Ordering, String>)
    ensures
        match version_parts_of(left@) {
            Err(e) => r matches Err(x) && x@ == e,
            Ok(a) => match version_parts_of(right@) {
                Err(e) => r matches Err(x) && x@ == e,
                Ok(b) => r matches Ok(o) && ordering_value(o) == version_order(a, b, 0),
            },
        },
{
    let a = match version_parts(left) {
        Ok(a) => a,
        Err(e) => return Err(e),
    };
    let b = match version_parts(right) {
        Ok(b) => b,
        Err(e) => return Err(e),
    };
    let length = if a.len() > b.len() {
        a.len()
    } else {
        b.len()
    };
    let mut i: usize = 0;
    while i < length
        invariant
            length == (if a@.len() > b@.len() {
                a@.len()
            } else {
                b@.len()
            }),
            i <= length,
            version_parts_of(left@) == Ok::<Seq<int>, Seq<char>>(u64s_view(a@)),
            version_parts_of(right@) == Ok::<Seq<int>, Seq<char>>(u64s_view(b@)),
            version_order(u64s_view(a@), u64s_view(b@), 0) == version_order(
                u64s_view(a@),
                u64s_view(b@),
                usize_int(i),
            ),
        decreases length - i,
    {
        let x: u64 = if i < a.len() {
            a[i]
        } else {
            0
        };
        let y: u64 = if i < b.len() {
            b[i]
        } else {
            0
        };
        proof {
            let ii = usize_int(i);
            assert(u64s_view(a@).len() == a@.len());
            assert(u64s_view(b@).len() == b@.len());
            if ii < a@.len() {
                assert(u64s_view(a@)[ii] == a@[ii]);
            }
            if ii < b@.len() {
                assert(u64s_view(b@)[ii] == b@[ii]);
            }
        }
        if x < y {
            return Ok(Ordering::Less);
        }
        if x > y {
            return Ok(Ordering::Greater);
        }
        i += 1;
    }
    Ok(Ordering::Equal)
}

} // verus!

verus! {

/// The version that a tool's first `--version` line reports: for FFmpeg
/// the word after `ffmpeg version `, for Deno the text after `deno `, for
/// anything else the whole line.
pub open spec fn reported_version(tool: Seq<char>, first_line: Seq<char>) -> Seq<char> {
    if tool == "ffmpeg"@ {
        crate::text::first_word(crate::text::strip_prefix_or_self(first_line, "ffmpeg version "@))
    } else if tool == "deno"@ {
        crate::text::strip_prefix_or_self(first_line, "deno "@)
    } else {
        first_line
    }
}

/// Extracts the plain version from the first line of `--version` output.
pub fn parse_version(tool: &str, first_line: &str) -> (r: String)
    ensures
        r@ == reported_version(tool@, first_line@),
{
    let line = chars_of(first_line);
    if crate::text::str_eq(tool, "ffmpeg") {
        let p = chars_of("ffmpeg version ");
        let rest = crate::text::strip_prefix_chars(line.as_slice(), p.as_slice());
        string_of(crate::text::first_word_chars(rest.as_slice()).as_slice())
    } else if crate::text::str_eq(tool, "deno") {
        let p = chars_of("deno ");
        string_of(crate::text::strip_prefix_chars(line.as_slice(), p.as_slice()).as_slice())
    } else {
        string_of(line.as_slice())
    }
}

/// Result of an update check.
pub struct ToolUpdateCheck {
    pub update_available: bool,
    pub current_version: String,
    pub latest_version: String,
}

/// Compares the installed version text with the latest release tag: both
/// must contain a version number, and an update is available when the
/// release is newer.
pub open spec fn update_check_of(installed: Seq<char>, latest_tag: Seq<char>) -> Result<
    (bool, Seq<char>, Seq<char>),
    Seq<char>,
> {
    match version_token_of(installed) {
        None => Err("err_invalid_tool_version:"@ + installed),
        Some(cur) => match version_token_of(latest_tag) {
            None => Err("err_invalid_tool_version:"@ + latest_tag),
            Some(lat) => match version_parts_of(lat) {
                Err(e) => Err(e),
                Ok(a) => match version_parts_of(cur) {
                    Err(e) => Err(e),
                    Ok(b) => Ok((version_order(a, b, 0) == 1, cur, lat)),
                },
            },
        },
    }
}

pub open spec fn update_check_view(r: Result<ToolUpdateCheck, String>) -> Result<
    (bool, Seq<char>, Seq<char>),
    Seq<char>,
> {
    match r {
        Ok(c) => Ok((c.update_available, c.current_version@, c.latest_version@)),
        Err(e) => Err(e@),
    }
}

/// Decides whether the latest release tag is newer than the installed
/// version text.
pub fn evaluate_tool_update(installed_version: &str, latest_tag: &str) -> (r: Result<
    ToolUpdateCheck,
    String,
>)
    ensures
        update_check_view(r) == update_check_of(installed_version@, latest_tag@),
{
    let current_version = match version_token(installed_version) {
        Some(t) => t,
        None => return Err(concat("err_invalid_tool_version:", installed_version)),
    };
    let latest_version = match version_token(latest_tag) {
        Some(t) => t,
        None => return Err(concat("err_invalid_tool_version:", latest_tag)),
    };
    let ordering = compare_versions(latest_version.as_str(), current_version.as_str());
    let update_available = match ordering {
        Ok(Ordering::Greater) => true,
        Ok(_) => false,
        Err(e) => return Err(e),
    };
    Ok(ToolUpdateCheck { update_available, current_version, latest_version })
}

/// Refuses an update check for a tool that is not installed or that the
/// application does not update itself.
pub fn check_update_allowed(tool: &str, installed: bool, can_update: bool) -> (r: Result<
    (),
    String,
>)
    ensures
        !installed ==> (r matches Err(e) && e@ == "err_tool_not_installed:"@ + tool@),
        installed && !can_update ==> (r matches Err(e) && e@
            == "err_tool_update_not_supported:"@ + tool@),
        installed && can_update ==> r is Ok,
{
    if !installed {
        return Err(concat("err_tool_not_installed:", tool));
    }
    if !can_update {
        return Err(concat("err_tool_update_not_supported:", tool));
    }
    Ok(())
}


pub open spec fn max3(a: int, b: int, c: int) -> int {
    if a >= b && a >= c {
        a
    } else if b >= c {
        b
    } else {
        c
    }
}

/// Comparing two versions the other way round gives the opposite answer.
pub proof fn law_version_order_antisymmetric(a: Seq<int>, b: Seq<int>, i: int)
    ensures
        version_order(a, b, i) == -version_order(b, a, i),
    decreases (if a.len() > b.len() {
        a.len()
    } else {
        b.len()
    }) - i,
{
    if i < 0 || (i >= a.len() && i >= b.len()) {
    } else {
        law_version_order_antisymmetric(a, b, i + 1);
    }
}

/// A version compares equal to itself.
pub proof fn law_version_order_reflexive(a: Seq<int>, i: int)
    ensures
        version_order(a, a, i) == 0,
    decreases a.len() - i,
{
    if i < 0 || i >= a.len() {
    } else {
        law_version_order_reflexive(a, i + 1);
    }
}

/// A version not newer than a second one, which is not newer than a third,
/// is not newer than the third.
pub proof fn law_version_order_transitive(a: Seq<int>, b: Seq<int>, c: Seq<int>, i: int)
    requires
        version_order(a, b, i) <= 0,
        version_order(b, c, i) <= 0,
    ensures
        version_order(a, c, i) <= 0,
    decreases max3(a.len() as int, b.len() as int, c.len() as int) - i,
{
    if i < 0 || (i >= a.len() && i >= c.len()) {
    } else if i >= a.len() && i >= b.len() && i >= c.len() {
    } else {
        let x = if i < a.len() { a[i] } else { 0 };
        let y = if i < b.len() { b[i] } else { 0 };
        let z = if i < c.len() { c[i] } else { 0 };
        if x < z || x > z {
        } else {
            law_version_order_transitive(a, b, c, i + 1);
        }
    }
}

} // verus!

verus! {

/// An update is offered exactly when the installed version is older than
/// the latest release: never for the same version, and never when the
/// installed build is newer than the release.
pub proof fn law_update_only_to_a_newer_release(installed: Seq<char>, latest_tag: Seq<char>)
    ensures
        update_check_of(installed, latest_tag) matches Ok((available, cur, lat)) ==> (
        version_parts_of(cur) matches Ok(b) && version_parts_of(lat) matches Ok(a) && (available
            <==> version_order(b, a, 0) == -1)),
        update_check_of(installed, latest_tag) matches Ok((available, cur, lat)) ==> (
        version_parts_of(cur) matches Ok(b) && version_parts_of(lat) matches Ok(a) && (version_order(
            b,
            a,
            0,
        ) >= 0 ==> !available)),
{
    if let Ok((available, cur, lat)) = update_check_of(installed, latest_tag) {
        let a = version_parts_of(lat)->Ok_0;
        let b = version_parts_of(cur)->Ok_0;
        law_version_order_antisymmetric(a, b, 0);
    }
}

/// The same version is never offered as an update of itself.
pub proof fn law_no_update_to_the_same_version(version: Seq<char>)
    ensures
        update_check_of(version, version) matches Ok((available, _, _)) ==> !available,
{
    if let Some(t) = version_token_of(version) {
        if let Ok(a) = version_parts_of(t) {
            law_version_order_reflexive(a, 0);
        }
    }
}

} // verus!

verus! {

/// Segment `j` of a version, `0` past its end.
pub open spec fn segment(a: Seq<int>, j: int) -> int {
    if 0 <= j < a.len() {
        a[j]
    } else {
        0
    }
}

/// Versions are ordered by their first differing segment (a missing
/// segment counting as `0`): when `a` and `b` agree before segment `k` and
/// `a` has the larger segment `k`, `a` is the newer one.
pub proof fn law_first_differing_segment_decides(a: Seq<int>, b: Seq<int>, i: int, k: int)
    requires
        0 <= i <= k,
        forall|j: int| i <= j < k ==> segment(a, j) == segment(b, j),
        segment(a, k) > segment(b, k),
    ensures
        version_order(a, b, i) == 1,
    decreases k - i,
{
    if i < k {
        assert(segment(a, i) == segment(b, i));
        if i >= a.len() && i >= b.len() {
            assert(k >= a.len() && k >= b.len());
            assert(segment(a, k) == 0 && segment(b, k) == 0);
        } else {
            law_first_differing_segment_decides(a, b, i + 1, k);
        }
    } else {
        assert(!(i >= a.len() && i >= b.len()));
    }
}

} // verus!
