//! Reading values out of a video watch page and decoding HTML entities.

use vstd::prelude::*;

use crate::numbers::{in_range, parse_hex, parse_hex_u32, parse_u32, parse_unsigned};
use crate::text::{
    chars_contains, chars_eq, chars_find, chars_of, chars_starts_with, contains, find, push_all,
    starts_with, string_of, sub_chars,
};

verus! {

/// The code points that are Unicode scalar values, which `char::from_u32`
/// accepts.
pub open spec fn is_scalar(u: int) -> bool {
    0 <= u <= 0x10FFFF && !(0xD800 <= u <= 0xDFFF)
}

/// `char::from_u32` gives the character with code `i` exactly when `i` is a
/// Unicode scalar value (at most `0x10FFFF` and not a surrogate).
pub assume_specification[ char::from_u32 ](i: u32) -> (r: Option<char>)
    ensures
        r is Some <==> is_scalar(i as int),
        r matches Some(c) ==> c as int == i as int,
;

/// The text of `html` after the first `pat` and before the next `end`.
pub open spec fn capture(html: Seq<char>, pat: Seq<char>, end: char) -> Option<Seq<char>> {
    match find(html, pat) {
        Some(i) => {
            let rest = html.skip(i + pat.len());
            match find(rest, seq![end]) {
                Some(j) => Some(rest.take(j)),
                None => None,
            }
        },
        None => None,
    }
}

/// Cuts the text between the first `pat` and the next `end` out of `html`.
pub fn html_capture(html: &str, pat: &str, end: char) -> (r: Option<String>)
    ensures
        match r {
            Some(t) => capture(html@, pat@, end) == Some(t@),
            None => capture(html@, pat@, end) is None,
        },
{
    let h = chars_of(html);
    let p = chars_of(pat);
    let i = match chars_find(h.as_slice(), p.as_slice()) {
        Some(i) => i,
        None => return None,
    };
    let n = h.len();
    assert(i + p@.len() <= n);
    let start = i + p.len();
    let rest = sub_chars(h.as_slice(), start, n);
    assert(rest@ =~= h@.skip(i + p@.len()));
    let e = vec![end];
    assert(e@ =~= seq![end]);
    match chars_find(rest.as_slice(), e.as_slice()) {
        Some(j) => Some(string_of(sub_chars(rest.as_slice(), 0, j).as_slice())),
        None => None,
    }
}

/// `s` without its leading `x` characters (`trim_start_matches('x')`).
pub open spec fn trim_x(s: Seq<char>) -> Seq<char>
    decreases s.len(),
{
    if s.len() > 0 && s[0] == 'x' {
        trim_x(s.drop_first())
    } else {
        s
    }
}

/// The character whose code is `u`.
pub open spec fn scalar_char(u: int) -> char {
    choose|c: char| #[trigger] code_of(c) == u
}

pub open spec fn code_of(c: char) -> int {
    c as int
}

/// The code of a numeric reference `&#...;`, decimal or (after `x`)
/// hexadecimal, within the `u32` range.
pub open spec fn numeric_code(entity: Seq<char>) -> Option<int> {
    let num = trim_x(entity.subrange(2, entity.len() - 1));
    if starts_with(entity.skip(2), "x"@) {
        in_range(parse_hex(num), 0, u32::MAX as int)
    } else {
        in_range(parse_unsigned(num), 0, u32::MAX as int)
    }
}

/// What an entity `&...;` stands for: `&amp;`, `&quot;`, `&#39;`, `&apos;`,
/// `&lt;`, `&gt;` and numeric references to scalar values are decoded;
/// anything else stays as written.
pub open spec fn decode_entity(e: Seq<char>) -> Seq<char> {
    if e == "&amp;"@ {
        seq!['&']
    } else if e == "&quot;"@ {
        seq!['"']
    } else if e == "&#39;"@ || e == "&apos;"@ {
        seq!['\'']
    } else if e == "&lt;"@ {
        seq!['<']
    } else if e == "&gt;"@ {
        seq!['>']
    } else if starts_with(e, "&#"@) {
        match numeric_code(e) {
            Some(u) => if is_scalar(u) {
                seq![scalar_char(u)]
            } else {
                e
            },
            None => e,
        }
    } else {
        e
    }
}

/// `raw` with its entities decoded from left to right. An entity is an `&`,
/// a name with no `&` in it, and a `;`. An `&` that starts no entity is kept
/// as one character and decoding goes on right after it; once no `;` is left,
/// the rest stays as written.
pub open spec fn unescape(raw: Seq<char>) -> Seq<char>
    decreases raw.len(),
{
    match find(raw, "&"@) {
        None => raw,
        Some(i) => {
            let r = raw.skip(i);
            match find(r, ";"@) {
                None => raw,
                Some(j) => if 0 <= i && 1 <= j && i + j + 1 <= raw.len() {
                    if contains(r.subrange(1, j), "&"@) {
                        raw.take(i) + seq!['&'] + unescape(r.skip(1))
                    } else {
                        raw.take(i) + decode_entity(r.take(j + 1)) + unescape(r.skip(j + 1))
                    }
                } else {
                    raw
                },
            }
        },
    }
}

fn trim_x_exec(v: &[char], lo: usize, hi: usize) -> (r: usize)
    requires
        lo <= hi <= v@.len(),
    ensures
        lo <= r <= hi,
        v@.subrange(r as int, hi as int) == trim_x(v@.subrange(lo as int, hi as int)),
{
    let mut a = lo;
    while a < hi && v[a] == 'x'
        invariant
            lo <= a <= hi <= v@.len(),
            trim_x(v@.subrange(lo as int, hi as int)) == trim_x(v@.subrange(a as int, hi as int)),
        decreases hi - a,
    {
        assert(v@.subrange(a as int, hi as int).drop_first() =~= v@.subrange(a + 1, hi as int));
        a += 1;
    }
    a
}

fn lit_eq(e: &[char], lit: &str) -> (r: bool)
    ensures
        r == (e@ == lit@),
{
    let l = chars_of(lit);
    chars_eq(e, l.as_slice())
}

fn decode_entity_exec(e: &[char]) -> (r: Vec<char>)
    requires
        e@.len() >= 1,
        e@.last() == ';',
    ensures
        r@ == decode_entity(e@),
{
    if lit_eq(e, "&amp;") {
        return vec!['&'];
    }
    if lit_eq(e, "&quot;") {
        return vec!['"'];
    }
    if lit_eq(e, "&#39;") || lit_eq(e, "&apos;") {
        return vec!['\''];
    }
    if lit_eq(e, "&lt;") {
        return vec!['<'];
    }
    if lit_eq(e, "&gt;") {
        return vec!['>'];
    }
    proof {
        reveal_strlit("&#");
        reveal_strlit("x");
    }
    let amp_hash = chars_of("&#");
    if !chars_starts_with(e, amp_hash.as_slice()) {
        let r = sub_chars(e, 0, e.len());
        assert(r@ =~= e@);
        return r;
    }
    assert(e@.len() >= 3) by {
        assert(e@.subrange(0, 2) == "&#"@);
        assert(e@.subrange(0, 2)[1] == e@[1]);
    }
    let a = trim_x_exec(e, 2, e.len() - 1);
    let num = sub_chars(e, a, e.len() - 1);
    let is_hex = e[2] == 'x';
    assert(is_hex == starts_with(e@.skip(2), "x"@)) by {
        assert(e@.skip(2).subrange(0, 1) =~= seq![e@[2]]);
        assert("x"@ =~= seq!['x']);
        if !is_hex {
            assert(seq![e@[2]][0] != seq!['x'][0]);
        }
    }
    let code = if is_hex {
        parse_hex_u32(num.as_slice())
    } else {
        parse_u32(num.as_slice())
    };
    match code {
        Some(u) => match char::from_u32(u) {
            Some(c) => {
                let r = vec![c];
                assert(c == scalar_char(u as int)) by {
                    assert(code_of(c) == u);
                    let d = scalar_char(u as int);
                    assert(code_of(d) == u);
                }
                r
            },
            None => {
                let r = sub_chars(e, 0, e.len());
                assert(r@ =~= e@);
                r
            },
        },
        None => {
            let r = sub_chars(e, 0, e.len());
            assert(r@ =~= e@);
            r
        },
    }
}

} // verus!

verus! {

/// Decodes the HTML entities of a `<meta content="...">` value.
pub fn html_unescape(raw: &str) -> (r: String)
    ensures
        r@ == unescape(raw@),
{
    proof {
        reveal_strlit("&");
        reveal_strlit(";");
    }
    let amp = chars_of("&");
    let semi = chars_of(";");
    let mut out: Vec<char> = Vec::new();
    let mut rest = chars_of(raw);
    loop
        invariant_except_break
            out@ + unescape(rest@) == unescape(raw@),
        invariant
            amp@ == "&"@,
            semi@ == ";"@,
            amp@.len() == 1,
            semi@.len() == 1,
        ensures
            out@ == unescape(raw@),
        decreases rest@.len(),
    {
        let i = match chars_find(rest.as_slice(), amp.as_slice()) {
            Some(i) => i,
            None => {
                push_all(&mut out, rest.as_slice());
                break ;
            },
        };
        let n = rest.len();
        assert(i + 1 <= n);
        let r = sub_chars(rest.as_slice(), i, n);
        assert(r@ =~= rest@.skip(i as int));
        let j = match chars_find(r.as_slice(), semi.as_slice()) {
            Some(j) => j,
            None => {
                push_all(&mut out, rest.as_slice());
                break ;
            },
        };
        let rn = r.len();
        assert(j + 1 <= rn);
        assert(r@[0] == '&') by {
            reveal_strlit("&");
            assert(rest@.subrange(i as int, i + 1) == amp@);
            assert(rest@.subrange(i as int, i + 1)[0] == rest@[i as int]);
        }
        assert(j >= 1) by {
            reveal_strlit(";");
            if j == 0 {
                assert(r@.subrange(0, 1) == semi@);
                assert(r@.subrange(0, 1)[0] == r@[0]);
            }
        }
        let name = sub_chars(r.as_slice(), 1, j);
        let bare = chars_contains(name.as_slice(), amp.as_slice());
        let ghost old_out = out@;
        let ghost old_rest = rest@;
        if bare {
            push_all(&mut out, sub_chars(rest.as_slice(), 0, i).as_slice());
            out.push('&');
            rest = sub_chars(r.as_slice(), 1, rn);
            assert(rest@ =~= r@.skip(1));
            assert(unescape(old_rest) == old_rest.take(i as int) + seq!['&'] + unescape(rest@));
            assert(out@ + unescape(rest@) =~= old_out + unescape(old_rest));
        } else {
            let entity = sub_chars(r.as_slice(), 0, j + 1);
            assert(entity@.last() == ';') by {
                reveal_strlit(";");
                assert(entity@.last() == r@[j as int]);
                assert(r@.subrange(j as int, j + 1) == semi@);
                assert(r@.subrange(j as int, j + 1)[0] == r@[j as int]);
            }
            push_all(&mut out, sub_chars(rest.as_slice(), 0, i).as_slice());
            push_all(&mut out, decode_entity_exec(entity.as_slice()).as_slice());
            rest = sub_chars(r.as_slice(), j + 1, rn);
            assert(rest@ =~= r@.skip(j + 1));
            assert(entity@ =~= r@.take(j + 1));
            assert(unescape(old_rest) == old_rest.take(i as int) + decode_entity(r@.take(j + 1))
                + unescape(rest@));
            assert(out@ + unescape(rest@) =~= old_out + unescape(old_rest));
        }
    }
    string_of(out.as_slice())
}

/// `("bvid", id)` for a `BV`/`bv` id, `("aid", id)` for an all-digit id,
/// and `("bvid", id)` for anything else.
pub open spec fn bili_key(video_id: Seq<char>) -> Seq<char> {
    if starts_with(video_id, "BV"@) || starts_with(video_id, "bv"@) {
        "bvid"@
    } else if video_id.len() > 0 && forall|i: int|
        0 <= i < video_id.len() ==> '0' <= #[trigger] video_id[i] <= '9' {
        "aid"@
    } else {
        "bvid"@
    }
}

/// The query parameter under which the Bilibili view API takes `video_id`.
pub fn bili_query_param(video_id: &str) -> (r: (&'static str, String))
    ensures
        r.0@ == bili_key(video_id@),
        r.1@ == video_id@,
{
    let v = chars_of(video_id);
    let bv = chars_of("BV");
    let bv_lower = chars_of("bv");
    let id = string_of(v.as_slice());
    if chars_starts_with(v.as_slice(), bv.as_slice()) || chars_starts_with(
        v.as_slice(),
        bv_lower.as_slice(),
    ) {
        return ("bvid", id);
    }
    if v.len() == 0 {
        return ("bvid", id);
    }
    let mut i: usize = 0;
    while i < v.len()
        invariant
            i <= v@.len(),
            v@ == video_id@,
            id@ == video_id@,
            !(starts_with(v@, "BV"@) || starts_with(v@, "bv"@)),
            v@.len() > 0,
            forall|k: int| 0 <= k < i ==> '0' <= #[trigger] v@[k] <= '9',
        decreases v@.len() - i,
    {
        if !('0' <= v[i] && v[i] <= '9') {
            return ("bvid", id);
        }
        i += 1;
    }
    ("aid", id)
}

} // verus!
