//! Cookies handed over by the browser extension: which requests are
//! accepted, and the Netscape cookie file written from them.

use vstd::prelude::*;

use crate::numbers::{i64_to_string, signed_decimal};
use crate::source::join;
use crate::sync::strings;
use crate::text::{
    chars_contains, chars_of, concat, contains, owned, starts_with, str_starts_with, utf8_len,
    byte_len,
};
use crate::ytdlp::join_with;

verus! {

/// Most cookies one import may carry.
pub const MAX_COOKIES: usize = 20000;

/// A cookie as the extension sends it; `expires` is the expiry in whole
/// seconds, 0 for a session cookie.
pub struct BrowserCookie {
    pub domain: String,
    pub host_only: bool,
    pub path: String,
    pub secure: bool,
    pub http_only: bool,
    pub expires: i64,
    pub name: String,
    pub value: String,
}

/// An import request: the page it came from, its id and its cookies.
pub struct CookieImport {
    pub url: String,
    pub request_id: String,
    pub cookies: Vec<BrowserCookie>,
}

/// A cookie field fits a line of the cookie file: no tab, carriage return
/// or line feed in it.
pub open spec fn field_ok(s: Seq<char>) -> bool {
    !contains(s, seq!['\t']) && !contains(s, seq!['\r']) && !contains(s, seq!['\n'])
}

/// Checks a cookie field (`invalid_cookie_field`).
pub fn validate_field(value: &str) -> (r: Result<(), String>)
    ensures
        r.is_ok() == field_ok(value@),
        r matches Err(e) ==> e@ == "invalid_cookie_field"@,
{
    let v = chars_of(value);
    let tab = vec!['\t'];
    let cr = vec!['\r'];
    let lf = vec!['\n'];
    assert(tab@ =~= seq!['\t']);
    assert(cr@ =~= seq!['\r']);
    assert(lf@ =~= seq!['\n']);
    if chars_contains(v.as_slice(), tab.as_slice()) || chars_contains(v.as_slice(), cr.as_slice())
        || chars_contains(v.as_slice(), lf.as_slice()) {
        Err(owned("invalid_cookie_field"))
    } else {
        Ok(())
    }
}

/// What is wrong with a cookie, if anything: a field that does not fit a
/// line, else an empty domain or name or a path not starting with `/`.
pub open spec fn cookie_error(c: BrowserCookie) -> Option<Seq<char>> {
    if !(field_ok(c.domain@) && field_ok(c.path@) && field_ok(c.name@) && field_ok(c.value@)) {
        Some("invalid_cookie_field"@)
    } else if c.domain@.len() == 0 || c.name@.len() == 0 || !starts_with(c.path@, "/"@) {
        Some("invalid_cookie"@)
    } else {
        None
    }
}

/// The line of a cookie in the Netscape cookie file.
pub open spec fn cookie_line(c: BrowserCookie) -> Seq<char> {
    c.domain@ + "\t"@ + (if c.host_only {
        "FALSE"@
    } else {
        "TRUE"@
    }) + "\t"@ + c.path@ + "\t"@ + (if c.secure {
        "TRUE"@
    } else {
        "FALSE"@
    }) + "\t"@ + signed_decimal(c.expires as int) + "\t"@ + c.name@ + "\t"@ + c.value@
}

/// Two cookies are the same cookie when domain, path and name agree.
pub open spec fn same_cookie(a: BrowserCookie, b: BrowserCookie) -> bool {
    a.domain@ == b.domain@ && a.path@ == b.path@ && a.name@ == b.name@
}

pub open spec fn seen_before(cs: Seq<BrowserCookie>, i: int) -> bool {
    exists|j: int| 0 <= j < i && same_cookie(#[trigger] cs[j], cs[i])
}

/// The cookie lines of `cs`, in order, each cookie once (its first
/// occurrence); the first faulty cookie's error instead.
pub open spec fn cookie_lines(cs: Seq<BrowserCookie>) -> Result<Seq<Seq<char>>, Seq<char>>
    decreases cs.len(),
{
    if cs.len() == 0 {
        Ok(seq![])
    } else {
        match cookie_lines(cs.drop_last()) {
            Err(e) => Err(e),
            Ok(prev) => match cookie_error(cs.last()) {
                Some(e) => Err(e),
                None => if seen_before(cs, cs.len() - 1) {
                    Ok(prev)
                } else {
                    Ok(prev.push(cookie_line(cs.last())))
                },
            },
        }
    }
}

pub open spec fn header_lines() -> Seq<Seq<char>> {
    seq!["# Netscape HTTP Cookie File"@, "# Generated locally by YDL GUI Browser Extension"@]
}

/// What an import yields: refused for an address that is not `http(s)`, a
/// request id outside 8 to 128 bytes, too many cookies or a faulty cookie;
/// else the cookie file's text (none when no cookie is left) and the number
/// of cookies in it.
pub open spec fn import_outcome(imp: CookieImport) -> Result<(Option<Seq<char>>, nat), Seq<char>> {
    if !starts_with(imp.url@, "https://"@) && !starts_with(imp.url@, "http://"@) {
        Err("invalid_url"@)
    } else if byte_len(imp.request_id@) < 8 || byte_len(imp.request_id@) > 128 {
        Err("invalid_request_id"@)
    } else if imp.cookies@.len() > MAX_COOKIES {
        Err("too_many_cookies"@)
    } else {
        match cookie_lines(imp.cookies@) {
            Err(e) => Err(e),
            Ok(ls) => Ok(
                (
                    if ls.len() > 0 {
                        Some(join(header_lines() + ls, "\n"@) + "\n"@)
                    } else {
                        None
                    },
                    ls.len(),
                ),
            ),
        }
    }
}

fn cookie_error_of(c: &BrowserCookie) -> (r: Option<String>)
    ensures
        match r {
            Some(e) => cookie_error(*c) == Some(e@),
            None => cookie_error(*c) is None,
        },
{
    if validate_field(c.domain.as_str()).is_err() || validate_field(c.path.as_str()).is_err()
        || validate_field(c.name.as_str()).is_err() || validate_field(c.value.as_str()).is_err() {
        return Some(owned("invalid_cookie_field"));
    }
    if c.domain.as_str().is_empty() || c.name.as_str().is_empty() || !str_starts_with(
        c.path.as_str(),
        "/",
    ) {
        return Some(owned("invalid_cookie"));
    }
    None
}

fn line_of(c: &BrowserCookie) -> (r: String)
    ensures
        r@ == cookie_line(*c),
{
    let mut s = concat(c.domain.as_str(), "\t");
    s = concat(s.as_str(), if c.host_only { "FALSE" } else { "TRUE" });
    s = concat(s.as_str(), "\t");
    s = concat(s.as_str(), c.path.as_str());
    s = concat(s.as_str(), "\t");
    s = concat(s.as_str(), if c.secure { "TRUE" } else { "FALSE" });
    s = concat(s.as_str(), "\t");
    let e = i64_to_string(c.expires);
    s = concat(s.as_str(), e.as_str());
    s = concat(s.as_str(), "\t");
    s = concat(s.as_str(), c.name.as_str());
    s = concat(s.as_str(), "\t");
    s = concat(s.as_str(), c.value.as_str());
    s
}

fn same_cookie_exec(a: &BrowserCookie, b: &BrowserCookie) -> (r: bool)
    ensures
        r == same_cookie(*a, *b),
{
    crate::text::str_eq(a.domain.as_str(), b.domain.as_str()) && crate::text::str_eq(
        a.path.as_str(),
        b.path.as_str(),
    ) && crate::text::str_eq(a.name.as_str(), b.name.as_str())
}

fn seen_before_exec(cs: &Vec<BrowserCookie>, i: usize) -> (r: bool)
    requires
        i < cs@.len(),
    ensures
        r == seen_before(cs@, i as int),
{
    let mut j: usize = 0;
    while j < i
        invariant
            i < cs@.len(),
            j <= i,
            forall|k: int| 0 <= k < j ==> !same_cookie(#[trigger] cs@[k], cs@[i as int]),
        decreases i - j,
    {
        if same_cookie_exec(&cs[j], &cs[i]) {
            return true;
        }
        j += 1;
    }
    false
}

/// The cookie lines of an import's cookies (see `cookie_lines`).
pub fn import_cookie_lines(cookies: &Vec<BrowserCookie>) -> (r: Result<Vec<String>, String>)
    ensures
        match r {
            Ok(ls) => cookie_lines(cookies@) == Ok::<Seq<Seq<char>>, Seq<char>>(strings(ls@)),
            Err(e) => cookie_lines(cookies@) == Err::<Seq<Seq<char>>, Seq<char>>(e@),
        },
{
    let mut lines: Vec<String> = Vec::new();
    let mut i: usize = 0;
    assert(cookies@.take(0) =~= Seq::<BrowserCookie>::empty());
    assert(strings(lines@) =~= Seq::<Seq<char>>::empty());
    while i < cookies.len()
        invariant
            i <= cookies@.len(),
            cookie_lines(cookies@.take(i as int)) == Ok::<Seq<Seq<char>>, Seq<char>>(
                strings(lines@),
            ),
        decreases cookies.len() - i,
    {
        let ghost pre = cookies@.take(i + 1);
        assert(pre.drop_last() =~= cookies@.take(i as int));
        assert(pre.last() == cookies@[i as int]);
        let seen = seen_before_exec(cookies, i);
        assert(seen_before(pre, i as int) == seen_before(cookies@, i as int)) by {
            if seen_before(cookies@, i as int) {
                let j = choose|j: int| 0 <= j < i && same_cookie(#[trigger] cookies@[j], cookies@[i as int]);
                assert(pre[j] == cookies@[j]);
            }
            if seen_before(pre, i as int) {
                let j = choose|j: int| 0 <= j < i && same_cookie(#[trigger] pre[j], pre[i as int]);
                assert(pre[j] == cookies@[j]);
            }
        }
        match cookie_error_of(&cookies[i]) {
            Some(e) => {
                proof {
                    lemma_error_persists(cookies@, i as int + 1, e@);
                }
                assert(cookies@.take(cookies@.len() as int) =~= cookies@);
                return Err(e);
            },
            None => {},
        }
        if !seen {
            let ghost before = lines@;
            lines.push(line_of(&cookies[i]));
            assert(strings(lines@) =~= strings(before).push(cookie_line(cookies@[i as int])));
        }
        i += 1;
    }
    assert(cookies@.take(cookies@.len() as int) =~= cookies@);
    Ok(lines)
}

/// An error of a prefix's cookie lines is the error of every longer run.
proof fn lemma_error_persists(cs: Seq<BrowserCookie>, n: int, e: Seq<char>)
    requires
        0 <= n <= cs.len(),
        cookie_lines(cs.take(n)) == Err::<Seq<Seq<char>>, Seq<char>>(e),
    ensures
        cookie_lines(cs) == Err::<Seq<Seq<char>>, Seq<char>>(e),
    decreases cs.len() - n,
{
    if n < cs.len() {
        assert(cs.take(n + 1).drop_last() =~= cs.take(n));
        lemma_error_persists(cs, n + 1, e);
    } else {
        assert(cs.take(n) =~= cs);
    }
}

/// Checks an import and makes its cookie file (see `import_outcome`): the
/// file's text, when any cookie is left, and the number of cookies.
pub fn cookie_file_of(imp: &CookieImport) -> (r: Result<(Option<String>, usize), String>)
    ensures
        match import_outcome(*imp) {
            Ok((text, n)) => r matches Ok((t, m)) && m == n && match t {
                Some(x) => text == Some(x@),
                None => text is None,
            },
            Err(e) => r matches Err(x) && x@ == e,
        },
{
    if !str_starts_with(imp.url.as_str(), "https://") && !str_starts_with(
        imp.url.as_str(),
        "http://",
    ) {
        return Err(owned("invalid_url"));
    }
    let id_len = utf8_len(imp.request_id.as_str());
    if id_len < 8 || id_len > 128 {
        return Err(owned("invalid_request_id"));
    }
    if imp.cookies.len() > MAX_COOKIES {
        return Err(owned("too_many_cookies"));
    }
    let lines = match import_cookie_lines(&imp.cookies) {
        Ok(ls) => ls,
        Err(e) => return Err(e),
    };
    let n = lines.len();
    if n == 0 {
        return Ok((None, 0));
    }
    let mut all: Vec<String> = Vec::new();
    all.push(owned("# Netscape HTTP Cookie File"));
    all.push(owned("# Generated locally by YDL GUI Browser Extension"));
    let ghost head = strings(all@);
    assert(head =~= header_lines());
    assert(head + strings(lines@).take(0) =~= head);
    let mut i: usize = 0;
    while i < n
        invariant
            n == lines@.len(),
            i <= n,
            head == header_lines(),
            strings(all@) == head + strings(lines@).take(i as int),
        decreases n - i,
    {
        let ghost before = all@;
        all.push(owned(lines[i].as_str()));
        assert(strings(all@) =~= strings(before).push(lines@[i as int]@));
        assert(strings(lines@).take(i + 1) =~= strings(lines@).take(i as int).push(lines@[i as int]@));
        i += 1;
    }
    assert(strings(lines@).take(n as int) =~= strings(lines@));
    let joined = join_with(&all, "\n");
    Ok((Some(concat(joined.as_str(), "\n")), n))
}

/// The origin of a request from the browser extension: one starting with
/// `chrome-extension://` or `moz-extension://`.
pub fn extension_origin(origin: Option<&str>) -> (r: Option<String>)
    ensures
        match origin {
            Some(o) => if starts_with(o@, "chrome-extension://"@) || starts_with(
                o@,
                "moz-extension://"@,
            ) {
                r matches Some(x) && x@ == o@
            } else {
                r is None
            },
            None => r is None,
        },
{
    match origin {
        Some(o) => if str_starts_with(o, "chrome-extension://") || str_starts_with(
            o,
            "moz-extension://",
        ) {
            Some(owned(o))
        } else {
            None
        },
        None => None,
    }
}

} // verus!
