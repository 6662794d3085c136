//! Checking the publication dates of archived videos: reading a video's
//! watch page or the Bilibili view API, and the decisions of the check.

use vstd::prelude::*;

use crate::archive::{EnrichTarget, EnrichUpdate};
use crate::channel::{or_else_int, text_or_empty};
use crate::dates::{
    as_int_opt, iso_datetime_is_readable, iso_millis, iso_zone_digits, parse_iso_datetime,
    parse_yt_date_ymd, ymd_millis,
};
use crate::html::{capture, html_capture, html_unescape, unescape};
use crate::json::{get, get_str, int_of, str_of, whole_of, Json};
use crate::numbers::{i64_to_string, in_range, parse_i64, parse_signed, signed_decimal};
use crate::source::opt_str_view;
use crate::text::{
    byte_len, chars_of, concat, contains, ends_with, is_boundary, owned, str_contains, starts_with,
};

verus! {

pub open spec fn iso_of(o: Option<Seq<char>>) -> Option<int> {
    match o {
        Some(s) => iso_millis(s),
        None => None,
    }
}

pub open spec fn ymd_of(o: Option<Seq<char>>) -> Option<int> {
    match o {
        Some(s) => ymd_millis(s),
        None => None,
    }
}

/// The publication time on a watch page: the `datePublished` or
/// `uploadDate` meta tag (a full time with zone), else the `uploadDate` or
/// `publishDate` of the embedded player data (a bare date).
pub open spec fn watch_date(html: Seq<char>) -> Option<int> {
    or_else_int(
        iso_of(capture(html, "itemprop=\"datePublished\" content=\""@, '"')),
        or_else_int(
            iso_of(capture(html, "itemprop=\"uploadDate\" content=\""@, '"')),
            or_else_int(
                ymd_of(capture(html, "\"uploadDate\":\""@, '"')),
                ymd_of(capture(html, "\"publishDate\":\""@, '"')),
            ),
        ),
    )
}

pub open spec fn iso_ok(o: Option<Seq<char>>) -> bool {
    match o {
        Some(s) => iso_zone_digits(s) matches Some(d) ==> !(byte_len(d) == 4 && !is_boundary(d, 2)),
        None => true,
    }
}

/// The pages whose meta times can be read without cutting a zone inside a
/// character.
pub open spec fn watch_readable(html: Seq<char>) -> bool {
    let a = capture(html, "itemprop=\"datePublished\" content=\""@, '"');
    let b = capture(html, "itemprop=\"uploadDate\" content=\""@, '"');
    iso_ok(a) && (iso_of(a) is None ==> iso_ok(b))
}

/// Why a watch page without a date gives none: private (final), behind a
/// login (worth retrying with cookies), a bot check, or no date at all.
pub open spec fn watch_error(html: Seq<char>) -> Seq<char> {
    if contains(html, "\"status\":\"PRIVATE\""@) || contains(html, "This video is private"@) {
        "permanent:PRIVATE"@
    } else if contains(html, "LOGIN_REQUIRED"@) || contains(html, "Sign in to confirm your age"@) {
        "transient:LOGIN_REQUIRED:age_gate"@
    } else if !contains(html, "ytInitialPlayerResponse"@) && (contains(html, "not a bot"@)
        || contains(html, "Sign in to confirm"@)) {
        "transient:bot_check"@
    } else {
        "transient:no_upload_date"@
    }
}

pub open spec fn watch_title(html: Seq<char>) -> Seq<char> {
    match capture(html, "<meta name=\"title\" content=\""@, '"') {
        Some(t) => unescape(t),
        None => match capture(html, "<meta property=\"og:title\" content=\""@, '"') {
            Some(t) => unescape(t),
            None => seq![],
        },
    }
}

pub open spec fn i64_of_text(o: Option<Seq<char>>) -> Option<int> {
    match o {
        Some(s) => in_range(parse_signed(s), i64::MIN as int, i64::MAX as int),
        None => None,
    }
}

/// What a watch page tells of a video: its time, title, length and views;
/// an error that says whether retrying can help when it has no date.
pub open spec fn watch_outcome(row_id: Seq<char>, html: Seq<char>) -> Result<
    (int, Seq<char>, Option<Seq<char>>, Option<int>),
    Seq<char>,
> {
    match watch_date(html) {
        None => Err(watch_error(html)),
        Some(t) => Ok(
            (
                t,
                watch_title(html),
                capture(html, "\"lengthSeconds\":\""@, '"'),
                i64_of_text(capture(html, "\"viewCount\":\""@, '"')),
            ),
        ),
    }
}

fn iso_capture(html: &str, pat: &str) -> (r: Option<i64>)
    requires
        iso_ok(capture(html@, pat@, '"')),
    ensures
        as_int_opt(r) == iso_of(capture(html@, pat@, '"')),
{
    match html_capture(html, pat, '"') {
        Some(raw) => parse_iso_datetime(raw.as_str()),
        None => None,
    }
}

fn ymd_capture(html: &str, pat: &str) -> (r: Option<i64>)
    ensures
        as_int_opt(r) == ymd_of(capture(html@, pat@, '"')),
{
    match html_capture(html, pat, '"') {
        Some(raw) => parse_yt_date_ymd(raw.as_str()),
        None => None,
    }
}

fn iso_capture_ok(html: &str, pat: &str) -> (r: bool)
    ensures
        r == iso_ok(capture(html@, pat@, '"')),
{
    match html_capture(html, pat, '"') {
        Some(raw) => iso_datetime_is_readable(raw.as_str()),
        None => true,
    }
}

/// Whether `parse_youtube_watch` can read `html` (see `watch_readable`).
pub fn watch_is_readable(html: &str) -> (r: bool)
    ensures
        r == watch_readable(html@),
{
    if !iso_capture_ok(html, "itemprop=\"datePublished\" content=\"") {
        return false;
    }
    if iso_capture(html, "itemprop=\"datePublished\" content=\"").is_some() {
        return true;
    }
    iso_capture_ok(html, "itemprop=\"uploadDate\" content=\"")
}

/// Reads a watch page into the update of row `row_id`. An error starting
/// with `permanent:` will not heal; one starting with `transient:` may.
/// The length is the page's text, read as a number by the caller.
pub fn parse_youtube_watch(row_id: &str, html: &str) -> (r: Result<EnrichUpdate, String>)
    requires
        watch_readable(html@),
    ensures
        match watch_outcome(row_id@, html@) {
            Err(e) => r matches Err(x) && x@ == e,
            Ok((t, title, length, views)) => r matches Ok(u) && {
                &&& u.id@ == row_id@
                &&& u.published_at as int == t
                &&& u.title@ == title
                &&& u.thumbnail@ == Seq::<char>::empty()
                &&& opt_str_view(u.duration) == length
                &&& as_int_opt(u.view_count) == views
            },
        },
{
    let mut published = iso_capture(html, "itemprop=\"datePublished\" content=\"");
    if published.is_none() {
        published = iso_capture(html, "itemprop=\"uploadDate\" content=\"");
    }
    if published.is_none() {
        published = ymd_capture(html, "\"uploadDate\":\"");
    }
    if published.is_none() {
        published = ymd_capture(html, "\"publishDate\":\"");
    }
    let published_at = match published {
        Some(t) => t,
        None => {
            if str_contains(html, "\"status\":\"PRIVATE\"") || str_contains(
                html,
                "This video is private",
            ) {
                return Err(owned("permanent:PRIVATE"));
            }
            if str_contains(html, "LOGIN_REQUIRED") || str_contains(
                html,
                "Sign in to confirm your age",
            ) {
                return Err(owned("transient:LOGIN_REQUIRED:age_gate"));
            }
            if !str_contains(html, "ytInitialPlayerResponse") && (str_contains(html, "not a bot")
                || str_contains(html, "Sign in to confirm")) {
                return Err(owned("transient:bot_check"));
            }
            return Err(owned("transient:no_upload_date"));
        },
    };
    let title = match html_capture(html, "<meta name=\"title\" content=\"", '"') {
        Some(t) => html_unescape(t.as_str()),
        None => match html_capture(html, "<meta property=\"og:title\" content=\"", '"') {
            Some(t) => html_unescape(t.as_str()),
            None => String::new(),
        },
    };
    let duration = html_capture(html, "\"lengthSeconds\":\"", '"');
    let view_count = match html_capture(html, "\"viewCount\":\"", '"') {
        Some(v) => {
            let cs = chars_of(v.as_str());
            parse_i64(cs.as_slice())
        },
        None => None,
    };
    Ok(
        EnrichUpdate {
            id: owned(row_id),
            published_at: published_at,
            title: title,
            thumbnail: String::new(),
            duration: duration,
            view_count: view_count,
        },
    )
}

pub open spec fn bili_code(resp: Json) -> int {
    match int_of(get(resp, "code"@)) {
        Some(c) => c,
        None => -1,
    }
}

pub open spec fn bili_message(resp: Json) -> Seq<char> {
    match str_of(get(resp, "message"@)) {
        Some(m) => m,
        None => "unknown"@,
    }
}

/// The view API's codes for a video that is gone (deleted or private).
pub open spec fn is_gone_code(c: int) -> bool {
    c == -404 || c == 62002 || c == 62004 || c == 404
}

pub open spec fn positive(o: Option<int>) -> Option<int> {
    match o {
        Some(v) => if v > 0 {
            Some(v)
        } else {
            None
        },
        None => None,
    }
}

pub open spec fn bili_pubdate(resp: Json) -> Option<int> {
    match get(resp, "data"@) {
        Some(data) => positive(whole_of(get(data, "pubdate"@))),
        None => None,
    }
}

/// What the Bilibili view API answered of a video: its time (seconds
/// times 1000), title, picture, length (as decimal text) and views; or why
/// not, as `permanent:` or `transient:` error.
pub open spec fn bili_outcome(resp: Json) -> Result<
    (int, Seq<char>, Seq<char>, Option<Seq<char>>, Option<int>),
    Seq<char>,
> {
    let code = bili_code(resp);
    if code != 0 {
        Err(
            (if is_gone_code(code) {
                "permanent:bili:"@
            } else {
                "transient:bili:"@
            }) + signed_decimal(code) + ":"@ + bili_message(resp),
        )
    } else {
        match get(resp, "data"@) {
            None => Err("transient:bili:empty_data"@),
            Some(data) => match positive(whole_of(get(data, "pubdate"@))) {
                None => Err("transient:bili:no_pubdate"@),
                Some(p) => Ok(
                    (
                        p * 1000,
                        text_or_empty(str_of(get(data, "title"@))),
                        text_or_empty(str_of(get(data, "pic"@))),
                        match positive(whole_of(get(data, "duration"@))) {
                            Some(d) => Some(signed_decimal(d)),
                            None => None,
                        },
                        match get(data, "stat"@) {
                            Some(st) => whole_of(get(st, "view"@)),
                            None => None,
                        },
                    ),
                ),
            },
        }
    }
}

/// The answers whose time, in milliseconds, fits `i64`.
pub open spec fn bili_readable(resp: Json) -> bool {
    bili_code(resp) == 0 ==> match bili_pubdate(resp) {
        Some(p) => p * 1000 <= i64::MAX,
        None => true,
    }
}

/// Whether `parse_bilibili_view` can read `resp` (see `bili_readable`).
pub fn bili_is_readable(resp: &Json) -> (r: bool)
    ensures
        r == bili_readable(*resp),
{
    let code = match crate::json::get_i64(resp, "code") {
        Some(c) => c,
        None => -1,
    };
    if code != 0 {
        return true;
    }
    match resp.get("data") {
        Some(data) => match crate::json::get_whole(data, "pubdate") {
            Some(p) => p <= 0 || p <= i64::MAX / 1000,
            None => true,
        },
        None => true,
    }
}

/// Reads a Bilibili view API answer into the update of row `row_id`.
pub fn parse_bilibili_view(row_id: &str, resp: &Json) -> (r: Result<EnrichUpdate, String>)
    requires
        bili_readable(*resp),
    ensures
        match bili_outcome(*resp) {
            Err(e) => r matches Err(x) && x@ == e,
            Ok((t, title, pic, length, views)) => r matches Ok(u) && {
                &&& u.id@ == row_id@
                &&& u.published_at as int == t
                &&& u.title@ == title
                &&& u.thumbnail@ == pic
                &&& opt_str_view(u.duration) == length
                &&& as_int_opt(u.view_count) == views
            },
        },
{
    let code = match crate::json::get_i64(resp, "code") {
        Some(c) => c,
        None => -1,
    };
    if code != 0 {
        let msg = match get_str(resp, "message") {
            Some(m) => m,
            None => "unknown",
        };
        let head = if code == -404 || code == 62002 || code == 62004 || code == 404 {
            "permanent:bili:"
        } else {
            "transient:bili:"
        };
        let c = i64_to_string(code);
        let a = concat(head, c.as_str());
        let b = concat(a.as_str(), ":");
        return Err(concat(b.as_str(), msg));
    }
    let data = match resp.get("data") {
        Some(d) => d,
        None => return Err(owned("transient:bili:empty_data")),
    };
    let pubdate = match crate::json::get_whole(data, "pubdate") {
        Some(p) => if p > 0 {
            p
        } else {
            return Err(owned("transient:bili:no_pubdate"));
        },
        None => return Err(owned("transient:bili:no_pubdate")),
    };
    let title = match get_str(data, "title") {
        Some(t) => owned(t),
        None => String::new(),
    };
    let thumbnail = match get_str(data, "pic") {
        Some(t) => owned(t),
        None => String::new(),
    };
    let duration = match crate::json::get_whole(data, "duration") {
        Some(d) => if d > 0 {
            Some(i64_to_string(d))
        } else {
            None
        },
        None => None,
    };
    let view_count = match data.get("stat") {
        Some(st) => crate::json::get_whole(st, "view"),
        None => None,
    };
    Ok(
        EnrichUpdate {
            id: owned(row_id),
            published_at: pubdate * 1000,
            title: title,
            thumbnail: thumbnail,
            duration: duration,
            view_count: view_count,
        },
    )
}

pub open spec fn strings(v: Seq<String>) -> Seq<Seq<char>> {
    v.map_values(|s: String| s@)
}

/// The yt-dlp options of every date check: one JSON line per video, no
/// media, errors of one video not stopping the others.
pub open spec fn base_enrich_args_of() -> Seq<Seq<char>> {
    seq![
        "-j"@,
        "--ignore-config"@,
        "--color"@,
        "never"@,
        "--no-warnings"@,
        "--socket-timeout"@,
        "15"@,
        "--retries"@,
        "2"@,
        "--extractor-retries"@,
        "1"@,
        "--no-check-formats"@,
        "--no-playlist"@,
        "--no-flat-playlist"@,
        "--ignore-errors"@,
    ]
}

fn push_str(v: &mut Vec<String>, s: &str)
    ensures
        strings(final(v)@) == strings(old(v)@).push(s@),
{
    let ghost before = v@;
    let x = owned(s);
    v.push(x);
    assert(strings(v@) =~= strings(before).push(s@));
}

fn push_all_strings(v: &mut Vec<String>, items: &[String])
    ensures
        strings(final(v)@) == strings(old(v)@) + strings(items@),
{
    let ghost start = strings(v@);
    let n = items.len();
    let mut i: usize = 0;
    while i < n
        invariant
            n == items@.len(),
            i <= n,
            strings(v@) == start + strings(items@).take(i as int),
        decreases n - i,
    {
        push_str(v, items[i].as_str());
        assert(strings(items@).take(i + 1) =~= strings(items@).take(i as int).push(items@[i as int]@));
        assert(strings(v@) =~= start + strings(items@).take(i + 1));
        i += 1;
    }
    assert(strings(items@).take(n as int) =~= strings(items@));
}

/// The options of every date check.
pub fn base_enrich_args() -> (r: Vec<String>)
    ensures
        strings(r@) == base_enrich_args_of(),
{
    let mut r: Vec<String> = Vec::new();
    push_str(&mut r, "-j");
    push_str(&mut r, "--ignore-config");
    push_str(&mut r, "--color");
    push_str(&mut r, "never");
    push_str(&mut r, "--no-warnings");
    push_str(&mut r, "--socket-timeout");
    push_str(&mut r, "15");
    push_str(&mut r, "--retries");
    push_str(&mut r, "2");
    push_str(&mut r, "--extractor-retries");
    push_str(&mut r, "1");
    push_str(&mut r, "--no-check-formats");
    push_str(&mut r, "--no-playlist");
    push_str(&mut r, "--no-flat-playlist");
    push_str(&mut r, "--ignore-errors");
    assert(strings(r@) =~= base_enrich_args_of());
    r
}

/// The date check's options for YouTube videos: the clients that need no
/// challenge, without the web page; then the addresses.
pub fn build_enrich_args(urls: &[String]) -> (r: Vec<String>)
    ensures
        strings(r@) == base_enrich_args_of() + seq![
            "--extractor-args"@,
            "youtube:player_client=android,web_embedded;player_skip=webpage"@,
        ] + strings(urls@),
{
    let mut r = base_enrich_args();
    push_str(&mut r, "--extractor-args");
    push_str(&mut r, "youtube:player_client=android,web_embedded;player_skip=webpage");
    let ghost mid = strings(r@);
    assert(mid =~= base_enrich_args_of() + seq![
        "--extractor-args"@,
        "youtube:player_client=android,web_embedded;player_skip=webpage"@,
    ]);
    push_all_strings(&mut r, urls);
    r
}

/// The options of one batch of the date check: YouTube's own; elsewhere
/// the common ones and the addresses, with a browser user agent for
/// Bilibili.
pub fn enrich_chunk_args(platform: &str, urls: &[String], bilibili_user_agent: &str) -> (r: Vec<
    String,
>)
    ensures
        platform@ == "youtube"@ ==> strings(r@) == base_enrich_args_of() + seq![
            "--extractor-args"@,
            "youtube:player_client=android,web_embedded;player_skip=webpage"@,
        ] + strings(urls@),
        platform@ == "bilibili"@ ==> strings(r@) == base_enrich_args_of() + strings(urls@)
            + seq!["--user-agent"@, bilibili_user_agent@],
        platform@ != "youtube"@ && platform@ != "bilibili"@ ==> strings(r@)
            == base_enrich_args_of() + strings(urls@),
{
    proof {
        reveal_strlit("youtube");
        reveal_strlit("bilibili");
        assert("youtube"@.len() != "bilibili"@.len());
    }
    if crate::text::str_eq(platform, "youtube") {
        return build_enrich_args(urls);
    }
    let mut r = base_enrich_args();
    push_all_strings(&mut r, urls);
    if crate::text::str_eq(platform, "bilibili") {
        let ghost mid = strings(r@);
        push_str(&mut r, "--user-agent");
        push_str(&mut r, bilibili_user_agent);
        assert(strings(r@) =~= mid + seq!["--user-agent"@, bilibili_user_agent@]);
    }
    r
}

pub open spec fn flatten<T>(chunks: Seq<Vec<T>>) -> Seq<T>
    decreases chunks.len(),
{
    if chunks.len() == 0 {
        seq![]
    } else {
        flatten(chunks.drop_last()) + chunks.last()@
    }
}

/// Splits the targets into batches of `size` in their order, the last one
/// possibly shorter.
pub fn chunk_targets(items: Vec<EnrichTarget>, size: usize) -> (r: Vec<Vec<EnrichTarget>>)
    requires
        size > 0,
    ensures
        flatten(r@) == items@,
        forall|i: int| 0 <= i < r@.len() - 1 ==> (#[trigger] r@[i])@.len() == size,
        forall|i: int| 0 <= i < r@.len() ==> 0 < (#[trigger] r@[i])@.len() <= size,
{
    let mut rest = items;
    let ghost all = rest@;
    let total = rest.len();
    let mut out: Vec<Vec<EnrichTarget>> = Vec::new();
    let mut taken: usize = 0;
    let mut current: Vec<EnrichTarget> = Vec::new();
    let mut source: Vec<EnrichTarget> = Vec::new();
    // take items from the front by reversing once
    while rest.len() > 0
        invariant
            all.len() == source@.len() + rest@.len(),
            rest@ == all.take(rest@.len() as int),
            source@ == all.skip(rest@.len() as int).reverse(),
        decreases rest@.len(),
    {
        let x = rest.pop().unwrap();
        source.push(x);
        proof {
            let k = rest@.len() as int;
            assert(rest@ =~= all.take(k));
            assert(source@ =~= all.skip(k).reverse());
        }
    }
    assert(source@ =~= all.reverse());
    while source.len() > 0
        invariant
            size > 0,
            all.len() == total,
            taken + source@.len() == all.len(),
            source@ == all.skip(taken as int).reverse(),
            flatten(out@) + current@ == all.take(taken as int),
            current@.len() < size,
            forall|i: int| 0 <= i < out@.len() ==> (#[trigger] out@[i])@.len() == size,
        decreases source@.len(),
    {
        let x = source.pop().unwrap();
        proof {
            assert(x == all[taken as int]);
        }
        let ghost before = flatten(out@) + current@;
        current.push(x);
        taken = taken + 1;
        assert(flatten(out@) + current@ =~= before.push(x));
        assert(all.take(taken as int) =~= all.take(taken - 1).push(x));
        assert(source@ =~= all.skip(taken as int).reverse());
        if current.len() == size {
            let mut full: Vec<EnrichTarget> = Vec::new();
            std::mem::swap(&mut full, &mut current);
            let ghost old_out = out@;
            out.push(full);
            assert(out@.drop_last() =~= old_out);
            assert(flatten(out@) == flatten(old_out) + full@);
            assert(flatten(out@) + current@ =~= flatten(out@));
        }
    }
    assert(all.take(all.len() as int) =~= all);
    if current.len() > 0 {
        let ghost old_out = out@;
        out.push(current);
        assert(out@.drop_last() =~= old_out);
    } else {
        assert(flatten(out@) + current@ =~= flatten(out@));
    }
    out
}

pub open spec fn clamp(v: int, lo: int, hi: int) -> int {
    if v < lo {
        lo
    } else if v > hi {
        hi
    } else {
        v
    }
}

/// Parallel yt-dlp batches of the fallback round: the requested number (4
/// when none), between 1 and 8, and no more than there are batches.
pub fn enrich_worker_count(concurrency: Option<usize>, chunk_count: usize) -> (r: usize)
    ensures
        r as int == ({
            let c = clamp(
                match concurrency {
                    Some(c) => c as int,
                    None => 4,
                },
                1,
                8,
            );
            let most = if chunk_count > 0 {
                chunk_count as int
            } else {
                1
            };
            if c < most {
                c
            } else {
                most
            }
        }),
{
    let c = match concurrency {
        Some(c) => c,
        None => 4,
    };
    let c = if c < 1 {
        1
    } else if c > 8 {
        8
    } else {
        c
    };
    let most = if chunk_count > 0 {
        chunk_count
    } else {
        1
    };
    if c < most {
        c
    } else {
        most
    }
}

/// Parallel requests of the fast check: for YouTube twice the requested
/// number between 8 and 16 (12 when none); for Bilibili the requested
/// number between 4 and 12 (10 when none).
pub fn fast_worker_count(is_youtube: bool, concurrency: Option<usize>) -> (r: usize)
    requires
        is_youtube ==> (concurrency matches Some(c) ==> c * 2 <= usize::MAX),
    ensures
        r as int == (if is_youtube {
            match concurrency {
                Some(c) => clamp(c * 2, 8, 16),
                None => 12,
            }
        } else {
            match concurrency {
                Some(c) => clamp(c as int, 4, 12),
                None => 10,
            }
        }),
{
    if is_youtube {
        match concurrency {
            Some(c) => {
                let d = c * 2;
                if d < 8 {
                    8
                } else if d > 16 {
                    16
                } else {
                    d
                }
            },
            None => 12,
        }
    } else {
        match concurrency {
            Some(c) => if c < 4 {
                4
            } else if c > 12 {
                12
            } else {
                c
            },
            None => 10,
        }
    }
}

pub open spec fn not_blank(o: Option<&str>) -> bool {
    match o {
        Some(s) => crate::text::trim(s@).len() > 0,
        None => false,
    }
}

/// Whether the user gave a cookie file or a browser to read cookies from.
pub fn has_cookie(cookie_file: Option<&str>, cookie_browser: Option<&str>) -> (r: bool)
    ensures
        r == (not_blank(cookie_file) || not_blank(cookie_browser)),
{
    let a = match cookie_file {
        Some(s) => !crate::text::trim_str(s).as_str().is_empty(),
        None => false,
    };
    let b = match cookie_browser {
        Some(s) => !crate::text::trim_str(s).as_str().is_empty(),
        None => false,
    };
    a || b
}

/// The result of fetching one video in the fast check.
pub enum FetchOutcome {
    Fixed(EnrichUpdate),
    /// Private, deleted or behind a login that cannot be passed: retrying
    /// cannot help.
    Permanent,
    /// A timeout, a rate limit or a server error: the fallback may help.
    Transient(String),
}

/// A login wall on YouTube without cookies cannot be passed by the
/// fallback either, so it counts as final.
pub open spec fn transient_is_final(is_youtube: bool, err: Seq<char>, has_cookie: bool) -> bool {
    is_youtube && contains(err, "LOGIN_REQUIRED"@) && !has_cookie
}

/// The running counts of the fast check.
pub struct FastTally {
    pub done: usize,
    pub fixed: usize,
    pub permanent: usize,
    /// The videos left to the fallback.
    pub retry_targets: Vec<EnrichTarget>,
    /// The first transient error, to explain a total failure.
    pub err_sample: Option<String>,
    /// Updates waiting to be written.
    pub pending: Vec<EnrichUpdate>,
}

/// Updates are written in batches of this size.
pub const FAST_FLUSH_SIZE: usize = 20;

impl FastTally {
    pub fn new() -> (r: FastTally)
        ensures
            r.done == 0,
            r.fixed == 0,
            r.permanent == 0,
            r.retry_targets@.len() == 0,
            r.err_sample is None,
            r.pending@.len() == 0,
    {
        FastTally {
            done: 0,
            fixed: 0,
            permanent: 0,
            retry_targets: Vec::new(),
            err_sample: None,
            pending: Vec::new(),
        }
    }

    /// Counts the outcome of `target`. A fixed video waits to be written
    /// and the waiting batch is handed out once it holds 20; a final
    /// failure is counted; any other failure leaves the video to the
    /// fallback and is kept as sample when it is the first.
    pub fn record(&mut self, target: EnrichTarget, outcome: FetchOutcome, is_youtube: bool, has_cookie: bool) -> (r: Option<Vec<EnrichUpdate>>)
        requires
            old(self).done < usize::MAX,
            old(self).fixed < usize::MAX,
            old(self).permanent < usize::MAX,
            old(self).pending@.len() < FAST_FLUSH_SIZE,
        ensures
            final(self).done == old(self).done + 1,
            final(self).pending@.len() < FAST_FLUSH_SIZE,
            match outcome {
                FetchOutcome::Fixed(u) => {
                    &&& final(self).fixed == old(self).fixed + 1
                    &&& final(self).permanent == old(self).permanent
                    &&& final(self).retry_targets@ == old(self).retry_targets@
                    &&& final(self).err_sample == old(self).err_sample
                    &&& if old(self).pending@.len() + 1 == FAST_FLUSH_SIZE {
                        &&& r matches Some(batch) && batch@ == old(self).pending@.push(u)
                        &&& final(self).pending@.len() == 0
                    } else {
                        &&& r is None
                        &&& final(self).pending@ == old(self).pending@.push(u)
                    }
                },
                FetchOutcome::Permanent => {
                    &&& r is None
                    &&& final(self).fixed == old(self).fixed
                    &&& final(self).permanent == old(self).permanent + 1
                    &&& final(self).retry_targets@ == old(self).retry_targets@
                    &&& final(self).err_sample == old(self).err_sample
                    &&& final(self).pending@ == old(self).pending@
                },
                FetchOutcome::Transient(e) => {
                    &&& r is None
                    &&& final(self).fixed == old(self).fixed
                    &&& final(self).pending@ == old(self).pending@
                    &&& if transient_is_final(is_youtube, e@, has_cookie) {
                        &&& final(self).permanent == old(self).permanent + 1
                        &&& final(self).retry_targets@ == old(self).retry_targets@
                        &&& final(self).err_sample == old(self).err_sample
                    } else {
                        &&& final(self).permanent == old(self).permanent
                        &&& final(self).retry_targets@ == old(self).retry_targets@.push(target)
                        &&& opt_str_view(final(self).err_sample) == match old(self).err_sample {
                            Some(s) => Some(s@),
                            None => Some(e@),
                        }
                    }
                },
            },
    {
        self.done = self.done + 1;
        match outcome {
            FetchOutcome::Fixed(u) => {
                self.fixed = self.fixed + 1;
                self.pending.push(u);
                if self.pending.len() >= FAST_FLUSH_SIZE {
                    let mut batch: Vec<EnrichUpdate> = Vec::new();
                    std::mem::swap(&mut batch, &mut self.pending);
                    return Some(batch);
                }
                None
            },
            FetchOutcome::Permanent => {
                self.permanent = self.permanent + 1;
                None
            },
            FetchOutcome::Transient(e) => {
                if is_youtube && str_contains(e.as_str(), "LOGIN_REQUIRED") && !has_cookie {
                    self.permanent = self.permanent + 1;
                } else {
                    if self.err_sample.is_none() {
                        self.err_sample = Some(e);
                    }
                    self.retry_targets.push(target);
                }
                None
            },
        }
    }

    /// A fetch that could not be told apart: counted, sampled, not retried.
    pub fn record_lost(&mut self, message: String)
        requires
            old(self).done < usize::MAX,
        ensures
            final(self).done == old(self).done + 1,
            final(self).fixed == old(self).fixed,
            final(self).permanent == old(self).permanent,
            final(self).retry_targets@ == old(self).retry_targets@,
            final(self).pending@ == old(self).pending@,
            opt_str_view(final(self).err_sample) == match old(self).err_sample {
                Some(s) => Some(s@),
                None => Some(message@),
            },
    {
        self.done = self.done + 1;
        if self.err_sample.is_none() {
            self.err_sample = Some(message);
        }
    }

    /// Progress is reported after every tenth video (and, by the caller,
    /// at least every half second).
    pub fn report_due(&self) -> (r: bool)
        ensures
            r == (self.done % 10 == 0),
    {
        self.done % 10 == 0
    }
}

/// How a date check ended: `cancelled`; `error` when nothing was fixed,
/// nothing is known to be gone and every batch of the last round failed;
/// else `completed`.
pub fn enrich_final_status(
    cancelled: bool,
    fixed: usize,
    permanent: usize,
    failed_chunks: usize,
    chunk_count: usize,
) -> (r: &'static str)
    ensures
        cancelled ==> r@ == "cancelled"@,
        !cancelled && fixed == 0 && permanent == 0 && failed_chunks >= (if chunk_count > 0 {
            chunk_count
        } else {
            1
        }) ==> r@ == "error"@,
        !cancelled && !(fixed == 0 && permanent == 0 && failed_chunks >= (if chunk_count > 0 {
            chunk_count
        } else {
            1
        })) ==> r@ == "completed"@,
{
    let most = if chunk_count > 0 {
        chunk_count
    } else {
        1
    };
    if cancelled {
        "cancelled"
    } else if fixed == 0 && permanent == 0 && failed_chunks >= most {
        "error"
    } else {
        "completed"
    }
}

/// The lines of yt-dlp's error output kept for a sample.
pub const STDERR_TAIL_LINES: usize = 30;

/// Keeps `line`, trimmed, among the last 30 non-empty lines.
pub fn push_stderr_tail(tail: &mut Vec<String>, line: &str)
    requires
        old(tail)@.len() <= STDERR_TAIL_LINES,
    ensures
        final(tail)@.len() <= STDERR_TAIL_LINES,
        crate::text::trim(line@).len() == 0 ==> final(tail)@ == old(tail)@,
        crate::text::trim(line@).len() > 0 ==> strings(final(tail)@) == (if old(tail)@.len()
            == STDERR_TAIL_LINES {
            strings(old(tail)@).drop_first()
        } else {
            strings(old(tail)@)
        }).push(crate::text::trim(line@)),
{
    let t = crate::text::trim_str(line);
    if t.as_str().is_empty() {
        return;
    }
    let ghost before = strings(tail@);
    if tail.len() == STDERR_TAIL_LINES {
        tail.remove(0);
        assert(strings(tail@) =~= before.drop_first());
    }
    let ghost mid = strings(tail@);
    tail.push(t);
    assert(strings(tail@) =~= mid.push(crate::text::trim(line@)));
}

pub open spec fn last_error_line(tail: Seq<Seq<char>>) -> Option<Seq<char>>
    decreases tail.len(),
{
    if tail.len() == 0 {
        None
    } else if contains(tail.last(), "ERROR"@) {
        Some(tail.last())
    } else {
        last_error_line(tail.drop_last())
    }
}

/// The sample a failed batch leaves: its last line mentioning `ERROR`,
/// else its last line.
pub fn error_sample(tail: &Vec<String>) -> (r: Option<String>)
    ensures
        opt_str_view(r) == match last_error_line(strings(tail@)) {
            Some(s) => Some(s),
            None => if tail@.len() > 0 {
                Some(tail@.last()@)
            } else {
                None
            },
        },
{
    let n = tail.len();
    let mut i = n;
    let ghost all = strings(tail@);
    assert(all.take(n as int) =~= all);
    while i > 0
        invariant
            i <= n,
            n == tail@.len(),
            all == strings(tail@),
            last_error_line(all) == last_error_line(all.take(i as int)),
        decreases i,
    {
        assert(all.take(i as int).drop_last() =~= all.take(i - 1));
        assert(all.take(i as int).last() == tail@[i - 1]@);
        if str_contains(tail[i - 1].as_str(), "ERROR") {
            return Some(tail[i - 1].clone());
        }
        i -= 1;
    }
    if n > 0 {
        Some(tail[n - 1].clone())
    } else {
        None
    }
}

/// The progress shown: what earlier rounds did plus this round, at most
/// the total.
pub fn progress_done(done_base: usize, done: usize, total: usize) -> (r: usize)
    ensures
        r as int == (if done_base + done < total {
            done_base + done
        } else {
            total as int
        }),
{
    if (done_base as u128) + (done as u128) < (total as u128) {
        done_base + done
    } else {
        total
    }
}

/// The row of `video_id` within a batch: the last target listing it.
pub open spec fn row_of(chunk: Seq<EnrichTarget>, video_id: Seq<char>) -> Option<Seq<char>>
    decreases chunk.len(),
{
    if chunk.len() == 0 {
        None
    } else if chunk.last().video_id@ == video_id {
        Some(chunk.last().id@)
    } else {
        row_of(chunk.drop_last(), video_id)
    }
}

fn find_row(chunk: &[EnrichTarget], video_id: &str) -> (r: Option<String>)
    ensures
        opt_str_view(r) == row_of(chunk@, video_id@),
{
    let mut i = chunk.len();
    assert(chunk@.take(i as int) =~= chunk@);
    while i > 0
        invariant
            i <= chunk@.len(),
            row_of(chunk@, video_id@) == row_of(chunk@.take(i as int), video_id@),
        decreases i,
    {
        assert(chunk@.take(i as int).drop_last() =~= chunk@.take(i - 1));
        if crate::text::str_eq(chunk[i - 1].video_id.as_str(), video_id) {
            return Some(chunk[i - 1].id.clone());
        }
        i -= 1;
    }
    None
}

/// The update that one line of the fallback's output gives: for the row
/// of the entry's video in `chunk`, when the entry has a publication
/// time; with its title, best picture, length and views.
pub fn enrich_update_from_entry(entry: &Json, chunk: &[EnrichTarget]) -> (r: Option<EnrichUpdate>)
    requires
        crate::channel::published_at_readable(*entry),
    ensures
        match str_of(get(*entry, "id"@)) {
            None => r is None,
            Some(vid) => match (row_of(chunk@, vid), crate::channel::published_millis(*entry)) {
                (Some(row), Some(t)) => r matches Some(u) && {
                    &&& u.id@ == row
                    &&& u.published_at as int == t
                    &&& u.title@ == text_or_empty(str_of(get(*entry, "title"@)))
                    &&& u.thumbnail@ == crate::channel::video_thumbnail_of(*entry)
                    &&& opt_str_view(u.duration) == crate::json::positive_text_of(
                        get(*entry, "duration"@),
                    )
                    &&& as_int_opt(u.view_count) == int_of(get(*entry, "view_count"@))
                },
                _ => r is None,
            },
        },
{
    let video_id = match get_str(entry, "id") {
        Some(v) => v,
        None => return None,
    };
    let row = match find_row(chunk, video_id) {
        Some(r) => r,
        None => return None,
    };
    let published_at = match crate::channel::extract_published_at(entry) {
        Some(t) => t,
        None => return None,
    };
    let title = match get_str(entry, "title") {
        Some(t) => owned(t),
        None => String::new(),
    };
    let duration = match entry.get("duration") {
        Some(v) => match v.positive_text() {
            Some(t) => Some(owned(t)),
            None => None,
        },
        None => None,
    };
    Some(
        EnrichUpdate {
            id: row,
            published_at: published_at,
            title: title,
            thumbnail: crate::channel::extract_video_thumbnail(entry),
            duration: duration,
            view_count: crate::json::get_i64(entry, "view_count"),
        },
    )
}

/// What to do after one request of the fast check.
pub enum AttemptStep {
    /// The video is settled.
    Finish(FetchOutcome),
    /// Try again after waiting; `error` is the latest failure.
    Retry { error: String, wait_ms: u64 },
    /// Give up on the fast path with `error`.
    Stop { error: String },
}

pub open spec fn step_error(s: AttemptStep) -> Option<Seq<char>> {
    match s {
        AttemptStep::Retry { error, .. } => Some(error@),
        AttemptStep::Stop { error } => Some(error@),
        _ => None,
    }
}

/// A request that failed before any answer: retried for YouTube only after
/// a timeout or a failed connection, always for Bilibili.
pub fn send_failed_step(is_youtube: bool, message: &str, retryable: bool) -> (r: AttemptStep)
    ensures
        step_error(r) == Some("transient:http:"@ + message@),
        (is_youtube && !retryable) ==> r is Stop,
        !(is_youtube && !retryable) ==> (r matches AttemptStep::Retry { wait_ms, .. } && wait_ms
            == 800),
{
    let error = concat("transient:http:", message);
    if is_youtube && !retryable {
        AttemptStep::Stop { error }
    } else {
        AttemptStep::Retry { error, wait_ms: 800 }
    }
}

/// What an answer's status decides before its body is read: rate limits
/// and server errors (and Bilibili's 412) are retried; for YouTube 404 and
/// 410 mean the video is gone; `None` means the body is to be read.
pub fn status_step(is_youtube: bool, code: u16, status_text: &str) -> (r: Option<AttemptStep>)
    ensures
        (code == 429 || (500 <= code <= 599) || (!is_youtube && code == 412)) ==> (r matches Some(
            AttemptStep::Retry { error, wait_ms },
        ) && error@ == "transient:status:"@ + status_text@ && wait_ms == (if is_youtube {
            1000u64
        } else {
            2000u64
        })),
        !(code == 429 || (500 <= code <= 599) || (!is_youtube && code == 412)) && is_youtube && (
        code == 404 || code == 410) ==> (r matches Some(AttemptStep::Finish(o)) && o is Permanent),
        !(code == 429 || (500 <= code <= 599) || (!is_youtube && code == 412)) && !(is_youtube && (
        code == 404 || code == 410)) ==> r is None,
{
    if code == 429 || (500 <= code && code <= 599) || (!is_youtube && code == 412) {
        let error = concat("transient:status:", status_text);
        return Some(AttemptStep::Retry { error, wait_ms: if is_youtube { 1000 } else { 2000 } });
    }
    if is_youtube && (code == 404 || code == 410) {
        return Some(AttemptStep::Finish(FetchOutcome::Permanent));
    }
    None
}

/// A body that could not be read ends the fast path.
pub fn body_failed_step(message: &str) -> (r: AttemptStep)
    ensures
        r matches AttemptStep::Stop { error } && error@ == "transient:decode:"@ + message@,
{
    AttemptStep::Stop { error: concat("transient:decode:", message) }
}

/// What a parse of the answer decides: a fixed video; a final failure; a
/// retry of a likely passing failure (a bot check on YouTube, a 412 on
/// Bilibili); else giving up with the error.
pub fn parsed_step(is_youtube: bool, parsed: Result<EnrichUpdate, String>) -> (r: AttemptStep)
    ensures
        match parsed {
            Ok(u) => r matches AttemptStep::Finish(o) && (o matches FetchOutcome::Fixed(x) && x
                == u),
            Err(e) => if starts_with(e@, "permanent:"@) {
                r matches AttemptStep::Finish(o) && o is Permanent
            } else if contains(
                e@,
                if is_youtube {
                    "bot_check"@
                } else {
                    "412"@
                },
            ) {
                r matches AttemptStep::Retry { error, wait_ms } && error@ == e@ && wait_ms == (
                if is_youtube {
                    1000u64
                } else {
                    2000u64
                })
            } else {
                r matches AttemptStep::Stop { error } && error@ == e@
            },
        },
{
    match parsed {
        Ok(u) => AttemptStep::Finish(FetchOutcome::Fixed(u)),
        Err(e) => {
            if crate::text::str_starts_with(e.as_str(), "permanent:") {
                return AttemptStep::Finish(FetchOutcome::Permanent);
            }
            let again = if is_youtube {
                str_contains(e.as_str(), "bot_check")
            } else {
                str_contains(e.as_str(), "412")
            };
            if again {
                AttemptStep::Retry { error: e, wait_ms: if is_youtube { 1000 } else { 2000 } }
            } else {
                AttemptStep::Stop { error: e }
            }
        },
    }
}

/// The error of a video the fast path gave up on: the latest failure, or
/// `transient:unknown` when there was none.
pub fn transient_error(last: &str) -> (r: String)
    ensures
        last@.len() == 0 ==> r@ == "transient:unknown"@,
        last@.len() > 0 ==> r@ == last@,
{
    if last.is_empty() {
        owned("transient:unknown")
    } else {
        owned(last)
    }
}

/// The most attempts one video gets in the fast check.
pub const FAST_MAX_ATTEMPTS: usize = 2;

/// The watch page address of a YouTube video.
pub fn youtube_watch_url(video_id: &str) -> (r: String)
    ensures
        r@ == "https://www.youtube.com/watch?v="@ + video_id@,
{
    concat("https://www.youtube.com/watch?v=", video_id)
}

/// The view API address of a Bilibili video.
pub fn bilibili_view_url(video_id: &str) -> (r: String)
    ensures
        r@ == "https://api.bilibili.com/x/web-interface/view?"@ + crate::html::bili_key(video_id@)
            + "="@ + video_id@,
{
    let (key, value) = crate::html::bili_query_param(video_id);
    let a = concat("https://api.bilibili.com/x/web-interface/view?", key);
    let b = concat(a.as_str(), "=");
    concat(b.as_str(), value.as_str())
}

/// Whether the platform has a fast path (YouTube's watch page, Bilibili's
/// view API) before the yt-dlp fallback.
pub fn uses_fast_path(platform: &str) -> (r: bool)
    ensures
        r == (platform@ == "youtube"@ || platform@ == "bilibili"@),
{
    crate::text::str_eq(platform, "youtube") || crate::text::str_eq(platform, "bilibili")
}

/// The rounds of a date check and what they achieved.
pub struct EnrichRounds {
    /// Fallback rounds allowed: one after a fast path, else three.
    pub max_rounds: usize,
    /// Videos per yt-dlp batch: 10 after a fast path, else 20.
    pub chunk_size: usize,
    pub round: usize,
    pub done: usize,
    pub fixed: usize,
    pub permanent: usize,
    /// Failed batches and batches of the last round.
    pub last_failed: usize,
    pub last_chunks: usize,
}

impl EnrichRounds {
    pub fn new(platform: &str) -> (r: EnrichRounds)
        ensures
            (platform@ == "youtube"@ || platform@ == "bilibili"@) ==> r.max_rounds == 1
                && r.chunk_size == 10,
            !(platform@ == "youtube"@ || platform@ == "bilibili"@) ==> r.max_rounds == 3
                && r.chunk_size == 20,
            r.round == 0 && r.done == 0 && r.fixed == 0 && r.permanent == 0,
            r.last_failed == 0 && r.last_chunks == 0,
    {
        let fast = uses_fast_path(platform);
        EnrichRounds {
            max_rounds: if fast {
                1
            } else {
                3
            },
            chunk_size: if fast {
                10
            } else {
                20
            },
            round: 0,
            done: 0,
            fixed: 0,
            permanent: 0,
            last_failed: 0,
            last_chunks: 0,
        }
    }

    /// Takes over the counts of the fast path. The videos left to the
    /// fallback were counted as done there; unless the check was
    /// cancelled they are taken off again, so that progress does not reach
    /// the total before the fallback ran.
    pub fn after_fast(&mut self, done: usize, fixed: usize, permanent: usize, retry_count: usize, cancelled: bool)
        ensures
            final(self).done as int == (if retry_count > 0 && !cancelled {
                if done >= retry_count {
                    done - retry_count
                } else {
                    0
                }
            } else {
                done as int
            }),
            final(self).fixed == fixed,
            final(self).permanent == permanent,
            final(self).max_rounds == old(self).max_rounds,
            final(self).chunk_size == old(self).chunk_size,
            final(self).round == old(self).round,
            final(self).last_failed == old(self).last_failed,
            final(self).last_chunks == old(self).last_chunks,
    {
        self.done = if retry_count > 0 && !cancelled {
            if done >= retry_count {
                done - retry_count
            } else {
                0
            }
        } else {
            done
        };
        self.fixed = fixed;
        self.permanent = permanent;
    }

    /// Starts a fallback round when one is left.
    pub fn start_round(&mut self) -> (r: bool)
        ensures
            r == (old(self).round < old(self).max_rounds),
            r ==> final(self).round == old(self).round + 1,
            !r ==> final(self).round == old(self).round,
            final(self).max_rounds == old(self).max_rounds,
            final(self).chunk_size == old(self).chunk_size,
            final(self).done == old(self).done,
            final(self).fixed == old(self).fixed,
            final(self).permanent == old(self).permanent,
            final(self).last_failed == old(self).last_failed,
            final(self).last_chunks == old(self).last_chunks,
    {
        if self.round < self.max_rounds {
            self.round = self.round + 1;
            true
        } else {
            false
        }
    }

    /// Adds a round's counts and tells whether another round follows: not
    /// when it fixed nothing (what is left is gone for good), not when
    /// nothing is left, not after the last allowed round.
    pub fn finish_round(&mut self, done: usize, fixed: usize, failed: usize, chunks: usize, remaining: usize) -> (r: bool)
        requires
            old(self).done + done <= usize::MAX,
            old(self).fixed + fixed <= usize::MAX,
        ensures
            final(self).done == old(self).done + done,
            final(self).fixed == old(self).fixed + fixed,
            final(self).last_failed == failed,
            final(self).last_chunks == chunks,
            final(self).permanent == old(self).permanent,
            final(self).round == old(self).round,
            final(self).max_rounds == old(self).max_rounds,
            final(self).chunk_size == old(self).chunk_size,
            r == (fixed > 0 && remaining > 0 && old(self).round < old(self).max_rounds),
    {
        self.done = self.done + done;
        self.fixed = self.fixed + fixed;
        self.last_failed = failed;
        self.last_chunks = chunks;
        fixed > 0 && remaining > 0 && self.round < self.max_rounds
    }

    /// A missing yt-dlp fails the check only when the fast path achieved
    /// nothing; otherwise the check completes with what it has.
    pub fn missing_tool_fails(&self) -> (r: bool)
        ensures
            r == (self.fixed == 0 && self.permanent == 0),
    {
        self.fixed == 0 && self.permanent == 0
    }

    /// How the check ended (see `enrich_final_status`).
    pub fn final_status(&self, cancelled: bool) -> (r: &'static str)
        ensures
            cancelled ==> r@ == "cancelled"@,
            !cancelled && self.fixed == 0 && self.permanent == 0 && self.last_failed >= (
            if self.last_chunks > 0 {
                self.last_chunks
            } else {
                1
            }) ==> r@ == "error"@,
            !cancelled && !(self.fixed == 0 && self.permanent == 0 && self.last_failed >= (
            if self.last_chunks > 0 {
                self.last_chunks
            } else {
                1
            })) ==> r@ == "completed"@,
    {
        enrich_final_status(cancelled, self.fixed, self.permanent, self.last_failed, self.last_chunks)
    }
}


/// A date check's progress as announced to the front end.
#[derive(Debug, Clone)]
pub struct ChannelEnrichProgressPayload {
    pub channel_id: String,
    /// `enriching`, `completed`, `error` or `cancelled`.
    pub status: String,
    pub total: usize,
    pub done: usize,
    pub fixed: usize,
    pub message: Option<String>,
}

/// The announcement while a round runs: done as `progress_done` counts it,
/// fixed as the earlier rounds' count plus this round's.
pub fn enriching_payload(
    channel_id: &str,
    total: usize,
    done_base: usize,
    done: usize,
    fixed_base: usize,
    fixed: usize,
) -> (r: ChannelEnrichProgressPayload)
    requires
        fixed_base + fixed <= usize::MAX,
    ensures
        r.channel_id@ == channel_id@,
        r.status@ == "enriching"@,
        r.total == total,
        r.done as int == (if done_base + done < total {
            done_base + done
        } else {
            total as int
        }),
        r.fixed == fixed_base + fixed,
        r.message.is_none(),
{
    ChannelEnrichProgressPayload {
        channel_id: owned(channel_id),
        status: owned("enriching"),
        total,
        done: progress_done(done_base, done, total),
        fixed: fixed_base + fixed,
        message: None,
    }
}


/// The counts of one fallback round, summed over its batches: videos
/// handled, dates fixed, and batches whose run failed.
pub struct RoundStats {
    pub done: usize,
    pub fixed: usize,
    pub failed: usize,
}

impl RoundStats {
    pub fn new() -> (r: RoundStats)
        ensures
            r.done == 0 && r.fixed == 0 && r.failed == 0,
    {
        RoundStats { done: 0, fixed: 0, failed: 0 }
    }

    /// A batch of `chunk_len` videos whose run ended (`exit_ok` or not)
    /// after `fixed_now` dates were written.
    pub fn chunk_ended(&mut self, chunk_len: usize, fixed_now: usize, exit_ok: bool)
        requires
            old(self).done + chunk_len <= usize::MAX,
            old(self).fixed + fixed_now <= usize::MAX,
            old(self).failed < usize::MAX,
        ensures
            final(self).done == old(self).done + chunk_len,
            final(self).fixed == old(self).fixed + fixed_now,
            final(self).failed == old(self).failed + (if exit_ok {
                0int
            } else {
                1int
            }),
    {
        self.done = self.done + chunk_len;
        self.fixed = self.fixed + fixed_now;
        if !exit_ok {
            self.failed = self.failed + 1;
        }
    }

    /// A batch of `chunk_len` videos whose run could not be started: its
    /// videos count as handled and the batch as failed.
    pub fn spawn_failed(&mut self, chunk_len: usize)
        requires
            old(self).done + chunk_len <= usize::MAX,
            old(self).failed < usize::MAX,
        ensures
            final(self).done == old(self).done + chunk_len,
            final(self).fixed == old(self).fixed,
            final(self).failed == old(self).failed + 1,
    {
        self.done = self.done + chunk_len;
        self.failed = self.failed + 1;
    }
}

/// The error a batch leaves to explain a failure: its error sample (see
/// `error_sample`) when its run failed, none when it succeeded.
pub fn failure_sample(exit_ok: bool, tail: &Vec<String>) -> (r: Option<String>)
    ensures
        exit_ok ==> r is None,
        !exit_ok ==> opt_str_view(r) == match last_error_line(strings(tail@)) {
            Some(s) => Some(s),
            None => if tail@.len() > 0 {
                Some(tail@.last()@)
            } else {
                None
            },
        },
{
    if exit_ok {
        None
    } else {
        error_sample(tail)
    }
}

} // verus!

verus! {

proof fn lemma_prefix_of_concat(a: Seq<char>, b: Seq<char>, p: Seq<char>)
    requires
        starts_with(a, p),
    ensures
        starts_with(a + b, p),
{
    assert((a + b).subrange(0, p.len() as int) =~= a.subrange(0, p.len() as int));
}

proof fn lemma_bili_heads()
    ensures
        starts_with("permanent:bili:"@, "permanent:"@),
        starts_with("transient:bili:"@, "transient:"@),
        starts_with("transient:bili:empty_data"@, "transient:"@),
        starts_with("transient:bili:no_pubdate"@, "transient:"@),
{
    reveal_strlit("permanent:bili:");
    reveal_strlit("permanent:");
    reveal_strlit("transient:bili:");
    reveal_strlit("transient:");
    reveal_strlit("transient:bili:empty_data");
    reveal_strlit("transient:bili:no_pubdate");
    assert("permanent:bili:"@.subrange(0, 10) =~= "permanent:"@);
    assert("transient:bili:"@.subrange(0, 10) =~= "transient:"@);
    assert("transient:bili:empty_data"@.subrange(0, 10) =~= "transient:"@);
    assert("transient:bili:no_pubdate"@.subrange(0, 10) =~= "transient:"@);
}

/// The view API's answer for a video that is gone (code -404, 62002, 62004
/// or 404) is a permanent failure, never tried again; any other non-zero
/// code (or none) is a transient one, tried again in the next round. Every
/// failure is one of the two, and it names the code and the message.
pub proof fn law_bili_failures(resp: Json)
    ensures
        (int_of(get(resp, "code"@)) matches Some(c) && (c == -404 || c == 62002 || c == 62004 || c
            == 404)) ==> (bili_outcome(resp) matches Err(e) && starts_with(e, "permanent:"@)),
        (match int_of(get(resp, "code"@)) {
            Some(c) => c != 0 && c != -404 && c != 62002 && c != 62004 && c != 404,
            None => true,
        }) ==> (bili_outcome(resp) matches Err(e) && starts_with(e, "transient:"@)),
        int_of(get(resp, "code"@)) matches Some(c) && c != 0 ==> (bili_outcome(resp) matches Err(e)
            && ends_with(e, ":"@ + bili_message(resp))),
        bili_outcome(resp) matches Err(e) ==> starts_with(e, "permanent:"@) || starts_with(
            e,
            "transient:"@,
        ),
{
    lemma_bili_heads();
    let code = bili_code(resp);
    if code != 0 {
        let tail = signed_decimal(code) + ":"@ + bili_message(resp);
        let head = if is_gone_code(code) {
            "permanent:bili:"@
        } else {
            "transient:bili:"@
        };
        assert(head + signed_decimal(code) + ":"@ + bili_message(resp) =~= head + tail);
        lemma_prefix_of_concat(head, tail, if is_gone_code(code) {
            "permanent:"@
        } else {
            "transient:"@
        });
        let e = head + signed_decimal(code) + ":"@ + bili_message(resp);
        let m = ":"@ + bili_message(resp);
        assert(e.subrange(e.len() - m.len(), e.len() as int) =~= m);
    } else {
        match get(resp, "data"@) {
            None => {},
            Some(data) => {},
        }
    }
}

} // verus!

verus! {

/// A watch page without a date fails for good only when the video is
/// private; a login wall, a bot check or a page without any date are
/// transient, so the video is tried again.
pub proof fn law_watch_failures(html: Seq<char>)
    ensures
        contains(html, "\"status\":\"PRIVATE\""@) || contains(html, "This video is private"@)
            ==> starts_with(watch_error(html), "permanent:"@),
        !(contains(html, "\"status\":\"PRIVATE\""@) || contains(html, "This video is private"@))
            ==> starts_with(watch_error(html), "transient:"@),
{
    reveal_strlit("permanent:PRIVATE");
    reveal_strlit("permanent:");
    reveal_strlit("transient:LOGIN_REQUIRED:age_gate");
    reveal_strlit("transient:bot_check");
    reveal_strlit("transient:no_upload_date");
    reveal_strlit("transient:");
    assert("permanent:PRIVATE"@.subrange(0, 10) =~= "permanent:"@);
    assert("transient:LOGIN_REQUIRED:age_gate"@.subrange(0, 10) =~= "transient:"@);
    assert("transient:bot_check"@.subrange(0, 10) =~= "transient:"@);
    assert("transient:no_upload_date"@.subrange(0, 10) =~= "transient:"@);
}

} // verus!

verus! {

/// A Bilibili answer with code 0 and a positive publication time `p` (in
/// seconds) gives the date `p` seconds after the epoch, in milliseconds.
pub proof fn law_bili_date(resp: Json)
    ensures
        int_of(get(resp, "code"@)) == Some(0int) ==> (bili_pubdate(resp) matches Some(p) ==> (
        bili_outcome(resp) matches Ok(v) && v.0 == p * 1000)),
{
}

} // verus!
