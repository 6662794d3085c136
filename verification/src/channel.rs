//! Channel archive metadata: normalising a channel's address, telling its
//! platform, and reading its id, title, pictures and the dates of its
//! videos from what yt-dlp reports.

use vstd::prelude::*;

use crate::dates::{parse_upload_date, upload_date_millis};
use crate::json::{array_of, get, get_array, get_i64, get_str, get_whole, int_of, str_of, whole_of, Json};
use crate::text::{
    byte_len, chars_of, concat, contains, ends_with, find, is_boundary, is_digit, owned,
    str_contains, str_ends_with, string_of, sub_chars, trim, trim_str,
};

verus! {

/// What `str::to_lowercase` gives for `s`.
pub uninterp spec fn lowercase(s: Seq<char>) -> Seq<char>;

/// `str::to_lowercase`: full Unicode lower-casing. Its result is named,
/// not stated: the mapping is Unicode's case table.
#[verifier::external_body]
pub(crate) fn to_lowercase(s: &str) -> (r: String)
    ensures
        r@ == lowercase(s@),
{
    s.to_lowercase()
}

/// `s` without the `/` at its end, however many there are.
pub open spec fn trim_end_slashes(s: Seq<char>) -> Seq<char>
    decreases s.len(),
{
    if s.len() > 0 && s.last() == '/' {
        trim_end_slashes(s.drop_last())
    } else {
        s
    }
}

/// The tab pages of a channel that its address may end with.
pub open spec fn tab_suffixes() -> Seq<Seq<char>> {
    seq![
        "/videos"@,
        "/shorts"@,
        "/streams"@,
        "/featured"@,
        "/podcasts"@,
        "/playlists"@,
        "/community"@,
        "/about"@,
    ]
}

/// `s` without the first of `suffixes` that it ends with.
pub open spec fn strip_first_suffix(s: Seq<char>, suffixes: Seq<Seq<char>>) -> Seq<char>
    decreases suffixes.len(),
{
    if suffixes.len() == 0 {
        s
    } else if ends_with(s, suffixes[0]) {
        s.take(s.len() - suffixes[0].len())
    } else {
        strip_first_suffix(s, suffixes.drop_first())
    }
}

/// A channel's base address: trimmed, without trailing `/`, without a tab
/// page at its end.
pub open spec fn clean_url(url: Seq<char>) -> Seq<char> {
    strip_first_suffix(trim_end_slashes(trim(url)), tab_suffixes())
}

/// The base address of a channel, without a tab page such as `/videos`.
pub fn clean_channel_url(url: &str) -> (r: String)
    ensures
        r@ == clean_url(url@),
{
    let t = trim_str(url);
    let v = chars_of(t.as_str());
    let mut n = v.len();
    assert(v@.take(n as int) =~= v@);
    while n > 0 && v[n - 1] == '/'
        invariant
            n <= v@.len(),
            trim_end_slashes(t@) == trim_end_slashes(v@.take(n as int)),
            v@ == t@,
        decreases n,
    {
        assert(v@.take(n as int).drop_last() =~= v@.take(n - 1));
        n -= 1;
    }
    assert(trim_end_slashes(v@.take(n as int)) == v@.take(n as int));
    let cleaned = string_of(sub_chars(v.as_slice(), 0, n).as_slice());
    let ghost base = cleaned@;
    let suffixes: [&str; 8] = [
        "/videos",
        "/shorts",
        "/streams",
        "/featured",
        "/podcasts",
        "/playlists",
        "/community",
        "/about",
    ];
    let ghost all = tab_suffixes();
    assert(suffixes@.map_values(|s: &str| s@) =~= all);
    let mut i: usize = 0;
    assert(all.skip(0) =~= all);
    while i < 8
        invariant
            i <= 8,
            suffixes@.map_values(|s: &str| s@) == all,
            all.len() == 8,
            strip_first_suffix(base, all) == strip_first_suffix(base, all.skip(i as int)),
            cleaned@ == base,
            base == trim_end_slashes(trim(url@)),
            all == tab_suffixes(),
        decreases 8 - i,
    {
        let suffix = suffixes[i];
        assert(suffix@ == all[i as int]);
        assert(all.skip(i as int)[0] == all[i as int]);
        assert(all.skip(i as int).drop_first() =~= all.skip(i + 1));
        if str_ends_with(cleaned.as_str(), suffix) {
            let cv = chars_of(cleaned.as_str());
            let sv = chars_of(suffix);
            assert(ends_with(base, suffix@));
            let keep = cv.len() - sv.len();
            let r = string_of(sub_chars(cv.as_slice(), 0, keep).as_slice());
            assert(strip_first_suffix(base, all.skip(i as int)) == base.take(base.len() - suffix@.len()));
            assert(r@ =~= base.take(base.len() - suffix@.len()));
            return r;
        }
        i += 1;
    }
    assert(all.skip(8) =~= Seq::<Seq<char>>::empty());
    cleaned
}

/// The platform of a channel: from its address, else from yt-dlp's
/// extractor, else `generic`.
/// The platform told by the lower-cased address `lower_url` and yt-dlp's
/// extractor name (`extractor`, and `lower_extractor` lower-cased).
pub open spec fn platform_choice(
    lower_url: Seq<char>,
    extractor: Option<Seq<char>>,
    lower_extractor: Option<Seq<char>>,
) -> Seq<char> {
    if contains(lower_url, "youtube.com"@) || contains(lower_url, "youtu.be"@) {
        "youtube"@
    } else if contains(lower_url, "bilibili.com"@) {
        "bilibili"@
    } else if contains(lower_url, "twitch.tv"@) {
        "twitch"@
    } else {
        match (extractor, lower_extractor) {
            (Some(e), Some(le)) => if contains(le, "youtube"@) {
                "youtube"@
            } else if contains(le, "bili"@) {
                "bilibili"@
            } else {
                e
            },
            _ => "generic"@,
        }
    }
}

pub open spec fn platform_of(url: Seq<char>, extractor: Option<Seq<char>>) -> Seq<char> {
    platform_choice(
        lowercase(url),
        extractor,
        match extractor {
            Some(e) => Some(lowercase(e)),
            None => None,
        },
    )
}

/// The platform of a channel from its lower-cased address and yt-dlp's
/// extractor name, given as is and lower-cased (see `platform_choice`).
pub fn platform_from_lowered(
    lower_url: &str,
    extractor: Option<&str>,
    lower_extractor: Option<&str>,
) -> (r: String)
    ensures
        r@ == platform_choice(
            lower_url@,
            match extractor {
                Some(e) => Some(e@),
                None => None,
            },
            match lower_extractor {
                Some(e) => Some(e@),
                None => None,
            },
        ),
{
    if str_contains(lower_url, "youtube.com") || str_contains(lower_url, "youtu.be") {
        return owned("youtube");
    }
    if str_contains(lower_url, "bilibili.com") {
        return owned("bilibili");
    }
    if str_contains(lower_url, "twitch.tv") {
        return owned("twitch");
    }
    match (extractor, lower_extractor) {
        (Some(e), Some(le)) => {
            if str_contains(le, "youtube") {
                owned("youtube")
            } else if str_contains(le, "bili") {
                owned("bilibili")
            } else {
                owned(e)
            }
        },
        _ => owned("generic"),
    }
}

/// Tells the platform of a channel from its address and yt-dlp's report.
pub fn detect_platform(url: &str, info: &Json) -> (r: String)
    ensures
        r@ == platform_of(url@, str_of(get(*info, "extractor_key"@))),
{
    let lower_url = to_lowercase(url);
    match get_str(info, "extractor_key") {
        Some(extractor) => {
            let lower_extractor = to_lowercase(extractor);
            platform_from_lowered(lower_url.as_str(), Some(extractor), Some(lower_extractor.as_str()))
        },
        None => platform_from_lowered(lower_url.as_str(), None, None),
    }
}

pub open spec fn non_empty(o: Option<Seq<char>>) -> Option<Seq<char>> {
    match o {
        Some(s) => if s.len() > 0 {
            Some(s)
        } else {
            None
        },
        None => None,
    }
}

pub open spec fn or_else(a: Option<Seq<char>>, b: Option<Seq<char>>) -> Option<Seq<char>> {
    match a {
        Some(s) => Some(s),
        None => b,
    }
}

/// The ASCII digits at the start of `s`.
pub open spec fn leading_digits(s: Seq<char>) -> Seq<char>
    decreases s.len(),
{
    if s.len() > 0 && is_digit(s[0]) {
        seq![s[0]] + leading_digits(s.drop_first())
    } else {
        seq![]
    }
}

/// The member id in a `space.bilibili.com/<digits>` address.
pub open spec fn bilibili_mid(url: Seq<char>) -> Option<Seq<char>> {
    match find(url, "space.bilibili.com/"@) {
        Some(i) => {
            let d = leading_digits(url.skip(i + "space.bilibili.com/"@.len()));
            if d.len() > 0 {
                Some(d)
            } else {
                None
            }
        },
        None => None,
    }
}

/// A channel's id: yt-dlp's channel id, uploader id or id (the first that
/// is not empty); for Bilibili the member id of the address; else the
/// channel's base address.
pub open spec fn channel_id_of(info: Json, url: Seq<char>, platform: Seq<char>) -> Seq<char> {
    match or_else(
        non_empty(str_of(get(info, "channel_id"@))),
        or_else(non_empty(str_of(get(info, "uploader_id"@))), non_empty(str_of(get(info, "id"@)))),
    ) {
        Some(id) => id,
        None => if platform == "bilibili"@ && bilibili_mid(url) is Some {
            "bilibili:"@ + bilibili_mid(url)->0
        } else {
            clean_url(url)
        },
    }
}

fn non_empty_str<'a>(o: Option<&'a str>) -> (r: Option<&'a str>)
    ensures
        match r {
            Some(s) => non_empty(
                match o {
                    Some(t) => Some(t@),
                    None => None,
                },
            ) == Some(s@),
            None => non_empty(
                match o {
                    Some(t) => Some(t@),
                    None => None,
                },
            ) is None,
        },
{
    match o {
        Some(s) => if !s.is_empty() {
            Some(s)
        } else {
            None
        },
        None => None,
    }
}

fn leading_digits_of(v: &[char], from: usize) -> (r: Vec<char>)
    requires
        from <= v@.len(),
    ensures
        r@ == leading_digits(v@.skip(from as int)),
{
    let n = v.len();
    let mut i = from;
    let mut out: Vec<char> = Vec::new();
    assert(out@ + leading_digits(v@.skip(from as int)) =~= leading_digits(v@.skip(from as int)));
    while i < n && '0' <= v[i] && v[i] <= '9'
        invariant
            from <= i <= n,
            n == v@.len(),
            out@ + leading_digits(v@.skip(i as int)) == leading_digits(v@.skip(from as int)),
        decreases n - i,
    {
        assert(v@.skip(i as int).drop_first() =~= v@.skip(i + 1));
        assert(v@.skip(i as int)[0] == v@[i as int]);
        out.push(v[i]);
        assert(out@ + leading_digits(v@.skip(i + 1)) =~= (out@.drop_last() + seq![v@[i as int]])
            + leading_digits(v@.skip(i + 1)));
        i += 1;
    }
    proof {
        if i < n {
            assert(v@.skip(i as int)[0] == v@[i as int]);
        }
        assert(out@ + seq![] =~= out@);
    }
    out
}

/// The id a channel is stored under.
pub fn extract_channel_id(info: &Json, url: &str, platform: &str) -> (r: String)
    ensures
        r@ == channel_id_of(*info, url@, platform@),
{
    if let Some(id) = non_empty_str(get_str(info, "channel_id")) {
        return owned(id);
    }
    if let Some(id) = non_empty_str(get_str(info, "uploader_id")) {
        return owned(id);
    }
    if let Some(id) = non_empty_str(get_str(info, "id")) {
        return owned(id);
    }
    if crate::text::str_eq(platform, "bilibili") {
        let uv = chars_of(url);
        let pat = chars_of("space.bilibili.com/");
        if let Some(pos) = crate::text::chars_find(uv.as_slice(), pat.as_slice()) {
            let total = uv.len();
            let plen = pat.len();
            assert(pos + plen <= total);
            let mid = leading_digits_of(uv.as_slice(), pos + plen);
            if mid.len() > 0 {
                let m = string_of(mid.as_slice());
                return concat("bilibili:", m.as_str());
            }
        }
    }
    clean_channel_url(url)
}

/// `s` trimmed, when that leaves something.
pub open spec fn non_blank(o: Option<Seq<char>>) -> Option<Seq<char>> {
    match o {
        Some(s) => if trim(s).len() > 0 {
            Some(trim(s))
        } else {
            None
        },
        None => None,
    }
}

/// A channel's name: yt-dlp's channel, uploader or title (the first that
/// is not blank, trimmed); else the channel's base address.
pub open spec fn channel_title_of(info: Json, url: Seq<char>) -> Seq<char> {
    match or_else(
        non_blank(str_of(get(info, "channel"@))),
        or_else(non_blank(str_of(get(info, "uploader"@))), non_blank(str_of(get(info, "title"@)))),
    ) {
        Some(t) => t,
        None => clean_url(url),
    }
}

fn non_blank_str(o: Option<&str>) -> (r: Option<String>)
    ensures
        match r {
            Some(s) => non_blank(
                match o {
                    Some(t) => Some(t@),
                    None => None,
                },
            ) == Some(s@),
            None => non_blank(
                match o {
                    Some(t) => Some(t@),
                    None => None,
                },
            ) is None,
        },
{
    match o {
        Some(s) => {
            let t = trim_str(s);
            if !t.as_str().is_empty() {
                Some(t)
            } else {
                None
            }
        },
        None => None,
    }
}

/// The name a channel is shown under.
pub fn extract_channel_title(info: &Json, url: &str) -> (r: String)
    ensures
        r@ == channel_title_of(*info, url@),
{
    if let Some(name) = non_blank_str(get_str(info, "channel")) {
        return name;
    }
    if let Some(name) = non_blank_str(get_str(info, "uploader")) {
        return name;
    }
    if let Some(name) = non_blank_str(get_str(info, "title")) {
        return name;
    }
    clean_channel_url(url)
}

pub open spec fn url_of(t: Json) -> Option<Seq<char>> {
    str_of(get(t, "url"@))
}

/// Whether the picture's id, lower-cased, contains `word`.
pub open spec fn id_mentions(t: Json, word: Seq<char>) -> bool {
    match str_of(get(t, "id"@)) {
        Some(id) => contains(lowercase(id), word),
        None => false,
    }
}

/// The address of the first picture whose id mentions `word` and that has
/// an address.
pub open spec fn url_by_id(thumbs: Seq<Json>, word: Seq<char>) -> Option<Seq<char>>
    decreases thumbs.len(),
{
    if thumbs.len() == 0 {
        None
    } else if id_mentions(thumbs[0], word) && url_of(thumbs[0]) is Some {
        url_of(thumbs[0])
    } else {
        url_by_id(thumbs.drop_first(), word)
    }
}

pub open spec fn is_square(t: Json) -> bool {
    match (int_of(get(t, "width"@)), int_of(get(t, "height"@))) {
        (Some(w), Some(h)) => w > 0 && w == h,
        _ => false,
    }
}

/// The address of the first square picture that has an address.
pub open spec fn square_url(thumbs: Seq<Json>) -> Option<Seq<char>>
    decreases thumbs.len(),
{
    if thumbs.len() == 0 {
        None
    } else if is_square(thumbs[0]) && url_of(thumbs[0]) is Some {
        url_of(thumbs[0])
    } else {
        square_url(thumbs.drop_first())
    }
}

pub open spec fn last_url(thumbs: Seq<Json>) -> Option<Seq<char>> {
    if thumbs.len() == 0 {
        None
    } else {
        url_of(thumbs.last())
    }
}

pub open spec fn text_or_empty(o: Option<Seq<char>>) -> Seq<char> {
    match o {
        Some(s) => s,
        None => seq![],
    }
}

/// A channel's avatar: among its pictures the first whose id mentions
/// `avatar`, else the first square one, else the last (the one yt-dlp
/// prefers); else its `thumbnail`; else empty.
pub open spec fn avatar_of(info: Json) -> Seq<char> {
    let from_thumbs = match array_of(get(info, "thumbnails"@)) {
        Some(ts) => or_else(url_by_id(ts, "avatar"@), or_else(square_url(ts), last_url(ts))),
        None => None,
    };
    text_or_empty(or_else(from_thumbs, str_of(get(info, "thumbnail"@))))
}

/// A channel's banner: the first picture whose id mentions `banner`.
pub open spec fn banner_of(info: Json) -> Seq<char> {
    match array_of(get(info, "thumbnails"@)) {
        Some(ts) => text_or_empty(url_by_id(ts, "banner"@)),
        None => seq![],
    }
}

fn find_url_by_id(thumbs: &Vec<Json>, word: &str) -> (r: Option<String>)
    ensures
        opt_text(r) == url_by_id(thumbs@, word@),
{
    let n = thumbs.len();
    let mut i: usize = 0;
    assert(thumbs@.skip(0) =~= thumbs@);
    while i < n
        invariant
            n == thumbs@.len(),
            i <= n,
            url_by_id(thumbs@, word@) == url_by_id(thumbs@.skip(i as int), word@),
        decreases n - i,
    {
        let t = &thumbs[i];
        assert(thumbs@.skip(i as int)[0] == *t);
        assert(thumbs@.skip(i as int).drop_first() =~= thumbs@.skip(i + 1));
        if let Some(id) = get_str(t, "id") {
            let lower = to_lowercase(id);
            if str_contains(lower.as_str(), word) {
                if let Some(u) = get_str(t, "url") {
                    return Some(owned(u));
                }
            }
        }
        i += 1;
    }
    None
}

pub open spec fn opt_text(o: Option<String>) -> Option<Seq<char>> {
    match o {
        Some(s) => Some(s@),
        None => None,
    }
}

fn find_square_url(thumbs: &Vec<Json>) -> (r: Option<String>)
    ensures
        opt_text(r) == square_url(thumbs@),
{
    let n = thumbs.len();
    let mut i: usize = 0;
    assert(thumbs@.skip(0) =~= thumbs@);
    while i < n
        invariant
            n == thumbs@.len(),
            i <= n,
            square_url(thumbs@) == square_url(thumbs@.skip(i as int)),
        decreases n - i,
    {
        let t = &thumbs[i];
        assert(thumbs@.skip(i as int)[0] == *t);
        assert(thumbs@.skip(i as int).drop_first() =~= thumbs@.skip(i + 1));
        if let (Some(w), Some(h)) = (get_i64(t, "width"), get_i64(t, "height")) {
            if w > 0 && w == h {
                if let Some(u) = get_str(t, "url") {
                    return Some(owned(u));
                }
            }
        }
        i += 1;
    }
    None
}

fn find_last_url(thumbs: &Vec<Json>) -> (r: Option<String>)
    ensures
        opt_text(r) == last_url(thumbs@),
{
    let n = thumbs.len();
    if n == 0 {
        return None;
    }
    match get_str(&thumbs[n - 1], "url") {
        Some(u) => Some(owned(u)),
        None => None,
    }
}

/// The address of a channel's avatar picture, or empty.
pub fn extract_channel_avatar(info: &Json) -> (r: String)
    ensures
        r@ == avatar_of(*info),
{
    if let Some(thumbs) = get_array(info, "thumbnails") {
        if let Some(u) = find_url_by_id(thumbs, "avatar") {
            return u;
        }
        if let Some(u) = find_square_url(thumbs) {
            return u;
        }
        if let Some(u) = find_last_url(thumbs) {
            return u;
        }
    }
    match get_str(info, "thumbnail") {
        Some(t) => owned(t),
        None => String::new(),
    }
}

/// The address of a channel's banner picture, or empty.
pub fn extract_channel_banner(info: &Json) -> (r: String)
    ensures
        r@ == banner_of(*info),
{
    if let Some(thumbs) = get_array(info, "thumbnails") {
        if let Some(u) = find_url_by_id(thumbs, "banner") {
            return u;
        }
    }
    String::new()
}

/// Width times height of a picture, a missing one counted as 0.
pub open spec fn area(t: Json) -> int {
    let w = match int_of(get(t, "width"@)) {
        Some(v) => v,
        None => 0,
    };
    let h = match int_of(get(t, "height"@)) {
        Some(v) => v,
        None => 0,
    };
    w * h
}

/// The position of the largest picture among the first `n`, the last one
/// among equals (`Iterator::max_by_key`).
pub open spec fn best_index(ts: Seq<Json>, n: int) -> int
    decreases n,
{
    if n <= 1 {
        0
    } else {
        let b = best_index(ts, n - 1);
        if area(ts[n - 1]) >= area(ts[b]) {
            n - 1
        } else {
            b
        }
    }
}

/// A video's picture: the address of its largest picture, else of its
/// last one, else its `thumbnail`, else empty.
pub open spec fn video_thumbnail_of(entry: Json) -> Seq<char> {
    let fallback = text_or_empty(str_of(get(entry, "thumbnail"@)));
    match array_of(get(entry, "thumbnails"@)) {
        Some(ts) => if ts.len() > 0 {
            match url_of(ts[best_index(ts, ts.len() as int)]) {
                Some(u) => u,
                None => match last_url(ts) {
                    Some(u) => u,
                    None => fallback,
                },
            }
        } else {
            fallback
        },
        None => fallback,
    }
}

fn area_of(t: &Json) -> (r: i128)
    ensures
        r as int == area(*t),
{
    let w: i64 = match get_i64(t, "width") {
        Some(v) => v,
        None => 0,
    };
    let h: i64 = match get_i64(t, "height") {
        Some(v) => v,
        None => 0,
    };
    let a = w as i128;
    let b = h as i128;
    assert(-0x4000_0000_0000_0000_0000_0000_0000_0000 <= a * b <= 0x4000_0000_0000_0000_0000_0000_0000_0000) by (nonlinear_arith)
        requires
            -0x8000_0000_0000_0000 <= a <= 0x7fff_ffff_ffff_ffff,
            -0x8000_0000_0000_0000 <= b <= 0x7fff_ffff_ffff_ffff,
    ;
    a * b
}

/// The address of a video's best picture, or empty.
pub fn extract_video_thumbnail(entry: &Json) -> (r: String)
    ensures
        r@ == video_thumbnail_of(*entry),
{
    if let Some(thumbs) = get_array(entry, "thumbnails") {
        let n = thumbs.len();
        if n > 0 {
            let mut best: usize = 0;
            let mut best_area = area_of(&thumbs[0]);
            let mut i: usize = 1;
            while i < n
                invariant
                    n == thumbs@.len(),
                    1 <= i <= n,
                    best == best_index(thumbs@, i as int),
                    best < i,
                    best_area as int == area(thumbs@[best as int]),
                decreases n - i,
            {
                let a = area_of(&thumbs[i]);
                if a >= best_area {
                    best = i;
                    best_area = a;
                }
                i += 1;
            }
            if let Some(u) = get_str(&thumbs[best], "url") {
                return owned(u);
            }
            if let Some(u) = get_str(&thumbs[n - 1], "url") {
                return owned(u);
            }
        }
    }
    match get_str(entry, "thumbnail") {
        Some(t) => owned(t),
        None => String::new(),
    }
}

pub open spec fn date_millis(o: Option<Seq<char>>) -> Option<int> {
    match o {
        Some(s) => upload_date_millis(s),
        None => None,
    }
}

pub open spec fn seconds_to_millis(o: Option<int>) -> Option<int> {
    match o {
        Some(v) => Some(v * 1000),
        None => None,
    }
}

pub open spec fn or_else_int(a: Option<int>, b: Option<int>) -> Option<int> {
    match a {
        Some(v) => Some(v),
        None => b,
    }
}

/// When a video was published, in milliseconds: its `timestamp`, else its
/// `upload_date`, else its `release_timestamp`, else its `release_date`.
pub open spec fn published_millis(entry: Json) -> Option<int> {
    or_else_int(
        seconds_to_millis(whole_of(get(entry, "timestamp"@))),
        or_else_int(
            date_millis(str_of(get(entry, "upload_date"@))),
            or_else_int(
                seconds_to_millis(whole_of(get(entry, "release_timestamp"@))),
                date_millis(str_of(get(entry, "release_date"@))),
            ),
        ),
    )
}

pub open spec fn date_text_ok(o: Option<Seq<char>>) -> bool {
    match o {
        Some(s) => byte_len(s) == 8 ==> is_boundary(s, 4) && is_boundary(s, 6),
        None => true,
    }
}

pub open spec fn fits_i64(v: Option<int>) -> bool {
    match v {
        Some(x) => i64::MIN <= x <= i64::MAX,
        None => true,
    }
}

/// The inputs on which reading the publication time neither cuts a date
/// inside a character nor overflows: each value it reaches is usable.
pub open spec fn published_at_readable(entry: Json) -> bool {
    let ts = seconds_to_millis(whole_of(get(entry, "timestamp"@)));
    let ud = str_of(get(entry, "upload_date"@));
    let rts = seconds_to_millis(whole_of(get(entry, "release_timestamp"@)));
    let rd = str_of(get(entry, "release_date"@));
    &&& fits_i64(ts)
    &&& ts is None ==> date_text_ok(ud)
    &&& (ts is None && date_millis(ud) is None) ==> fits_i64(rts)
    &&& (ts is None && date_millis(ud) is None && rts is None) ==> date_text_ok(rd)
}

fn seconds_millis(v: Option<i64>) -> (r: Option<i64>)
    requires
        fits_i64(
            match v {
                Some(x) => Some(x * 1000),
                None => None,
            },
        ),
    ensures
        match v {
            Some(x) => r == Some((x * 1000) as i64),
            None => r is None,
        },
{
    match v {
        Some(x) => Some(x * 1000),
        None => None,
    }
}

/// The publication time of a video, in milliseconds.
pub fn extract_published_at(entry: &Json) -> (r: Option<i64>)
    requires
        published_at_readable(*entry),
    ensures
        crate::dates::as_int_opt(r) == published_millis(*entry),
{
    if let Some(v) = seconds_millis(get_whole(entry, "timestamp")) {
        return Some(v);
    }
    if let Some(d) = get_str(entry, "upload_date") {
        if let Some(v) = parse_upload_date(d) {
            return Some(v);
        }
    }
    if let Some(v) = seconds_millis(get_whole(entry, "release_timestamp")) {
        return Some(v);
    }
    if let Some(d) = get_str(entry, "release_date") {
        return parse_upload_date(d);
    }
    None
}

fn date_text_is_ok(o: Option<&str>) -> (r: bool)
    ensures
        r == date_text_ok(
            match o {
                Some(t) => Some(t@),
                None => None,
            },
        ),
{
    match o {
        Some(t) => crate::text::utf8_len(t) != 8 || (crate::text::is_boundary_at(t, 4)
            && crate::text::is_boundary_at(t, 6)),
        None => true,
    }
}

fn millis_fit(v: Option<i64>) -> (r: bool)
    ensures
        r == fits_i64(
            match v {
                Some(x) => Some(x * 1000),
                None => None,
            },
        ),
{
    match v {
        Some(x) => {
            let m = (x as i128) * 1000;
            -0x8000_0000_0000_0000i128 <= m && m <= 0x7fff_ffff_ffff_ffffi128
        },
        None => true,
    }
}

/// Whether `extract_published_at` can read `entry` (see
/// `published_at_readable`).
pub fn published_at_is_readable(entry: &Json) -> (r: bool)
    ensures
        r == published_at_readable(*entry),
{
    let ts = get_whole(entry, "timestamp");
    if !millis_fit(ts) {
        return false;
    }
    if ts.is_some() {
        return true;
    }
    let ud = get_str(entry, "upload_date");
    if !date_text_is_ok(ud) {
        return false;
    }
    if let Some(d) = ud {
        if parse_upload_date(d).is_some() {
            return true;
        }
    }
    let rts = get_whole(entry, "release_timestamp");
    if !millis_fit(rts) {
        return false;
    }
    if rts.is_some() {
        return true;
    }
    date_text_is_ok(get_str(entry, "release_date"))
}

} // verus!
