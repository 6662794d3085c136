//! The toolbox's one-shot tools: what each asks yt-dlp for and how its
//! answer is shaped for the front end.

use vstd::prelude::*;

use crate::json::{array_of, get, get_str, int_of, member, str_of, uint_of, Json, JsonNumber};
use crate::numbers::{decimal, signed_decimal, u64_to_string, i64_to_string};
use crate::source::opt_str_view;
use crate::text::{concat, concat3, contains, owned, str_contains, str_eq};

verus! {

/// Removes the first member named `key` and hands out its value.
pub fn take_member(fields: &mut Vec<(String, Json)>, key: &str) -> (r: Option<Json>)
    ensures
        r == member(old(fields)@, key@),
        forall|k: Seq<char>| k != key@ ==> #[trigger] member(final(fields)@, k) == member(old(fields)@, k),
{
    let n = fields.len();
    let mut i: usize = 0;
    assert(fields@.skip(0) =~= fields@);
    while i < n
        invariant
            n == fields@.len(),
            fields@ == old(fields)@,
            i <= n,
            member(fields@, key@) == member(fields@.skip(i as int), key@),
            forall|j: int| 0 <= j < i ==> fields@[j].0@ != key@,
        decreases n - i,
    {
        assert(fields@.skip(i as int).drop_first() =~= fields@.skip(i + 1));
        if str_eq(fields[i].0.as_str(), key) {
            assert(fields@.skip(i as int)[0] == fields@[i as int]);
            let ghost before = fields@;
            let (_, v) = fields.remove(i);
            proof {
                assert forall|k: Seq<char>| k != key@ implies #[trigger] member(fields@, k) == member(before, k) by {
                    lemma_member_remove(before, i as int, k);
                }
            }
            return Some(v);
        }
        i += 1;
    }
    None
}

proof fn lemma_member_remove(s: Seq<(String, Json)>, i: int, k: Seq<char>)
    requires
        0 <= i < s.len(),
        s[i].0@ != k,
    ensures
        member(s.remove(i), k) == member(s, k),
    decreases s.len(),
{
    if i == 0 {
        assert(s.remove(0) =~= s.drop_first());
    } else {
        assert(s.remove(i).drop_first() =~= s.drop_first().remove(i - 1));
        assert(s.remove(i)[0] == s[0]);
        lemma_member_remove(s.drop_first(), i - 1, k);
    }
}

pub open spec fn or_null(o: Option<Json>) -> Json {
    match o {
        Some(v) => v,
        None => Json::Null,
    }
}

/// The members of an object taken out (nothing for another value).
pub fn into_fields(v: Json) -> (r: Vec<(String, Json)>)
    ensures
        match v {
            Json::Object(f) => r@ == f@,
            _ => r@.len() == 0,
        },
{
    match v {
        Json::Object(f) => f,
        _ => Vec::new(),
    }
}

/// The chapters tool's answer: the video's title and duration (or null)
/// and its chapters (or an empty list).
pub fn chapters_result(info: Json) -> (r: Json)
    ensures
        get(r, "title"@) == Some(or_null(get(info, "title"@))),
        get(r, "duration"@) == Some(or_null(get(info, "duration"@))),
        match get(info, "chapters"@) {
            Some(c) => get(r, "chapters"@) == Some(c),
            None => array_of(get(r, "chapters"@)) == Some(Seq::<Json>::empty()),
        },
{
    proof {
        reveal_strlit("title");
        reveal_strlit("duration");
        reveal_strlit("chapters");
        assert("title"@.len() != "duration"@.len());
        assert("title"@.len() != "chapters"@.len());
        assert("duration"@[0] != "chapters"@[0]);
    }
    let mut fields = into_fields(info);
    let title = take_member(&mut fields, "title");
    let duration = take_member(&mut fields, "duration");
    let chapters = take_member(&mut fields, "chapters");
    let title = match title {
        Some(v) => v,
        None => Json::Null,
    };
    let duration = match duration {
        Some(v) => v,
        None => Json::Null,
    };
    let chapters = match chapters {
        Some(v) => v,
        None => Json::Array(Vec::new()),
    };
    let mut out: Vec<(String, Json)> = Vec::new();
    out.push((owned("title"), title));
    out.push((owned("duration"), duration));
    out.push((owned("chapters"), chapters));
    proof {
        let o = out@;
        assert(o.drop_first()[0].0@ == "duration"@);
        assert(o.drop_first().drop_first()[0].0@ == "chapters"@);
        assert(member(o, "duration"@) == member(o.drop_first(), "duration"@));
        assert(member(o, "chapters"@) == member(o.drop_first(), "chapters"@));
        assert(member(o.drop_first(), "chapters"@) == member(o.drop_first().drop_first(), "chapters"@));
    }
    Json::Object(out)
}

/// A JSON number holding the integer `v`.
pub open spec fn is_int_number(n: JsonNumber, v: int) -> bool {
    &&& n.text@ == signed_decimal(v)
    &&& n.int == Some(v as i64)
    &&& n.uint == (if v >= 0 {
        Some(v as u64)
    } else {
        None
    })
    &&& n.truncated == v as i64
    &&& n.positive == (v > 0)
}

/// The JSON number of an `i64`.
pub fn int_number(v: i64) -> (r: JsonNumber)
    ensures
        is_int_number(r, v as int),
{
    JsonNumber {
        text: i64_to_string(v),
        int: Some(v),
        uint: if v >= 0 {
            Some(v as u64)
        } else {
            None
        },
        truncated: v,
        positive: v > 0,
    }
}

/// yt-dlp's comment order: `top` for `top`, else `new`.
pub fn comment_sort_value(sort: &str) -> (r: &'static str)
    ensures
        sort@ == "top"@ ==> r@ == "top"@,
        sort@ != "top"@ ==> r@ == "new"@,
{
    if str_eq(sort, "top") {
        "top"
    } else {
        "new"
    }
}

/// The extractor options of the comments tool.
pub fn comments_extractor_arg(max_comments: u32, sort: &str) -> (r: String)
    ensures
        r@ == "youtube:max_comments="@ + decimal(max_comments as nat) + ";comment_sort="@ + (if sort@
            == "top"@ {
            "top"@
        } else {
            "new"@
        }),
{
    let m = u64_to_string(max_comments as u64);
    let a = concat("youtube:max_comments=", m.as_str());
    concat3(a.as_str(), ";comment_sort=", comment_sort_value(sort))
}

pub open spec fn str_member_is(f: (String, Json), key: Seq<char>, value: Seq<char>) -> bool {
    f.0@ == key && (f.1 matches Json::Str(s) && s@ == value)
}

pub open spec fn int_member_is(f: (String, Json), key: Seq<char>, value: int) -> bool {
    f.0@ == key && (f.1 matches Json::Number(n) && is_int_number(n, value))
}

pub open spec fn bool_member_is(f: (String, Json), key: Seq<char>, value: bool) -> bool {
    f.0@ == key && f.1 == Json::Bool(value)
}

pub open spec fn text_or(o: Option<Seq<char>>, d: Seq<char>) -> Seq<char> {
    match o {
        Some(s) => s,
        None => d,
    }
}

pub open spec fn bool_of(j: Option<Json>) -> Option<bool> {
    match j {
        Some(Json::Bool(b)) => Some(b),
        _ => None,
    }
}

fn str_member(key: &str, value: Option<&str>, default: &str) -> (r: (String, Json))
    ensures
        str_member_is(r, key@, text_or(
            match value {
                Some(v) => Some(v@),
                None => None,
            },
            default@,
        )),
{
    let v = match value {
        Some(v) => owned(v),
        None => owned(default),
    };
    (owned(key), Json::Str(v))
}

/// One comment of a video.
#[derive(Clone, Debug)]
pub struct VideoComment {
    pub id: String,
    /// The id of the comment it answers (`root` for a top comment).
    pub parent: String,
    pub author: String,
    pub author_id: String,
    pub text: String,
    /// Unix time in seconds.
    pub timestamp: i64,
    pub like_count: i64,
    pub is_favorited: bool,
    pub author_is_uploader: bool,
}

fn text_or_default(value: Option<&str>, default: &str) -> (r: String)
    ensures
        r@ == text_or(
            match value {
                Some(v) => Some(v@),
                None => None,
            },
            default@,
        ),
{
    match value {
        Some(v) => owned(v),
        None => owned(default),
    }
}

impl VideoComment {
    /// The comment that a `comments` entry of the tool's JSON describes: a
    /// missing or mistyped text is empty (the parent `root`), a missing
    /// number 0 and a missing flag `false`.
    pub fn from_entry(c: &Json) -> (r: VideoComment)
        ensures
            r.id@ == text_or(str_of(get(*c, "id"@)), seq![]),
            r.parent@ == text_or(str_of(get(*c, "parent"@)), "root"@),
            r.author@ == text_or(str_of(get(*c, "author"@)), seq![]),
            r.author_id@ == text_or(str_of(get(*c, "author_id"@)), seq![]),
            r.text@ == text_or(str_of(get(*c, "text"@)), seq![]),
            r.timestamp as int == match int_of(get(*c, "timestamp"@)) {
                Some(v) => v,
                None => 0,
            },
            r.like_count as int == match int_of(get(*c, "like_count"@)) {
                Some(v) => v,
                None => 0,
            },
            r.is_favorited == match bool_of(get(*c, "is_favorited"@)) {
                Some(b) => b,
                None => false,
            },
            r.author_is_uploader == match bool_of(get(*c, "author_is_uploader"@)) {
                Some(b) => b,
                None => false,
            },
    {
        proof {
            reveal_strlit("");
            assert(""@ =~= Seq::<char>::empty());
        }
        let timestamp = match crate::json::get_i64(c, "timestamp") {
            Some(v) => v,
            None => 0,
        };
        let like_count = match crate::json::get_i64(c, "like_count") {
            Some(v) => v,
            None => 0,
        };
        let is_favorited = match c.get("is_favorited") {
            Some(Json::Bool(b)) => *b,
            _ => false,
        };
        let author_is_uploader = match c.get("author_is_uploader") {
            Some(Json::Bool(b)) => *b,
            _ => false,
        };
        VideoComment {
            id: text_or_default(get_str(c, "id"), ""),
            parent: text_or_default(get_str(c, "parent"), "root"),
            author: text_or_default(get_str(c, "author"), ""),
            author_id: text_or_default(get_str(c, "author_id"), ""),
            text: text_or_default(get_str(c, "text"), ""),
            timestamp,
            like_count,
            is_favorited,
            author_is_uploader,
        }
    }
}

/// One comment as the front end shows it: id, parent (`root` for a top
/// comment), author and author id, text, time and likes (0 when missing),
/// whether it is favoured and whether the uploader wrote it.
pub fn comment_json(c: &Json) -> (r: Json)
    ensures
        r matches Json::Object(f) && {
            let s = f@;
            &&& s.len() == 9
            &&& str_member_is(s[0], "id"@, text_or(str_of(get(*c, "id"@)), seq![]))
            &&& str_member_is(s[1], "parent"@, text_or(str_of(get(*c, "parent"@)), "root"@))
            &&& str_member_is(s[2], "author"@, text_or(str_of(get(*c, "author"@)), seq![]))
            &&& str_member_is(s[3], "author_id"@, text_or(str_of(get(*c, "author_id"@)), seq![]))
            &&& str_member_is(s[4], "text"@, text_or(str_of(get(*c, "text"@)), seq![]))
            &&& int_member_is(s[5], "timestamp"@, match int_of(get(*c, "timestamp"@)) {
                Some(v) => v,
                None => 0,
            })
            &&& int_member_is(s[6], "like_count"@, match int_of(get(*c, "like_count"@)) {
                Some(v) => v,
                None => 0,
            })
            &&& bool_member_is(s[7], "is_favorited"@, match bool_of(get(*c, "is_favorited"@)) {
                Some(b) => b,
                None => false,
            })
            &&& bool_member_is(s[8], "author_is_uploader"@, match bool_of(
                get(*c, "author_is_uploader"@),
            ) {
                Some(b) => b,
                None => false,
            })
        },
{
    proof {
        reveal_strlit("");
        assert(""@ =~= Seq::<char>::empty());
    }
    let mut f: Vec<(String, Json)> = Vec::new();
    f.push(str_member("id", get_str(c, "id"), ""));
    f.push(str_member("parent", get_str(c, "parent"), "root"));
    f.push(str_member("author", get_str(c, "author"), ""));
    f.push(str_member("author_id", get_str(c, "author_id"), ""));
    f.push(str_member("text", get_str(c, "text"), ""));
    let ts = match crate::json::get_i64(c, "timestamp") {
        Some(v) => v,
        None => 0,
    };
    f.push((owned("timestamp"), Json::Number(int_number(ts))));
    let likes = match crate::json::get_i64(c, "like_count") {
        Some(v) => v,
        None => 0,
    };
    f.push((owned("like_count"), Json::Number(int_number(likes))));
    let fav = match c.get("is_favorited") {
        Some(Json::Bool(b)) => *b,
        _ => false,
    };
    f.push((owned("is_favorited"), Json::Bool(fav)));
    let up = match c.get("author_is_uploader") {
        Some(Json::Bool(b)) => *b,
        _ => false,
    };
    f.push((owned("author_is_uploader"), Json::Bool(up)));
    Json::Object(f)
}

/// The comments tool's answer: the video's title and comment count (or
/// null) and its comments, each shaped by `comment_json`.
pub fn comments_result(info: Json) -> (r: Json)
    ensures
        r matches Json::Object(f) && {
            let s = f@;
            let items = match array_of(get(info, "comments"@)) {
                Some(a) => a,
                None => Seq::<Json>::empty(),
            };
            &&& s.len() == 3
            &&& s[0].0@ == "title"@ && s[0].1 == or_null(get(info, "title"@))
            &&& s[1].0@ == "comment_count"@ && s[1].1 == or_null(get(info, "comment_count"@))
            &&& s[2].0@ == "comments"@
            &&& s[2].1 matches Json::Array(out) && out@.len() == items.len() && forall|i: int|
                0 <= i < items.len() ==> comment_shaped(#[trigger] out@[i], items[i])
        },
{
    proof {
        reveal_strlit("title");
        reveal_strlit("comment_count");
        reveal_strlit("comments");
        assert("title"@.len() != "comment_count"@.len());
        assert("title"@.len() != "comments"@.len());
        assert("comment_count"@.len() != "comments"@.len());
    }
    let mut fields = into_fields(info);
    let title = take_member(&mut fields, "title");
    let count = take_member(&mut fields, "comment_count");
    let comments = take_member(&mut fields, "comments");
    let mut out: Vec<Json> = Vec::new();
    if let Some(Json::Array(items)) = &comments {
        let n = items.len();
        let mut i: usize = 0;
        while i < n
            invariant
                n == items@.len(),
                i <= n,
                out@.len() == i,
                forall|j: int| 0 <= j < i ==> comment_shaped(#[trigger] out@[j], items@[j]),
            decreases n - i,
        {
            let cj = comment_json(&items[i]);
            out.push(cj);
            i += 1;
        }
    }
    let mut f: Vec<(String, Json)> = Vec::new();
    f.push(
        (
            owned("title"),
            match title {
                Some(v) => v,
                None => Json::Null,
            },
        ),
    );
    f.push(
        (
            owned("comment_count"),
            match count {
                Some(v) => v,
                None => Json::Null,
            },
        ),
    );
    f.push((owned("comments"), Json::Array(out)));
    Json::Object(f)
}

/// `out` is the comment `c` shaped for the front end (see `comment_json`).
pub open spec fn comment_shaped(out: Json, c: Json) -> bool {
    out matches Json::Object(f) && {
        let s = f@;
        &&& s.len() == 9
        &&& str_member_is(s[0], "id"@, text_or(str_of(get(c, "id"@)), seq![]))
        &&& str_member_is(s[1], "parent"@, text_or(str_of(get(c, "parent"@)), "root"@))
        &&& str_member_is(s[2], "author"@, text_or(str_of(get(c, "author"@)), seq![]))
        &&& str_member_is(s[3], "author_id"@, text_or(str_of(get(c, "author_id"@)), seq![]))
        &&& str_member_is(s[4], "text"@, text_or(str_of(get(c, "text"@)), seq![]))
        &&& int_member_is(s[5], "timestamp"@, match int_of(get(c, "timestamp"@)) {
            Some(v) => v,
            None => 0,
        })
        &&& int_member_is(s[6], "like_count"@, match int_of(get(c, "like_count"@)) {
            Some(v) => v,
            None => 0,
        })
        &&& bool_member_is(s[7], "is_favorited"@, match bool_of(get(c, "is_favorited"@)) {
            Some(b) => b,
            None => false,
        })
        &&& bool_member_is(s[8], "author_is_uploader"@, match bool_of(
            get(c, "author_is_uploader"@),
        ) {
            Some(b) => b,
            None => false,
        })
    }
}

/// A language's tracks count when they are a non-empty list.
pub open spec fn has_tracks(v: Json) -> bool {
    match v {
        Json::Array(a) => a@.len() > 0,
        _ => false,
    }
}

pub open spec fn has_lang(acc: Seq<(String, Json)>, lang: Seq<char>) -> bool {
    exists|i: int| 0 <= i < acc.len() && #[trigger] acc[i].0@ == lang
}

/// `members` (language, tracks) added to `acc`: each language the first
/// time it comes with tracks.
pub open spec fn merge_langs(acc: Seq<(String, Json)>, members: Seq<(String, Json)>) -> Seq<(String, Json)>
    decreases members.len(),
{
    if members.len() == 0 {
        acc
    } else {
        let next = if !has_lang(acc, members[0].0@) && has_tracks(members[0].1) {
            acc.push(members[0])
        } else {
            acc
        };
        merge_langs(next, members.drop_first())
    }
}

/// The union of the `field` maps of `entries`: a language takes the tracks
/// of the first entry that has some.
pub open spec fn aggregate_of(acc: Seq<(String, Json)>, entries: Seq<Json>, field: Seq<char>) -> Seq<(String, Json)>
    decreases entries.len(),
{
    if entries.len() == 0 {
        acc
    } else {
        let next = match get(entries[0], field) {
            Some(Json::Object(m)) => merge_langs(acc, m@),
            _ => acc,
        };
        aggregate_of(next, entries.drop_first(), field)
    }
}

fn lang_known(acc: &Vec<(String, Json)>, lang: &str) -> (r: bool)
    ensures
        r == has_lang(acc@, lang@),
{
    let n = acc.len();
    let mut i: usize = 0;
    while i < n
        invariant
            n == acc@.len(),
            i <= n,
            forall|j: int| 0 <= j < i ==> acc@[j].0@ != lang@,
        decreases n - i,
    {
        if str_eq(acc[i].0.as_str(), lang) {
            return true;
        }
        i += 1;
    }
    false
}

fn merge_into(acc: &mut Vec<(String, Json)>, members: Vec<(String, Json)>)
    ensures
        final(acc)@ == merge_langs(old(acc)@, members@),
{
    let ghost all = members@;
    let mut rest = members;
    assert(all.skip(0) =~= all);
    while rest.len() > 0
        invariant
            merge_langs(acc@, rest@) == merge_langs(old(acc)@, all),
        decreases rest@.len(),
    {
        let ghost r0 = rest@;
        let (lang, tracks) = rest.remove(0);
        assert(rest@ =~= r0.drop_first());
        let fresh = !lang_known(acc, lang.as_str());
        let full = match &tracks {
            Json::Array(a) => a.len() > 0,
            _ => false,
        };
        if fresh && full {
            acc.push((lang, tracks));
        }
    }
}

/// The unions of the subtitles and of the automatic captions of a
/// playlist's entries.
pub fn aggregate_subtitle_maps(entries: Vec<Json>) -> (r: (Json, Json))
    ensures
        r.0 matches Json::Object(a) && a@ == aggregate_of(Seq::empty(), entries@, "subtitles"@),
        r.1 matches Json::Object(b) && b@ == aggregate_of(
            Seq::empty(),
            entries@,
            "automatic_captions"@,
        ),
{
    proof {
        reveal_strlit("subtitles");
        reveal_strlit("automatic_captions");
        assert("subtitles"@.len() != "automatic_captions"@.len());
    }
    let ghost all = entries@;
    let mut rest = entries;
    let mut subs: Vec<(String, Json)> = Vec::new();
    let mut caps: Vec<(String, Json)> = Vec::new();
    while rest.len() > 0
        invariant
            "subtitles"@ != "automatic_captions"@,
            aggregate_of(subs@, rest@, "subtitles"@) == aggregate_of(Seq::empty(), all, "subtitles"@),
            aggregate_of(caps@, rest@, "automatic_captions"@) == aggregate_of(
                Seq::empty(),
                all,
                "automatic_captions"@,
            ),
        decreases rest@.len(),
    {
        let ghost r0 = rest@;
        let e = rest.remove(0);
        assert(rest@ =~= r0.drop_first());
        let mut ef = into_fields(e);
        let ghost f0 = ef@;
        let s = take_member(&mut ef, "subtitles");
        let ghost f1 = ef@;
        assert(member(f1, "automatic_captions"@) == member(f0, "automatic_captions"@));
        let c = take_member(&mut ef, "automatic_captions");
        assert(c == member(f0, "automatic_captions"@));
        assert(c == get(r0[0], "automatic_captions"@));
        assert(s == get(r0[0], "subtitles"@));
        match s {
            Some(Json::Object(m)) => merge_into(&mut subs, m),
            _ => {},
        }
        match c {
            Some(Json::Object(m)) => merge_into(&mut caps, m),
            _ => {},
        }
    }
    (Json::Object(subs), Json::Object(caps))
}

/// The subtitles tool's answer: for a playlist with entries, the title and
/// the union of the entries' subtitles and automatic captions; else the
/// title and the video's own maps (empty when missing).
pub fn subtitles_result(info: Json) -> (r: Json)
    ensures
        r matches Json::Object(f) && {
            let s = f@;
            let playlist = str_of(get(info, "_type"@)) == Some("playlist"@) && array_of(
                get(info, "entries"@),
            ) is Some;
            &&& s.len() == 3
            &&& s[0].0@ == "title"@ && s[0].1 == or_null(get(info, "title"@))
            &&& s[1].0@ == "subtitles"@
            &&& s[2].0@ == "automatic_captions"@
            &&& if playlist {
                let es = array_of(get(info, "entries"@))->0;
                &&& s[1].1 matches Json::Object(a) && a@ == aggregate_of(Seq::empty(), es, "subtitles"@)
                &&& s[2].1 matches Json::Object(b) && b@ == aggregate_of(
                    Seq::empty(),
                    es,
                    "automatic_captions"@,
                )
            } else {
                &&& match get(info, "subtitles"@) {
                    Some(v) => s[1].1 == v,
                    None => s[1].1 matches Json::Object(a) && a@.len() == 0,
                }
                &&& match get(info, "automatic_captions"@) {
                    Some(v) => s[2].1 == v,
                    None => s[2].1 matches Json::Object(b) && b@.len() == 0,
                }
            }
        },
{
    proof {
        reveal_strlit("title");
        reveal_strlit("_type");
        reveal_strlit("entries");
        reveal_strlit("subtitles");
        reveal_strlit("automatic_captions");
        assert("title"@[0] != "_type"@[0]);
        assert("title"@.len() != "entries"@.len());
        assert("title"@.len() != "subtitles"@.len());
        assert("title"@.len() != "automatic_captions"@.len());
        assert("_type"@.len() != "entries"@.len());
        assert("_type"@.len() != "subtitles"@.len());
        assert("_type"@.len() != "automatic_captions"@.len());
        assert("entries"@.len() != "subtitles"@.len());
        assert("entries"@.len() != "automatic_captions"@.len());
        assert("subtitles"@.len() != "automatic_captions"@.len());
    }
    let playlist_type = match get_str(&info, "_type") {
        Some(t) => str_eq(t, "playlist"),
        None => false,
    };
    let mut fields = into_fields(info);
    let title = take_member(&mut fields, "title");
    let title = match title {
        Some(v) => v,
        None => Json::Null,
    };
    let entries = take_member(&mut fields, "entries");
    let subs = take_member(&mut fields, "subtitles");
    let autos = take_member(&mut fields, "automatic_captions");
    let mut f: Vec<(String, Json)> = Vec::new();
    f.push((owned("title"), title));
    let is_playlist = playlist_type && match &entries {
        Some(Json::Array(_)) => true,
        _ => false,
    };
    if is_playlist {
        let es = match entries {
            Some(Json::Array(es)) => es,
            _ => Vec::new(),
        };
        let (a, b) = aggregate_subtitle_maps(es);
        f.push((owned("subtitles"), a));
        f.push((owned("automatic_captions"), b));
        return Json::Object(f);
    }
    match entries {
        _ => {
            f.push(
                (
                    owned("subtitles"),
                    match subs {
                        Some(v) => v,
                        None => Json::Object(Vec::new()),
                    },
                ),
            );
            f.push(
                (
                    owned("automatic_captions"),
                    match autos {
                        Some(v) => v,
                        None => Json::Object(Vec::new()),
                    },
                ),
            );
            Json::Object(f)
        },
    }
}

pub open spec fn object_len(j: Option<Json>) -> int {
    match j {
        Some(Json::Object(f)) => f@.len() as int,
        _ => 0,
    }
}

pub open spec fn array_len(j: Option<Json>) -> int {
    match j {
        Some(Json::Array(a)) => a@.len() as int,
        _ => 0,
    }
}

/// How many items a tool's result holds: subtitle languages plus caption
/// languages, chat messages, pictures, chapters or comments; 0 for any
/// other tool.
pub open spec fn result_total_of(tool_id: Seq<char>, value: Json) -> int {
    if tool_id == "subtitles"@ {
        object_len(get(value, "subtitles"@)) + object_len(get(value, "automatic_captions"@))
    } else if tool_id == "livechat"@ {
        array_len(Some(value))
    } else if tool_id == "thumbnail"@ {
        array_len(get(value, "thumbnails"@))
    } else if tool_id == "chapters"@ {
        array_len(get(value, "chapters"@))
    } else if tool_id == "comments"@ {
        array_len(get(value, "comments"@))
    } else {
        0
    }
}

fn object_len_of(j: Option<&Json>) -> (r: usize)
    ensures
        r as int == object_len(
            match j {
                Some(v) => Some(*v),
                None => None,
            },
        ),
{
    match j {
        Some(Json::Object(f)) => f.len(),
        _ => 0,
    }
}

fn array_len_of(j: Option<&Json>) -> (r: usize)
    ensures
        r as int == array_len(
            match j {
                Some(v) => Some(*v),
                None => None,
            },
        ),
{
    match j {
        Some(Json::Array(a)) => a.len(),
        _ => 0,
    }
}

/// How many items the result of `tool_id` holds.
pub fn result_total(tool_id: &str, value: &Json) -> (r: i64)
    requires
        result_total_of(tool_id@, *value) <= i64::MAX,
    ensures
        r as int == result_total_of(tool_id@, *value),
{
    if str_eq(tool_id, "subtitles") {
        let a = object_len_of(value.get("subtitles"));
        let b = object_len_of(value.get("automatic_captions"));
        return (a as i64) + (b as i64);
    }
    if str_eq(tool_id, "livechat") {
        return array_len_of(Some(value)) as i64;
    }
    if str_eq(tool_id, "thumbnail") {
        return array_len_of(value.get("thumbnails")) as i64;
    }
    if str_eq(tool_id, "chapters") {
        return array_len_of(value.get("chapters")) as i64;
    }
    if str_eq(tool_id, "comments") {
        return array_len_of(value.get("comments")) as i64;
    }
    0
}

/// A text parameter of a tool run.
pub fn optional_string(params: &Json, key: &str) -> (r: Option<String>)
    ensures
        opt_str_view(r) == str_of(get(*params, key@)),
{
    match get_str(params, key) {
        Some(s) => Some(owned(s)),
        None => None,
    }
}

/// The tools of the toolbox, with what each needs.
pub enum ToolKind {
    LiveChat,
    Thumbnail,
    Subtitles,
    Chapters,
    Comments { max_comments: u32, sort: String },
}

/// A tool run as the front end asked for it.
pub struct ToolRequest {
    pub kind: ToolKind,
    pub cookie_file: Option<String>,
    pub cookie_browser: Option<String>,
    pub proxy: Option<String>,
}

/// Reads a tool run: the tool from `tool_id`; for comments the number
/// (`maxComments`, 100 when missing, cut to 32 bits) and the order (`sort`,
/// `top` when missing); cookies and proxy for every tool.
pub fn tool_request(tool_id: &str, params: &Json) -> (r: Result<ToolRequest, String>)
    ensures
        match r {
            Ok(q) => {
                &&& opt_str_view(q.cookie_file) == str_of(get(*params, "cookieFile"@))
                &&& opt_str_view(q.cookie_browser) == str_of(get(*params, "cookieBrowser"@))
                &&& opt_str_view(q.proxy) == str_of(get(*params, "proxy"@))
                &&& match q.kind {
                    ToolKind::LiveChat => tool_id@ == "livechat"@,
                    ToolKind::Thumbnail => tool_id@ == "thumbnail"@,
                    ToolKind::Subtitles => tool_id@ == "subtitles"@,
                    ToolKind::Chapters => tool_id@ == "chapters"@,
                    ToolKind::Comments { max_comments, sort } => {
                        &&& tool_id@ == "comments"@
                        &&& max_comments as int == (match uint_of(get(*params, "maxComments"@)) {
                            Some(v) => v,
                            None => 100,
                        }) % 0x1_0000_0000
                        &&& sort@ == match str_of(get(*params, "sort"@)) {
                            Some(s) => s,
                            None => "top"@,
                        }
                    },
                }
            },
            Err(e) => {
                &&& e@ == "err_unknown_tool"@
                &&& tool_id@ != "livechat"@ && tool_id@ != "thumbnail"@ && tool_id@ != "subtitles"@
                    && tool_id@ != "chapters"@ && tool_id@ != "comments"@
            },
        },
{
    let cookie_file = optional_string(params, "cookieFile");
    let cookie_browser = optional_string(params, "cookieBrowser");
    let proxy = optional_string(params, "proxy");
    let kind = if str_eq(tool_id, "livechat") {
        ToolKind::LiveChat
    } else if str_eq(tool_id, "thumbnail") {
        ToolKind::Thumbnail
    } else if str_eq(tool_id, "subtitles") {
        ToolKind::Subtitles
    } else if str_eq(tool_id, "chapters") {
        ToolKind::Chapters
    } else if str_eq(tool_id, "comments") {
        let max: u64 = match params.get("maxComments") {
            Some(v) => match v.as_u64() {
                Some(m) => m,
                None => 100,
            },
            None => 100,
        };
        let sort = match optional_string(params, "sort") {
            Some(s) => s,
            None => owned("top"),
        };
        ToolKind::Comments { max_comments: (max % 0x1_0000_0000) as u32, sort }
    } else {
        return Err(owned("err_unknown_tool"));
    };
    Ok(ToolRequest { kind, cookie_file, cookie_browser, proxy })
}

/// The options every download-less tool run of yt-dlp shares.
pub open spec fn tool_base_args() -> Seq<Seq<char>> {
    seq![
        "--skip-download"@,
        "--ignore-config"@,
        "--color"@,
        "never"@,
        "--windows-filenames"@,
        "--no-warnings"@,
        "--socket-timeout"@,
        "15"@,
        "--retries"@,
        "3"@,
    ]
}

pub open spec fn strings(v: Seq<String>) -> Seq<Seq<char>> {
    v.map_values(|s: String| s@)
}

fn push_all(args: &mut Vec<String>, items: &Vec<String>)
    ensures
        strings(final(args)@) == strings(old(args)@) + strings(items@),
{
    let ghost start = strings(args@);
    let n = items.len();
    let mut i: usize = 0;
    while i < n
        invariant
            n == items@.len(),
            i <= n,
            strings(args@) == start + strings(items@).take(i as int),
        decreases n - i,
    {
        let ghost before = args@;
        args.push(items[i].clone());
        assert(strings(args@) =~= strings(before).push(items@[i as int]@));
        assert(strings(items@).take(i + 1) =~= strings(items@).take(i as int).push(items@[i as int]@));
        i += 1;
    }
    assert(strings(items@).take(n as int) =~= strings(items@));
}

/// The options of a download-less tool run: the common ones, the tool
/// options, the output template, the tool's own, cookies and proxy, the
/// address.
pub fn tool_run_args(
    tool_args: &Vec<String>,
    output_template: &str,
    extra: &Vec<String>,
    cookie_file: Option<&str>,
    cookie_browser: Option<&str>,
    proxy: Option<&str>,
    url: &str,
) -> (r: Vec<String>)
    ensures
        strings(r@) == tool_base_args() + strings(tool_args@) + seq!["-o"@, output_template@]
            + strings(extra@) + crate::ytdlp::cookie_proxy_args_of(cookie_file, cookie_browser, proxy)
            + seq![url@],
{
    let mut r: Vec<String> = Vec::new();
    r.push(owned("--skip-download"));
    r.push(owned("--ignore-config"));
    r.push(owned("--color"));
    r.push(owned("never"));
    r.push(owned("--windows-filenames"));
    r.push(owned("--no-warnings"));
    r.push(owned("--socket-timeout"));
    r.push(owned("15"));
    r.push(owned("--retries"));
    r.push(owned("3"));
    assert(strings(r@) =~= tool_base_args());
    push_all(&mut r, tool_args);
    let ghost a = strings(r@);
    r.push(owned("-o"));
    r.push(owned(output_template));
    assert(strings(r@) =~= a + seq!["-o"@, output_template@]);
    push_all(&mut r, extra);
    crate::ytdlp::append_cookie_proxy_args(&mut r, cookie_file, cookie_browser, proxy);
    let ghost b = strings(r@);
    r.push(owned(url));
    assert(strings(r@) =~= b + seq![url@]);
    r
}

/// A tool run's result: its output when it succeeded, else what its error
/// output says went wrong.
pub fn tool_run_result(success: bool, stdout: String, stderr: &str) -> (r: Result<String, String>)
    ensures
        success ==> r == Ok::<String, String>(stdout),
        !success ==> (r matches Err(e) && e@ == crate::ytdlp::ytdlp_error_of(stderr@)),
{
    if success {
        Ok(stdout)
    } else {
        Err(crate::ytdlp::extract_ytdlp_error(stderr))
    }
}

/// The subtitle tool's own options: the languages, and automatic captions
/// when asked.
pub fn subtitle_download_args(sub_langs: &str, write_auto_subs: bool) -> (r: Vec<String>)
    ensures
        strings(r@) == seq!["--write-subs"@, "--sub-langs"@, sub_langs@] + (if write_auto_subs {
            seq!["--write-auto-subs"@]
        } else {
            Seq::<Seq<char>>::empty()
        }),
{
    let mut r: Vec<String> = Vec::new();
    r.push(owned("--write-subs"));
    r.push(owned("--sub-langs"));
    r.push(owned(sub_langs));
    if write_auto_subs {
        r.push(owned("--write-auto-subs"));
    }
    assert(strings(r@) =~= seq!["--write-subs"@, "--sub-langs"@, sub_langs@] + (if write_auto_subs {
        seq!["--write-auto-subs"@]
    } else {
        Seq::<Seq<char>>::empty()
    }));
    r
}

/// A path that leaves its folder through `..` is refused before saving.
pub fn check_save_path(file_path: &str) -> (r: Result<(), String>)
    ensures
        contains(file_path@, ".."@) ==> (r matches Err(e) && e@ == "err_path_traversal"@),
        !contains(file_path@, ".."@) ==> r is Ok,
{
    if str_contains(file_path, "..") {
        Err(owned("err_path_traversal"))
    } else {
        Ok(())
    }
}

/// The error of an answer that did not succeed: the prefix, `HTTP` and
/// the status.
pub fn http_status_error(prefix: &str, status_text: &str) -> (r: String)
    ensures
        r@ == prefix@ + "HTTP "@ + status_text@,
{
    concat3(prefix, "HTTP ", status_text)
}

} // verus!
