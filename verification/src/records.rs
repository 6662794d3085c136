//! What the app stores: the URL parse history, the tools' result snapshots,
//! the database health report, the restart rule for download tasks and the
//! plan of a paged query over a channel's videos.

use vstd::prelude::*;

use crate::sync::strings;
use crate::text::{concat3, owned, str_eq, trim, trim_str};

verus! {

/// One entry of the URL parse history; `time` in milliseconds.
#[derive(Debug, Clone)]
pub struct HistoryItemRecord {
    pub url: String,
    pub title: String,
    pub time: i64,
}

/// The history keeps this many entries, the most recent ones.
pub const HISTORY_LIMIT: usize = 50;

pub open spec fn history_view(r: HistoryItemRecord) -> (Seq<char>, Seq<char>, i64) {
    (r.url@, r.title@, r.time)
}

pub open spec fn history_views(v: Seq<HistoryItemRecord>) -> Seq<(Seq<char>, Seq<char>, i64)> {
    v.map_values(|r: HistoryItemRecord| history_view(r))
}

/// What an imported history item is stored as: nothing when its URL is
/// blank; else the trimmed URL, the trimmed title (the URL when the title is
/// blank) and its time (`now` when it has none, that is when it is not
/// positive).
pub open spec fn imported_entry(url: Seq<char>, title: Seq<char>, time: i64, now: i64) -> Option<
    (Seq<char>, Seq<char>, i64),
> {
    let u = trim(url);
    if u.len() == 0 {
        None
    } else {
        let t = trim(title);
        Some((u, if t.len() == 0 { u } else { t }, if time > 0 { time } else { now }))
    }
}

/// The entries that a batch import stores, in order.
pub open spec fn imported_batch(items: Seq<HistoryItemRecord>, now: i64) -> Seq<
    (Seq<char>, Seq<char>, i64),
>
    decreases items.len(),
{
    if items.len() == 0 {
        seq![]
    } else {
        let rest = imported_batch(items.drop_last(), now);
        let it = items.last();
        match imported_entry(it.url@, it.title@, it.time, now) {
            Some(e) => rest.push(e),
            None => rest,
        }
    }
}

/// The entry stored for one imported history item.
pub fn import_history_item(item: &HistoryItemRecord, now: i64) -> (r: Option<HistoryItemRecord>)
    ensures
        r.is_some() == imported_entry(item.url@, item.title@, item.time, now).is_some(),
        r matches Some(e) ==> imported_entry(item.url@, item.title@, item.time, now) == Some(
            history_view(e),
        ),
{
    let url = trim_str(item.url.as_str());
    if url.as_str().is_empty() {
        return None;
    }
    let t = trim_str(item.title.as_str());
    let title = if t.as_str().is_empty() {
        url.clone()
    } else {
        t
    };
    let time = if item.time > 0 {
        item.time
    } else {
        now
    };
    Some(HistoryItemRecord { url, title, time })
}

/// The entries stored for a batch of imported history items: blank URLs
/// are skipped, the others normalised as `import_history_item` does.
pub fn import_history_batch(items: &Vec<HistoryItemRecord>, now: i64) -> (r: Vec<HistoryItemRecord>)
    ensures
        history_views(r@) == imported_batch(items@, now),
{
    let mut out: Vec<HistoryItemRecord> = Vec::new();
    let mut i: usize = 0;
    while i < items.len()
        invariant
            i <= items.len(),
            history_views(out@) == imported_batch(items@.take(i as int), now),
        decreases items.len() - i,
    {
        assert(items@.take(i + 1).drop_last() =~= items@.take(i as int));
        assert(items@.take(i + 1).last() == items@[i as int]);
        match import_history_item(&items[i], now) {
            Some(e) => {
                let ghost before = out@;
                out.push(e);
                assert(history_views(out@) =~= history_views(before).push(history_view(e)));
            },
            None => {},
        }
        i += 1;
    }
    assert(items@.take(items.len() as int) =~= items@);
    out
}

/// The entry stored when one URL is parsed: none for a blank URL, else the
/// trimmed URL with the title as given, at `now`.
pub fn history_entry(url: &str, title: &str, now: i64) -> (r: Option<HistoryItemRecord>)
    ensures
        r.is_some() == (trim(url@).len() > 0),
        r matches Some(e) ==> e.url@ == trim(url@) && e.title@ == title@ && e.time == now,
{
    let u = trim_str(url);
    if u.as_str().is_empty() {
        return None;
    }
    Some(HistoryItemRecord { url: u, title: owned(title), time: now })
}

/// The last result a tool showed, one per tool.
#[derive(Debug, Clone)]
pub struct ToolSnapshotRecord {
    pub tool: String,
    pub url: String,
    pub title: String,
    pub result_json: String,
    pub updated_at: i64,
}

/// The snapshot saved for a tool's result: refused when the tool or the URL
/// is blank, else stored under the trimmed tool and URL at `now`.
pub fn tool_snapshot(tool: &str, url: &str, title: String, result_json: String, now: i64) -> (r:
    Result<ToolSnapshotRecord, String>)
    ensures
        r.is_err() == (trim(tool@).len() == 0 || trim(url@).len() == 0),
        r matches Err(e) ==> e@ == "tool and url must not be empty"@,
        r matches Ok(s) ==> s.tool@ == trim(tool@) && s.url@ == trim(url@) && s.title@ == title@
            && s.result_json@ == result_json@ && s.updated_at == now,
{
    let t = trim_str(tool);
    let u = trim_str(url);
    if t.as_str().is_empty() || u.as_str().is_empty() {
        return Err(owned("tool and url must not be empty"));
    }
    Ok(ToolSnapshotRecord { tool: t, url: u, title, result_json, updated_at: now })
}

/// The database health report.
#[derive(Debug, Clone)]
pub struct DbHealthInfo {
    pub db_path: String,
    pub sqlite_version: String,
    pub tables: Vec<String>,
    pub healthy: bool,
}

/// `s` is `ok` in any ASCII case.
pub open spec fn is_ok_line(s: Seq<char>) -> bool {
    s.len() == 2 && (s[0] == 'o' || s[0] == 'O') && (s[1] == 'k' || s[1] == 'K')
}

/// Whether the first line of the integrity check says the database is sound.
pub fn integrity_ok(first_line: &str) -> (r: bool)
    ensures
        r == is_ok_line(first_line@),
{
    let v = crate::text::chars_of(first_line);
    v.len() == 2 && (v[0] == 'o' || v[0] == 'O') && (v[1] == 'k' || v[1] == 'K')
}

/// The health report: healthy exactly when the integrity check could be run
/// and its first line is `ok`.
pub fn db_health_info(
    db_path: String,
    sqlite_version: String,
    tables: Vec<String>,
    integrity: Option<&str>,
) -> (r: DbHealthInfo)
    ensures
        r.db_path@ == db_path@,
        r.sqlite_version@ == sqlite_version@,
        r.tables@ == tables@,
        r.healthy == (integrity matches Some(l) && is_ok_line(l@)),
{
    let healthy = match integrity {
        Some(l) => integrity_ok(l),
        None => false,
    };
    DbHealthInfo { db_path, sqlite_version, tables, healthy }
}

/// The states of a download task that cannot outlive the app.
pub open spec fn is_interrupted_status(s: Seq<char>) -> bool {
    s == "preparing"@ || s == "queued"@ || s == "downloading"@ || s == "postprocessing"@ || s
        == "paused"@
}

/// Whether a task found in `status` when the app starts was cut off by the
/// restart (it is then marked failed with `interrupted_error`).
pub fn interrupted_on_restart(status: &str) -> (r: bool)
    ensures
        r == is_interrupted_status(status@),
{
    str_eq(status, "preparing") || str_eq(status, "queued") || str_eq(status, "downloading")
        || str_eq(status, "postprocessing") || str_eq(status, "paused")
}

/// The error recorded on a task cut off by a restart.
pub fn interrupted_error() -> (r: String)
    ensures
        r@ == "应用已重启，任务已中断"@,
{
    owned("应用已重启，任务已中断")
}

/// A paged query over a channel's videos.
#[derive(Debug, Clone)]
pub struct ChannelVideosQuery {
    pub channel_id: String,
    pub content_type: Option<String>,
    pub query: Option<String>,
    pub sort_by: Option<String>,
    pub sort_order: Option<String>,
    pub page: u32,
    pub page_size: u32,
}

/// The column a page of videos is ordered by.
#[derive(Debug, Clone, Copy, PartialEq, Eq)]
pub enum VideoSort {
    ViewCount,
    Duration,
    Published,
}

/// The SQL expression of the column a page is ordered by.
pub open spec fn sort_column(s: VideoSort) -> Seq<char> {
    match s {
        VideoSort::ViewCount => "view_count"@,
        VideoSort::Duration => "duration"@,
        VideoSort::Published => "COALESCE(published_at, created_at)"@,
    }
}

impl VideoSort {
    /// The SQL expression of the column (`Published` falls back on the time
    /// the row was created).
    pub fn column(&self) -> (r: &'static str)
        ensures
            r@ == sort_column(*self),
    {
        match self {
            VideoSort::ViewCount => "view_count",
            VideoSort::Duration => "duration",
            VideoSort::Published => "COALESCE(published_at, created_at)",
        }
    }
}

/// How a paged query is run.
#[derive(Debug, Clone)]
pub struct VideoPagePlan {
    /// Only videos of this content type, when set.
    pub content_type: Option<String>,
    /// Only videos whose title is `LIKE` this pattern, when set.
    pub title_pattern: Option<String>,
    pub sort: VideoSort,
    pub ascending: bool,
    pub page: u32,
    pub page_size: u32,
    pub offset: u32,
}

pub open spec fn opt_view(o: Option<String>) -> Option<Seq<char>> {
    match o {
        Some(s) => Some(s@),
        None => None,
    }
}

pub open spec fn type_filter_of(ct: Option<Seq<char>>) -> Option<Seq<char>> {
    match ct {
        Some(c) => if c != "all"@ && c.len() > 0 {
            Some(c)
        } else {
            None
        },
        None => None,
    }
}

pub open spec fn title_pattern_of(q: Option<Seq<char>>) -> Option<Seq<char>> {
    match q {
        Some(s) => if trim(s).len() > 0 {
            Some("%"@ + trim(s) + "%"@)
        } else {
            None
        },
        None => None,
    }
}

pub open spec fn sort_of(by: Option<Seq<char>>) -> VideoSort {
    if by == Some("view_count"@) {
        VideoSort::ViewCount
    } else if by == Some("duration"@) {
        VideoSort::Duration
    } else {
        VideoSort::Published
    }
}

pub open spec fn page_of(page: u32) -> int {
    if page < 1 {
        1
    } else {
        page as int
    }
}

pub open spec fn page_size_of(size: u32) -> int {
    if size < 1 {
        1
    } else if size > 1000 {
        1000
    } else {
        size as int
    }
}

fn opt_eq(o: &Option<String>, lit: &str) -> (r: bool)
    ensures
        r == (opt_view(*o) == Some(lit@)),
{
    match o {
        Some(s) => str_eq(s.as_str(), lit),
        None => false,
    }
}

/// The plan of a paged query: the content type filter unless it is `all` or
/// blank; a `%…%` title pattern around the trimmed search text unless it is
/// blank; the order column (`view_count`, `duration`, else the publication
/// time); ascending only for `asc`; the page at least 1, the page size
/// between 1 and 1000, and the rows before the page skipped.
pub fn plan_videos_page(q: &ChannelVideosQuery) -> (r: VideoPagePlan)
    requires
        (page_of(q.page) - 1) * page_size_of(q.page_size) <= u32::MAX,
    ensures
        opt_view(r.content_type) == type_filter_of(opt_view(q.content_type)),
        opt_view(r.title_pattern) == title_pattern_of(opt_view(q.query)),
        r.sort == sort_of(opt_view(q.sort_by)),
        r.ascending == (opt_view(q.sort_order) == Some("asc"@)),
        r.page == page_of(q.page),
        r.page_size == page_size_of(q.page_size),
        r.offset == (page_of(q.page) - 1) * page_size_of(q.page_size),
{
    let content_type = match &q.content_type {
        Some(ct) => if !str_eq(ct.as_str(), "all") && !ct.as_str().is_empty() {
            Some(owned(ct.as_str()))
        } else {
            None
        },
        None => None,
    };
    let title_pattern = match &q.query {
        Some(s) => {
            let t = trim_str(s.as_str());
            if !t.as_str().is_empty() {
                Some(concat3("%", t.as_str(), "%"))
            } else {
                None
            }
        },
        None => None,
    };
    let sort = if opt_eq(&q.sort_by, "view_count") {
        VideoSort::ViewCount
    } else if opt_eq(&q.sort_by, "duration") {
        VideoSort::Duration
    } else {
        VideoSort::Published
    };
    let ascending = opt_eq(&q.sort_order, "asc");
    let page: u32 = if q.page < 1 {
        1
    } else {
        q.page
    };
    let page_size: u32 = if q.page_size < 1 {
        1
    } else if q.page_size > 1000 {
        1000
    } else {
        q.page_size
    };
    let offset: u32 = (page - 1) * page_size;
    VideoPagePlan { content_type, title_pattern, sort, ascending, page, page_size, offset }
}

/// The non-empty strings of `s`, in order.
pub open spec fn non_empty(s: Seq<Seq<char>>) -> Seq<Seq<char>>
    decreases s.len(),
{
    if s.len() == 0 {
        seq![]
    } else if s.last().len() > 0 {
        non_empty(s.drop_last()).push(s.last())
    } else {
        non_empty(s.drop_last())
    }
}

/// The video ids a date calibration was asked for, empty ones left out.
pub fn requested_video_ids(ids: &Vec<String>) -> (r: Vec<String>)
    ensures
        strings(r@) == non_empty(strings(ids@)),
{
    let mut out: Vec<String> = Vec::new();
    let mut i: usize = 0;
    while i < ids.len()
        invariant
            i <= ids.len(),
            strings(out@) == non_empty(strings(ids@.take(i as int))),
        decreases ids.len() - i,
    {
        assert(strings(ids@.take(i + 1)).drop_last() =~= strings(ids@.take(i as int)));
        assert(strings(ids@.take(i + 1)).last() == ids@[i as int]@);
        if !ids[i].as_str().is_empty() {
            let ghost before = out@;
            out.push(owned(ids[i].as_str()));
            assert(strings(out@) =~= strings(before).push(ids@[i as int]@));
        }
        i += 1;
    }
    assert(ids@.take(ids.len() as int) =~= ids@);
    out
}


/// A history entry by its URL, title and time.
pub type HistoryEntry = (Seq<char>, Seq<char>, i64);

/// The history `s` (newest first) with `e` recorded, before it is cut to
/// its limit: an entry of the same URL leaves, and `e` goes before the
/// first entry that is not newer than it (`placed` once it is in).
pub open spec fn merged(s: Seq<HistoryEntry>, e: HistoryEntry, placed: bool) -> Seq<HistoryEntry>
    decreases s.len(),
{
    if s.len() == 0 {
        if placed {
            seq![]
        } else {
            seq![e]
        }
    } else if s[0].0 == e.0 {
        merged(s.drop_first(), e, placed)
    } else if !placed && s[0].2 <= e.2 {
        seq![e, s[0]] + merged(s.drop_first(), e, true)
    } else {
        seq![s[0]] + merged(s.drop_first(), e, placed)
    }
}

/// The history `s` with `e` recorded: the `HISTORY_LIMIT` newest entries
/// of `merged`.
pub open spec fn recorded(s: Seq<HistoryEntry>, e: HistoryEntry) -> Seq<HistoryEntry> {
    let m = merged(s, e, false);
    if m.len() > HISTORY_LIMIT {
        m.take(HISTORY_LIMIT as int)
    } else {
        m
    }
}

/// The history after recording `items` one after the other into `s`.
pub open spec fn recorded_all(s: Seq<HistoryEntry>, items: Seq<HistoryEntry>) -> Seq<HistoryEntry>
    decreases items.len(),
{
    if items.len() == 0 {
        s
    } else {
        recorded(recorded_all(s, items.drop_last()), items.last())
    }
}

/// Newest first.
pub open spec fn newest_first(s: Seq<HistoryEntry>) -> bool {
    forall|i: int, j: int| 0 <= i < j < s.len() ==> #[trigger] s[i].2 >= #[trigger] s[j].2
}

/// No URL twice.
pub open spec fn unique_urls(s: Seq<HistoryEntry>) -> bool {
    forall|i: int, j: int| 0 <= i < j < s.len() ==> #[trigger] s[i].0 != #[trigger] s[j].0
}

/// Each entry of `merged` is `e` or an entry of `s` of another URL; once
/// `e` is placed, none has its URL.
proof fn lemma_merged_members(s: Seq<HistoryEntry>, e: HistoryEntry, placed: bool)
    ensures
        forall|k: int|
            0 <= k < merged(s, e, placed).len() ==> (#[trigger] merged(s, e, placed)[k] == e || (
            merged(s, e, placed)[k].0 != e.0 && s.contains(merged(s, e, placed)[k]))),
        placed ==> forall|k: int|
            0 <= k < merged(s, e, placed).len() ==> #[trigger] merged(s, e, placed)[k].0 != e.0,
    decreases s.len(),
{
    if s.len() == 0 {
        if !placed {
            assert(merged(s, e, placed) =~= seq![e]);
        }
    } else {
        let rest = s.drop_first();
        lemma_merged_members(rest, e, placed);
        lemma_merged_members(rest, e, true);
        let m = merged(s, e, placed);
        if s[0].0 == e.0 {
            let r = merged(rest, e, placed);
            assert(m == r);
            assert forall|k: int| 0 <= k < m.len() implies (#[trigger] m[k] == e || (m[k].0 != e.0
                && s.contains(m[k]))) by {
                assert(m[k] == r[k]);
                if m[k] != e {
                    assert(rest.contains(r[k]));
                    let w = choose|w: int| 0 <= w < rest.len() && rest[w] == r[k];
                    assert(s[w + 1] == m[k]);
                }
            }
        } else if !placed && s[0].2 <= e.2 {
            let r = merged(rest, e, true);
            assert forall|k: int| 0 <= k < m.len() implies (#[trigger] m[k] == e || (m[k].0 != e.0
                && s.contains(m[k]))) by {
                if k == 0 {
                } else if k == 1 {
                    assert(m[1] == s[0]);
                } else {
                    assert(m[k] == r[k - 2]);
                    let w = choose|w: int| 0 <= w < rest.len() && rest[w] == r[k - 2];
                    assert(s[w + 1] == m[k]);
                }
            }
        } else {
            let r = merged(rest, e, placed);
            assert forall|k: int| 0 <= k < m.len() implies (#[trigger] m[k] == e || (m[k].0 != e.0
                && s.contains(m[k]))) by {
                if k == 0 {
                    assert(m[0] == s[0]);
                } else {
                    assert(m[k] == r[k - 1]);
                    if m[k] != e {
                        let w = choose|w: int| 0 <= w < rest.len() && rest[w] == r[k - 1];
                        assert(s[w + 1] == m[k]);
                    }
                }
            }
            if placed {
                assert forall|k: int| 0 <= k < m.len() implies #[trigger] m[k].0 != e.0 by {
                    if k > 0 {
                        assert(m[k] == r[k - 1]);
                    }
                }
            }
        }
    }
}

/// Recording keeps URLs unique.
proof fn lemma_merged_unique(s: Seq<HistoryEntry>, e: HistoryEntry, placed: bool)
    requires
        unique_urls(s),
    ensures
        unique_urls(merged(s, e, placed)),
    decreases s.len(),
{
    if s.len() == 0 {
    } else {
        let rest = s.drop_first();
        assert(unique_urls(rest)) by {
            assert forall|i: int, j: int| 0 <= i < j < rest.len() implies #[trigger] rest[i].0
                != #[trigger] rest[j].0 by {
                assert(rest[i] == s[i + 1] && rest[j] == s[j + 1]);
            }
        }
        lemma_merged_unique(rest, e, placed);
        lemma_merged_unique(rest, e, true);
        lemma_merged_members(rest, e, placed);
        lemma_merged_members(rest, e, true);
        let m = merged(s, e, placed);
        // an entry of `rest` has a URL other than `s[0]`
        assert forall|x: HistoryEntry| #[trigger] rest.contains(x) implies x.0 != s[0].0 by {
            let w = choose|w: int| 0 <= w < rest.len() && rest[w] == x;
            assert(s[w + 1] == x);
        }
        if s[0].0 == e.0 {
        } else if !placed && s[0].2 <= e.2 {
            let r = merged(rest, e, true);
            assert forall|i: int, j: int| 0 <= i < j < m.len() implies #[trigger] m[i].0
                != #[trigger] m[j].0 by {
                if j >= 2 {
                    assert(m[j] == r[j - 2]);
                    if i >= 2 {
                        assert(m[i] == r[i - 2]);
                    } else if i == 1 {
                        assert(rest.contains(r[j - 2]));
                    }
                }
            }
        } else {
            let r = merged(rest, e, placed);
            assert forall|i: int, j: int| 0 <= i < j < m.len() implies #[trigger] m[i].0
                != #[trigger] m[j].0 by {
                assert(m[j] == r[j - 1]);
                if i >= 1 {
                    assert(m[i] == r[i - 1]);
                } else if r[j - 1] != e {
                    assert(rest.contains(r[j - 1]));
                }
            }
        }
    }
}

/// Recording keeps the history newest first.
proof fn lemma_merged_order(s: Seq<HistoryEntry>, e: HistoryEntry, placed: bool)
    requires
        newest_first(s),
    ensures
        newest_first(merged(s, e, placed)),
    decreases s.len(),
{
    if s.len() == 0 {
    } else {
        let rest = s.drop_first();
        assert(newest_first(rest)) by {
            assert forall|i: int, j: int| 0 <= i < j < rest.len() implies #[trigger] rest[i].2
                >= #[trigger] rest[j].2 by {
                assert(rest[i] == s[i + 1] && rest[j] == s[j + 1]);
            }
        }
        lemma_merged_order(rest, e, placed);
        lemma_merged_order(rest, e, true);
        lemma_merged_members(rest, e, placed);
        lemma_merged_members(rest, e, true);
        let m = merged(s, e, placed);
        assert forall|x: HistoryEntry| #[trigger] rest.contains(x) implies x.2 <= s[0].2 by {
            let w = choose|w: int| 0 <= w < rest.len() && rest[w] == x;
            assert(s[w + 1] == x);
        }
        if s[0].0 == e.0 {
        } else if !placed && s[0].2 <= e.2 {
            let r = merged(rest, e, true);
            assert forall|i: int, j: int| 0 <= i < j < m.len() implies #[trigger] m[i].2
                >= #[trigger] m[j].2 by {
                if j >= 2 {
                    assert(m[j] == r[j - 2]);
                    assert(rest.contains(r[j - 2]));
                    if i >= 2 {
                        assert(m[i] == r[i - 2]);
                    }
                }
            }
        } else {
            let r = merged(rest, e, placed);
            assert forall|i: int, j: int| 0 <= i < j < m.len() implies #[trigger] m[i].2
                >= #[trigger] m[j].2 by {
                assert(m[j] == r[j - 1]);
                if i >= 1 {
                    assert(m[i] == r[i - 1]);
                } else if r[j - 1] != e {
                    assert(rest.contains(r[j - 1]));
                }
            }
        }
    }
}

/// Recording an entry at least as new as every recorded one puts it first.
proof fn lemma_newest_first_place(s: Seq<HistoryEntry>, e: HistoryEntry)
    requires
        forall|k: int| 0 <= k < s.len() ==> #[trigger] s[k].2 <= e.2,
    ensures
        merged(s, e, false).len() > 0,
        merged(s, e, false)[0] == e,
    decreases s.len(),
{
    if s.len() > 0 {
        let rest = s.drop_first();
        if s[0].0 == e.0 {
            assert forall|k: int| 0 <= k < rest.len() implies #[trigger] rest[k].2 <= e.2 by {
                assert(rest[k] == s[k + 1]);
            }
            lemma_newest_first_place(rest, e);
        }
    }
}

/// The history is never longer than its limit, and recording keeps its
/// URLs unique and its entries newest first.
pub proof fn law_history_stays_bounded_and_ordered(s: Seq<HistoryEntry>, e: HistoryEntry)
    requires
        unique_urls(s),
        newest_first(s),
    ensures
        recorded(s, e).len() <= HISTORY_LIMIT,
        unique_urls(recorded(s, e)),
        newest_first(recorded(s, e)),
{
    lemma_merged_unique(s, e, false);
    lemma_merged_order(s, e, false);
}

/// A URL parsed again replaces its older entry: after recording `e`, no
/// other entry has its URL.
pub proof fn law_history_one_entry_per_url(s: Seq<HistoryEntry>, e: HistoryEntry)
    ensures
        forall|k: int|
            0 <= k < recorded(s, e).len() && #[trigger] recorded(s, e)[k].0 == e.0 ==> recorded(
                s,
                e,
            )[k] == e,
{
    lemma_merged_members(s, e, false);
}

/// The entry just parsed (newer than or as new as every recorded one) is
/// the first of the history.
pub proof fn law_latest_entry_first(s: Seq<HistoryEntry>, e: HistoryEntry)
    requires
        forall|k: int| 0 <= k < s.len() ==> #[trigger] s[k].2 <= e.2,
    ensures
        recorded(s, e).len() > 0,
        recorded(s, e)[0] == e,
{
    lemma_newest_first_place(s, e);
}

fn copy_item(r: &HistoryItemRecord) -> (c: HistoryItemRecord)
    ensures
        history_view(c) == history_view(*r),
{
    HistoryItemRecord { url: r.url.clone(), title: r.title.clone(), time: r.time }
}

/// The parse history: at most `HISTORY_LIMIT` entries, newest first, one
/// per URL.
pub struct HistoryList {
    entries: Vec<HistoryItemRecord>,
}

impl HistoryList {
    #[verifier::type_invariant]
    closed spec fn wf(&self) -> bool {
        &&& history_views(self.entries@).len() <= HISTORY_LIMIT
        &&& unique_urls(history_views(self.entries@))
        &&& newest_first(history_views(self.entries@))
    }

    pub fn new() -> (r: HistoryList)
        ensures
            r@ == Seq::<HistoryEntry>::empty(),
    {
        let r = HistoryList { entries: Vec::new() };
        assert(r@ =~= Seq::<HistoryEntry>::empty());
        r
    }

    /// Records `entry` (see `recorded`).
    pub fn record(&mut self, entry: HistoryItemRecord)
        ensures
            final(self)@ == recorded(old(self)@, history_view(entry)),
    {
        proof {
            use_type_invariant(&*self);
        }
        let ghost s = self@;
        let ghost e = history_view(entry);
        let mut out: Vec<HistoryItemRecord> = Vec::new();
        let mut placed = false;
        let mut i: usize = 0;
        let n = self.entries.len();
        assert(s.skip(0) =~= s);
        while i < n
            invariant
                n == self.entries@.len(),
                s == history_views(self.entries@),
                e == history_view(entry),
                i <= n,
                history_views(out@) + merged(s.skip(i as int), e, placed) == merged(s, e, false),
            decreases n - i,
        {
            let ghost rest = s.skip(i as int);
            assert(rest[0] == history_view(self.entries@[i as int]));
            assert(rest.drop_first() =~= s.skip(i + 1));
            let cur = &self.entries[i];
            let ghost before = history_views(out@);
            if crate::text::str_eq(cur.url.as_str(), entry.url.as_str()) {
            } else if !placed && cur.time <= entry.time {
                out.push(copy_item(&entry));
                out.push(copy_item(cur));
                assert(history_views(out@) =~= before + seq![e, rest[0]]);
                placed = true;
            } else {
                out.push(copy_item(cur));
                assert(history_views(out@) =~= before + seq![rest[0]]);
            }
            i += 1;
        }
        assert(s.skip(n as int) =~= Seq::<HistoryEntry>::empty());
        if !placed {
            let ghost before = history_views(out@);
            out.push(entry);
            assert(history_views(out@) =~= before + seq![e]);
        } else {
            assert(history_views(out@) =~= merged(s, e, false));
        }
        let ghost m = history_views(out@);
        out.truncate(HISTORY_LIMIT);
        assert(history_views(out@) =~= recorded(s, e)) by {
            if m.len() > HISTORY_LIMIT {
                assert(history_views(out@) =~= m.take(HISTORY_LIMIT as int));
            }
        }
        proof {
            law_history_stays_bounded_and_ordered(s, e);
        }
        self.entries = out;
    }

    /// The history made by recording `rows` one after the other.
    pub fn load(rows: Vec<HistoryItemRecord>) -> (r: HistoryList)
        ensures
            r@ == recorded_all(Seq::empty(), history_views(rows@)),
    {
        let mut h = HistoryList::new();
        let mut rows = rows;
        let ghost all = history_views(rows@);
        let mut taken: Vec<HistoryItemRecord> = Vec::new();
        std::mem::swap(&mut taken, &mut rows);
        let n = taken.len();
        let mut i: usize = 0;
        while i < n
            invariant
                n == taken@.len(),
                all == history_views(taken@),
                i <= n,
                h@ == recorded_all(Seq::empty(), all.take(i as int)),
            decreases n - i,
        {
            assert(all.take(i + 1).drop_last() =~= all.take(i as int));
            assert(all.take(i + 1).last() == history_view(taken@[i as int]));
            h.record(copy_item(&taken[i]));
            i += 1;
        }
        assert(all.take(n as int) =~= all);
        h
    }

    /// The entries, newest first.
    pub fn entries(&self) -> (r: Vec<HistoryItemRecord>)
        ensures
            history_views(r@) == self@,
    {
        let mut r: Vec<HistoryItemRecord> = Vec::new();
        let mut i: usize = 0;
        while i < self.entries.len()
            invariant
                i <= self.entries@.len(),
                history_views(r@) == history_views(self.entries@).take(i as int),
            decreases self.entries.len() - i,
        {
            let ghost before = history_views(r@);
            r.push(copy_item(&self.entries[i]));
            assert(history_views(r@) =~= before.push(history_view(self.entries@[i as int])));
            assert(history_views(self.entries@).take(i + 1) =~= history_views(self.entries@).take(
                i as int,
            ).push(history_view(self.entries@[i as int])));
            i += 1;
        }
        assert(history_views(self.entries@).take(self.entries@.len() as int) =~= history_views(
            self.entries@,
        ));
        r
    }
}

impl View for HistoryList {
    type V = Seq<HistoryEntry>;

    /// The entries, newest first.
    closed spec fn view(&self) -> Seq<HistoryEntry> {
        history_views(self.entries@)
    }
}

} // verus!

verus! {

/// A page is ordered by the column asked for when it is `view_count` or
/// `duration`, and by the publication time (the creation time where it has
/// none) for any other choice or none.
pub proof fn law_page_order_as_asked(by: Option<Seq<char>>)
    ensures
        by matches Some(c) ==> ((c == "view_count"@ || c == "duration"@) ==> sort_column(
            sort_of(by),
        ) == c),
        !(by == Some("view_count"@) || by == Some("duration"@)) ==> sort_column(sort_of(by))
            == "COALESCE(published_at, created_at)"@,
{
}

/// A page plan keeps to its bounds: the page is at least 1 and the page
/// size between 1 and 1000, each as asked when it is within them; the type
/// filter is only set for a real type, and the title pattern wraps the
/// search text in `%`.
pub proof fn law_page_bounds(page: u32, size: u32, ct: Option<Seq<char>>, q: Option<Seq<char>>)
    ensures
        page_of(page) >= 1,
        page >= 1 ==> page_of(page) == page,
        1 <= page_size_of(size) <= 1000,
        1 <= size <= 1000 ==> page_size_of(size) == size,
        type_filter_of(ct) matches Some(c) ==> ct == Some(c) && c != "all"@ && c.len() > 0,
        ct matches Some(c) ==> (c != "all"@ && c.len() > 0 ==> type_filter_of(ct) == Some(c)),
        title_pattern_of(q) matches Some(t) ==> (q matches Some(s) && t == "%"@ + trim(s) + "%"@
            && trim(s).len() > 0),
{
}

} // verus!
