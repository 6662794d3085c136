//! Syncing a channel's video list: which listings to read, how a listed
//! entry becomes a stored video, and when a listing is read far enough.

use vstd::prelude::*;

use crate::archive::ChannelVideoRecord;
use crate::channel::{
    extract_published_at, extract_video_thumbnail, lowercase, published_at_readable,
    published_millis, to_lowercase, video_thumbnail_of,
};
use crate::dates::as_int_opt;
use crate::json::{get, get_str, int_of, positive_text_of, str_of, Json};
use crate::source::opt_str_view;
use crate::text::{concat, concat3, contains, owned, str_contains, str_eq, trim, trim_str};
use crate::tool_tasks::run_id_of;

verus! {

pub open spec fn strings(v: Seq<String>) -> Seq<Seq<char>> {
    v.map_values(|s: String| s@)
}

/// The listings of a YouTube channel read by default.
pub open spec fn default_tabs() -> Seq<Seq<char>> {
    seq!["videos"@, "shorts"@, "streams"@]
}

/// The (tab, address) pairs of the given tabs: each trimmed and
/// lower-cased, blank ones left out, appended to the base address.
pub open spec fn tab_targets(tabs: Seq<Seq<char>>, base: Seq<char>) -> Seq<(Seq<char>, Seq<char>)>
    decreases tabs.len(),
{
    if tabs.len() == 0 {
        seq![]
    } else {
        let name = lowercase(trim(tabs.last()));
        let rest = tab_targets(tabs.drop_last(), base);
        if name.len() > 0 {
            rest.push((name, base + "/"@ + name))
        } else {
            rest
        }
    }
}

/// What a sync reads: for YouTube the chosen tabs (by default videos,
/// shorts and streams; the videos tab when none is usable) under the base
/// address; for other platforms the channel's address as one `video` list.
pub open spec fn sync_targets_of(
    platform: Seq<char>,
    base: Seq<char>,
    channel_url: Seq<char>,
    tabs: Option<Seq<Seq<char>>>,
) -> Seq<(Seq<char>, Seq<char>)> {
    if platform == "youtube"@ {
        let chosen = match tabs {
            Some(t) => t,
            None => default_tabs(),
        };
        let ts = tab_targets(chosen, base);
        if ts.len() == 0 {
            seq![("videos"@, base + "/videos"@)]
        } else {
            ts
        }
    } else {
        seq![("video"@, channel_url)]
    }
}

pub open spec fn pairs_view(v: Seq<(String, String)>) -> Seq<(Seq<char>, Seq<char>)> {
    v.map_values(|p: (String, String)| (p.0@, p.1@))
}

/// The listing of a tab whose trimmed, lower-cased name is `name`: none
/// for a blank name, else the name and the base address with `/name`.
pub fn tab_target(name: &str, base_url: &str) -> (r: Option<(String, String)>)
    ensures
        name@.len() == 0 ==> r is None,
        name@.len() > 0 ==> (r matches Some(p) && p.0@ == name@ && p.1@ == base_url@ + "/"@
            + name@),
{
    if name.is_empty() {
        None
    } else {
        Some((owned(name), concat3(base_url, "/", name)))
    }
}

/// The listings a channel sync reads, each as (tab, address).
pub fn sync_targets(platform: &str, base_url: &str, channel_url: &str, tabs: Option<Vec<String>>) -> (r:
    Vec<(String, String)>)
    ensures
        pairs_view(r@) == sync_targets_of(
            platform@,
            base_url@,
            channel_url@,
            match tabs {
                Some(t) => Some(strings(t@)),
                None => None,
            },
        ),
{
    if !str_eq(platform, "youtube") {
        let mut r: Vec<(String, String)> = Vec::new();
        r.push((owned("video"), owned(channel_url)));
        assert(pairs_view(r@) =~= seq![("video"@, channel_url@)]);
        return r;
    }
    let chosen: Vec<String> = match tabs {
        Some(t) => t,
        None => {
            let mut d: Vec<String> = Vec::new();
            d.push(owned("videos"));
            d.push(owned("shorts"));
            d.push(owned("streams"));
            assert(strings(d@) =~= default_tabs());
            d
        },
    };
    let ghost cs = strings(chosen@);
    let n = chosen.len();
    let mut r: Vec<(String, String)> = Vec::new();
    let mut i: usize = 0;
    while i < n
        invariant
            n == chosen@.len(),
            cs == strings(chosen@),
            i <= n,
            pairs_view(r@) == tab_targets(cs.take(i as int), base_url@),
        decreases n - i,
    {
        assert(cs.take(i + 1).drop_last() =~= cs.take(i as int));
        assert(cs.take(i + 1).last() == chosen@[i as int]@);
        let t = trim_str(chosen[i].as_str());
        let name = to_lowercase(t.as_str());
        if let Some(pair) = tab_target(name.as_str(), base_url) {
            let ghost before = pairs_view(r@);
            r.push(pair);
            assert(pairs_view(r@) =~= before.push((lowercase(trim(chosen@[i as int]@)), base_url@ + "/"@ + lowercase(trim(chosen@[i as int]@)))));
        }
        i += 1;
    }
    assert(cs.take(n as int) =~= cs);
    if r.len() == 0 {
        let mut d: Vec<(String, String)> = Vec::new();
        d.push((owned("videos"), concat(base_url, "/videos")));
        assert(pairs_view(d@) =~= seq![("videos"@, base_url@ + "/videos"@)]);
        return d;
    }
    r
}

/// The address of a listed video: its `url`, else its `webpage_url` (the
/// first present member, when it is text); else the YouTube watch address
/// or, elsewhere, the bare video id.
pub open spec fn entry_url_of(entry: Json, video_id: Seq<char>, platform: Seq<char>) -> Seq<char> {
    let present = match get(entry, "url"@) {
        Some(v) => Some(v),
        None => get(entry, "webpage_url"@),
    };
    match str_of(present) {
        Some(u) => u,
        None => if platform == "youtube"@ {
            "https://www.youtube.com/watch?v="@ + video_id
        } else {
            video_id
        },
    }
}

/// `short` for the shorts tab or a shorts address; `stream` for the
/// streams tab or a live status mentioning `live`; else `video`.
pub open spec fn content_type_of(tab: Seq<char>, url: Seq<char>, live_status: Option<Seq<char>>) -> Seq<char> {
    if tab == "shorts"@ || contains(url, "/shorts/"@) {
        "short"@
    } else if tab == "streams"@ || (live_status matches Some(s) && contains(s, "live"@)) {
        "stream"@
    } else {
        "video"@
    }
}

/// YouTube's listings only estimate dates; elsewhere a listed date is
/// exact, and a missing one is to be checked.
pub open spec fn accuracy_of(platform: Seq<char>, published: Option<int>) -> Seq<char> {
    if platform == "youtube"@ || published is None {
        "approx"@
    } else {
        "exact"@
    }
}

/// The id of a listed entry, when it has a non-empty one.
pub open spec fn entry_id_of(entry: Json) -> Option<Seq<char>> {
    match str_of(get(entry, "id"@)) {
        Some(id) => if id.len() > 0 {
            Some(id)
        } else {
            None
        },
        None => None,
    }
}

/// A listed entry as a stored video of `channel_id`, read from `tab`;
/// `None` when the entry has no id.
pub fn video_from_entry(entry: &Json, channel_id: &str, platform: &str, tab: &str, now: i64) -> (r:
    Option<ChannelVideoRecord>)
    requires
        published_at_readable(*entry),
    ensures
        match entry_id_of(*entry) {
            None => r is None,
            Some(vid) => r matches Some(v) && {
                let url = entry_url_of(*entry, vid, platform@);
                &&& v.id@ == channel_id@ + "_"@ + vid
                &&& v.channel_id@ == channel_id@
                &&& v.video_id@ == vid
                &&& v.url@ == url
                &&& v.title@ == crate::channel::text_or_empty(str_of(get(*entry, "title"@)))
                &&& v.thumbnail@ == video_thumbnail_of(*entry)
                &&& opt_str_view(v.duration) == positive_text_of(get(*entry, "duration"@))
                &&& as_int_opt(v.view_count) == int_of(get(*entry, "view_count"@))
                &&& as_int_opt(v.published_at) == published_millis(*entry)
                &&& v.published_accuracy@ == accuracy_of(platform@, published_millis(*entry))
                &&& v.content_type@ == content_type_of(
                    tab@,
                    url,
                    str_of(get(*entry, "live_status"@)),
                )
                &&& v.created_at == now
            },
        },
{
    let video_id = match get_str(entry, "id") {
        Some(id) => if !id.is_empty() {
            id
        } else {
            return None;
        },
        None => return None,
    };
    let title = match get_str(entry, "title") {
        Some(t) => owned(t),
        None => String::new(),
    };
    let present = match entry.get("url") {
        Some(v) => Some(v),
        None => entry.get("webpage_url"),
    };
    let url = match present {
        Some(v) => match v.as_str() {
            Some(u) => Some(owned(u)),
            None => None,
        },
        None => None,
    };
    let url = match url {
        Some(u) => u,
        None => if str_eq(platform, "youtube") {
            concat("https://www.youtube.com/watch?v=", video_id)
        } else {
            owned(video_id)
        },
    };
    let duration = match entry.get("duration") {
        Some(v) => match v.positive_text() {
            Some(t) => Some(owned(t)),
            None => None,
        },
        None => None,
    };
    let view_count = crate::json::get_i64(entry, "view_count");
    let thumbnail = extract_video_thumbnail(entry);
    let published_at = extract_published_at(entry);
    let accuracy = if str_eq(platform, "youtube") || published_at.is_none() {
        owned("approx")
    } else {
        owned("exact")
    };
    let is_short = str_eq(tab, "shorts") || str_contains(url.as_str(), "/shorts/");
    let is_stream = str_eq(tab, "streams") || match get_str(entry, "live_status") {
        Some(s) => str_contains(s, "live"),
        None => false,
    };
    let content_type = if is_short {
        owned("short")
    } else if is_stream {
        owned("stream")
    } else {
        owned("video")
    };
    Some(
        ChannelVideoRecord {
            id: concat3(channel_id, "_", video_id),
            channel_id: owned(channel_id),
            video_id: owned(video_id),
            url: url,
            title: title,
            thumbnail: thumbnail,
            duration: duration,
            view_count: view_count,
            published_at: published_at,
            published_accuracy: accuracy,
            content_type: content_type,
            created_at: now,
        },
    )
}

/// The counts of a running sync and the ids it has met.
pub struct SyncProgress {
    incremental: bool,
    seen: Vec<String>,
    consecutive_known: usize,
    total_synced: usize,
    new_ids: Vec<String>,
}

/// How many stored videos in a row end an incremental listing: from there
/// on the listing is known.
pub const KNOWN_RUN_LIMIT: usize = 5;

pub open spec fn distinct_ids(s: Seq<Seq<char>>) -> bool {
    forall|i: int, j: int| 0 <= i < j < s.len() ==> s[i] != s[j]
}

impl SyncProgress {
    pub closed spec fn is_incremental(&self) -> bool {
        self.incremental
    }

    /// The ids met so far: the stored ones (incremental sync) and the
    /// listed ones.
    pub closed spec fn seen(&self) -> Seq<Seq<char>> {
        strings(self.seen@)
    }

    /// The ids counted as new, in the order they were listed.
    pub closed spec fn new_ids(&self) -> Seq<Seq<char>> {
        strings(self.new_ids@)
    }

    pub closed spec fn total(&self) -> int {
        self.total_synced as int
    }

    /// Stored videos met in a row in the current listing.
    pub closed spec fn known_run(&self) -> int {
        self.consecutive_known as int
    }

    #[verifier::type_invariant]
    closed spec fn wf(&self) -> bool {
        &&& distinct_ids(self.new_ids())
        &&& forall|i: int| 0 <= i < self.new_ids().len() ==> self.seen().contains(#[trigger] self.new_ids()[i])
        &&& self.new_ids().len() <= self.total()
    }

    /// A sync that starts knowing `stored_ids` when it is incremental and
    /// nothing when it is full.
    pub fn new(incremental: bool, stored_ids: Vec<String>) -> (r: SyncProgress)
        ensures
            r.is_incremental() == incremental,
            r.seen() == (if incremental {
                strings(stored_ids@)
            } else {
                Seq::<Seq<char>>::empty()
            }),
            r.new_ids() == Seq::<Seq<char>>::empty(),
            r.total() == 0,
            r.known_run() == 0,
    {
        let seen = if incremental {
            stored_ids
        } else {
            Vec::new()
        };
        let r = SyncProgress {
            incremental,
            seen,
            consecutive_known: 0,
            total_synced: 0,
            new_ids: Vec::new(),
        };
        assert(r.new_ids() =~= Seq::<Seq<char>>::empty());
        proof {
            if !incremental {
                assert(r.seen() =~= Seq::<Seq<char>>::empty());
            }
        }
        r
    }

    /// Starts reading the next listing.
    pub fn begin_listing(&mut self)
        ensures
            final(self).known_run() == 0,
            final(self).is_incremental() == old(self).is_incremental(),
            final(self).seen() == old(self).seen(),
            final(self).new_ids() == old(self).new_ids(),
            final(self).total() == old(self).total(),
    {
        proof {
            use_type_invariant(&*self);
        }
        self.consecutive_known = 0;
    }

    fn has_seen(&self, id: &str) -> (r: bool)
        ensures
            r == self.seen().contains(id@),
    {
        let n = self.seen.len();
        let mut i: usize = 0;
        while i < n
            invariant
                n == self.seen@.len(),
                i <= n,
                forall|j: int| 0 <= j < i ==> self.seen()[j] != id@,
            decreases n - i,
        {
            if str_eq(self.seen[i].as_str(), id) {
                assert(self.seen()[i as int] == id@);
                return true;
            }
            i += 1;
        }
        false
    }

    /// Counts the listed video `video_id`. An incremental sync stops the
    /// listing (`false`, nothing counted) at the fifth stored video in a
    /// row; otherwise the video is counted (`true`), and as new when it
    /// was not met before.
    pub fn record(&mut self, video_id: &str) -> (r: bool)
        requires
            old(self).total() < usize::MAX,
        ensures
            final(self).is_incremental() == old(self).is_incremental(),
            distinct_ids(final(self).new_ids()),
            forall|i: int|
                0 <= i < final(self).new_ids().len() ==> final(self).seen().contains(
                    #[trigger] final(self).new_ids()[i],
                ),
            final(self).new_ids().len() <= final(self).total(),
            ({
                let known = old(self).seen().contains(video_id@);
                if old(self).is_incremental() && known && old(self).known_run() + 1 >= 5 {
                    &&& !r
                    &&& final(self).total() == old(self).total()
                    &&& final(self).new_ids() == old(self).new_ids()
                    &&& final(self).seen() == old(self).seen()
                } else {
                    &&& r
                    &&& final(self).total() == old(self).total() + 1
                    &&& known ==> final(self).new_ids() == old(self).new_ids()
                        && final(self).seen() == old(self).seen()
                    &&& !known ==> final(self).new_ids() == old(self).new_ids().push(video_id@)
                        && final(self).seen() == old(self).seen().push(video_id@)
                    &&& old(self).is_incremental() ==> final(self).known_run() == (if known {
                        old(self).known_run() + 1
                    } else {
                        0
                    })
                }
            }),
    {
        proof {
            use_type_invariant(&*self);
        }
        let known = self.has_seen(video_id);
        if self.incremental && known {
            if self.consecutive_known >= KNOWN_RUN_LIMIT - 1 {
                return false;
            }
            self.consecutive_known = self.consecutive_known + 1;
        } else if !known {
            self.consecutive_known = 0;
            let ghost old_new = self.new_ids();
            let ghost old_seen = self.seen();
            let mut new_ids: Vec<String> = Vec::new();
            std::mem::swap(&mut new_ids, &mut self.new_ids);
            new_ids.push(owned(video_id));
            let mut seen: Vec<String> = Vec::new();
            std::mem::swap(&mut seen, &mut self.seen);
            seen.push(owned(video_id));
            assert(strings(new_ids@) =~= old_new.push(video_id@));
            assert(strings(seen@) =~= old_seen.push(video_id@));
            assert forall|i: int| 0 <= i < strings(new_ids@).len() implies strings(seen@).contains(
                #[trigger] strings(new_ids@)[i],
            ) by {
                if i < old_new.len() {
                    assert(old_seen.contains(old_new[i]));
                    let k = choose|k: int| 0 <= k < old_seen.len() && old_seen[k] == old_new[i];
                    assert(strings(seen@)[k] == old_new[i]);
                } else {
                    assert(strings(seen@)[old_seen.len() as int] == video_id@);
                }
            }
            assert forall|i: int, j: int| 0 <= i < j < strings(new_ids@).len() implies strings(new_ids@)[i] != strings(new_ids@)[j] by {
                if j == old_new.len() {
                    assert(old_seen.contains(old_new[i]));
                }
            }
            self.total_synced = self.total_synced + 1;
            self.seen = seen;
            self.new_ids = new_ids;
            return true;
        }
        self.total_synced = self.total_synced + 1;
        true
    }

    /// Listed videos counted so far.
    pub fn total_synced(&self) -> (r: usize)
        ensures
            r == self.total(),
    {
        self.total_synced
    }

    /// Videos counted as new so far.
    pub fn new_synced(&self) -> (r: usize)
        ensures
            r == self.new_ids().len(),
    {
        self.new_ids.len()
    }

    /// The date check that follows a successful sync: all undated videos
    /// after a full sync; only the new ones after an incremental sync, and
    /// none when nothing is new.
    pub fn enrich_plan(&self) -> (r: EnrichPlan)
        ensures
            !self.is_incremental() ==> r is All,
            self.is_incremental() && self.new_ids().len() == 0 ==> r is Skip,
            self.is_incremental() && self.new_ids().len() > 0 ==> (r matches EnrichPlan::Only(ids)
                && strings(ids@) == self.new_ids()),
    {
        if !self.incremental {
            EnrichPlan::All
        } else if self.new_ids.len() == 0 {
            EnrichPlan::Skip
        } else {
            let mut ids: Vec<String> = Vec::new();
            let n = self.new_ids.len();
            let mut i: usize = 0;
            while i < n
                invariant
                    n == self.new_ids@.len(),
                    i <= n,
                    strings(ids@) == strings(self.new_ids@).take(i as int),
                decreases n - i,
            {
                let ghost before = ids@;
                let x = self.new_ids[i].clone();
                assert(x@ == self.new_ids@[i as int]@);
                ids.push(x);
                assert(ids@ == before.push(x));
                assert(strings(ids@) =~= strings(before).push(x@));
                assert(strings(self.new_ids@).take(i + 1) =~= strings(self.new_ids@).take(i as int).push(x@));
                i += 1;
            }
            assert(strings(self.new_ids@).take(n as int) =~= strings(self.new_ids@));
            EnrichPlan::Only(ids)
        }
    }
}

/// Which videos the date check after a sync covers.
pub enum EnrichPlan {
    Skip,
    All,
    Only(Vec<String>),
}

/// Listed videos are written in batches: at 15, or when 300 ms have gone
/// by since the last write and something is waiting.
pub fn should_flush(batch_len: usize, now: i64, last_flush: i64) -> (r: bool)
    ensures
        r == (batch_len >= 15 || (now - last_flush >= 300 && batch_len > 0)),
{
    batch_len >= 15 || ((now as i128) - (last_flush as i128) >= 300 && batch_len > 0)
}

/// How a sync ended, as announced (`cancelled`, `error` or `completed`)
/// and as stored on the channel (`idle`, `error` or `completed`).
pub fn sync_end_status(cancelled: bool, failed: bool) -> (r: (&'static str, &'static str))
    ensures
        cancelled ==> r.0@ == "cancelled"@ && r.1@ == "idle"@,
        !cancelled && failed ==> r.0@ == "error"@ && r.1@ == "error"@,
        !cancelled && !failed ==> r.0@ == "completed"@ && r.1@ == "completed"@,
{
    if cancelled {
        ("cancelled", "idle")
    } else if failed {
        ("error", "error")
    } else {
        ("completed", "completed")
    }
}


/// A sync's progress as announced to the front end.
#[derive(Debug, Clone)]
pub struct ChannelSyncProgressPayload {
    pub channel_id: String,
    /// `syncing`, `completed`, `error` or `cancelled`.
    pub status: String,
    pub total_synced: usize,
    pub new_synced: usize,
    pub current_tab: Option<String>,
    pub message: Option<String>,
}

impl SyncProgress {
    /// The announcement of this sync's counts, with the given status, tab
    /// and message.
    pub fn payload(&self, channel_id: &str, status: &str, current_tab: Option<String>, message:
        Option<String>) -> (r: ChannelSyncProgressPayload)
        ensures
            r.channel_id@ == channel_id@,
            r.status@ == status@,
            r.total_synced == self.total(),
            r.new_synced == self.new_ids().len(),
            r.current_tab == current_tab,
            r.message == message,
    {
        ChannelSyncProgressPayload {
            channel_id: owned(channel_id),
            status: owned(status),
            total_synced: self.total_synced(),
            new_synced: self.new_synced(),
            current_tab,
            message,
        }
    }
}

/// The message announced when a listing starts.
pub fn tab_message(tab: &str) -> (r: String)
    ensures
        r@ == "Syncing "@ + tab@ + "..."@,
{
    crate::text::concat3("Syncing ", tab, "...")
}

/// The announcement of a sync cancelled before it started.
pub fn cancelled_before_start(channel_id: &str) -> (r: ChannelSyncProgressPayload)
    ensures
        r.channel_id@ == channel_id@,
        r.status@ == "cancelled"@,
        r.total_synced == 0,
        r.new_synced == 0,
        r.current_tab.is_none(),
        r.message matches Some(m) && m@ == "Sync cancelled by user"@,
{
    ChannelSyncProgressPayload {
        channel_id: owned(channel_id),
        status: owned("cancelled"),
        total_synced: 0,
        new_synced: 0,
        current_tab: None,
        message: Some(owned("Sync cancelled by user")),
    }
}


/// The options of a listing run of yt-dlp for `url`: flat listing as JSON
/// lines with estimated dates, the pause between requests when one is
/// given (as decimal text), the tool options, cookies and proxy, then the
/// address.
pub open spec fn listing_args_of(
    sleep: Option<Seq<char>>,
    tool_args: Seq<Seq<char>>,
    cookie_proxy: Seq<Seq<char>>,
    url: Seq<char>,
) -> Seq<Seq<char>> {
    seq![
        "--flat-playlist"@,
        "-j"@,
        "--ignore-config"@,
        "--color"@,
        "never"@,
        "--no-warnings"@,
        "--socket-timeout"@,
        "20"@,
        "--retries"@,
        "3"@,
        "--extractor-retries"@,
        "2"@,
        "--extractor-args"@,
        "youtubetab:approximate_date"@,
    ] + (match sleep {
        Some(t) => seq!["--sleep-requests"@, t],
        None => seq![],
    }) + tool_args + cookie_proxy + seq![url]
}

/// The options of a listing run (see `listing_args_of`).
pub fn listing_args(
    sleep: Option<&str>,
    tool_args: &Vec<String>,
    cookie_file: Option<&str>,
    cookie_browser: Option<&str>,
    proxy: Option<&str>,
    url: &str,
) -> (r: Vec<String>)
    ensures
        strings(r@) == listing_args_of(
            match sleep {
                Some(t) => Some(t@),
                None => None,
            },
            strings(tool_args@),
            crate::ytdlp::cookie_proxy_args_of(cookie_file, cookie_browser, proxy),
            url@,
        ),
{
    let mut r: Vec<String> = Vec::new();
    r.push(owned("--flat-playlist"));
    r.push(owned("-j"));
    r.push(owned("--ignore-config"));
    r.push(owned("--color"));
    r.push(owned("never"));
    r.push(owned("--no-warnings"));
    r.push(owned("--socket-timeout"));
    r.push(owned("20"));
    r.push(owned("--retries"));
    r.push(owned("3"));
    r.push(owned("--extractor-retries"));
    r.push(owned("2"));
    r.push(owned("--extractor-args"));
    r.push(owned("youtubetab:approximate_date"));
    let ghost head = strings(r@);
    if let Some(t) = sleep {
        r.push(owned("--sleep-requests"));
        r.push(owned(t));
    }
    let ghost with_sleep = strings(r@);
    assert(with_sleep =~= head + match sleep {
        Some(t) => seq!["--sleep-requests"@, t@],
        None => Seq::<Seq<char>>::empty(),
    });
    let n = tool_args.len();
    let mut i: usize = 0;
    while i < n
        invariant
            n == tool_args@.len(),
            i <= n,
            strings(r@) == with_sleep + strings(tool_args@).take(i as int),
        decreases n - i,
    {
        let ghost before_push = r@;
        r.push(owned(tool_args[i].as_str()));
        assert(strings(r@) =~= strings(before_push).push(tool_args@[i as int]@));
        assert(strings(tool_args@).take(i + 1) =~= strings(tool_args@).take(i as int).push(
            tool_args@[i as int]@,
        ));
        assert(strings(r@) =~= with_sleep + strings(tool_args@).take(i + 1));
        i += 1;
    }
    assert(strings(tool_args@).take(n as int) =~= strings(tool_args@));
    crate::ytdlp::append_cookie_proxy_args(&mut r, cookie_file, cookie_browser, proxy);
    let ghost before = strings(r@);
    r.push(owned(url));
    assert(strings(r@) =~= before + seq![url@]);
    r
}

/// A line of a listing that may hold an entry: the trimmed line when it
/// starts with `{`.
pub fn json_line(line: &str) -> (r: Option<String>)
    ensures
        match r {
            Some(t) => t@ == trim(line@) && trim(line@).len() > 0 && trim(line@)[0] == '{',
            None => !(trim(line@).len() > 0 && trim(line@)[0] == '{'),
        },
{
    let t = trim_str(line);
    let v = crate::text::chars_of(t.as_str());
    if v.len() > 0 && v[0] == '{' {
        Some(t)
    } else {
        None
    }
}

pub open spec fn flush_due(batch_len: int, now: int, last_flush: int) -> bool {
    batch_len >= 15 || (now - last_flush >= 300 && batch_len > 0)
}

/// A channel sync under way: its counts, the listing being read, and the
/// videos waiting to be written.
pub struct SyncRun {
    pub channel_id: String,
    pub progress: SyncProgress,
    /// The listing being read.
    pub tab: String,
    /// Videos listed and not yet written.
    pub batch: Vec<ChannelVideoRecord>,
    /// When videos were last written (or the listing began), in ms.
    pub last_flush: i64,
}

/// How a sync ended: what is announced, the state stored on the channel
/// (with its error), and the date check that follows, if any.
pub struct SyncEnd {
    pub payload: ChannelSyncProgressPayload,
    pub stored_status: &'static str,
    pub stored_error: Option<String>,
    pub enrich: Option<EnrichPlan>,
}

/// The announcement of `run`'s counts in the listing being read.
pub open spec fn listing_payload_is(p: ChannelSyncProgressPayload, run: SyncRun, message: Option<
    Seq<char>,
>) -> bool {
    &&& p.channel_id@ == run.channel_id@
    &&& p.status@ == "syncing"@
    &&& p.total_synced == run.progress.total()
    &&& p.new_synced == run.progress.new_ids().len()
    &&& p.current_tab matches Some(t) && t@ == run.tab@
    &&& opt_str_view(p.message) == message
}

impl SyncRun {
    /// A sync of `channel_id` that starts with nothing listed.
    pub fn new(channel_id: &str, incremental: bool, stored_ids: Vec<String>) -> (r: SyncRun)
        ensures
            r.channel_id@ == channel_id@,
            r.progress.is_incremental() == incremental,
            r.progress.seen() == (if incremental {
                strings(stored_ids@)
            } else {
                Seq::<Seq<char>>::empty()
            }),
            r.progress.new_ids().len() == 0,
            r.progress.total() == 0,
            r.batch@.len() == 0,
    {
        SyncRun {
            channel_id: owned(channel_id),
            progress: SyncProgress::new(incremental, stored_ids),
            tab: String::new(),
            batch: Vec::new(),
            last_flush: 0,
        }
    }

    /// Starts reading the listing `tab` at `now`, and announces it.
    pub fn begin_tab(&mut self, tab: &str, now: i64) -> (r: ChannelSyncProgressPayload)
        ensures
            final(self).channel_id == old(self).channel_id,
            final(self).tab@ == tab@,
            final(self).batch == old(self).batch,
            final(self).last_flush == now,
            final(self).progress.known_run() == 0,
            final(self).progress.is_incremental() == old(self).progress.is_incremental(),
            final(self).progress.seen() == old(self).progress.seen(),
            final(self).progress.new_ids() == old(self).progress.new_ids(),
            final(self).progress.total() == old(self).progress.total(),
            listing_payload_is(r, *final(self), Some("Syncing "@ + tab@ + "..."@)),
    {
        self.progress.begin_listing();
        self.tab = owned(tab);
        self.last_flush = now;
        self.progress.payload(
            self.channel_id.as_str(),
            "syncing",
            Some(owned(tab)),
            Some(tab_message(tab)),
        )
    }

    /// Keeps a listed video (that `progress.record` counted) to be written;
    /// hands out the waiting videos and the announcement when a write is
    /// due (see `flush_due`).
    pub fn keep(&mut self, video: ChannelVideoRecord, now: i64) -> (r: Option<
        (Vec<ChannelVideoRecord>, ChannelSyncProgressPayload),
    >)
        ensures
            final(self).channel_id == old(self).channel_id,
            final(self).tab == old(self).tab,
            final(self).progress == old(self).progress,
            ({
                let b = old(self).batch@.push(video);
                if flush_due(b.len() as int, now as int, old(self).last_flush as int) {
                    &&& r matches Some((out, p)) && out@ == b && listing_payload_is(
                        p,
                        *old(self),
                        None,
                    )
                    &&& final(self).batch@.len() == 0
                    &&& final(self).last_flush == now
                } else {
                    &&& r is None
                    &&& final(self).batch@ == b
                    &&& final(self).last_flush == old(self).last_flush
                }
            }),
    {
        self.batch.push(video);
        if should_flush(self.batch.len(), now, self.last_flush) {
            let mut out: Vec<ChannelVideoRecord> = Vec::new();
        std::mem::swap(&mut out, &mut self.batch);
            self.last_flush = now;
            let p = self.progress.payload(
                self.channel_id.as_str(),
                "syncing",
                Some(owned(self.tab.as_str())),
                None,
            );
            Some((out, p))
        } else {
            None
        }
    }

    /// Ends the listing being read: hands out the videos still waiting,
    /// with the announcement, when there are any.
    pub fn end_tab(&mut self) -> (r: Option<(Vec<ChannelVideoRecord>, ChannelSyncProgressPayload)>)
        ensures
            final(self).channel_id == old(self).channel_id,
            final(self).tab == old(self).tab,
            final(self).progress == old(self).progress,
            final(self).last_flush == old(self).last_flush,
            final(self).batch@.len() == 0,
            old(self).batch@.len() == 0 ==> r is None,
            old(self).batch@.len() > 0 ==> (r matches Some((out, p)) && (out@ == old(self).batch@
                && listing_payload_is(p, *old(self), None))),
    {
        if self.batch.len() == 0 {
            return None;
        }
        let mut out: Vec<ChannelVideoRecord> = Vec::new();
        std::mem::swap(&mut out, &mut self.batch);
        let p = self.progress.payload(
            self.channel_id.as_str(),
            "syncing",
            Some(owned(self.tab.as_str())),
            None,
        );
        Some((out, p))
    }

    /// How the sync ends: cancelled (the channel goes back to idle), failed
    /// with `error` (stored on the channel), or completed, when the date
    /// check of `progress.enrich_plan` follows unless it is `Skip`.
    pub fn finish(&self, cancelled: bool, error: Option<String>) -> (r: SyncEnd)
        ensures
            r.payload.channel_id@ == self.channel_id@,
            r.payload.total_synced == self.progress.total(),
            r.payload.new_synced == self.progress.new_ids().len(),
            r.payload.current_tab is None,
            cancelled ==> {
                &&& r.payload.status@ == "cancelled"@
                &&& r.payload.message is None
                &&& r.stored_status@ == "idle"@
                &&& r.stored_error is None
                &&& r.enrich is None
            },
            !cancelled && error is Some ==> {
                &&& r.payload.status@ == "error"@
                &&& opt_str_view(r.payload.message) == opt_str_view(error)
                &&& r.stored_status@ == "error"@
                &&& opt_str_view(r.stored_error) == opt_str_view(error)
                &&& r.enrich is None
            },
            !cancelled && error is None ==> {
                &&& r.payload.status@ == "completed"@
                &&& r.payload.message is None
                &&& r.stored_status@ == "completed"@
                &&& r.stored_error is None
                &&& (!self.progress.is_incremental() ==> r.enrich matches Some(EnrichPlan::All))
                &&& (self.progress.is_incremental() && self.progress.new_ids().len() == 0
                    ==> r.enrich is None)
                &&& (self.progress.is_incremental() && self.progress.new_ids().len() > 0
                    ==> (r.enrich matches Some(EnrichPlan::Only(ids)) && strings(ids@)
                    == self.progress.new_ids()))
            },
    {
        if cancelled {
            let payload = self.progress.payload(self.channel_id.as_str(), "cancelled", None, None);
            return SyncEnd { payload, stored_status: "idle", stored_error: None, enrich: None };
        }
        match error {
            Some(e) => {
                let stored = owned(e.as_str());
                let payload = self.progress.payload(self.channel_id.as_str(), "error", None, Some(e));
                SyncEnd { payload, stored_status: "error", stored_error: Some(stored), enrich: None }
            },
            None => {
                let payload = self.progress.payload(self.channel_id.as_str(), "completed", None, None);
                let plan = self.progress.enrich_plan();
                let enrich = match plan {
                    EnrichPlan::Skip => None,
                    other => Some(other),
                };
                SyncEnd { payload, stored_status: "completed", stored_error: None, enrich }
            },
        }
    }
}

} // verus!

verus! {

proof fn lemma_kind_names_differ()
    ensures
        "short"@ != "stream"@,
        "short"@ != "video"@,
        "stream"@ != "video"@,
        "streams"@ != "shorts"@,
{
    reveal_strlit("short");
    reveal_strlit("stream");
    reveal_strlit("video");
    reveal_strlit("streams");
    reveal_strlit("shorts");
    assert("short"@.len() != "stream"@.len());
    assert("short"@[0] != "video"@[0]);
    assert("stream"@.len() != "video"@.len());
    assert("streams"@[1] != "shorts"@[1]);
}

/// What a listed entry is stored as: anything read from the shorts tab or
/// with a `/shorts/` address is a short; otherwise anything read from the
/// streams tab, or whose live status mentions `live`, is a stream; the rest
/// are videos.
pub proof fn law_listed_kind(tab: Seq<char>, url: Seq<char>, live_status: Option<Seq<char>>)
    ensures
        tab == "shorts"@ || contains(url, "/shorts/"@) ==> content_type_of(tab, url, live_status)
            == "short"@,
        tab == "streams"@ && !contains(url, "/shorts/"@) ==> content_type_of(tab, url, live_status)
            == "stream"@,
        tab != "shorts"@ && !contains(url, "/shorts/"@) && (live_status matches Some(s) && contains(
            s,
            "live"@,
        )) ==> content_type_of(tab, url, live_status) == "stream"@,
        content_type_of(tab, url, live_status) == "video"@ <==> (tab != "shorts"@ && tab
            != "streams"@ && !contains(url, "/shorts/"@) && !(live_status matches Some(s)
            && contains(s, "live"@))),
{
    lemma_kind_names_differ();
}

/// Every entry read from the streams tab is stored as a stream, unless its
/// address is a `/shorts/` one.
pub proof fn law_streams_tab_entries_are_streams(url: Seq<char>, live_status: Option<Seq<char>>)
    requires
        !contains(url, "/shorts/"@),
    ensures
        content_type_of("streams"@, url, live_status) == "stream"@,
{
    lemma_kind_names_differ();
}

/// A date listed on YouTube is only an estimate; elsewhere a listed date is
/// exact; a video listed without a date is always to be checked.
pub proof fn law_listed_accuracy(platform: Seq<char>, published: Option<int>)
    ensures
        platform == "youtube"@ ==> accuracy_of(platform, published) == "approx"@,
        published is None ==> accuracy_of(platform, published) == "approx"@,
        platform != "youtube"@ && published is Some ==> accuracy_of(platform, published)
            == "exact"@,
{
}

} // verus!

verus! {

/// Where a listed video is found: the entry's own address (`url`, else
/// `webpage_url`) when it gives one; otherwise the YouTube watch address of
/// its id, or elsewhere the bare id.
pub proof fn law_listed_address(entry: Json, video_id: Seq<char>, platform: Seq<char>)
    ensures
        get(entry, "url"@) matches Some(Json::Str(u)) ==> entry_url_of(entry, video_id, platform)
            == u@,
        get(entry, "url"@) is None ==> (get(entry, "webpage_url"@) matches Some(Json::Str(w))
            ==> entry_url_of(entry, video_id, platform) == w@),
        get(entry, "url"@) is None && get(entry, "webpage_url"@) is None ==> entry_url_of(
            entry,
            video_id,
            platform,
        ) == (if platform == "youtube"@ {
            "https://www.youtube.com/watch?v="@ + video_id
        } else {
            video_id
        }),
{
}

} // verus!
