//! The channel archive's records and the rules by which new information
//! is merged into stored records.

use vstd::prelude::*;

use crate::channel::{
    avatar_of, banner_of, channel_id_of, channel_title_of, clean_channel_url, clean_url,
    detect_platform, extract_channel_avatar, extract_channel_banner, extract_channel_id,
    extract_channel_title, platform_of, text_or_empty,
};
use crate::json::{get, get_str, int_of, str_of, Json};
use crate::source::opt_str_view;
use crate::text::{owned, str_eq, trim, trim_str};

verus! {

/// A channel (or streamer) in the archive.
#[derive(Debug)]
pub struct ChannelRecord {
    pub id: String,
    pub url: String,
    pub title: String,
    pub uploader: String,
    pub uploader_id: String,
    pub avatar: String,
    pub banner: String,
    pub description: String,
    pub platform: String,
    pub subscriber_count: Option<i64>,
    pub video_count: i64,
    pub last_synced_at: Option<i64>,
    pub sync_status: String,
    pub sync_error: Option<String>,
    pub created_at: i64,
}

/// A video of an archived channel.
#[derive(Debug)]
pub struct ChannelVideoRecord {
    pub id: String,
    pub channel_id: String,
    pub video_id: String,
    pub url: String,
    pub title: String,
    pub thumbnail: String,
    /// The length in seconds as JSON number text, when it is positive.
    pub duration: Option<String>,
    pub view_count: Option<i64>,
    pub published_at: Option<i64>,
    /// `approx` (estimated from a listing) or `exact` (read from the
    /// video's own page).
    pub published_accuracy: String,
    pub content_type: String,
    pub created_at: i64,
}

/// What the date check learned of one video; an empty title or picture
/// and a missing length or view count leave the stored one.
#[derive(Debug)]
pub struct EnrichUpdate {
    pub id: String,
    pub published_at: i64,
    pub title: String,
    pub thumbnail: String,
    /// The length in seconds as number text, when it is positive.
    pub duration: Option<String>,
    pub view_count: Option<i64>,
}

/// A video whose publication date is still to be checked.
#[derive(Debug)]
pub struct EnrichTarget {
    pub id: String,
    pub video_id: String,
    pub url: String,
}

pub open spec fn opt_i64(o: Option<i64>) -> Option<int> {
    match o {
        Some(v) => Some(v as int),
        None => None,
    }
}

fn copy_opt(o: &Option<String>) -> (r: Option<String>)
    ensures
        opt_str_view(r) == opt_str_view(*o),
{
    match o {
        Some(s) => Some(s.clone()),
        None => None,
    }
}

/// The first of two members that is present (whatever its kind).
pub open spec fn first_present(a: Option<Json>, b: Option<Json>) -> Option<Json> {
    match a {
        Some(v) => Some(v),
        None => b,
    }
}

/// The stored address of a channel: yt-dlp's `channel_url`, else
/// `uploader_url`, else `webpage_url` (the first present), cleaned; else
/// the address the user gave, cleaned.
pub open spec fn canonical_url_of(info: Json, cleaned: Seq<char>) -> Seq<char> {
    match str_of(
        first_present(
            get(info, "channel_url"@),
            first_present(get(info, "uploader_url"@), get(info, "webpage_url"@)),
        ),
    ) {
        Some(u) => clean_url(u),
        None => cleaned,
    }
}

fn first_present_ref<'a>(a: Option<&'a Json>, b: Option<&'a Json>) -> (r: Option<&'a Json>)
    ensures
        match r {
            Some(v) => first_present(
                match a {
                    Some(x) => Some(*x),
                    None => None,
                },
                match b {
                    Some(x) => Some(*x),
                    None => None,
                },
            ) == Some(*v),
            None => a is None && b is None,
        },
{
    match a {
        Some(v) => Some(v),
        None => b,
    }
}

/// A channel as it is stored after it was added: described by yt-dlp's
/// `info` on it, addressed by `cleaned_url`, keeping the counts, the last
/// sync and the creation time of the `existing` record of the same id.
pub fn channel_record_from_info(
    info: &Json,
    cleaned_url: &str,
    existing: Option<&ChannelRecord>,
    now: i64,
) -> (r: ChannelRecord)
    ensures
        r.platform@ == platform_of(cleaned_url@, str_of(get(*info, "extractor_key"@))),
        r.id@ == channel_id_of(*info, cleaned_url@, r.platform@),
        r.title@ == channel_title_of(*info, cleaned_url@),
        r.uploader@ == match str_of(get(*info, "uploader"@)) {
            Some(u) => u,
            None => r.title@,
        },
        r.uploader_id@ == text_or_empty(str_of(get(*info, "uploader_id"@))),
        r.avatar@ == avatar_of(*info),
        r.banner@ == banner_of(*info),
        r.description@ == text_or_empty(str_of(get(*info, "description"@))),
        opt_i64(r.subscriber_count) == int_of(
            first_present(get(*info, "channel_follower_count"@), get(*info, "subscriber_count"@)),
        ),
        r.url@ == canonical_url_of(*info, cleaned_url@),
        r.video_count == match existing {
            Some(c) => c.video_count,
            None => 0,
        },
        r.last_synced_at == match existing {
            Some(c) => c.last_synced_at,
            None => None,
        },
        r.sync_status@ == "idle"@,
        r.sync_error is None,
        r.created_at == match existing {
            Some(c) => c.created_at,
            None => now,
        },
{
    let platform = detect_platform(cleaned_url, info);
    let id = extract_channel_id(info, cleaned_url, platform.as_str());
    let title = extract_channel_title(info, cleaned_url);
    let uploader = match get_str(info, "uploader") {
        Some(u) => owned(u),
        None => title.clone(),
    };
    let uploader_id = match get_str(info, "uploader_id") {
        Some(u) => owned(u),
        None => String::new(),
    };
    let avatar = extract_channel_avatar(info);
    let banner = extract_channel_banner(info);
    let description = match get_str(info, "description") {
        Some(d) => owned(d),
        None => String::new(),
    };
    let subscriber_count = match first_present_ref(
        info.get("channel_follower_count"),
        info.get("subscriber_count"),
    ) {
        Some(v) => v.as_i64(),
        None => None,
    };
    let canonical = match first_present_ref(
        info.get("channel_url"),
        first_present_ref(info.get("uploader_url"), info.get("webpage_url")),
    ) {
        Some(v) => match v.as_str() {
            Some(u) => clean_channel_url(u),
            None => owned(cleaned_url),
        },
        None => owned(cleaned_url),
    };
    let (video_count, last_synced_at, created_at) = match existing {
        Some(c) => (c.video_count, c.last_synced_at, c.created_at),
        None => (0, None, now),
    };
    ChannelRecord {
        id: id,
        url: canonical,
        title: title,
        uploader: uploader,
        uploader_id: uploader_id,
        avatar: avatar,
        banner: banner,
        description: description,
        platform: platform,
        subscriber_count: subscriber_count,
        video_count: video_count,
        last_synced_at: last_synced_at,
        sync_status: owned("idle"),
        sync_error: None,
        created_at: created_at,
    }
}

/// The address the user gave for a new channel, trimmed and cleaned;
/// empty is refused.
pub fn channel_add_url(url: &str) -> (r: Result<String, String>)
    ensures
        trim(url@).len() == 0 ==> (r matches Err(e) && e@ == "err_channel_url_empty"@),
        trim(url@).len() > 0 ==> (r matches Ok(u) && u@ == clean_url(trim(url@))),
{
    let raw = trim_str(url);
    if raw.as_str().is_empty() {
        return Err(owned("err_channel_url_empty"));
    }
    Ok(clean_channel_url(raw.as_str()))
}

pub open spec fn or_opt<T>(a: Option<T>, b: Option<T>) -> Option<T> {
    match a {
        Some(v) => Some(v),
        None => b,
    }
}

/// A stored exact date is kept against an approximate one.
pub open spec fn keeps_exact(stored_accuracy: Seq<char>, incoming_accuracy: Seq<char>) -> bool {
    stored_accuracy == "exact"@ && incoming_accuracy == "approx"@
}

/// The date and its accuracy kept when a video stored with `stored_at`
/// (of `stored_accuracy`) is reported again with `incoming_at`.
pub open spec fn merged_date(
    stored_accuracy: Seq<char>,
    stored_at: Option<i64>,
    incoming_accuracy: Seq<char>,
    incoming_at: Option<i64>,
) -> (Option<i64>, Seq<char>) {
    if keeps_exact(stored_accuracy, incoming_accuracy) {
        (stored_at, stored_accuracy)
    } else {
        (or_opt(incoming_at, stored_at), incoming_accuracy)
    }
}

/// A video's date still needs the date check: it has none, or it is not
/// exact.
pub open spec fn needs_check(published_at: Option<i64>, accuracy: Seq<char>) -> bool {
    published_at.is_none() || accuracy != "exact"@
}

/// Whether a stored video is one for the date check.
pub fn needs_date_check(published_at: Option<i64>, accuracy: &str) -> (r: bool)
    ensures
        r == needs_check(published_at, accuracy@),
{
    published_at.is_none() || !str_eq(accuracy, "exact")
}

/// A date the check made exact is final: a listing that reports the video
/// again with an approximate date keeps it, and the video is not checked
/// again.
pub proof fn law_checked_date_is_final(checked_at: i64, listed_at: Option<i64>)
    ensures
        merged_date("exact"@, Some(checked_at), "approx"@, listed_at) == (Some(checked_at), "exact"@),
        !needs_check(Some(checked_at), "exact"@),
{
}

/// The date and accuracy a video ends with when listings report it again,
/// one after the other, each with its accuracy and date in `listed`.
pub open spec fn merged_dates(
    accuracy: Seq<char>,
    at: Option<i64>,
    listed: Seq<(Seq<char>, Option<i64>)>,
) -> (Option<i64>, Seq<char>)
    decreases listed.len(),
{
    if listed.len() == 0 {
        (at, accuracy)
    } else {
        let m = merged_date(accuracy, at, listed[0].0, listed[0].1);
        merged_dates(m.1, m.0, listed.drop_first())
    }
}

/// An approximate date never overwrites an exact one: however many
/// listings report the video again with approximate dates, its exact date
/// (or its lack of one) and its accuracy stay as they were.
pub proof fn law_exact_date_survives_listings(
    at: Option<i64>,
    listed: Seq<(Seq<char>, Option<i64>)>,
)
    requires
        forall|i: int| 0 <= i < listed.len() ==> (#[trigger] listed[i]).0 == "approx"@,
    ensures
        merged_dates("exact"@, at, listed) == (at, "exact"@),
    decreases listed.len(),
{
    if listed.len() > 0 {
        assert(listed[0].0 == "approx"@);
        let rest = listed.drop_first();
        assert forall|i: int| 0 <= i < rest.len() implies (#[trigger] rest[i]).0 == "approx"@ by {
            assert(rest[i] == listed[i + 1]);
        }
        law_exact_date_survives_listings(at, rest);
    }
}

/// The stored video after a listing reported it again (as `incoming`):
/// its identity, address and creation time stay; the title, kind and
/// figures come from the listing where it has them; an exact date is
/// never replaced by an approximate one.
pub fn merge_channel_video(stored: Option<&ChannelVideoRecord>, incoming: &ChannelVideoRecord) -> (r:
    ChannelVideoRecord)
    ensures
        match stored {
            None => {
                &&& r.id@ == incoming.id@
                &&& r.channel_id@ == incoming.channel_id@
                &&& r.video_id@ == incoming.video_id@
                &&& r.url@ == incoming.url@
                &&& r.title@ == incoming.title@
                &&& r.thumbnail@ == incoming.thumbnail@
                &&& opt_str_view(r.duration) == opt_str_view(incoming.duration)
                &&& r.view_count == incoming.view_count
                &&& r.published_at == incoming.published_at
                &&& r.published_accuracy@ == incoming.published_accuracy@
                &&& r.content_type@ == incoming.content_type@
                &&& r.created_at == incoming.created_at
            },
            Some(e) => {
                &&& r.id@ == e.id@
                &&& r.channel_id@ == e.channel_id@
                &&& r.video_id@ == e.video_id@
                &&& r.url@ == e.url@
                &&& r.created_at == e.created_at
                &&& r.title@ == incoming.title@
                &&& r.thumbnail@ == (if incoming.thumbnail@.len() > 0 {
                    incoming.thumbnail@
                } else {
                    e.thumbnail@
                })
                &&& opt_str_view(r.duration) == or_opt(
                    opt_str_view(incoming.duration),
                    opt_str_view(e.duration),
                )
                &&& r.view_count == or_opt(incoming.view_count, e.view_count)
                &&& (r.published_at, r.published_accuracy@) == merged_date(
                    e.published_accuracy@,
                    e.published_at,
                    incoming.published_accuracy@,
                    incoming.published_at,
                )
                &&& r.content_type@ == incoming.content_type@
            },
        },
{
    match stored {
        None => ChannelVideoRecord {
            id: incoming.id.clone(),
            channel_id: incoming.channel_id.clone(),
            video_id: incoming.video_id.clone(),
            url: incoming.url.clone(),
            title: incoming.title.clone(),
            thumbnail: incoming.thumbnail.clone(),
            duration: copy_opt(&incoming.duration),
            view_count: incoming.view_count,
            published_at: incoming.published_at,
            published_accuracy: incoming.published_accuracy.clone(),
            content_type: incoming.content_type.clone(),
            created_at: incoming.created_at,
        },
        Some(e) => {
            let keep = str_eq(e.published_accuracy.as_str(), "exact") && str_eq(
                incoming.published_accuracy.as_str(),
                "approx",
            );
            ChannelVideoRecord {
                id: e.id.clone(),
                channel_id: e.channel_id.clone(),
                video_id: e.video_id.clone(),
                url: e.url.clone(),
                title: incoming.title.clone(),
                thumbnail: if !incoming.thumbnail.as_str().is_empty() {
                    incoming.thumbnail.clone()
                } else {
                    e.thumbnail.clone()
                },
                duration: if incoming.duration.is_some() {
                    copy_opt(&incoming.duration)
                } else {
                    copy_opt(&e.duration)
                },
                view_count: if incoming.view_count.is_some() {
                    incoming.view_count
                } else {
                    e.view_count
                },
                published_at: if keep {
                    e.published_at
                } else if incoming.published_at.is_some() {
                    incoming.published_at
                } else {
                    e.published_at
                },
                published_accuracy: if keep {
                    e.published_accuracy.clone()
                } else {
                    incoming.published_accuracy.clone()
                },
                content_type: incoming.content_type.clone(),
                created_at: e.created_at,
            }
        },
    }
}

/// The stored video after the date check (`update` for its row): the date
/// becomes exact; the title, picture, length and view count are replaced
/// only by values the check found.
pub fn apply_enrich_update(stored: &ChannelVideoRecord, update: &EnrichUpdate) -> (r:
    ChannelVideoRecord)
    ensures
        r.id@ == stored.id@,
        r.channel_id@ == stored.channel_id@,
        r.video_id@ == stored.video_id@,
        r.url@ == stored.url@,
        r.created_at == stored.created_at,
        r.content_type@ == stored.content_type@,
        r.published_at == Some(update.published_at),
        r.published_accuracy@ == "exact"@,
        r.title@ == (if update.title@.len() > 0 {
            update.title@
        } else {
            stored.title@
        }),
        r.thumbnail@ == (if update.thumbnail@.len() > 0 {
            update.thumbnail@
        } else {
            stored.thumbnail@
        }),
        opt_str_view(r.duration) == or_opt(opt_str_view(update.duration), opt_str_view(stored.duration)),
        r.view_count == or_opt(update.view_count, stored.view_count),
{
    ChannelVideoRecord {
        id: stored.id.clone(),
        channel_id: stored.channel_id.clone(),
        video_id: stored.video_id.clone(),
        url: stored.url.clone(),
        title: if !update.title.as_str().is_empty() {
            update.title.clone()
        } else {
            stored.title.clone()
        },
        thumbnail: if !update.thumbnail.as_str().is_empty() {
            update.thumbnail.clone()
        } else {
            stored.thumbnail.clone()
        },
        duration: if update.duration.is_some() {
            copy_opt(&update.duration)
        } else {
            copy_opt(&stored.duration)
        },
        view_count: if update.view_count.is_some() {
            update.view_count
        } else {
            stored.view_count
        },
        published_at: Some(update.published_at),
        published_accuracy: owned("exact"),
        content_type: stored.content_type.clone(),
        created_at: stored.created_at,
    }
}

/// The stored channel after it was added again (as `incoming`): the
/// description, names and address are replaced; an empty avatar or banner
/// and a missing subscriber count keep the stored one; the counts, sync
/// state and creation time stay.
pub fn merge_channel(stored: &ChannelRecord, incoming: &ChannelRecord) -> (r: ChannelRecord)
    ensures
        r.id@ == stored.id@,
        r.url@ == incoming.url@,
        r.title@ == incoming.title@,
        r.uploader@ == incoming.uploader@,
        r.uploader_id@ == incoming.uploader_id@,
        r.avatar@ == (if incoming.avatar@.len() > 0 {
            incoming.avatar@
        } else {
            stored.avatar@
        }),
        r.banner@ == (if incoming.banner@.len() > 0 {
            incoming.banner@
        } else {
            stored.banner@
        }),
        r.description@ == incoming.description@,
        r.platform@ == incoming.platform@,
        r.subscriber_count == or_opt(incoming.subscriber_count, stored.subscriber_count),
        r.video_count == stored.video_count,
        r.last_synced_at == stored.last_synced_at,
        r.sync_status@ == stored.sync_status@,
        opt_str_view(r.sync_error) == opt_str_view(stored.sync_error),
        r.created_at == stored.created_at,
{
    ChannelRecord {
        id: stored.id.clone(),
        url: incoming.url.clone(),
        title: incoming.title.clone(),
        uploader: incoming.uploader.clone(),
        uploader_id: incoming.uploader_id.clone(),
        avatar: if !incoming.avatar.as_str().is_empty() {
            incoming.avatar.clone()
        } else {
            stored.avatar.clone()
        },
        banner: if !incoming.banner.as_str().is_empty() {
            incoming.banner.clone()
        } else {
            stored.banner.clone()
        },
        description: incoming.description.clone(),
        platform: incoming.platform.clone(),
        subscriber_count: if incoming.subscriber_count.is_some() {
            incoming.subscriber_count
        } else {
            stored.subscriber_count
        },
        video_count: stored.video_count,
        last_synced_at: stored.last_synced_at,
        sync_status: stored.sync_status.clone(),
        sync_error: copy_opt(&stored.sync_error),
        created_at: stored.created_at,
    }
}

/// The channel after its sync state became `status`: `completed` records
/// the video count and the time and returns to `idle`; `error` keeps the
/// message; anything else is stored as the state, without error.
pub fn apply_sync_status(
    stored: &ChannelRecord,
    status: &str,
    error: Option<&str>,
    video_count: i64,
    now: i64,
) -> (r: ChannelRecord)
    ensures
        r.id@ == stored.id@,
        r.url@ == stored.url@,
        r.title@ == stored.title@,
        r.uploader@ == stored.uploader@,
        r.uploader_id@ == stored.uploader_id@,
        r.avatar@ == stored.avatar@,
        r.banner@ == stored.banner@,
        r.description@ == stored.description@,
        r.platform@ == stored.platform@,
        r.subscriber_count == stored.subscriber_count,
        r.created_at == stored.created_at,
        status@ == "completed"@ ==> {
            &&& r.sync_status@ == "idle"@
            &&& r.sync_error is None
            &&& r.video_count == video_count
            &&& r.last_synced_at == Some(now)
        },
        status@ == "error"@ ==> {
            &&& r.sync_status@ == "error"@
            &&& opt_str_view(r.sync_error) == match error {
                Some(e) => Some(e@),
                None => None,
            }
            &&& r.video_count == stored.video_count
            &&& r.last_synced_at == stored.last_synced_at
        },
        status@ != "completed"@ && status@ != "error"@ ==> {
            &&& r.sync_status@ == status@
            &&& r.sync_error is None
            &&& r.video_count == stored.video_count
            &&& r.last_synced_at == stored.last_synced_at
        },
{
    proof {
        reveal_strlit("completed");
        reveal_strlit("error");
        assert("completed"@.len() != "error"@.len());
    }
    let completed = str_eq(status, "completed");
    let failed = str_eq(status, "error");
    ChannelRecord {
        id: stored.id.clone(),
        url: stored.url.clone(),
        title: stored.title.clone(),
        uploader: stored.uploader.clone(),
        uploader_id: stored.uploader_id.clone(),
        avatar: stored.avatar.clone(),
        banner: stored.banner.clone(),
        description: stored.description.clone(),
        platform: stored.platform.clone(),
        subscriber_count: stored.subscriber_count,
        video_count: if completed {
            video_count
        } else {
            stored.video_count
        },
        last_synced_at: if completed {
            Some(now)
        } else {
            stored.last_synced_at
        },
        sync_status: if completed {
            owned("idle")
        } else if failed {
            owned("error")
        } else {
            owned(status)
        },
        sync_error: if failed {
            match error {
                Some(e) => Some(owned(e)),
                None => None,
            }
        } else {
            None
        },
        created_at: stored.created_at,
    }
}

} // verus!
