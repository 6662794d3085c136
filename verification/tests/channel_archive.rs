use ydl_gui::sync::tab_target;
use ydl_gui::channel::platform_from_lowered;
use ydl_gui::archive::{
    apply_enrich_update, apply_sync_status, channel_add_url, channel_record_from_info,
    merge_channel, merge_channel_video, needs_date_check, ChannelVideoRecord, EnrichUpdate,
};
use ydl_gui::channel::{
    clean_channel_url, detect_platform, extract_channel_avatar, extract_channel_banner,
    extract_channel_id, extract_channel_title, extract_published_at, extract_video_thumbnail,
    published_at_is_readable,
};
use ydl_gui::jobs::{enrich_start, sync_start, ActiveJobs};
use ydl_gui::json::{Json, JsonNumber};
use ydl_gui::sync::{
    cancelled_before_start, should_flush, sync_end_status, sync_targets, tab_message,
    video_from_entry, EnrichPlan, SyncProgress,
};

fn to_json(v: &serde_json::Value) -> Json {
    match v {
        serde_json::Value::Null => Json::Null,
        serde_json::Value::Bool(b) => Json::Bool(*b),
        serde_json::Value::Number(n) => {
            let f = n.as_f64().unwrap_or(0.0);
            Json::Number(JsonNumber {
                text: n.to_string(),
                int: n.as_i64(),
                uint: n.as_u64(),
                truncated: f as i64,
                positive: f > 0.0,
            })
        }
        serde_json::Value::String(s) => Json::Str(s.clone()),
        serde_json::Value::Array(a) => Json::Array(a.iter().map(to_json).collect()),
        serde_json::Value::Object(o) => {
            Json::Object(o.iter().map(|(k, v)| (k.clone(), to_json(v))).collect())
        }
    }
}

fn parse(text: &str) -> Json {
    to_json(&serde_json::from_str::<serde_json::Value>(text).unwrap())
}

fn video(acc: &str, at: Option<i64>) -> ChannelVideoRecord {
    ChannelVideoRecord {
        id: "c_v".into(),
        channel_id: "c".into(),
        video_id: "v".into(),
        url: "https://www.youtube.com/watch?v=v".into(),
        title: "T".into(),
        thumbnail: "th".into(),
        duration: Some("10".into()),
        view_count: Some(5),
        published_at: at,
        published_accuracy: acc.into(),
        content_type: "video".into(),
        created_at: 1,
    }
}

#[test]
fn channel_urls_are_cleaned() {
    assert_eq!(clean_channel_url(" https://www.youtube.com/@x/videos/ "), "https://www.youtube.com/@x");
    assert_eq!(clean_channel_url("https://www.youtube.com/@x/streams"), "https://www.youtube.com/@x");
    assert_eq!(channel_add_url("  "), Err("err_channel_url_empty".to_string()));
    assert_eq!(channel_add_url(" https://t.tv/abc/ "), Ok("https://t.tv/abc".to_string()));
}

#[test]
fn platforms_ids_and_titles() {
    let empty = parse("{}");
    assert_eq!(detect_platform("https://WWW.YouTube.com/@x", &empty), "youtube");
    assert_eq!(detect_platform("https://space.bilibili.com/1", &empty), "bilibili");
    assert_eq!(detect_platform("https://x.org", &parse(r#"{"extractor_key":"BiliBiliSpace"}"#)), "bilibili");
    assert_eq!(detect_platform("https://x.org", &parse(r#"{"extractor_key":"Vimeo"}"#)), "Vimeo");
    assert_eq!(detect_platform("https://x.org", &empty), "generic");

    let info = parse(r#"{"uploader_id": "@u", "id": "i"}"#);
    assert_eq!(extract_channel_id(&info, "https://y", "youtube"), "@u");
    assert_eq!(
        extract_channel_id(&empty, "https://space.bilibili.com/946974/video", "bilibili"),
        "bilibili:946974"
    );
    assert_eq!(extract_channel_id(&empty, "https://x.org/c/videos", "generic"), "https://x.org/c");
    assert_eq!(extract_channel_title(&parse(r#"{"channel":" ","uploader":"Up"}"#), "u"), "Up");
    assert_eq!(extract_channel_title(&empty, "https://x.org/c/"), "https://x.org/c");
}

#[test]
fn channel_pictures() {
    let info = parse(
        r#"{"thumbnails":[{"id":"banner_uncropped","url":"B"},{"id":"x","url":"S","width":88,"height":88},{"id":"avatar_uncropped","url":"A"}]}"#,
    );
    assert_eq!(extract_channel_avatar(&info), "A");
    assert_eq!(extract_channel_banner(&info), "B");
    let info = parse(r#"{"thumbnails":[{"id":"1","url":"W","width":100,"height":50},{"id":"2","url":"Q","width":60,"height":60}]}"#);
    assert_eq!(extract_channel_avatar(&info), "Q");
    assert_eq!(extract_channel_banner(&info), "");
    assert_eq!(extract_channel_avatar(&parse(r#"{"thumbnail":"T"}"#)), "T");
}

#[test]
fn video_pictures_prefer_the_largest_last_among_equals() {
    let e = parse(r#"{"thumbnails":[{"url":"a","width":10,"height":10},{"url":"b","width":20,"height":5},{"url":"c","width":1,"height":1}]}"#);
    assert_eq!(extract_video_thumbnail(&e), "b");
    let e = parse(r#"{"thumbnails":[{"url":"a","width":10,"height":11},{"url":"b","width":5,"height":20}]}"#);
    assert_eq!(extract_video_thumbnail(&e), "a");
    let e = parse(r#"{"thumbnails":[{"url":"a","width":10,"height":10},{"url":"b","width":5,"height":20}]}"#);
    assert_eq!(extract_video_thumbnail(&e), "b");
    assert_eq!(extract_video_thumbnail(&parse(r#"{"thumbnails":[],"thumbnail":"t"}"#)), "t");
}

#[test]
fn publication_time_sources_in_order() {
    let e = parse(r#"{"timestamp": 1700000000, "upload_date": "20200101"}"#);
    assert!(published_at_is_readable(&e));
    assert_eq!(extract_published_at(&e), Some(1700000000000));
    let e = parse(r#"{"upload_date": "20240501"}"#);
    assert_eq!(extract_published_at(&e), Some(1714521600000));
    let e = parse(r#"{"release_timestamp": 10}"#);
    assert_eq!(extract_published_at(&e), Some(10000));
    assert_eq!(extract_published_at(&parse("{}")), None);
}

#[test]
fn listed_entries_become_videos() {
    let e = parse(r#"{"id":"abc","title":"T","duration":12.5,"view_count":7,"timestamp":100}"#);
    let v = video_from_entry(&e, "ch", "youtube", "shorts", 9).unwrap();
    assert_eq!(v.id, "ch_abc");
    assert_eq!(v.url, "https://www.youtube.com/watch?v=abc");
    assert_eq!(v.content_type, "short");
    assert_eq!(v.published_at, Some(100000));
    assert_eq!(v.published_accuracy, "approx");
    assert_eq!(v.duration.as_deref(), Some("12.5"));
    assert_eq!(v.view_count, Some(7));
    assert_eq!(v.created_at, 9);
    let e = parse(r#"{"id":"9","url":"https://b/9","live_status":"was_live","timestamp":1}"#);
    let v = video_from_entry(&e, "ch", "bilibili", "video", 0).unwrap();
    assert_eq!(v.content_type, "stream");
    assert_eq!(v.published_accuracy, "exact");
    assert!(video_from_entry(&parse(r#"{"id":""}"#), "ch", "youtube", "videos", 0).is_none());
}

#[test]
fn sync_reads_the_chosen_tabs() {
    let t = sync_targets("youtube", "https://y/@x", "https://y/@x/videos", None);
    assert_eq!(
        t,
        vec![
            ("videos".to_string(), "https://y/@x/videos".to_string()),
            ("shorts".to_string(), "https://y/@x/shorts".to_string()),
            ("streams".to_string(), "https://y/@x/streams".to_string()),
        ]
    );
    let t = sync_targets("youtube", "https://y/@x", "u", Some(vec![" Shorts ".into(), " ".into()]));
    assert_eq!(t, vec![("shorts".to_string(), "https://y/@x/shorts".to_string())]);
    let t = sync_targets("youtube", "https://y/@x", "u", Some(vec![]));
    assert_eq!(t, vec![("videos".to_string(), "https://y/@x/videos".to_string())]);
    let t = sync_targets("bilibili", "b", "https://space.bilibili.com/1", None);
    assert_eq!(t, vec![("video".to_string(), "https://space.bilibili.com/1".to_string())]);
}

#[test]
fn incremental_sync_stops_at_the_fifth_known_video_in_a_row() {
    let known: Vec<String> = (1..=6).map(|i| format!("k{}", i)).collect();
    let mut p = SyncProgress::new(true, known);
    p.begin_listing();
    assert!(p.record("n1"));
    for i in 1..=4 {
        assert!(p.record(&format!("k{}", i)));
    }
    assert!(!p.record("k5"));
    assert_eq!(p.total_synced(), 5);
    assert_eq!(p.new_synced(), 1);
    assert!(matches!(p.enrich_plan(), EnrichPlan::Only(ids) if ids == vec!["n1".to_string()]));
    let payload = p.payload("c", "syncing", Some("videos".into()), None);
    assert_eq!((payload.total_synced, payload.new_synced), (5, 1));
}

#[test]
fn full_sync_counts_everything_and_checks_all_dates() {
    let mut p = SyncProgress::new(false, vec!["a".into()]);
    assert!(p.record("a"));
    assert!(p.record("a"));
    assert_eq!(p.total_synced(), 2);
    assert_eq!(p.new_synced(), 1);
    assert!(matches!(p.enrich_plan(), EnrichPlan::All));
    let q = SyncProgress::new(true, vec![]);
    assert!(matches!(q.enrich_plan(), EnrichPlan::Skip));
}

#[test]
fn sync_flushes_and_endings() {
    assert!(should_flush(15, 0, 0));
    assert!(should_flush(1, 300, 0));
    assert!(!should_flush(0, 1000, 0));
    assert!(!should_flush(3, 299, 0));
    assert_eq!(sync_end_status(true, true), ("cancelled", "idle"));
    assert_eq!(sync_end_status(false, true), ("error", "error"));
    assert_eq!(sync_end_status(false, false), ("completed", "completed"));
    assert_eq!(tab_message("shorts"), "Syncing shorts...");
    let c = cancelled_before_start("c1");
    assert_eq!(c.message.as_deref(), Some("Sync cancelled by user"));
}

#[test]
fn one_sync_per_channel_at_a_time() {
    let mut jobs: ActiveJobs<u32> = ActiveJobs::new();
    assert!(jobs.begin("c1", 1).is_ok());
    assert_eq!(jobs.begin("c1", 2), Err("err_channel_already_syncing".to_string()));
    assert!(jobs.begin("c2", 3).is_ok());
    assert!(jobs.is_active("c1"));
    assert_eq!(jobs.active_ids(), vec!["c1", "c2"]);
    assert_eq!(jobs.take("c1"), Some(1));
    assert!(!jobs.is_active("c1"));
    assert_eq!(jobs.take("c1"), None);
}

#[test]
fn a_sync_needs_a_known_channel_and_no_running_sync() {
    let mut jobs: ActiveJobs<u32> = ActiveJobs::new();
    assert_eq!(sync_start(&mut jobs, "c9", false, 1), Err("err_channel_not_found:c9".to_string()));
    assert!(!jobs.is_active("c9"));
    assert_eq!(sync_start(&mut jobs, "c1", true, 1), Ok(()));
    assert_eq!(sync_start(&mut jobs, "c1", true, 2), Err("err_channel_already_syncing".to_string()));
    assert_eq!(jobs.take("c1"), Some(1));
}

#[test]
fn a_date_check_starts_only_with_targets() {
    let mut jobs: ActiveJobs<u32> = ActiveJobs::new();
    assert_eq!(enrich_start(&mut jobs, "c1", Ok(0), 1), Ok(0));
    assert!(!jobs.is_active("c1"));
    assert_eq!(enrich_start(&mut jobs, "c1", Err("db".to_string()), 1), Err("db".to_string()));
    assert!(!jobs.is_active("c1"));
    assert_eq!(enrich_start(&mut jobs, "c1", Ok(4), 7), Ok(4));
    assert_eq!(enrich_start(&mut jobs, "c1", Ok(2), 8), Err("err_channel_already_syncing".to_string()));
    assert_eq!(jobs.take("c1"), Some(7));
}

#[test]
fn approximate_listings_never_replace_an_exact_date() {
    let mut stored = video("exact", Some(100));
    for at in [Some(5), None, Some(7)] {
        stored = merge_channel_video(Some(&stored), &video("approx", at));
    }
    assert_eq!(stored.published_at, Some(100));
    assert_eq!(stored.published_accuracy, "exact");
}

#[test]
fn a_checked_date_survives_a_later_listing() {
    let stored = video("approx", Some(5));
    let update = EnrichUpdate {
        id: "c_v".into(),
        published_at: 77,
        title: "".into(),
        thumbnail: "new".into(),
        duration: None,
        view_count: Some(9),
    };
    let checked = apply_enrich_update(&stored, &update);
    assert_eq!(checked.published_at, Some(77));
    assert_eq!(checked.published_accuracy, "exact");
    assert_eq!(checked.title, "T");
    assert_eq!(checked.thumbnail, "new");
    assert_eq!(checked.duration.as_deref(), Some("10"));
    assert_eq!(checked.view_count, Some(9));
    assert!(!needs_date_check(checked.published_at, &checked.published_accuracy));

    let listed = video("approx", Some(3));
    let merged = merge_channel_video(Some(&checked), &listed);
    assert_eq!(merged.published_at, Some(77));
    assert_eq!(merged.published_accuracy, "exact");

    let merged = merge_channel_video(Some(&stored), &video("approx", None));
    assert_eq!(merged.published_at, Some(5));
    assert!(needs_date_check(None, "exact"));
    assert!(needs_date_check(Some(1), "approx"));
}

#[test]
fn channel_records_are_built_and_merged() {
    let info = parse(r#"{"channel_id":"UC1","channel":"Name","channel_url":"https://y/@n/videos","channel_follower_count":12}"#);
    let c = channel_record_from_info(&info, "https://y/@n", None, 50);
    assert_eq!(c.id, "UC1");
    assert_eq!(c.title, "Name");
    assert_eq!(c.uploader, "Name");
    assert_eq!(c.url, "https://y/@n");
    assert_eq!(c.subscriber_count, Some(12));
    assert_eq!((c.video_count, c.created_at), (0, 50));
    assert_eq!(c.sync_status, "idle");

    let info2 = parse(r#"{"channel_id":"UC1","channel":"New"}"#);
    let again = channel_record_from_info(&info2, "https://y/@n", Some(&c), 60);
    let merged = merge_channel(&c, &again);
    assert_eq!(merged.title, "New");
    assert_eq!(merged.subscriber_count, Some(12));
    assert_eq!(merged.created_at, 50);

    let done = apply_sync_status(&merged, "completed", None, 30, 99);
    assert_eq!((done.sync_status.as_str(), done.video_count, done.last_synced_at), ("idle", 30, Some(99)));
    let failed = apply_sync_status(&done, "error", Some("boom"), 0, 100);
    assert_eq!(failed.sync_error.as_deref(), Some("boom"));
    assert_eq!(failed.video_count, 30);
    let syncing = apply_sync_status(&failed, "syncing", None, 0, 101);
    assert_eq!(syncing.sync_status, "syncing");
    assert!(syncing.sync_error.is_none());
}

#[test]
fn platform_rules_on_lowered_text() {
    assert_eq!(platform_from_lowered("https://youtu.be/x", None, None), "youtube");
    assert_eq!(platform_from_lowered("https://www.twitch.tv/x", Some("X"), Some("x")), "twitch");
    assert_eq!(platform_from_lowered("https://x.org", Some("YoutubeTab"), Some("youtubetab")), "youtube");
    assert_eq!(platform_from_lowered("https://x.org", Some("Vimeo"), Some("vimeo")), "Vimeo");
    assert_eq!(platform_from_lowered("https://x.org", None, None), "generic");
}

#[test]
fn tab_targets_skip_blank_names() {
    assert_eq!(tab_target("", "b"), None);
    assert_eq!(tab_target("shorts", "b"), Some(("shorts".to_string(), "b/shorts".to_string())));
}
