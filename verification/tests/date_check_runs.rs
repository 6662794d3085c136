use ydl_gui::archive::{EnrichTarget, EnrichUpdate};
use ydl_gui::enrich::{
    base_enrich_args, bilibili_view_url, body_failed_step, build_enrich_args, chunk_targets,
    enrich_chunk_args, enrich_final_status, enrich_update_from_entry, enrich_worker_count,
    enriching_payload, error_sample, fast_worker_count, has_cookie, parsed_step, progress_done,
    push_stderr_tail, send_failed_step, status_step, transient_error, uses_fast_path,
    youtube_watch_url, failure_sample, AttemptStep, EnrichRounds, FastTally, FetchOutcome,
    RoundStats, STDERR_TAIL_LINES,
};
use ydl_gui::json::{Json, JsonNumber};

fn target(id: &str) -> EnrichTarget {
    EnrichTarget { id: format!("row_{}", id), video_id: id.to_string(), url: format!("https://v/{}", id) }
}

fn update(id: &str) -> EnrichUpdate {
    EnrichUpdate { id: id.into(), published_at: 1, title: "".into(), thumbnail: "".into(), duration: None, view_count: None }
}

fn num(n: i64) -> Json {
    Json::Number(JsonNumber { text: n.to_string(), int: Some(n), uint: u64::try_from(n).ok(), truncated: n, positive: n > 0 })
}

#[test]
fn enrich_arguments_per_platform() {
    let base = base_enrich_args();
    assert_eq!(base[0], "-j");
    assert_eq!(base.last().unwrap(), "--ignore-errors");
    assert_eq!(base.len(), 15);
    let urls = vec!["u1".to_string(), "u2".to_string()];
    let yt = build_enrich_args(&urls);
    assert_eq!(&yt[15..], &["--extractor-args", "youtube:player_client=android,web_embedded;player_skip=webpage", "u1", "u2"]);
    assert_eq!(enrich_chunk_args("youtube", &urls, "UA"), yt);
    let bili = enrich_chunk_args("bilibili", &urls, "UA");
    assert_eq!(&bili[15..], &["u1", "u2", "--user-agent", "UA"]);
    let other = enrich_chunk_args("twitch", &urls, "UA");
    assert_eq!(&other[15..], &["u1", "u2"]);
}

#[test]
fn targets_are_cut_into_chunks() {
    let items: Vec<EnrichTarget> = (0..5).map(|i| target(&i.to_string())).collect();
    let chunks = chunk_targets(items, 2);
    let sizes: Vec<usize> = chunks.iter().map(|c| c.len()).collect();
    assert_eq!(sizes, vec![2, 2, 1]);
    assert_eq!(chunks[2][0].video_id, "4");
    assert!(chunk_targets(vec![], 3).is_empty());
}

#[test]
fn worker_counts_are_clamped() {
    assert_eq!(enrich_worker_count(None, 10), 4);
    assert_eq!(enrich_worker_count(Some(20), 10), 8);
    assert_eq!(enrich_worker_count(Some(0), 0), 1);
    assert_eq!(enrich_worker_count(Some(6), 3), 3);
    assert_eq!(fast_worker_count(true, None), 12);
    assert_eq!(fast_worker_count(true, Some(2)), 8);
    assert_eq!(fast_worker_count(true, Some(7)), 14);
    assert_eq!(fast_worker_count(true, Some(100)), 16);
    assert_eq!(fast_worker_count(false, None), 10);
    assert_eq!(fast_worker_count(false, Some(1)), 4);
    assert_eq!(fast_worker_count(false, Some(13)), 12);
    assert!(has_cookie(Some(" c.txt "), None));
    assert!(!has_cookie(Some("  "), Some("")));
}

#[test]
fn fast_tally_counts_and_batches() {
    let mut t = FastTally::new();
    for i in 0..19 {
        assert!(t.record(target("a"), FetchOutcome::Fixed(update(&i.to_string())), true, false).is_none());
    }
    let batch = t.record(target("a"), FetchOutcome::Fixed(update("last")), true, false).unwrap();
    assert_eq!(batch.len(), 20);
    assert_eq!(batch[19].id, "last");
    assert!(t.pending.is_empty());
    assert!(t.report_due());

    t.record(target("p"), FetchOutcome::Permanent, true, false);
    t.record(target("l"), FetchOutcome::Transient("transient:LOGIN_REQUIRED:x".into()), true, false);
    assert_eq!(t.permanent, 2);
    t.record(target("b"), FetchOutcome::Transient("transient:bot_check".into()), true, false);
    t.record(target("c"), FetchOutcome::Transient("transient:LOGIN_REQUIRED".into()), true, true);
    assert_eq!(t.retry_targets.len(), 2);
    assert_eq!(t.err_sample.as_deref(), Some("transient:bot_check"));
    t.record_lost("lost".into());
    assert_eq!(t.err_sample.as_deref(), Some("transient:bot_check"));
    assert_eq!((t.done, t.fixed), (25, 20));
    let mut u = FastTally::new();
    u.record_lost("worker died".into());
    assert_eq!(u.err_sample.as_deref(), Some("worker died"));
}

#[test]
fn final_statuses_of_a_date_check() {
    assert_eq!(enrich_final_status(true, 0, 0, 5, 5), "cancelled");
    assert_eq!(enrich_final_status(false, 0, 0, 5, 5), "error");
    assert_eq!(enrich_final_status(false, 0, 0, 1, 0), "error");
    assert_eq!(enrich_final_status(false, 1, 0, 5, 5), "completed");
    assert_eq!(enrich_final_status(false, 0, 0, 4, 5), "completed");
}

#[test]
fn stderr_tail_keeps_the_last_lines() {
    let mut tail = Vec::new();
    for i in 0..(STDERR_TAIL_LINES + 5) {
        push_stderr_tail(&mut tail, &format!(" line {} ", i));
    }
    push_stderr_tail(&mut tail, "   ");
    assert_eq!(tail.len(), STDERR_TAIL_LINES);
    assert_eq!(tail[0], "line 5");
    assert_eq!(error_sample(&tail).as_deref(), Some("line 34"));
    push_stderr_tail(&mut tail, "ERROR: bad");
    push_stderr_tail(&mut tail, "after");
    assert_eq!(error_sample(&tail).as_deref(), Some("ERROR: bad"));
    assert_eq!(error_sample(&vec![]), None);
}

#[test]
fn progress_and_payloads() {
    assert_eq!(progress_done(3, 4, 10), 7);
    assert_eq!(progress_done(8, 4, 10), 10);
    let p = enriching_payload("c", 10, 8, 4, 1, 2);
    assert_eq!((p.status.as_str(), p.done, p.fixed), ("enriching", 10, 3));
}

#[test]
fn listed_entries_update_their_rows() {
    let chunk = vec![target("a"), target("b")];
    let entry = Json::Object(vec![
        ("id".to_string(), Json::Str("b".into())),
        ("timestamp".to_string(), num(100)),
        ("title".to_string(), Json::Str("T".into())),
        ("view_count".to_string(), num(3)),
    ]);
    let u = enrich_update_from_entry(&entry, &chunk).unwrap();
    assert_eq!((u.id.as_str(), u.published_at, u.title.as_str(), u.view_count), ("row_b", 100000, "T", Some(3)));
    let stranger = Json::Object(vec![("id".to_string(), Json::Str("z".into())), ("timestamp".to_string(), num(1))]);
    assert!(enrich_update_from_entry(&stranger, &chunk).is_none());
    let undated = Json::Object(vec![("id".to_string(), Json::Str("a".into()))]);
    assert!(enrich_update_from_entry(&undated, &chunk).is_none());
}

#[test]
fn fetch_attempt_steps() {
    assert!(matches!(send_failed_step(true, "timeout", false), AttemptStep::Stop { error } if error == "transient:http:timeout"));
    assert!(matches!(send_failed_step(true, "reset", true), AttemptStep::Retry { wait_ms: 800, .. }));
    assert!(matches!(status_step(true, 429, "429 Too Many Requests"),
        Some(AttemptStep::Retry { error, wait_ms: 1000 }) if error == "transient:status:429 Too Many Requests"));
    assert!(matches!(status_step(false, 412, "412"), Some(AttemptStep::Retry { wait_ms: 2000, .. })));
    assert!(matches!(status_step(true, 404, "404"), Some(AttemptStep::Finish(FetchOutcome::Permanent))));
    assert!(status_step(false, 404, "404").is_none());
    assert!(status_step(true, 200, "200").is_none());
    assert!(matches!(body_failed_step("eof"), AttemptStep::Stop { error } if error == "transient:decode:eof"));
    assert!(matches!(parsed_step(true, Ok(update("x"))), AttemptStep::Finish(FetchOutcome::Fixed(u)) if u.id == "x"));
    assert!(matches!(parsed_step(true, Err("permanent:PRIVATE".into())), AttemptStep::Finish(FetchOutcome::Permanent)));
    assert!(matches!(parsed_step(true, Err("transient:bot_check".into())), AttemptStep::Retry { wait_ms: 1000, .. }));
    assert!(matches!(parsed_step(false, Err("transient:bili:-412:x".into())), AttemptStep::Retry { wait_ms: 2000, .. }));
    assert!(matches!(parsed_step(true, Err("transient:no_upload_date".into())), AttemptStep::Stop { error } if error == "transient:no_upload_date"));
    assert_eq!(transient_error(""), "transient:unknown");
    assert_eq!(transient_error("transient:x"), "transient:x");
    assert_eq!(youtube_watch_url("abc"), "https://www.youtube.com/watch?v=abc");
    assert_eq!(bilibili_view_url("BV1x"), "https://api.bilibili.com/x/web-interface/view?bvid=BV1x");
    assert_eq!(bilibili_view_url("123"), "https://api.bilibili.com/x/web-interface/view?aid=123");
}

#[test]
fn fallback_rounds() {
    assert!(uses_fast_path("youtube") && uses_fast_path("bilibili") && !uses_fast_path("twitch"));
    let mut r = EnrichRounds::new("twitch");
    assert_eq!((r.max_rounds, r.chunk_size), (3, 20));
    assert!(r.start_round());
    assert!(r.finish_round(5, 2, 0, 1, 3));
    assert!(r.start_round());
    assert!(!r.finish_round(5, 0, 1, 1, 3));
    assert_eq!((r.done, r.fixed), (10, 2));
    assert_eq!(r.final_status(false), "completed");
    assert_eq!(r.final_status(true), "cancelled");

    let mut f = EnrichRounds::new("youtube");
    assert_eq!((f.max_rounds, f.chunk_size), (1, 10));
    f.after_fast(50, 0, 0, 10, false);
    assert_eq!(f.done, 40);
    assert!(f.missing_tool_fails());
    assert!(f.start_round());
    assert!(!f.start_round());
    f.finish_round(0, 0, 2, 2, 10);
    assert_eq!(f.final_status(false), "error");
}

#[test]
fn round_stats_and_failure_samples() {
    let mut st = RoundStats::new();
    st.chunk_ended(10, 7, true);
    st.chunk_ended(10, 0, false);
    st.spawn_failed(5);
    assert_eq!((st.done, st.fixed, st.failed), (25, 7, 2));
    let tail = vec!["WARNING: a".to_string(), "ERROR: b".to_string(), "c".to_string()];
    assert_eq!(failure_sample(true, &tail), None);
    assert_eq!(failure_sample(false, &tail).as_deref(), Some("ERROR: b"));
    assert_eq!(failure_sample(false, &vec!["x".to_string()]).as_deref(), Some("x"));
}
