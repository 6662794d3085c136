use ydl_gui::archive::ChannelVideoRecord;
use ydl_gui::sync::{json_line, listing_args, EnrichPlan, SyncRun};

fn video(id: &str) -> ChannelVideoRecord {
    ChannelVideoRecord {
        id: format!("c_{}", id),
        channel_id: "c".into(),
        video_id: id.into(),
        url: format!("https://v/{}", id),
        title: "t".into(),
        thumbnail: "".into(),
        duration: None,
        view_count: None,
        published_at: None,
        published_accuracy: "approx".into(),
        content_type: "video".into(),
        created_at: 0,
    }
}

#[test]
fn listing_arguments_and_lines() {
    let a = listing_args(Some("1.5"), &vec!["--plugin-dirs".into(), "/p".into()], Some("c.txt"), None, None, "https://y/@x/videos");
    assert_eq!(&a[..2], &["--flat-playlist", "-j"]);
    assert_eq!(&a[12..14], &["--extractor-args", "youtubetab:approximate_date"]);
    assert_eq!(&a[14..], &["--sleep-requests", "1.5", "--plugin-dirs", "/p", "--cookies", "c.txt", "https://y/@x/videos"]);
    let b = listing_args(None, &vec![], None, None, None, "u");
    assert_eq!(b.len(), 15);
    assert_eq!(json_line("  {\"id\":1}  ").as_deref(), Some("{\"id\":1}"));
    assert_eq!(json_line("[download] x"), None);
    assert_eq!(json_line("   "), None);
}

#[test]
fn sync_run_writes_in_batches_and_announces() {
    let mut run = SyncRun::new("c", false, vec![]);
    let p = run.begin_tab("videos", 1000);
    assert_eq!(p.message.as_deref(), Some("Syncing videos..."));
    assert_eq!(p.current_tab.as_deref(), Some("videos"));
    let mut written = 0;
    for i in 0..16 {
        let id = format!("v{}", i);
        assert!(run.progress.record(&id));
        if let Some((batch, p)) = run.keep(video(&id), 1000 + i) {
            assert_eq!(batch.len(), 15);
            assert_eq!(p.total_synced, 15);
            assert!(p.message.is_none());
            written += batch.len();
        }
    }
    assert_eq!(written, 15);
    let (rest, p) = run.end_tab().unwrap();
    assert_eq!(rest.len(), 1);
    assert_eq!(p.total_synced, 16);
    assert!(run.end_tab().is_none());

    run.begin_tab("shorts", 5000);
    assert!(run.progress.record("s1"));
    assert!(run.keep(video("s1"), 5100).is_none());
    assert!(run.keep(video("s2"), 5300).is_some());

    let end = run.finish(false, None);
    assert_eq!(end.payload.status, "completed");
    assert_eq!(end.stored_status, "completed");
    assert!(matches!(end.enrich, Some(EnrichPlan::All)));
    let end = run.finish(false, Some("Failed to spawn yt-dlp: x".into()));
    assert_eq!(end.payload.message.as_deref(), Some("Failed to spawn yt-dlp: x"));
    assert_eq!(end.stored_error.as_deref(), Some("Failed to spawn yt-dlp: x"));
    let end = run.finish(true, Some("ignored".into()));
    assert_eq!((end.payload.status.as_str(), end.stored_status), ("cancelled", "idle"));
}

#[test]
fn incremental_sync_without_news_checks_no_dates() {
    let run = SyncRun::new("c", true, vec!["a".into()]);
    let end = run.finish(false, None);
    assert!(end.enrich.is_none());
}
