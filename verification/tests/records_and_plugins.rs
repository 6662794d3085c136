use ydl_gui::install::{deno_status, ytdlp_status};
use ydl_gui::plugins::{
    check_import_name, check_plugin_name, is_listed_file, plugin_display_name, plugin_types,
    sort_plugins, PluginItem,
};
use ydl_gui::records::{
    db_health_info, history_entry, import_history_batch, import_history_item, interrupted_error,
    interrupted_on_restart, plan_videos_page, requested_video_ids, tool_snapshot,
    ChannelVideosQuery, HistoryItemRecord, HistoryList, VideoSort, HISTORY_LIMIT,
};

fn item(url: &str, title: &str, time: i64) -> HistoryItemRecord {
    HistoryItemRecord { url: url.to_string(), title: title.to_string(), time }
}

#[test]
fn imported_history_is_trimmed_and_completed() {
    let e = import_history_item(&item("  https://a.com/v  ", "  ", 0), 99).unwrap();
    assert_eq!(e.url, "https://a.com/v");
    assert_eq!(e.title, "https://a.com/v");
    assert_eq!(e.time, 99);
    let e = import_history_item(&item("https://a.com/v", " Title ", 5), 99).unwrap();
    assert_eq!(e.title, "Title");
    assert_eq!(e.time, 5);
    assert!(import_history_item(&item("   ", "x", 5), 99).is_none());
}

#[test]
fn history_batch_skips_blank_urls_in_order() {
    let items = vec![item("a", "A", 1), item(" ", "B", 2), item("c", "", -1)];
    let out = import_history_batch(&items, 7);
    assert_eq!(out.len(), 2);
    assert_eq!((out[0].url.as_str(), out[0].title.as_str(), out[0].time), ("a", "A", 1));
    assert_eq!((out[1].url.as_str(), out[1].title.as_str(), out[1].time), ("c", "c", 7));
}

#[test]
fn history_entry_keeps_the_title_as_given() {
    let e = history_entry(" https://x ", " raw ", 3).unwrap();
    assert_eq!(e.url, "https://x");
    assert_eq!(e.title, " raw ");
    assert!(history_entry("  ", "t", 3).is_none());
}

#[test]
fn tool_snapshot_needs_tool_and_url() {
    let s = tool_snapshot(" chapters ", " https://v ", "T".into(), "{}".into(), 10).unwrap();
    assert_eq!((s.tool.as_str(), s.url.as_str(), s.updated_at), ("chapters", "https://v", 10));
    let e = tool_snapshot("chapters", " ", "T".into(), "{}".into(), 10).unwrap_err();
    assert_eq!(e, "tool and url must not be empty");
}

#[test]
fn health_report_reads_the_integrity_line() {
    let t = vec!["tasks".to_string()];
    assert!(db_health_info("p".into(), "3.45".into(), t.clone(), Some("OK")).healthy);
    assert!(!db_health_info("p".into(), "3.45".into(), t.clone(), Some("ok ")).healthy);
    assert!(!db_health_info("p".into(), "3.45".into(), t, None).healthy);
}

#[test]
fn only_live_task_states_are_interrupted_by_a_restart() {
    for s in ["preparing", "queued", "downloading", "postprocessing", "paused"] {
        assert!(interrupted_on_restart(s));
    }
    for s in ["completed", "error", "cancelled", ""] {
        assert!(!interrupted_on_restart(s));
    }
    assert_eq!(interrupted_error(), "应用已重启，任务已中断");
}

fn query(ct: Option<&str>, q: Option<&str>, by: Option<&str>, order: Option<&str>, page: u32, size: u32) -> ChannelVideosQuery {
    ChannelVideosQuery {
        channel_id: "c".into(),
        content_type: ct.map(String::from),
        query: q.map(String::from),
        sort_by: by.map(String::from),
        sort_order: order.map(String::from),
        page,
        page_size: size,
    }
}

#[test]
fn video_page_plan_clamps_and_filters() {
    let p = plan_videos_page(&query(Some("all"), Some("  cat "), Some("view_count"), Some("asc"), 0, 5000));
    assert_eq!(p.content_type, None);
    assert_eq!(p.title_pattern.as_deref(), Some("%cat%"));
    assert_eq!(p.sort, VideoSort::ViewCount);
    assert!(p.ascending);
    assert_eq!((p.page, p.page_size, p.offset), (1, 1000, 0));

    let p = plan_videos_page(&query(Some("short"), Some(" "), None, Some("desc"), 3, 50));
    assert_eq!(p.content_type.as_deref(), Some("short"));
    assert_eq!(p.title_pattern, None);
    assert_eq!(p.sort.column(), "COALESCE(published_at, created_at)");
    assert!(!p.ascending);
    assert_eq!((p.page, p.page_size, p.offset), (3, 50, 100));
}

#[test]
fn requested_ids_drop_empty_ones() {
    let ids = vec!["a".to_string(), "".to_string(), "b".to_string()];
    assert_eq!(requested_video_ids(&ids), vec!["a", "b"]);
}

#[test]
fn plugin_types_come_from_entry_names() {
    let names = vec![
        "pkg\\yt_dlp_plugins\\extractor\\x.py".to_string(),
        "pkg/yt_dlp_plugins/postprocessor/y.py".to_string(),
    ];
    assert_eq!(plugin_types(&names).unwrap(), vec!["extractor", "postprocessor"]);
    let names = vec!["yt_dlp_plugins/postprocessor/y.py".to_string()];
    assert_eq!(plugin_types(&names).unwrap(), vec!["postprocessor"]);
    let names = vec!["yt_dlp_plugins/extractor/readme.txt".to_string()];
    assert_eq!(plugin_types(&names).unwrap_err(), "err_plugin_layout");
}

#[test]
fn plugin_names_are_checked() {
    assert!(check_plugin_name("a.zip").is_ok());
    for bad in ["", "a/b.zip", "a\\b.zip", "..zip"] {
        assert_eq!(check_plugin_name(bad).unwrap_err(), "err_invalid_plugin_name");
    }
    assert!(check_import_name("Plugin.ZIP").is_ok());
    assert_eq!(check_import_name("plugin.tar").unwrap_err(), "err_plugin_layout");
    assert!(is_listed_file("a.Zip"));
    assert!(!is_listed_file(".zip"));
    assert!(!is_listed_file("zip"));
    assert_eq!(plugin_display_name("chrome-cookie-unlock.zip"), "chrome-cookie-unlock");
}

fn plugin(name: &str) -> PluginItem {
    PluginItem {
        file_name: format!("{}.zip", name),
        name: name.to_string(),
        size_bytes: 1,
        modified_at: 0,
        plugin_types: vec![],
    }
}

#[test]
fn plugins_are_listed_by_name() {
    let sorted = sort_plugins(vec![plugin("b"), plugin("a"), plugin("c"), plugin("a")]);
    let names: Vec<&str> = sorted.iter().map(|p| p.name.as_str()).collect();
    assert_eq!(names, vec!["a", "a", "b", "c"]);
}

#[test]
fn tool_statuses_read_the_version_output() {
    let s = ytdlp_status("/p/yt-dlp".into(), Some(" 2025.01.01\n"));
    assert!(s.installed);
    assert_eq!(s.version, "2025.01.01");
    let s = ytdlp_status("/p/yt-dlp".into(), None);
    assert!(!s.installed);
    assert_eq!(s.version, "");
    let d = deno_status("/p/deno".into(), Some(Some("deno 2.1.4 (stable, release)\nv8 13.0\n")));
    assert_eq!(d.version, "2.1.4 (stable, release)");
    let d = deno_status("/p/deno".into(), Some(None));
    assert!(d.installed);
    assert_eq!(d.version, "");
    assert!(!deno_status("/p/deno".into(), None).installed);
}

#[test]
fn history_keeps_the_newest_entry_per_url() {
    let mut h = HistoryList::new();
    h.record(item("a", "A", 1));
    h.record(item("b", "B", 2));
    h.record(item("a", "A2", 3));
    let e = h.entries();
    let urls: Vec<&str> = e.iter().map(|x| x.url.as_str()).collect();
    assert_eq!(urls, vec!["a", "b"]);
    assert_eq!(e[0].title, "A2");
    h.record(item("c", "C", 2));
    let urls: Vec<String> = h.entries().into_iter().map(|x| x.url).collect();
    assert_eq!(urls, vec!["a", "c", "b"]);
}

#[test]
fn history_is_cut_to_its_limit() {
    let rows: Vec<HistoryItemRecord> = (0..60).map(|i| item(&format!("u{}", i), "t", i)).collect();
    let mut h = HistoryList::load(rows);
    assert_eq!(h.entries().len(), HISTORY_LIMIT);
    assert_eq!(h.entries()[0].url, "u59");
    assert_eq!(h.entries()[49].url, "u10");
    h.record(item("old", "t", -5));
    assert_eq!(h.entries().len(), HISTORY_LIMIT);
    assert!(h.entries().iter().all(|x| x.url != "old"));
    h.record(item("u10", "again", 100));
    assert_eq!(h.entries()[0].url, "u10");
    assert_eq!(h.entries().iter().filter(|x| x.url == "u10").count(), 1);
    assert_eq!(h.entries().len(), HISTORY_LIMIT);
}

#[test]
fn test_batch_operations() {
    let mut batch_history = Vec::new();
    for i in 0..60 {
        batch_history.push(HistoryItemRecord {
            url: format!("https://example.com/video/{}", i),
            title: format!("Video Title {}", i),
            time: 1000 + i,
        });
    }
    let mut list = HistoryList::new();
    for entry in import_history_batch(&batch_history, 2000) {
        list.record(entry);
    }
    assert_eq!(list.entries().len(), 50);
    assert_eq!(list.entries()[0].url, "https://example.com/video/59");
}
