use ydl_gui::download::{
    cancel_delete_paths, download_args, download_end, format_selection, join_languages,
    parse_destination, DownloadEnd, DownloadParams, DownloadProcessInfo, DownloadState,
};

fn params() -> DownloadParams {
    DownloadParams {
        id: "t1".into(),
        url: "https://example.com/v".into(),
        download_dir: "/tmp".into(),
        download_mode: "both".into(),
        video_format: Some("137".into()),
        audio_format: None,
        cookie_file: Some("".into()),
        embed_subs: true,
        embed_thumbnail: false,
        embed_metadata: true,
        no_merge: false,
        recode_format: None,
        limit_rate: Some("1M".into()),
        subtitles: vec!["en".into(), "zh-Hans".into()],
        start_time: None,
        end_time: Some("90.5".into()),
        no_playlist: false,
        playlist_items: Some("1-3".into()),
    }
}

#[test]
fn format_selection_per_mode() {
    let v = Some("137".to_string());
    let a = Some("140".to_string());
    assert_eq!(format_selection("video", &v, &a).as_deref(), Some("137"));
    assert_eq!(format_selection("audio", &v, &a).as_deref(), Some("140"));
    assert_eq!(format_selection("both", &v, &a).as_deref(), Some("137+140"));
    assert_eq!(format_selection("both", &v, &None).as_deref(), Some("137+bestaudio"));
    assert_eq!(format_selection("both", &None, &a).as_deref(), Some("bestvideo+140"));
    assert_eq!(format_selection("both", &None, &None), None);
    assert_eq!(format_selection("video", &Some(String::new()), &a), None);
}

#[test]
fn languages_are_joined_by_commas() {
    assert_eq!(join_languages(&vec!["en".into(), "ja".into()]), "en,ja");
    assert_eq!(join_languages(&vec![]), "");
}

#[test]
fn download_args_in_documented_order() {
    let args = download_args(&params(), vec!["--js-runtimes".into(), "deno:/d".into()], "/tmp/%(title)s.%(ext)s");
    assert_eq!(
        args,
        vec![
            "--newline", "--js-runtimes", "deno:/d", "-f", "137+bestaudio", "-o",
            "/tmp/%(title)s.%(ext)s", "--windows-filenames", "--embed-subs", "--embed-metadata",
            "-r", "1M", "--write-subs", "--sub-langs", "en,zh-Hans", "--download-sections",
            "*0-90.5", "--playlist-items", "1-3", "https://example.com/v",
        ]
    );
    let mut p = params();
    p.no_playlist = true;
    p.end_time = None;
    p.subtitles = vec![];
    let args = download_args(&p, vec![], "o");
    assert!(args.contains(&"--no-playlist".to_string()));
    assert!(!args.contains(&"--playlist-items".to_string()));
    assert!(!args.contains(&"--download-sections".to_string()));
}

#[test]
fn destinations_are_read_from_output_lines() {
    assert_eq!(parse_destination("[download] Destination: /a/b.mp4 ").as_deref(), Some("/a/b.mp4"));
    assert_eq!(
        parse_destination("[download] /a/b.mp4 has already been downloaded").as_deref(),
        Some("/a/b.mp4")
    );
    assert_eq!(
        parse_destination("[Merger] Merging formats into \"/a/c.mkv\"").as_deref(),
        Some("/a/c.mkv")
    );
    assert_eq!(parse_destination("[download]  45.0% of 10MiB"), None);
}

#[test]
fn download_state_tracks_cancel_and_finish() {
    let mut s = DownloadState::new();
    assert_eq!(s.pid_of("t1"), Err("err_task_not_found".to_string()));
    s.start("t1", 42);
    s.add_output("t1", "/a/b.mp4");
    assert_eq!(s.pid_of("t1"), Ok(42));
    let (pid, files) = s.cancel("t1").unwrap();
    assert_eq!(pid, 42);
    assert_eq!(files, vec!["/a/b.mp4"]);
    let info = s.finish("t1").unwrap();
    assert!(info.cancelled);
    assert!(s.finish("t1").is_none());
    assert_eq!(s.cancel("t2").err(), Some("err_task_not_found".to_string()));
}

#[test]
fn download_end_announcements() {
    let written = DownloadProcessInfo { pid: 1, cancelled: false, output_files: vec!["a".into(), "b".into()] };
    assert!(matches!(download_end(false, Some(1), None, Some(&written)),
        DownloadEnd::Complete { output_file } if output_file == "b"));
    let empty = DownloadProcessInfo { pid: 1, cancelled: false, output_files: vec![] };
    assert!(matches!(download_end(false, Some(2), None, Some(&empty)),
        DownloadEnd::Failed { error } if error == "进程退出码: 2"));
    assert!(matches!(download_end(false, None, None, None),
        DownloadEnd::Failed { error } if error == "进程退出码: -1"));
    assert!(matches!(download_end(false, None, Some("wait failed".into()), None),
        DownloadEnd::Failed { error } if error == "wait failed"));
    let cancelled = DownloadProcessInfo { pid: 1, cancelled: true, output_files: vec![] };
    assert!(matches!(download_end(false, Some(9), None, Some(&cancelled)), DownloadEnd::Quiet));
    assert!(matches!(download_end(true, Some(0), None, None),
        DownloadEnd::Complete { output_file } if output_file.is_empty()));
}

#[test]
fn cancelled_files_are_removed_with_their_part_files() {
    assert_eq!(
        cancel_delete_paths(&vec!["/a.mp4".into(), "/b.m4a".into()]),
        vec!["/a.mp4", "/a.mp4.part", "/b.m4a", "/b.m4a.part"]
    );
}
