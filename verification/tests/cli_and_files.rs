use ydl_gui::cli::{parse_cli_args, CliOpenRequest};
use ydl_gui::files::belongs_to_output;

fn args(list: &[&str]) -> Vec<String> {
    list.iter().map(|s| s.to_string()).collect()
}

#[test]
fn parses_automation_flags_in_both_supported_forms() {
    let parsed = parse_cli_args(args(&[
        "ydl-gui",
        "--url=https://example.com/video",
        "--cookies",
        "/tmp/cookies.txt",
        "--dir=/tmp/downloads",
        "--yt-dlp-path",
        "/opt/tools/yt-dlp",
        "--deno-path=/opt/tools/deno",
    ]));

    assert_eq!(
        parsed.request,
        CliOpenRequest {
            url: Some("https://example.com/video".to_string()),
            cookie_file: Some("/tmp/cookies.txt".to_string()),
            download_dir: Some("/tmp/downloads".to_string()),
        }
    );
    assert_eq!(parsed.ytdlp_path, Some("/opt/tools/yt-dlp".to_string()));
    assert_eq!(parsed.deno_path, Some("/opt/tools/deno".to_string()));
}

#[test]
fn accepts_a_positional_http_url() {
    let parsed = parse_cli_args(args(&["ydl-gui", "https://example.com/video"]));
    assert_eq!(parsed.request.url.as_deref(), Some("https://example.com/video"));
}

#[test]
fn empty_command_line_gives_an_empty_request() {
    let parsed = parse_cli_args(args(&["ydl-gui"]));
    assert!(parsed.request.is_empty());
    assert_eq!(parsed.ytdlp_path, None);
    assert_eq!(parsed.deno_path, None);
}

#[test]
fn matches_the_output_file_and_its_temp_suffixes() {
    assert!(belongs_to_output("video.mp4", "video.mp4"));
    assert!(belongs_to_output("video.mp4.part", "video.mp4"));
    assert!(belongs_to_output("video.mp4.ytdl", "video.mp4"));
}

#[test]
fn matches_yt_dlp_fragment_intermediates() {
    assert!(belongs_to_output("video.f137.mp4", "video.mp4"));
    assert!(belongs_to_output("video.f137.mp4.part", "video.mp4"));
    assert!(belongs_to_output("video.f140.m4a.part", "video.mp4"));
    assert!(belongs_to_output("video.f137", "video"));
}

#[test]
fn does_not_match_a_longer_name_sharing_the_same_prefix() {
    assert!(!belongs_to_output("My Video 2.f137.mp4.part", "My Video.mp4"));
    assert!(!belongs_to_output("My Video 2.mp4.part", "My Video.mp4"));
    assert!(!belongs_to_output("video-extra.mp4.part", "video.mp4"));
    assert!(!belongs_to_output("video.mkv", "video.mp4"));
    assert!(!belongs_to_output("video.", "video.mp4"));
    assert!(!belongs_to_output("videof137.mp4", "video.mp4"));
}

#[test]
fn residual_paths_of_an_output() {
    assert_eq!(
        ydl_gui::files::residual_paths(" /d/v.mp4 "),
        vec!["/d/v.mp4", "/d/v.mp4.part", "/d/v.mp4.ytdl"]
    );
    assert!(ydl_gui::files::residual_paths("  ").is_empty());
}

#[test]
fn plugin_entries_keep_their_folders() {
    assert_eq!(
        ydl_gui::files::plugin_entry_target("yt_dlp_plugins/extractor/x.py", false).as_deref(),
        Some("extractor/x.py")
    );
    assert_eq!(ydl_gui::files::plugin_entry_target("yt_dlp_plugins/", false), None);
    assert_eq!(ydl_gui::files::plugin_entry_target("yt_dlp_plugins/extractor/", true), None);
    assert_eq!(ydl_gui::files::plugin_entry_target("other/x.py", false), None);
}

#[test]
fn deep_links_are_picked_from_launch_arguments() {
    let a = args(&["ydl-gui", "ytdlp-gui://open?url=x", "--url=y", "ytdlp-gui://b"]);
    assert_eq!(ydl_gui::cli::deep_links(&a), vec!["ytdlp-gui://open?url=x", "ytdlp-gui://b"]);
    assert!(ydl_gui::cli::deep_links(&args(&["ydl-gui"])).is_empty());
}
