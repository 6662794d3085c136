use std::cmp::Ordering;
use ydl_gui::releases::{
    get_deno_download_url, get_ffmpeg_download_urls, get_platform, get_tool_latest_release_url,
    get_ytdlp_download_url, get_ytdlp_download_url_for_channel, get_ytdlp_latest_release_url,
    latest_tag_from_segments, ytdlp_asset_name, Arch, Os, Platform,
};
use ydl_gui::source::{
    build_youtube_extractor_args, get_cli_tool_path, get_tool_source, get_ytdlp_channel,
    set_cli_tool_path, set_tool_sources, set_youtube_extractor_args, set_ytdlp_channel,
    ToolSettings, ToolSource, YtdlpChannel,
};
use ydl_gui::versions::{
    check_update_allowed, compare_versions, evaluate_tool_update, parse_version, version_parts,
};

#[test]
fn tool_source_names_read_back() {
    for s in [ToolSource::Managed, ToolSource::System] {
        assert_eq!(ToolSource::parse(s.as_str()), Ok(s));
    }
    for c in [YtdlpChannel::Stable, YtdlpChannel::Nightly, YtdlpChannel::Master] {
        assert_eq!(YtdlpChannel::parse(c.as_str()), Ok(c));
    }
    assert_eq!(ToolSource::parse("bundled"), Err("err_invalid_tool_source:bundled".to_string()));
    assert_eq!(YtdlpChannel::parse("beta"), Err("err_invalid_ytdlp_channel:beta".to_string()));
}

#[test]
fn default_settings_and_source_updates() {
    let mut s = ToolSettings::new();
    assert_eq!(get_tool_source(&s, "yt-dlp"), Ok(ToolSource::Managed));
    assert_eq!(get_tool_source(&s, "deno"), Ok(ToolSource::Managed));
    assert_eq!(get_tool_source(&s, "ffmpeg"), Ok(ToolSource::System));
    assert_eq!(get_tool_source(&s, "aria2"), Err("err_unknown_tool:aria2".to_string()));

    assert!(set_tool_sources(&mut s, "system", "system", "managed").is_ok());
    assert_eq!(get_tool_source(&s, "yt-dlp"), Ok(ToolSource::System));
    assert_eq!(get_tool_source(&s, "ffmpeg"), Ok(ToolSource::Managed));

    assert_eq!(
        set_tool_sources(&mut s, "managed", "oops", "managed"),
        Err("err_invalid_tool_source:oops".to_string())
    );
    assert_eq!(get_tool_source(&s, "yt-dlp"), Ok(ToolSource::System));
}

#[test]
fn command_line_paths_are_kept_per_tool() {
    let mut s = ToolSettings::new();
    assert!(set_cli_tool_path(&mut s, "yt-dlp", "/opt/yt-dlp").is_ok());
    assert_eq!(get_cli_tool_path(&s, "yt-dlp").as_deref(), Some("/opt/yt-dlp"));
    assert_eq!(get_cli_tool_path(&s, "deno"), None);
    assert_eq!(
        set_cli_tool_path(&mut s, "ffmpeg", "/x"),
        Err("err_unknown_tool:ffmpeg".to_string())
    );
}

#[test]
fn youtube_extractor_args_follow_the_tokens() {
    let mut s = ToolSettings::new();
    assert!(build_youtube_extractor_args(&s).is_empty());
    set_youtube_extractor_args(&mut s, " TOKEN ", "");
    assert_eq!(
        build_youtube_extractor_args(&s),
        vec!["--extractor-args", "youtube:player_client=mweb;po_token=mweb.gvs+TOKEN"]
    );
    set_youtube_extractor_args(&mut s, "", "VD");
    assert_eq!(build_youtube_extractor_args(&s), vec!["--extractor-args", "youtube:visitor_data=VD"]);
}

#[test]
fn release_channel_is_selected_by_trimmed_name() {
    let mut s = ToolSettings::new();
    assert_eq!(get_ytdlp_channel(&s), YtdlpChannel::Stable);
    assert!(set_ytdlp_channel(&mut s, " nightly ").is_ok());
    assert_eq!(get_ytdlp_channel(&s), YtdlpChannel::Nightly);
    assert_eq!(set_ytdlp_channel(&mut s, " weekly "), Err("err_invalid_ytdlp_channel:weekly".to_string()));
    assert_eq!(get_ytdlp_channel(&s), YtdlpChannel::Nightly);
}

#[test]
fn release_addresses_per_channel_and_platform() {
    assert_eq!(get_platform(Os::Macos), "macos");
    assert_eq!(ytdlp_asset_name(Os::Windows), "yt-dlp.exe");
    assert_eq!(
        get_ytdlp_latest_release_url(YtdlpChannel::Nightly),
        "https://github.com/yt-dlp/yt-dlp-nightly-builds/releases/latest"
    );
    assert_eq!(
        get_ytdlp_download_url(YtdlpChannel::Master, Os::Linux),
        "https://github.com/yt-dlp/yt-dlp-master-builds/releases/latest/download/yt-dlp_linux"
    );
    assert_eq!(
        get_ytdlp_download_url_for_channel(" stable ", Os::Macos),
        Ok("https://github.com/yt-dlp/yt-dlp/releases/latest/download/yt-dlp_macos".to_string())
    );
    assert_eq!(
        get_ytdlp_download_url_for_channel("x", Os::Macos),
        Err("err_invalid_ytdlp_channel:x".to_string())
    );
    assert_eq!(
        get_tool_latest_release_url("deno", YtdlpChannel::Stable).as_deref(),
        Some("https://github.com/denoland/deno/releases/latest")
    );
    assert_eq!(get_tool_latest_release_url("aria2", YtdlpChannel::Stable), None);
    assert_eq!(
        get_deno_download_url(Platform { os: Os::Windows, arch: Arch::Aarch64 }),
        "https://github.com/denoland/deno/releases/latest/download/deno-aarch64-pc-windows-msvc.zip"
    );
    let ff = get_ffmpeg_download_urls(Platform { os: Os::Linux, arch: Arch::Arm });
    assert_eq!(ff[0], ("ffmpeg", "https://github.com/eugeneware/ffmpeg-static/releases/latest/download/ffmpeg-linux-arm"));
    assert_eq!(ff[1].0, "ffprobe");
    let ff = get_ffmpeg_download_urls(Platform { os: Os::Windows, arch: Arch::X86_64 });
    assert_eq!(ff[1].1, "https://github.com/eugeneware/ffmpeg-static/releases/latest/download/ffprobe-win32-x64");
}

#[test]
fn latest_tag_is_read_after_the_tag_segment() {
    let seg = |v: &[&str]| v.iter().map(|s| s.to_string()).collect::<Vec<_>>();
    assert_eq!(
        latest_tag_from_segments(&seg(&["yt-dlp", "yt-dlp", "releases", "tag", "2025.01.15"])),
        Ok("2025.01.15".to_string())
    );
    assert_eq!(
        latest_tag_from_segments(&seg(&["releases", "tag", ""])),
        Err("err_latest_release_version".to_string())
    );
    assert_eq!(
        latest_tag_from_segments(&seg(&["releases", "latest"])),
        Err("err_latest_release_version".to_string())
    );
}

#[test]
fn update_check_compares_tag_with_installed_version() {
    let c = evaluate_tool_update("yt-dlp 2025.01.01", "2025.02.01").unwrap();
    assert!(c.update_available);
    assert_eq!((c.current_version.as_str(), c.latest_version.as_str()), ("2025.01.01", "2025.02.01"));
    assert!(!evaluate_tool_update("v2.1.4", "v2.1.4").unwrap().update_available);
    assert_eq!(
        evaluate_tool_update("unknown", "v1").err(),
        Some("err_invalid_tool_version:unknown".to_string())
    );
    assert_eq!(check_update_allowed("ffmpeg", false, true), Err("err_tool_not_installed:ffmpeg".to_string()));
    assert_eq!(
        check_update_allowed("ffmpeg", true, false),
        Err("err_tool_update_not_supported:ffmpeg".to_string())
    );
    assert!(check_update_allowed("yt-dlp", true, true).is_ok());
}

#[test]
fn version_parts_and_reported_versions() {
    assert_eq!(version_parts("v1.20.3"), Ok(vec![1, 20, 3]));
    assert_eq!(
        version_parts("99999999999999999999.1"),
        Err("err_invalid_tool_version:99999999999999999999.1:number too large to fit in target type".to_string())
    );
    assert_eq!(parse_version("ffmpeg", "ffmpeg version 6.1.1-static https://x"), "6.1.1-static");
    assert_eq!(parse_version("deno", "deno 2.1.4 (stable)"), "2.1.4 (stable)");
    assert_eq!(parse_version("yt-dlp", "2025.01.01"), "2025.01.01");
    assert_eq!(compare_versions("1", "1.0.1"), Ok(Ordering::Less));
}
