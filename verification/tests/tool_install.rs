use ydl_gui::install::deno_entry_matches;
use ydl_gui::install::{
    append_log_line, build_tool_status, deno_archive_name, deno_update_result,
    executable_name, executable_temp_name, first_output_line, is_deno_entry, split_file_name,
    update_route, verify_outcome, with_ffprobe, ytdlp_update_result, DownloadCounter,
};
use ydl_gui::releases::Os;
use ydl_gui::source::{set_cli_tool_path, set_tool_sources, ToolSettings};

#[test]
fn temp_names_keep_the_extension_last() {
    assert_eq!(executable_temp_name("yt-dlp.exe", "tmp"), "yt-dlp.tmp.exe");
    assert_eq!(executable_temp_name("yt-dlp", "tmp"), "yt-dlp.tmp");
    assert_eq!(executable_temp_name(".hidden", "tmp"), ".hidden.tmp");
    assert_eq!(split_file_name("a.tar.gz"), ("a.tar".to_string(), Some("gz".to_string())));
    assert_eq!(split_file_name(".."), ("..".to_string(), None));
    assert_eq!(deno_archive_name("deno"), "deno.download.zip");
    assert_eq!(executable_name("ffmpeg", Os::Windows), "ffmpeg.exe");
    assert_eq!(executable_name("ffmpeg", Os::Linux), "ffmpeg");
}

#[test]
fn deno_entry_is_found_in_any_case() {
    assert!(is_deno_entry("DENO.EXE", "deno.exe"));
    assert!(is_deno_entry("bin/Deno", "deno"));
    assert!(!is_deno_entry("bin/denoland", "deno"));
}

#[test]
fn download_counter_reports_short_downloads() {
    let mut c = DownloadCounter::new(10);
    c.add(4);
    assert_eq!(
        c.check_complete(),
        Err("err_download_incomplete:expected=10,actual=4".to_string())
    );
    c.add(6);
    assert!(c.check_complete().is_ok());
    assert!(DownloadCounter::new(0).check_complete().is_ok());
}

#[test]
fn executable_check_outcomes() {
    assert!(verify_outcome(true, false, "", Some(0)).is_ok());
    assert_eq!(verify_outcome(true, true, "  boom \n", Some(0)), Err("boom".to_string()));
    assert_eq!(verify_outcome(false, false, " ", Some(3)), Err("exit_code:3".to_string()));
    assert_eq!(verify_outcome(false, false, "", None), Err("exit_code:-1".to_string()));
    assert_eq!(first_output_line("", " v1.2 \nmore"), "v1.2");
    assert_eq!(first_output_line("ffmpeg version 6\n", "x"), "ffmpeg version 6");
}

#[test]
fn tool_status_of_managed_and_system_tools() {
    let s = ToolSettings::new();
    let st = build_tool_status(
        &s,
        "ffmpeg",
        "/usr/bin/ffmpeg",
        true,
        false,
        Some((true, "ffmpeg version 6.1 Copyright".to_string())),
    )
    .unwrap();
    assert!(st.installed && st.runnable);
    assert_eq!(st.version, "6.1");
    assert_eq!(st.source, "system");
    assert!(!st.can_update);
    let st = with_ffprobe(st, false);
    assert!(!st.installed && !st.runnable);

    let st = build_tool_status(&s, "yt-dlp", "/m/yt-dlp", false, true, None).unwrap();
    assert!(!st.installed && st.is_managed && !st.can_update);
    assert_eq!(st.version, "");

    let mut c = ToolSettings::new();
    set_cli_tool_path(&mut c, "deno", "/opt/deno").unwrap();
    let st = build_tool_status(&c, "deno", "/opt/deno", true, false, Some((true, "deno 2.0".into()))).unwrap();
    assert_eq!(st.source, "custom");
    assert_eq!(st.version, "2.0");
    assert!(!st.can_update);
    assert!(build_tool_status(&c, "aria2", "/x", false, false, None).is_err());
}

#[test]
fn update_routes_per_source() {
    let mut s = ToolSettings::new();
    assert_eq!(update_route(&s, "yt-dlp"), Ok(true));
    assert_eq!(
        update_route(&s, "ffmpeg"),
        Err("err_system_ffmpeg_update_managed_externally".to_string())
    );
    set_tool_sources(&mut s, "system", "managed", "managed").unwrap();
    assert_eq!(update_route(&s, "yt-dlp"), Ok(false));
    assert_eq!(update_route(&s, "nope"), Err("err_unknown_tool:nope".to_string()));
}

#[test]
fn update_logs_and_results() {
    let mut log = String::from("a\n");
    append_log_line(&mut log, "b");
    assert_eq!(log, "a\nb\n");
    assert_eq!(ytdlp_update_result(true, " updated ", "warn "), Ok("updated \nwarn".to_string()));
    assert_eq!(ytdlp_update_result(false, "x", " denied "), Err("err_update_failed:denied".to_string()));
    assert_eq!(deno_update_result(true, " ok \n", ""), Ok("ok".to_string()));
    assert_eq!(deno_update_result(false, "", " no "), Err("err_update_deno:no".to_string()));
}

#[test]
fn deno_entry_rule_on_lowered_names() {
    assert!(deno_entry_matches("deno", "deno"));
    assert!(deno_entry_matches("x/deno", "deno"));
    assert!(!deno_entry_matches("xdeno", "deno"));
}
