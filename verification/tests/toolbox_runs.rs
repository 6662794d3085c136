use ydl_gui::json::{Json, JsonNumber};
use ydl_gui::livechat::{
    extract_runs_text, is_chat_file, live_chat_args, live_chat_message, live_chat_result_path,
    live_chat_temp_dir_name,
};
use ydl_gui::toolbox::{
    aggregate_subtitle_maps, chapters_result, check_save_path, comment_json, comment_sort_value,
    comments_extractor_arg, comments_result, http_status_error, optional_string, result_total,
    subtitle_download_args, subtitles_result, tool_request, tool_run_args, tool_run_result,
    ToolKind, VideoComment,
};
use ydl_gui::ytdlp::{
    append_cookie_proxy_args, extract_ytdlp_error, folder_args, join_with, js_runtime_args,
    split_fields, system_search_dirs, text_lines, ytdlp_failure, ytdlp_json_args,
};
use ydl_gui::releases::Os;

fn to_json(v: &serde_json::Value) -> Json {
    match v {
        serde_json::Value::Null => Json::Null,
        serde_json::Value::Bool(b) => Json::Bool(*b),
        serde_json::Value::Number(n) => {
            let f = n.as_f64().unwrap_or(0.0);
            Json::Number(JsonNumber {
                text: n.to_string(),
                int: n.as_i64(),
                uint: n.as_u64(),
                truncated: f as i64,
                positive: f > 0.0,
            })
        }
        serde_json::Value::String(s) => Json::Str(s.clone()),
        serde_json::Value::Array(a) => Json::Array(a.iter().map(to_json).collect()),
        serde_json::Value::Object(o) => {
            Json::Object(o.iter().map(|(k, v)| (k.clone(), to_json(v))).collect())
        }
    }
}

fn parse(text: &str) -> Json {
    to_json(&serde_json::from_str::<serde_json::Value>(text).unwrap())
}

fn field<'a>(j: &'a Json, key: &str) -> &'a Json {
    j.get(key).unwrap()
}

fn text(j: &Json) -> &str {
    j.as_str().unwrap()
}

#[test]
fn chapters_keep_title_duration_and_chapters() {
    let r = chapters_result(parse(r#"{"title":"T","duration":60,"chapters":[{"title":"a"}],"x":1}"#));
    assert_eq!(text(field(&r, "title")), "T");
    assert_eq!(field(&r, "duration").as_i64(), Some(60));
    assert_eq!(field(&r, "chapters").as_array().unwrap().len(), 1);
    let r = chapters_result(parse(r#"{}"#));
    assert!(matches!(field(&r, "title"), Json::Null));
    assert_eq!(field(&r, "chapters").as_array().unwrap().len(), 0);
}

#[test]
fn a_comment_record_takes_defaults() {
    let c = VideoComment::from_entry(&parse(
        r#"{"id":"c1","text":"hi","like_count":3,"is_favorited":true,"timestamp":"x"}"#,
    ));
    assert_eq!(c.id, "c1");
    assert_eq!(c.parent, "root");
    assert_eq!(c.author, "");
    assert_eq!(c.author_id, "");
    assert_eq!(c.text, "hi");
    assert_eq!(c.timestamp, 0);
    assert_eq!(c.like_count, 3);
    assert!(c.is_favorited);
    assert!(!c.author_is_uploader);
    let d = VideoComment::from_entry(&parse(
        r#"{"parent":"c1","author":"A","author_id":"@a","timestamp":1700000000,"author_is_uploader":true}"#,
    ));
    assert_eq!(d.parent, "c1");
    assert_eq!(d.author, "A");
    assert_eq!(d.author_id, "@a");
    assert_eq!(d.timestamp, 1700000000);
    assert_eq!(d.like_count, 0);
    assert!(d.author_is_uploader);
}

#[test]
fn comments_are_shaped_with_defaults() {
    assert_eq!(comment_sort_value("top"), "top");
    assert_eq!(comment_sort_value("oldest"), "new");
    assert_eq!(comments_extractor_arg(50, "top"), "youtube:max_comments=50;comment_sort=top");
    let c = comment_json(&parse(r#"{"id":"c1","text":"hi","like_count":3,"is_favorited":true}"#));
    assert_eq!(text(field(&c, "id")), "c1");
    assert_eq!(text(field(&c, "parent")), "root");
    assert_eq!(text(field(&c, "author")), "");
    assert_eq!(field(&c, "like_count").as_i64(), Some(3));
    assert_eq!(field(&c, "timestamp").as_i64(), Some(0));
    assert!(matches!(field(&c, "is_favorited"), Json::Bool(true)));
    assert!(matches!(field(&c, "author_is_uploader"), Json::Bool(false)));
    let r = comments_result(parse(r#"{"title":"T","comment_count":2,"comments":[{"id":"a"},{"id":"b","parent":"a"}]}"#));
    let list = field(&r, "comments").as_array().unwrap();
    assert_eq!(list.len(), 2);
    assert_eq!(text(field(&list[1], "parent")), "a");
    assert_eq!(result_total("comments", &r), 2);
}

#[test]
fn subtitles_of_videos_and_playlists() {
    let r = subtitles_result(parse(r#"{"title":"T","subtitles":{"en":[1]}}"#));
    assert!(field(&r, "subtitles").get("en").is_some());
    assert!(matches!(field(&r, "automatic_captions"), Json::Object(f) if f.is_empty()));
    let p = parse(
        r#"{"_type":"playlist","entries":[{"subtitles":{"en":[1]}},{"subtitles":{"ja":[1],"en":[2]},"automatic_captions":{"fr":[1]}}]}"#,
    );
    let r = subtitles_result(p);
    let subs = field(&r, "subtitles");
    assert!(subs.get("en").is_some() && subs.get("ja").is_some());
    assert!(field(&r, "automatic_captions").get("fr").is_some());
    let (a, b) = aggregate_subtitle_maps(vec![
        parse(r#"{"subtitles":{"de":[],"it":[1]}}"#),
        parse(r#"{"subtitles":{"de":[2]}}"#),
    ]);
    assert!(matches!(a, Json::Object(f) if f.len() == 2 && f[0].0 == "it" && f[1].0 == "de"));
    assert!(matches!(b, Json::Object(f) if f.is_empty()));
}

#[test]
fn tool_requests_read_their_parameters() {
    let params = parse(r#"{"cookieFile":"c.txt","maxComments":20,"sort":"new"}"#);
    let q = tool_request("comments", &params).unwrap();
    assert_eq!(q.cookie_file.as_deref(), Some("c.txt"));
    assert!(matches!(q.kind, ToolKind::Comments { max_comments: 20, ref sort } if sort == "new"));
    let q = tool_request("comments", &parse("{}")).unwrap();
    assert!(matches!(q.kind, ToolKind::Comments { max_comments: 100, ref sort } if sort == "top"));
    assert!(matches!(tool_request("chapters", &parse("{}")).unwrap().kind, ToolKind::Chapters));
    assert_eq!(tool_request("translate", &params).err(), Some("err_unknown_tool".to_string()));
    assert_eq!(optional_string(&params, "proxy"), None);
}

#[test]
fn tool_runs_and_saves() {
    let args = tool_run_args(
        &vec!["--js-runtimes".into(), "deno:/d".into()],
        "/tmp/%(id)s",
        &vec!["--write-thumbnail".into()],
        Some("c.txt"),
        None,
        Some(""),
        "https://v",
    );
    assert_eq!(
        args,
        vec![
            "--skip-download", "--ignore-config", "--color", "never", "--windows-filenames",
            "--no-warnings", "--socket-timeout", "15", "--retries", "3", "--js-runtimes",
            "deno:/d", "-o", "/tmp/%(id)s", "--write-thumbnail", "--cookies", "c.txt", "https://v",
        ]
    );
    assert_eq!(tool_run_result(true, "out".into(), "x"), Ok("out".to_string()));
    assert_eq!(
        tool_run_result(false, "out".into(), "WARNING: w\nERROR: a\nERROR: b\n"),
        Err("ERROR: a\nERROR: b".to_string())
    );
    assert_eq!(subtitle_download_args("en,ja", true), vec!["--write-subs", "--sub-langs", "en,ja", "--write-auto-subs"]);
    assert_eq!(check_save_path("/a/../b"), Err("err_path_traversal".to_string()));
    assert!(check_save_path("/a/b.txt").is_ok());
    assert_eq!(http_status_error("err_download:", "404 Not Found"), "err_download:HTTP 404 Not Found");
}

#[test]
fn chat_lines_become_messages() {
    let line = parse(
        r#"{"replayChatItemAction":{"actions":[{"addChatItemAction":{"item":{"liveChatPaidMessageRenderer":{
            "authorName":{"simpleText":"Ann"},"authorExternalChannelId":"UCa","timestampUsec":"1700000000000000",
            "timestampText":{"simpleText":"1:02"},"message":{"runs":[{"text":"hello "},{"emoji":{}},{"text":"world"}]},
            "purchaseAmountText":{"simpleText":"$5.00"}}}}}]}}"#,
    );
    let m = live_chat_message(&line).unwrap();
    assert_eq!((m.author.as_str(), m.channel_id.as_str(), m.time.as_str()), ("Ann", "UCa", "1:02"));
    assert_eq!(m.timestamp_usec, 1700000000000000);
    assert_eq!(m.message, "hello world");
    assert_eq!((m.msg_type.as_str(), m.amount.as_str()), ("paid", "$5.00"));
    let join = parse(
        r#"{"replayChatItemAction":{"actions":[{"addChatItemAction":{"item":{"liveChatMembershipItemRenderer":{
            "headerSubtext":{"runs":[{"text":"Welcome"}]}}}}}]}}"#,
    );
    let m = live_chat_message(&join).unwrap();
    assert_eq!((m.msg_type.as_str(), m.message.as_str(), m.timestamp_usec), ("membership", "Welcome", 0));
    assert!(live_chat_message(&parse(r#"{"replayChatItemAction":{"actions":[]}}"#)).is_none());
    assert!(live_chat_message(&parse("{}")).is_none());
    assert_eq!(extract_runs_text(Some(&parse(r#"[{"emoji":1}]"#))), None);
}

#[test]
fn chat_files_and_arguments() {
    assert!(is_chat_file("abc.live_chat.json"));
    assert!(!is_chat_file("abc.live_chat.json.part"));
    assert_eq!(live_chat_result_path("livechat_1_2"), "tool-results/livechat/livechat_1_2.jsonl");
    assert_eq!(live_chat_temp_dir_name(123), "ytdlp-livechat-123");
    let a = live_chat_args("/t/%(id)s", &vec![], None, Some("firefox"), Some("http://p"), "https://v");
    assert_eq!(&a[9..], &["--write-subs", "--sub-langs", "live_chat", "-o", "/t/%(id)s", "--cookies-from-browser", "firefox", "--proxy", "http://p", "https://v"]);
}

#[test]
fn ytdlp_errors_and_arguments() {
    assert_eq!(extract_ytdlp_error("  just failed \n"), "just failed");
    assert_eq!(extract_ytdlp_error("a\r\nERROR: x\r\nb"), "ERROR: x");
    assert_eq!(ytdlp_failure("", "ERROR: gone"), "ERROR: gone");
    assert_eq!(text_lines("a\r\nb\n\nc"), vec!["a", "b", "", "c"]);
    assert_eq!(join_with(&vec!["a".into(), "b".into()], ", "), "a, b");
    assert_eq!(split_fields("a\tb\t", '\t'), vec!["a", "b", ""]);
    let mut args = vec!["-J".to_string()];
    append_cookie_proxy_args(&mut args, Some(""), Some("chrome"), None);
    assert_eq!(args, vec!["-J", "--cookies-from-browser", "chrome"]);
    assert_eq!(js_runtime_args(None, Some("/m/deno")), vec!["--js-runtimes", "deno:/m/deno"]);
    assert!(js_runtime_args(None, None).is_empty());
    assert_eq!(folder_args("--plugin-dirs", Some("/p")), vec!["--plugin-dirs", "/p"]);
    let j = ytdlp_json_args(&vec!["--flat-playlist".into()], &vec![], None, None, Some("socks5://x"), "https://v");
    assert_eq!(j[0], "-J");
    assert_eq!(&j[11..], &["--flat-playlist", "--proxy", "socks5://x", "https://v"]);
    assert!(!system_search_dirs(Os::Linux).is_empty());
    assert!(system_search_dirs(Os::Windows).is_empty());
}
