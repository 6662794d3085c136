use ydl_gui::dates::parse_yt_date_ymd;
use ydl_gui::enrich::{bili_is_readable, parse_bilibili_view, parse_youtube_watch, watch_is_readable};
use ydl_gui::json::{Json, JsonNumber};

fn to_json(v: &serde_json::Value) -> Json {
    match v {
        serde_json::Value::Null => Json::Null,
        serde_json::Value::Bool(b) => Json::Bool(*b),
        serde_json::Value::Number(n) => {
            let f = n.as_f64().unwrap_or(0.0);
            Json::Number(JsonNumber {
                text: n.to_string(),
                int: n.as_i64(),
                uint: n.as_u64(),
                truncated: f as i64,
                positive: f > 0.0,
            })
        }
        serde_json::Value::String(s) => Json::Str(s.clone()),
        serde_json::Value::Array(a) => Json::Array(a.iter().map(to_json).collect()),
        serde_json::Value::Object(o) => {
            Json::Object(o.iter().map(|(k, v)| (k.clone(), to_json(v))).collect())
        }
    }
}

fn parse(text: &str) -> Json {
    to_json(&serde_json::from_str::<serde_json::Value>(text).unwrap())
}

const WATCH_OK: &str = r#"<!DOCTYPE html><html><head><meta name="title" content="Rick &amp; Roll"><meta itemprop="datePublished" content="2009-10-24T23:57:33-07:00"><meta itemprop="uploadDate" content="2009-10-24T23:57:33-07:00"></head><body><script>var ytInitialPlayerResponse = {"videoDetails":{"videoId":"dQw4w9WgXcQ","title":"x","lengthSeconds":"213","viewCount":"1817620462"},"microformat":{"playerMicroformatRenderer":{"uploadDate":"2009-10-25"}}};</script></body></html>"#;

fn watch(row: &str, html: &str) -> Result<ydl_gui::archive::EnrichUpdate, String> {
    assert!(watch_is_readable(html));
    parse_youtube_watch(row, html)
}

#[test]
fn test_parse_youtube_watch_ok() {
    let update = watch("row1", WATCH_OK).unwrap();
    assert_eq!(update.id, "row1");
    assert_eq!(update.published_at % 86400000, (6 * 3600 + 57 * 60 + 33) * 1000);
    assert_eq!(update.title, "Rick & Roll");
    assert_eq!(update.thumbnail, "");
    assert_eq!(
        update.duration.as_deref().map(|d| d.parse::<f64>().unwrap()),
        Some(213.0)
    );
    assert_eq!(update.view_count, Some(1817620462));
}

#[test]
fn test_parse_youtube_watch_json_date_fallback() {
    let html = r#"<html><head></head><body><script>var ytInitialPlayerResponse = {"microformat":{"playerMicroformatRenderer":{"uploadDate":"2024-05-01"}}};</script></body></html>"#;
    let update = watch("row1", html).unwrap();
    assert_eq!(update.published_at, parse_yt_date_ymd("2024-05-01").unwrap());
}

#[test]
fn test_parse_youtube_watch_private_is_permanent() {
    let html = r#"<html><body>{"playabilityStatus":{"status":"PRIVATE","reason":"Private video"}}This video is private</body></html>"#;
    let err = watch("row1", html).unwrap_err();
    assert_eq!(err, "permanent:PRIVATE");
}

#[test]
fn test_parse_youtube_watch_age_gate_is_transient_login() {
    let html = r#"<html><body>{"playabilityStatus":{"status":"LOGIN_REQUIRED"}}Sign in to confirm your age</body></html>"#;
    let err = watch("row1", html).unwrap_err();
    assert!(err.starts_with("transient:LOGIN_REQUIRED"));
}

#[test]
fn test_parse_youtube_watch_bot_check_is_transient() {
    let html = r#"<html><body>Sign in to confirm you are not a bot</body></html>"#;
    let err = watch("row1", html).unwrap_err();
    assert_eq!(err, "transient:bot_check");
}

#[test]
fn test_parse_youtube_watch_missing_date_is_transient() {
    let html = r#"<html><head><meta name="title" content="x"></head><body>var ytInitialPlayerResponse = {};</body></html>"#;
    let err = watch("row1", html).unwrap_err();
    assert_eq!(err, "transient:no_upload_date");
}

#[test]
fn test_parse_bilibili_view_ok() {
    let resp = parse(
        r#"{"code": 0, "message": "0", "data": {"title": "稿件", "pic": "http://pic",
            "pubdate": 1580377255, "duration": 486, "stat": {"view": 1419319}}}"#,
    );
    assert!(bili_is_readable(&resp));
    let update = parse_bilibili_view("row1", &resp).unwrap();
    assert_eq!(update.id, "row1");
    assert_eq!(update.published_at, 1580377255 * 1000);
    assert_eq!(update.title, "稿件");
    assert_eq!(update.thumbnail, "http://pic");
    assert_eq!(
        update.duration.as_deref().map(|d| d.parse::<f64>().unwrap()),
        Some(486.0)
    );
    assert_eq!(update.view_count, Some(1419319));
}

#[test]
fn test_parse_bilibili_deleted_is_permanent() {
    let resp = parse(r#"{"code": 62002, "message": "稿件不可见", "data": {}}"#);
    assert!(bili_is_readable(&resp));
    let err = parse_bilibili_view("row1", &resp).unwrap_err();
    assert!(err.starts_with("permanent:"));
}

#[test]
fn bilibili_answer_without_pubdate_is_transient() {
    let resp = parse(r#"{"code": 0, "data": {"title": "x"}}"#);
    let err = parse_bilibili_view("row1", &resp).unwrap_err();
    assert_eq!(err, "transient:bili:no_pubdate");
}

#[test]
fn bilibili_rate_limit_is_transient_with_code_and_message() {
    let resp = parse(r#"{"code": -412, "message": "请求被拦截", "data": null}"#);
    let err = parse_bilibili_view("row1", &resp).unwrap_err();
    assert_eq!(err, "transient:bili:-412:请求被拦截");
}
