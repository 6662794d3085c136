use serde::Deserialize;
use ydl_gui::ytdlp::{json_candidates, json_text_of_stdout};

fn parse_json_from_stdout(stdout: &str) -> Option<serde_json::Value> {
    match json_text_of_stdout(stdout)? {
        (text, true) => serde_json::from_str::<serde_json::Value>(&text).ok(),
        (text, false) => {
            let mut de = serde_json::Deserializer::from_str(&text);
            serde_json::Value::deserialize(&mut de).ok()
        }
    }
}

#[test]
fn test_parse_json_single_line() {
    let stdout = r#"{"id": "abc123", "title": "Test Video"}"#;
    let parsed = parse_json_from_stdout(stdout).unwrap();
    assert_eq!(parsed["id"], "abc123");
    assert_eq!(parsed["title"], "Test Video");
}

#[test]
fn test_parse_json_multiline() {
    let stdout = r#"{
  "id": "multi123",
  "title": "Multiline Video",
  "formats": [
    {"format_id": "137", "height": 1080}
  ]
}"#;
    let parsed = parse_json_from_stdout(stdout).unwrap();
    assert_eq!(parsed["id"], "multi123");
    assert_eq!(parsed["formats"][0]["height"], 1080);
}

#[test]
fn test_parse_json_with_surrounding_warnings() {
    let stdout = r#"[youtube] Extracting URL: https://example.com/watch?v=123
WARNING: [youtube] Some warning occurred
{
  "id": "123",
  "title": "Warning Handled"
}
[download] Some trailing info
"#;
    let parsed = parse_json_from_stdout(stdout).unwrap();
    assert_eq!(parsed["id"], "123");
    assert_eq!(parsed["title"], "Warning Handled");
}

#[test]
fn test_parse_json_invalid() {
    let stdout = "ERROR: Video unavailable";
    assert!(parse_json_from_stdout(stdout).is_none());
}

#[test]
fn json_spans_are_cut_at_the_first_and_last_brace() {
    let (span, from_brace) = json_candidates("  log {\"a\":1} tail } end ");
    assert_eq!(span.as_deref(), Some("{\"a\":1} tail }"));
    assert_eq!(from_brace.as_deref(), Some("{\"a\":1} tail } end"));
    assert_eq!(json_candidates("no braces"), (None, None));
}

#[test]
fn json_text_choice_prefers_the_whole_span() {
    assert_eq!(
        json_text_of_stdout("log line\n{\"a\": 1}\n"),
        Some(("{\"a\": 1}".to_string(), true))
    );
    assert_eq!(
        json_text_of_stdout("x {\"a\": 1} tail } more"),
        Some(("{\"a\": 1} tail } more".to_string(), false))
    );
    assert_eq!(json_text_of_stdout("no json here"), None);
    assert_eq!(json_text_of_stdout("{ broken"), None);
}
