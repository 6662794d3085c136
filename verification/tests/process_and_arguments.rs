use ydl_gui::arguments::split_command_line_args;
use ydl_gui::process::ProcessRegistry;
use ydl_gui::ytdlp::normalize_netscape_cookie_file;

#[test]
fn test_registry_take_is_single_use() {
    let mut registry = ProcessRegistry::new();
    registry.register("chapters_run_1", 4242);
    assert_eq!(registry.take("chapters_run_1"), Some(4242));
    assert_eq!(registry.take("chapters_run_1"), None);
}

#[test]
fn test_registry_keeps_runs_isolated() {
    let mut registry = ProcessRegistry::new();
    registry.register("chapters_run_1", 100);
    registry.register("comments_run_1", 200);
    assert_eq!(registry.take("comments_run_1"), Some(200));
    assert_eq!(registry.take("chapters_run_1"), Some(100));
    assert_eq!(registry.take("livechat_run_1"), None);
}

#[test]
fn test_registry_drain_returns_all_and_clears() {
    let mut registry = ProcessRegistry::new();
    registry.register("chapters_run_1", 100);
    registry.register("livechat_run_1", 200);

    let mut drained = registry.drain();
    drained.sort_unstable();
    assert_eq!(drained, vec![100, 200]);
    assert!(registry.drain().is_empty());
}

#[test]
fn registering_a_run_again_replaces_its_pid() {
    let mut registry = ProcessRegistry::new();
    registry.register("chapters_run_1", 1);
    registry.register("chapters_run_1", 2);
    assert_eq!(registry.drain(), vec![2]);
}

#[test]
fn test_split_command_line_args() {
    let input = r#"--sleep-requests 2 --sleep-interval 10 --user-agent "Mozilla/5.0 (Windows NT 10.0)""#;
    let args = split_command_line_args(input);
    assert_eq!(
        args,
        vec![
            "--sleep-requests",
            "2",
            "--sleep-interval",
            "10",
            "--user-agent",
            "Mozilla/5.0 (Windows NT 10.0)"
        ]
    );
}

#[test]
fn split_keeps_single_quoted_text_and_skips_blank_input() {
    assert_eq!(split_command_line_args("-o 'a b' c"), vec!["-o", "a b", "c"]);
    assert!(split_command_line_args("   ").is_empty());
}

#[test]
fn validates_and_normalizes_cookie_file() {
    let input = "# Netscape HTTP Cookie File\r\n.example.com\tTRUE\t/\tTRUE\t0\tsid\tvalue\r\n";
    let normalized = normalize_netscape_cookie_file(input).unwrap();
    assert_eq!(
        normalized,
        "# Netscape HTTP Cookie File\n.example.com\tTRUE\t/\tTRUE\t0\tsid\tvalue\n"
    );
}

#[test]
fn rejects_incomplete_cookie_rows() {
    let input = "# Netscape HTTP Cookie File\n.example.com\tTRUE\t/\tTRUE\t0\tsid";
    assert!(normalize_netscape_cookie_file(input).is_err());
}

#[test]
fn unquoted_arguments_split_like_split_whitespace() {
    let input = "  --proxy  http://h:1\t-o C:\\out\\%(title)s  ";
    let expected: Vec<String> = input.split_whitespace().map(String::from).collect();
    assert_eq!(split_command_line_args(input), expected);
    assert_eq!(split_command_line_args(" \n "), Vec::<String>::new());
}
