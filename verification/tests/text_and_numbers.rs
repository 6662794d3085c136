use ydl_gui::dates::{civil_days, iso_datetime_is_readable, parse_upload_date};
use ydl_gui::html::{html_capture, html_unescape};
use ydl_gui::keys::str_lt;
use ydl_gui::numbers::{i64_to_string, parse_hex_u32, parse_i32, parse_i64, parse_u32, parse_u64, push_decimal, u64_to_string};
use ydl_gui::records::integrity_ok;
use ydl_gui::text::{is_boundary_at, str_contains, str_ends_with, str_starts_with, trim_str, utf8_len};

fn cs(s: &str) -> Vec<char> {
    s.chars().collect()
}

#[test]
fn numbers_parse_like_std() {
    assert_eq!(parse_u64(&cs("+42")), Some(42));
    assert_eq!(parse_u64(&cs("18446744073709551615")), Some(u64::MAX));
    assert_eq!(parse_u64(&cs("18446744073709551616")), None);
    assert_eq!(parse_u64(&cs("")), None);
    assert_eq!(parse_u32(&cs("4294967296")), None);
    assert_eq!(parse_i64(&cs("-9223372036854775808")), Some(i64::MIN));
    assert_eq!(parse_i64(&cs("-")), None);
    assert_eq!(parse_i32(&cs("-2147483649")), None);
    assert_eq!(parse_hex_u32(&cs("1F600")), Some(0x1F600));
    assert_eq!(parse_hex_u32(&cs("g1")), None);
    assert_eq!(u64_to_string(0), "0");
    assert_eq!(i64_to_string(i64::MIN), "-9223372036854775808");
    let mut s = String::from("n=");
    push_decimal(&mut s, 907);
    assert_eq!(s, "n=907");
}

#[test]
fn calendar_days_and_dates() {
    assert_eq!(civil_days(1970, 1, 1), Some(0));
    assert_eq!(civil_days(2000, 3, 1), Some(11017));
    assert_eq!(civil_days(1900, 2, 29), None);
    assert_eq!(civil_days(2000, 2, 29), Some(11016));
    assert_eq!(civil_days(1969, 12, 31), Some(-1));
    assert_eq!(parse_upload_date("20240501"), Some(1714521600000));
    assert_eq!(parse_upload_date("2024050"), None);
    assert_eq!(parse_upload_date("20241301"), None);
    assert!(iso_datetime_is_readable("2024-05-01T00:00:00+08:00"));
}

#[test]
fn html_pieces() {
    assert_eq!(html_capture("<a content=\"x\">", "content=\"", '"').as_deref(), Some("x"));
    assert_eq!(html_capture("<a>", "content=\"", '"'), None);
    assert_eq!(html_unescape("&lt;b&gt; &#x1F600; &unknown; &"), "<b> \u{1F600} &unknown; &");
}

#[test]
fn html_unescape_keeps_a_bare_ampersand() {
    assert_eq!(html_unescape("Tom & Jerry &amp; Friends"), "Tom & Jerry & Friends");
    assert_eq!(html_unescape("a && b &lt;"), "a && b <");
    assert_eq!(html_unescape("&&amp;;"), "&&;");
}

#[test]
fn text_helpers() {
    assert_eq!(trim_str("\t a b \n"), "a b");
    assert!(str_contains("hello", "ell") && !str_contains("hello", "xyz"));
    assert!(str_starts_with("hello", "he") && str_ends_with("hello", "lo"));
    assert_eq!(utf8_len("aé中😀"), 10);
    assert!(is_boundary_at("aé", 1) && !is_boundary_at("aé", 2) && is_boundary_at("aé", 3));
    assert!(str_lt("abc", "abd") && str_lt("ab", "abc") && !str_lt("b", "abc"));
    assert!(integrity_ok("ok") && integrity_ok("Ok") && !integrity_ok("okay"));
}
