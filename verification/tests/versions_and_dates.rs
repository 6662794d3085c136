use std::cmp::Ordering;
use ydl_gui::dates::{parse_iso_datetime, parse_yt_date_ymd};
use ydl_gui::html::{bili_query_param, html_unescape};
use ydl_gui::versions::{compare_versions, version_token};

#[test]
fn extracts_versions_from_all_supported_formats() {
    assert_eq!(version_token("2026.07.04").as_deref(), Some("2026.07.04"));
    assert_eq!(version_token("v2.9.5").as_deref(), Some("2.9.5"));
    assert_eq!(version_token("b6.1.1").as_deref(), Some("6.1.1"));
    assert_eq!(
        version_token("2.9.5 (stable, release, x86_64-pc-windows-msvc)").as_deref(),
        Some("2.9.5")
    );
    assert_eq!(
        version_token("8.0.1-essentials_build-www.gyan.dev").as_deref(),
        Some("8.0.1")
    );
}

#[test]
fn compares_numeric_version_segments() {
    assert_eq!(compare_versions("2026.07.04", "2026.03.17"), Ok(Ordering::Greater));
    assert_eq!(compare_versions("v2.9.5", "2.9.5"), Ok(Ordering::Equal));
    assert_eq!(compare_versions("b6.1.1", "6.0"), Ok(Ordering::Greater));
    assert_eq!(compare_versions("6.1.1", "8.0.1"), Ok(Ordering::Less));
}

#[test]
fn version_comparison_is_antisymmetric_and_reflexive() {
    assert_eq!(compare_versions("1.2", "1.10"), Ok(Ordering::Less));
    assert_eq!(compare_versions("1.10", "1.2"), Ok(Ordering::Greater));
    assert_eq!(compare_versions("3.0.0", "3"), Ok(Ordering::Equal));
    assert_eq!(compare_versions("2024.1.1", "2024.1.1"), Ok(Ordering::Equal));
}

#[test]
fn version_comparison_is_transitive_on_a_chain() {
    assert_eq!(compare_versions("1.0", "1.1"), Ok(Ordering::Less));
    assert_eq!(compare_versions("1.1", "2.0"), Ok(Ordering::Less));
    assert_eq!(compare_versions("1.0", "2.0"), Ok(Ordering::Less));
}

#[test]
fn version_without_digits_is_an_error() {
    assert!(version_token("nightly").is_none());
    assert!(compare_versions("nightly", "1.0").is_err());
}

#[test]
fn test_parse_yt_date_ymd() {
    assert_eq!(parse_yt_date_ymd("2024-05-01"), Some(1714521600000));
    assert_eq!(parse_yt_date_ymd("1970-01-01"), Some(0));
    assert!(parse_yt_date_ymd("2024-13-01").is_none());
    assert!(parse_yt_date_ymd("20240501").is_none());
    assert!(parse_yt_date_ymd("").is_none());
}

#[test]
fn test_parse_iso_datetime() {
    let ts = parse_iso_datetime("2009-10-24T23:57:33-07:00").unwrap();
    assert_eq!(ts / 86400000 * 86400000, parse_yt_date_ymd("2009-10-25").unwrap());
    assert_eq!(ts % 86400000, (6 * 3600 + 57 * 60 + 33) * 1000);
    assert_eq!(
        parse_iso_datetime("2024-05-01T12:00:00Z").unwrap() % 86400000,
        12 * 3600 * 1000
    );
    assert_eq!(
        parse_iso_datetime("2024-05-01").unwrap(),
        parse_yt_date_ymd("2024-05-01").unwrap()
    );
    assert!(parse_iso_datetime("not-a-date").is_none());
    assert!(parse_iso_datetime("2024-13-01T00:00:00Z").is_none());
}

#[test]
fn test_html_unescape() {
    assert_eq!(html_unescape("A &amp; B &quot;C&quot;"), "A & B \"C\"");
    assert_eq!(html_unescape("it&#39;s"), "it's");
}

#[test]
fn test_bili_query_param() {
    assert_eq!(bili_query_param("BV117411r7R1").0, "bvid");
    assert_eq!(bili_query_param("85440373").0, "aid");
}

#[test]
fn leap_day_and_invalid_day_are_told_apart() {
    assert_eq!(parse_yt_date_ymd("2024-02-29"), Some(1709164800000));
    assert!(parse_yt_date_ymd("2023-02-29").is_none());
}
