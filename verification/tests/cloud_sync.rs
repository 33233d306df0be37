//! Tests of cloud synchronisation helpers and token timing.

use memory_stream::admin::auth_timing::{
    after_refresh, is_expired, refresh_step, should_refresh_soon, time_until_refresh, RefreshStep,
};
use memory_stream::admin::cloud_sync::{
    card_lookup_key, days_from_civil, parse_iso_to_unix, sanitize_dir_name, should_update, title_to_filename,
};

#[test]
fn file_names_of_titles() {
    assert_eq!(title_to_filename("  Hello, World!  "), "Hello_ World_.md");
    assert_eq!(title_to_filename("进程/线程"), "进程_线程.md");
    assert_eq!(title_to_filename("   "), "untitled");
}

#[test]
fn dir_names() {
    assert_eq!(sanitize_dir_name("a/b\\c:d"), "a_b_c_d");
}

#[test]
fn lookup_keys() {
    assert_eq!(card_lookup_key("  Rust Book ", Some(12)), "rust book::12");
    assert_eq!(card_lookup_key("X", None), "x::null");
}

#[test]
fn iso_timestamps() {
    assert_eq!(parse_iso_to_unix("1970-01-01T00:00:00Z"), Some(86400));
    assert_eq!(parse_iso_to_unix("1969-12-31T00:00:10Z"), Some(10));
    assert_eq!(parse_iso_to_unix("1969-12-30T00:00:00Z"), None);
    assert_eq!(parse_iso_to_unix("2026-04-13T12:00:00Z"), Some(1776168000));
    assert_eq!(parse_iso_to_unix("2026-04-13"), None);
    assert_eq!(parse_iso_to_unix("2026-4x-13T12:00:00"), None);
    assert_eq!(days_from_civil(2000, 3, 1), Some(11018));
    assert_eq!(days_from_civil(1969, 12, 31), Some(0));
    assert_eq!(days_from_civil(1969, 12, 30), None);
    assert_eq!(days_from_civil(0, 2, 1), None);
}

#[test]
fn update_decisions() {
    assert!(should_update(None, "whatever"));
    assert!(should_update(Some(86500), "1970-01-01T00:01:41Z"));
    assert!(!should_update(Some(86500), "1970-01-01T00:01:39Z"));
    assert!(!should_update(Some(100), "garbage"));
}

#[test]
fn token_timing() {
    let ttl = 7_200_000;
    assert!(should_refresh_soon(None, ttl));
    assert!(!should_refresh_soon(Some(0), ttl));
    assert!(should_refresh_soon(Some(6_900_000), ttl));
    assert!(!is_expired(Some(7_199_999), ttl));
    assert!(is_expired(Some(7_200_000), ttl));
    assert_eq!(time_until_refresh(None, true, ttl), 30_000);
    assert_eq!(time_until_refresh(Some(0), false, ttl), 30_000);
    assert_eq!(time_until_refresh(Some(900_000), true, ttl), 6_000_000);
    assert_eq!(time_until_refresh(Some(7_000_000), true, ttl), 0);
    assert_eq!(refresh_step(5, true), RefreshStep::Wait(300_000));
    assert_eq!(refresh_step(1, false), RefreshStep::Wait(5_000));
    assert_eq!(refresh_step(0, true), RefreshStep::Refresh);
    assert_eq!(after_refresh(3, true), (0, 0));
    assert_eq!(after_refresh(3, false), (4, 30_000));
}

#[test]
fn civil_days_far_from_now() {
    assert_eq!(days_from_civil(1_000_000, 6, 15), Some(364523139));
    assert_eq!(days_from_civil(2024, 1, 1), Some(19724));
}
