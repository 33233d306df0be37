//! Tests of client settings, image keys, export decoding, timestamps and
//! synchronisation decisions.

use memory_stream::admin::config::{derive_ws_url, is_loopback_url, normalize_ws_url, SysConfig};
use memory_stream::admin::export::base64_decode;
use memory_stream::admin::image::{estimate_year_month, generate_key, image_key, is_leap_year};
use memory_stream::admin::models::{excerpt, text_counts, toc_items};
use memory_stream::admin::sync_plan::{
    civil_from_days, format_timestamp, pull_action, progress_percent, LocalCard, ManifestEntry, PullAction, SyncStatus,
};
use memory_stream::admin::ws_client::{
    auth_expired_after, fmt_time, format_time, ws_action, ws_url_or_default, AuthWatch, Reconnect, WsAction, MAX_RETRIES,
};
use memory_stream::ms_ast::toc::TocFlatItem;

#[test]
fn test_default_config() {
    let config = SysConfig::default();
    assert_eq!(config.api_base_url, "http://localhost:8080/api/v1");
    assert_eq!(config.ws_url, "ws://localhost:8080/api/v1/ws");
    assert_eq!(config.s3_region, "us-east-1");
    assert!(!config.s3_use_path_style);
    assert!(config.s3_access_key.is_none());
    assert!(config.vault_path.is_none());
}

#[test]
fn test_base64_decode_hello() {
    let result = base64_decode("SGVsbG8=").unwrap();
    assert_eq!(result, b"Hello");
}

#[test]
fn test_base64_decode_empty() {
    let result = base64_decode("").unwrap();
    assert!(result.is_empty());
}

#[test]
fn base64_decode_binary() {
    let result = base64_decode("AAEC/w==").unwrap();
    assert_eq!(result, vec![0x00, 0x01, 0x02, 0xFF]);
}

#[test]
fn test_is_leap_year() {
    assert!(is_leap_year(2000));
    assert!(!is_leap_year(1900));
    assert!(is_leap_year(2004));
    assert!(!is_leap_year(2100));
}

#[test]
fn test_estimate_year_month() {
    assert_eq!(estimate_year_month(0), (1970, 1));
    assert_eq!(estimate_year_month(364), (1970, 12));
    assert_eq!(estimate_year_month(365), (1971, 1));
    assert_eq!(estimate_year_month(730), (1972, 1));
}

#[test]
fn test_generate_key_with_png() {
    let key = generate_key("photo.png", "0123abcd");
    assert!(key.starts_with("images/"));
    assert!(key.ends_with(".png.webp"));
}

#[test]
fn test_generate_key_no_extension() {
    let key = generate_key("photo", "0123abcd");
    assert!(key.ends_with(".bin.webp"));
}

#[test]
fn image_key_layout() {
    assert_eq!(image_key(Some("jpg"), 2024, 3, "id1"), "images/2024/3/id1.jpg.webp");
    assert_eq!(image_key(None, 1970, 12, "x"), "images/1970/12/x.bin.webp");
}

#[test]
fn test_fmt_time_format() {
    let time = fmt_time();
    let parts: Vec<&str> = time.split('.').collect();
    assert_eq!(parts.len(), 2);
    assert!(parts[0].parse::<u64>().is_ok());
    assert_eq!(parts[1].len(), 3);
}

#[test]
fn format_time_pads_millis() {
    assert_eq!(format_time(12, 7), "12.007");
    assert_eq!(format_time(0, 999), "0.999");
}

#[test]
fn ws_url_follows_api_url() {
    assert_eq!(derive_ws_url("https://api.example.com/api/v1/"), "wss://api.example.com/api/v1/ws");
    assert_eq!(derive_ws_url(" http://h:1 "), "ws://h:1/ws");
    assert_eq!(derive_ws_url("wss://h"), "wss://h/ws");
    assert_eq!(derive_ws_url(""), "ws://localhost:8080/api/v1/ws");
    assert_eq!(derive_ws_url("host.example"), "ws://host.example/ws");
}

#[test]
fn loopback_detection() {
    assert!(is_loopback_url("http://LOCALHOST:8080"));
    assert!(is_loopback_url("http://127.0.0.1/api"));
    assert!(!is_loopback_url("https://api.example.com"));
}

#[test]
fn normalize_only_for_remote_api() {
    let mut c = SysConfig::default();
    normalize_ws_url(&mut c);
    assert_eq!(c.ws_url, "ws://localhost:8080/api/v1/ws");
    c.api_base_url = "https://api.example.com/api/v1".to_string();
    normalize_ws_url(&mut c);
    assert_eq!(c.ws_url, "wss://api.example.com/api/v1/ws");
    c.ws_url = "wss://other.example/ws".to_string();
    normalize_ws_url(&mut c);
    assert_eq!(c.ws_url, "wss://other.example/ws");
}

#[test]
fn counts_of_text() {
    assert_eq!(text_counts(""), (0, 0, 0));
    assert_eq!(text_counts("hello world\n你好 x"), (2, 16, 5));
    assert_eq!(text_counts("a\n\nb\n"), (3, 5, 2));
}

#[test]
fn excerpt_is_first_line_trimmed() {
    assert_eq!(excerpt("  First line  \nsecond"), "First line");
    assert_eq!(excerpt(""), "");
}

#[test]
fn toc_items_keep_order() {
    let flat = vec![
        TocFlatItem { level: 1, text: "A".to_string(), slug: "a".to_string() },
        TocFlatItem { level: 2, text: "B".to_string(), slug: "b".to_string() },
    ];
    let items = toc_items(flat);
    assert_eq!(items.len(), 2);
    assert_eq!(items[1].id, "b");
    assert_eq!(items[0].level, 1);
}

fn card(hash: &str, last: Option<&str>, status: SyncStatus) -> LocalCard {
    LocalCard {
        uuid: "u".to_string(),
        file_path: "/v/a.md".to_string(),
        file_hash: hash.to_string(),
        version: 1,
        sync_status: status,
        last_synced_hash: last.map(|s| s.to_string()),
    }
}

fn entry(hash: &str, deleted: bool) -> ManifestEntry {
    ManifestEntry { uuid: "u".to_string(), version: 2, hash: hash.to_string(), is_deleted: deleted }
}

#[test]
fn pull_decisions() {
    let synced = card("h1", Some("h1"), SyncStatus::Synced);
    assert_eq!(pull_action(&entry("h1", false), Some(&synced)), PullAction::Skip);
    assert_eq!(pull_action(&entry("h2", false), Some(&synced)), PullAction::Overwrite);
    let edited = card("h3", Some("h1"), SyncStatus::Synced);
    assert_eq!(pull_action(&entry("h2", false), Some(&edited)), PullAction::Conflict);
    assert_eq!(pull_action(&entry("h1", false), Some(&edited)), PullAction::Skip);
    let pending = card("h1", Some("h1"), SyncStatus::PendingPush);
    assert_eq!(pull_action(&entry("h2", false), Some(&pending)), PullAction::Conflict);
    assert_eq!(pull_action(&entry("h2", false), None), PullAction::Download);
    assert_eq!(pull_action(&entry("h2", true), None), PullAction::Skip);
    assert_eq!(pull_action(&entry("h2", true), Some(&synced)), PullAction::DeleteLocal);
}

#[test]
fn progress_values() {
    assert_eq!(progress_percent(0, 4), 25);
    assert_eq!(progress_percent(3, 4), 100);
    assert_eq!(progress_percent(0, 0), 100);
}

#[test]
fn civil_dates() {
    assert_eq!(civil_from_days(0), (1970, 1, 1));
    assert_eq!(civil_from_days(19723), (2024, 1, 1));
    assert_eq!(civil_from_days(-1), (1969, 12, 31));
    assert_eq!(civil_from_days(11016), (2000, 2, 29));
}

#[test]
fn timestamps() {
    assert_eq!(format_timestamp(0), "1970-01-01T00:00:00Z");
    assert_eq!(format_timestamp(1_700_000_000), "2023-11-14T22:13:20Z");
}

#[test]
fn server_events_map_to_actions() {
    assert_eq!(ws_action("LAYOUT_UPDATED"), WsAction::SyncLayouts);
    assert_eq!(ws_action("AUTH_OK"), WsAction::LogAuth);
    assert_eq!(ws_action("ERROR"), WsAction::LogError);
    assert_eq!(ws_action("CARD_CREATED"), WsAction::Forward("ws_card_created".to_string()));
    assert_eq!(ws_action("CARDS_MERGED"), WsAction::Forward("ws_cards_merged".to_string()));
    assert_eq!(ws_action("card_created"), WsAction::Unknown);
    assert_eq!(ws_action(""), WsAction::Unknown);
}

#[test]
fn reconnection_backs_off_and_gives_up() {
    let mut r = Reconnect::new();
    let mut waits = Vec::new();
    while let Some(w) = r.after_disconnect() {
        waits.push(w);
    }
    assert_eq!(waits.len() as u32, MAX_RETRIES - 1);
    assert_eq!(&waits[..6], &[3, 6, 12, 24, 30, 30]);
    assert!(waits.iter().all(|w| *w <= 30));
    assert_eq!(r.attempts, MAX_RETRIES);
    r.connected();
    assert_eq!(r, Reconnect { delay_secs: 3, attempts: 0 });
}

#[test]
fn authentication_watch() {
    let mut w = AuthWatch::new(true);
    assert!(w.deadline_armed());
    assert!(w.on_event(Some("LAYOUT_UPDATED")));
    assert!(w.on_event(None));
    assert!(!w.on_event(Some("ERROR")));
    assert!(w.on_event(Some("AUTH_OK")));
    assert_eq!(w, AuthWatch { ok: true, deadline_checked: true });
    assert!(w.on_event(Some("ERROR")));
    let mut late = AuthWatch::new(true);
    assert!(!late.on_deadline());
    let mut none_sent = AuthWatch::new(false);
    assert!(!none_sent.deadline_armed());
    assert!(none_sent.on_deadline());
    assert!(auth_expired_after(true, false, true));
    assert!(!auth_expired_after(true, false, false));
    assert!(!auth_expired_after(false, false, true));
    assert_eq!(ws_url_or_default(""), "ws://localhost:8080/api/v1/ws");
    assert_eq!(ws_url_or_default("wss://x/ws"), "wss://x/ws");
}

#[test]
fn tombstones_are_cleared_only_when_confirmed() {
    use_tombstones();
}

fn use_tombstones() {
    let mut a = card("h", Some("h"), SyncStatus::PendingDelete);
    a.uuid = "u1".to_string();
    let mut b = card("h", Some("h"), SyncStatus::PendingPush);
    b.uuid = "u2".to_string();
    let mut c = card("h", Some("h"), SyncStatus::PendingDelete);
    c.uuid = "u3".to_string();
    assert_eq!(
        memory_stream::admin::sync_plan::pending_deletes(&vec![a, b, c]),
        vec!["u1".to_string(), "u3".to_string()]
    );
    assert_eq!(memory_stream::admin::sync_plan::tombstone_url("https://h/api", "u1"), "https://h/api/sync/card/u1");
    assert_eq!(memory_stream::admin::sync_plan::after_tombstone_delete("u1", 204, ""), Ok(()));
    assert_eq!(
        memory_stream::admin::sync_plan::after_tombstone_delete("u1", 500, "boom (HTTP 500)"),
        Err("Delete u1 failed: boom (HTTP 500)".to_string())
    );
    assert_eq!(
        memory_stream::admin::sync_plan::tombstone_error("u9", "timeout"),
        "Delete u9 failed: timeout"
    );
}
