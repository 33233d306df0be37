//! The cloud listings, glossary synchronisation, secrets store and
//! asset-serving helpers.

use memory_stream::admin::cloud_catalog::{
    build_card_lookup, build_file_path, card_target_path, plan_cloud_sync, build_category_path_map, find_category_by_name_and_parent, resolve_category_path, CardListItem,
    CategoryItem,
};
use memory_stream::admin::db::compute_hash;
use memory_stream::admin::glossary::{
    apply_accepted, apply_glossary_changes, bunker_dir, glossary_items, glossary_path, glossary_versions_path,
    GlossaryChange,
};
use memory_stream::admin::card_heal::{check_file_size, index_after_save, locate_card};
use memory_stream::admin::models::{article_path, candidate_title, card_file_path, category_path, compose_document, sanitize_file_stem};
use memory_stream::admin::sync_plan::{check_auth_expired, extract_trunk_targets, CardEdge, SyncStatus};
use memory_stream::admin::protocol::{
    asset_rel, ast_uuid, check_asset_path, error_body, guess_content_type, ms_route, neighborhood_request, parse_usize,
    MsRoute,
};
use memory_stream::admin::secrets::{
    fallback_get, fallback_remove, fallback_store, secret_after_fallback, secret_after_keyring, SecretStep,
};
use memory_stream::admin::sync_plan::{chrono_now_iso, conflict_copy_name, days_to_ymd, now_rfc3339};
use memory_stream::ms_io::{is_conflict_copy, is_hidden, is_temp_dir, scan_enters};

fn card(id: &str, title: &str, cat: Option<u64>) -> CardListItem {
    CardListItem { id: id.to_string(), title: title.to_string(), updated_at: String::new(), category_id: cat }
}

fn cat(id: u64, name: &str, parent: Option<u64>) -> CategoryItem {
    CategoryItem { id, name: name.to_string(), parent_id: parent }
}

fn pairs(v: &[(&str, &str)]) -> Vec<(String, String)> {
    v.iter().map(|(a, b)| (a.to_string(), b.to_string())).collect()
}

fn lookup<'a>(v: &'a [(String, String)], k: &str) -> Option<&'a str> {
    v.iter().rev().find(|p| p.0 == k).map(|p| p.1.as_str())
}

fn version_of(v: &[(String, i64)], k: &str) -> Option<i64> {
    v.iter().rev().find(|p| p.0 == k).map(|p| p.1)
}

#[test]
fn card_lookup_keeps_the_first_card_of_each_key() {
    let cards = vec![card("a", " Rust ", Some(1)), card("b", "rust", Some(1)), card("c", "Rust", None)];
    let m = build_card_lookup(&cards);
    assert_eq!(m, pairs(&[("rust::1", "a"), ("rust::null", "c")]));
}

#[test]
fn category_paths_follow_parents() {
    let cats = vec![cat(1, "Tech", None), cat(2, "Rust", Some(1)), cat(3, "Async", Some(2)), cat(4, "Orphan", Some(99))];
    let m = build_category_path_map(&cats);
    assert_eq!(m.len(), 4);
    assert_eq!(m[&3], vec!["Tech", "Rust", "Async"]);
    assert_eq!(m[&1], vec!["Tech"]);
    assert_eq!(m[&4], vec!["Orphan"]);
    assert_eq!(resolve_category_path(42, &cats, 4), Some(vec![]));
    assert_eq!(resolve_category_path(3, &cats, 2), None);
}

#[test]
fn categories_are_found_by_name_and_parent() {
    let cats = vec![cat(1, "Tech", None), cat(2, " rust ", Some(1)), cat(3, "Rust", None)];
    let found = find_category_by_name_and_parent(&cats, "RUST", Some(1)).unwrap();
    assert_eq!(found.id, 2);
    assert_eq!(find_category_by_name_and_parent(&cats, "rust", None).unwrap().id, 3);
    assert!(find_category_by_name_and_parent(&cats, "rust", Some(7)).is_none());
}

#[test]
fn file_stems_of_titles() {
    assert_eq!(sanitize_file_stem("  a<b>c:d  "), "a_b_c_d");
    assert_eq!(sanitize_file_stem("...dots..."), "dots");
    assert_eq!(sanitize_file_stem("   "), "untitled");
    assert_eq!(sanitize_file_stem("con"), "con_");
    assert_eq!(sanitize_file_stem("LPT9"), "LPT9_");
    assert_eq!(sanitize_file_stem("COM0"), "COM0");
    assert_eq!(sanitize_file_stem("tab\tin"), "tab_in");
}

#[test]
fn documents_join_front_matter_and_body() {
    assert_eq!(compose_document("title: A\n", "body"), "---\ntitle: A\n---\n\nbody");
    assert_eq!(compose_document("title: A\n", ""), "---\ntitle: A\n---");
}

#[test]
fn day_counts_and_conflict_names() {
    assert_eq!(days_to_ymd(0), (1970, 1, 1));
    assert_eq!(days_to_ymd(11016), (2000, 2, 29));
    assert_eq!(days_to_ymd(-1), (1969, 12, 31));
    assert_eq!(conflict_copy_name("note", "md", 1700000000, 0), "note(云端冲突副本 1700000000).md");
    assert_eq!(conflict_copy_name("note", "md", 5, 2), "note(云端冲突副本 5-2).md");
}

#[test]
fn glossary_files() {
    assert_eq!(bunker_dir("/v"), "/v/.bunker");
    assert_eq!(glossary_path("/v"), "/v/.bunker/glossary.json");
    assert_eq!(glossary_versions_path("/v"), "/v/.bunker/glossary_versions.json");
}

#[test]
fn pulled_changes_update_the_glossary() {
    let mut g = pairs(&[("a", "old a"), ("b", "old b")]);
    let mut v: Vec<(String, i64)> = vec![("a".to_string(), 1), ("b".to_string(), 1)];
    let changes = vec![
        GlossaryChange { term: "a".to_string(), version: 3, is_deleted: false },
        GlossaryChange { term: "b".to_string(), version: 2, is_deleted: true },
        GlossaryChange { term: "c".to_string(), version: 5, is_deleted: false },
        GlossaryChange { term: "d".to_string(), version: 1, is_deleted: false },
    ];
    let server = pairs(&[("a", "new a"), ("c", "new c")]);
    apply_glossary_changes(&mut g, &mut v, &changes, &server);
    assert_eq!(lookup(&g, "a"), Some("new a"));
    assert_eq!(lookup(&g, "b"), None);
    assert_eq!(lookup(&g, "c"), Some("new c"));
    assert_eq!(lookup(&g, "d"), None);
    assert_eq!(version_of(&v, "a"), Some(3));
    assert_eq!(version_of(&v, "b"), None);
    assert_eq!(version_of(&v, "c"), Some(5));
}

#[test]
fn pushed_terms_and_accepted_versions() {
    let g = pairs(&[("a", "def a"), ("b", "def b")]);
    let v: Vec<(String, i64)> = vec![("a".to_string(), 4)];
    let items = glossary_items(&g, &v);
    assert_eq!(items.len(), 2);
    assert_eq!(items[0].version, 4);
    assert_eq!(items[1].version, 0);
    assert_eq!(items[1].hash, compute_hash("def b"));
    let mut v2 = v.clone();
    apply_accepted(&mut v2, &vec!["a".to_string(), "b".to_string(), "b".to_string()]);
    assert_eq!(version_of(&v2, "a"), Some(5));
    assert_eq!(version_of(&v2, "b"), Some(2));
}

#[test]
fn content_hash_is_sha256_hex() {
    assert_eq!(compute_hash(""), "e3b0c44298fc1c149afbf4c8996fb92427ae41e4649b934ca495991b7852b855");
    assert_eq!(compute_hash("abc"), "ba7816bf8f01cfea414140de5dae2223b00361a396177a9cb410ff61f20015ad");
}

#[test]
fn secret_reads() {
    match secret_after_keyring(Ok(Some("s".to_string()))) {
        SecretStep::Return(Ok(Some(v))) => assert_eq!(v, "s"),
        other => panic!("unexpected {:?}", other),
    }
    assert!(matches!(secret_after_keyring(Ok(None)), SecretStep::ReadFallback { sync_back: true }));
    assert!(matches!(secret_after_keyring(Err("x".to_string())), SecretStep::ReadFallback { sync_back: false }));
    assert_eq!(secret_after_fallback(true, Ok(Some("v".to_string()))), (Ok(Some("v".to_string())), Some("v".to_string())));
    assert_eq!(secret_after_fallback(false, Ok(Some("v".to_string()))), (Ok(Some("v".to_string())), None));
    assert_eq!(secret_after_fallback(true, Err("e".to_string())), (Err("e".to_string()), None));
}

#[test]
fn test_fallback_store_and_retrieve() {
    let mut store: Vec<(String, String)> = Vec::new();
    fallback_store(&mut store, "k", "test_fallback_value");
    assert_eq!(fallback_get(&store, "k"), Some("test_fallback_value".to_string()));
    fallback_store(&mut store, "k", "second_value");
    assert_eq!(fallback_get(&store, "k"), Some("second_value".to_string()));
    fallback_remove(&mut store, "k");
    assert_eq!(fallback_get(&store, "k"), None);
}

#[test]
fn asset_content_types() {
    assert_eq!(guess_content_type("a/b.png"), "image/png");
    assert_eq!(guess_content_type("x.jpeg"), "image/jpeg");
    assert_eq!(guess_content_type("x.JPG"), "application/octet-stream");
    assert_eq!(guess_content_type("icon.svg"), "image/svg+xml");
    assert_eq!(guess_content_type("png"), "image/png");
    assert_eq!(guess_content_type("archive.tar.gz"), "application/octet-stream");
}

#[test]
fn scanner_filters() {
    assert!(is_hidden(".git"));
    assert!(!is_hidden("notes"));
    assert!(is_temp_dir("tmp") && is_temp_dir(".bulk") && !is_temp_dir("tmp2"));
    assert!(is_conflict_copy("note(云端冲突副本 12).md"));
    assert!(is_conflict_copy("a.conflict.md"));
    assert!(!is_conflict_copy("conflict.md"));
    assert!(scan_enters(0, ".vault"));
    assert!(!scan_enters(1, ".obsidian"));
    assert!(scan_enters(2, "cards"));
}

#[test]
fn card_files_and_category_folders() {
    assert_eq!(card_file_path("/vault/Tech", "A/B"), "/vault/Tech/A_B.md");
    assert_eq!(card_file_path("/vault/", "x"), "/vault/x.md");
    assert_eq!(card_file_path("", "x"), "x.md");
    let segs = vec!["Tech".to_string(), "a:b".to_string()];
    assert_eq!(build_file_path("/v", Some(&segs), "c.md"), "/v/Tech/a_b/c.md");
    assert_eq!(build_file_path("/v", None, "c.md"), "/v/c.md");
}

#[test]
fn clock_timestamps_have_the_rfc3339_shape() {
    for t in [now_rfc3339(), chrono_now_iso()] {
        assert_eq!(t.len(), 20);
        assert_eq!(&t[4..5], "-");
        assert_eq!(&t[10..11], "T");
        assert!(t.ends_with('Z'));
    }
}

#[test]
fn cloud_pull_plan_writes_missing_and_newer_cards() {
    let cats = vec![cat(1, "Tech", None)];
    let map = build_category_path_map(&cats);
    let cards = vec![
        CardListItem { id: "a".to_string(), title: "Alpha".to_string(), updated_at: "1970-01-01T00:00:10Z".to_string(), category_id: Some(1) },
        CardListItem { id: "b".to_string(), title: "Beta".to_string(), updated_at: "1970-01-01T00:00:10Z".to_string(), category_id: None },
        CardListItem { id: "c".to_string(), title: "Gamma".to_string(), updated_at: "garbage".to_string(), category_id: Some(7) },
    ];
    let targets: Vec<String> = cards.iter().map(|c| card_target_path(c, &map, "/v")).collect();
    assert_eq!(targets, vec!["/v/Tech/Alpha.md", "/v/Beta.md", "/v/Gamma.md"]);
    let local = vec![None, Some(Some(1_000_000)), Some(None)];
    let (tasks, skipped) = plan_cloud_sync(&cards, &targets, &local);
    assert_eq!(skipped, 1);
    assert_eq!(tasks.len(), 2);
    assert_eq!(tasks[0].card_id, "a");
    assert_eq!(tasks[0].file_path, "/v/Tech/Alpha.md");
    assert_eq!(tasks[1].card_id, "c");
}

#[test]
fn category_folders_stay_in_the_vault() {
    assert_eq!(category_path("/v", "  "), Ok("/v".to_string()));
    assert_eq!(category_path("/v", "."), Ok("/v".to_string()));
    assert_eq!(category_path("/v", " Tech "), Ok("/v/Tech".to_string()));
    assert_eq!(category_path("/v", "a/b"), Err("不支持嵌套分类: a/b".to_string()));
    assert_eq!(category_path("/v", "..x"), Err("不支持嵌套分类: ..x".to_string()));
    assert_eq!(category_path("/v", "a\\b"), Err("不支持嵌套分类: a\\b".to_string()));
    assert_eq!(article_path("/v", "Tech", "Note"), Ok("/v/Tech/Note.md".to_string()));
    assert_eq!(article_path("/v", "../x", "Note"), Err("不支持嵌套分类: ../x".to_string()));
}

#[test]
fn new_card_title_candidates() {
    assert_eq!(candidate_title("Note", 0), "Note");
    assert_eq!(candidate_title("Note", 1), "Note 2");
    assert_eq!(candidate_title("Note", 2), "Note 3");
}

#[test]
fn saving_a_card_moves_its_version() {
    let (v, status, last, hash) = index_after_save(Some((4, Some("h".to_string()))), "abc");
    assert_eq!(v, 5);
    assert_eq!(status, SyncStatus::PendingPush);
    assert_eq!(last, Some("h".to_string()));
    assert_eq!(hash, compute_hash("abc"));
    assert_eq!(index_after_save(Some((i64::MAX, None)), "").0, i64::MAX);
    assert_eq!(index_after_save(None, "").0, 1);
}

#[test]
fn cards_are_located_by_uuid_then_by_file_name() {
    let metas = vec![None, Some("u2".to_string()), Some("u1".to_string())];
    let stems = vec![Some("u1".to_string()), Some("x".to_string()), Some("y".to_string())];
    assert_eq!(locate_card("u1", &metas, &stems), Some(2));
    assert_eq!(locate_card("x", &metas, &stems), Some(1));
    assert_eq!(locate_card("zz", &metas, &stems), None);
}

#[test]
fn pulling_twice_changes_nothing_more() {
    let changes = vec![
        GlossaryChange { term: "a".to_string(), version: 3, is_deleted: false },
        GlossaryChange { term: "b".to_string(), version: 2, is_deleted: true },
    ];
    let server = pairs(&[("a", "new a")]);
    let mut g = pairs(&[("a", "old"), ("b", "old b"), ("c", "kept")]);
    let mut v: Vec<(String, i64)> = vec![("a".to_string(), 1)];
    apply_glossary_changes(&mut g, &mut v, &changes, &server);
    let (g1, v1) = (g.clone(), v.clone());
    apply_glossary_changes(&mut g, &mut v, &changes, &server);
    for k in ["a", "b", "c"] {
        assert_eq!(lookup(&g, k), lookup(&g1, k));
        assert_eq!(version_of(&v, k), version_of(&v1, k));
    }
    assert_eq!(lookup(&g, "c"), Some("kept"));
}

#[test]
fn card_file_sizes_and_statuses() {
    assert_eq!(check_file_size(10 * 1024 * 1024), Ok(()));
    assert_eq!(check_file_size(10 * 1024 * 1024 + 1), Err("File too large: 10485761 bytes (max 10MB)".to_string()));
    assert_eq!(check_auth_expired(401), Err("AUTH_EXPIRED".to_string()));
    assert_eq!(check_auth_expired(200), Ok(()));
    assert_eq!(check_auth_expired(403), Ok(()));
}

#[test]
fn trunk_targets_of_edges() {
    let edge = |rt: Option<&str>, t: Option<&str>| CardEdge {
        relation_type: rt.map(|s| s.to_string()),
        target_uuid: t.map(|s| s.to_string()),
    };
    let edges = vec![
        edge(Some("trunk"), Some("a")),
        edge(Some("branch"), Some("b")),
        edge(Some("trunk"), None),
        edge(None, Some("c")),
        edge(Some("trunk"), Some("d")),
    ];
    assert_eq!(extract_trunk_targets(&edges), vec!["a", "d"]);
}

#[test]
fn escaping_asset_paths_are_refused() {
    assert!(check_asset_path("img/a.png").is_ok());
    assert!(check_asset_path("a.b.png").is_ok());
    assert_eq!(check_asset_path("/etc/passwd"), Err("invalid asset path".to_string()));
    assert!(check_asset_path("\\windows").is_err());
    assert!(check_asset_path("img/../../secret").is_err());
    assert!(check_asset_path("C:stuff").is_err());
    assert!(check_asset_path("").is_ok());
}

#[test]
fn protocol_requests_are_routed_by_path() {
    assert_eq!(ms_route("ms://localhost/api/ast/abc"), MsRoute::Ast("/api/ast/abc".to_string()));
    assert_eq!(ms_route("ms://localhost/api/graph/full"), MsRoute::FullGraph);
    assert_eq!(ms_route("ms://localhost/api/graph/full?x=1"), MsRoute::FullGraph);
    assert_eq!(ms_route("ms://localhost/api/graph/neighborhood/u1?depth=3"), MsRoute::Neighborhood);
    assert_eq!(ms_route("ms://localhost/assets/img/a.png"), MsRoute::Asset("/assets/img/a.png".to_string()));
    assert_eq!(ms_route("ms://localhost/other"), MsRoute::NotFound("/other".to_string()));
    assert_eq!(ms_route("ms://localhostms://localhost/api/graph/full"), MsRoute::FullGraph);
    assert_eq!(ms_route("/assets/x"), MsRoute::Asset("/assets/x".to_string()));
}

#[test]
fn protocol_request_parameters() {
    assert_eq!(ast_uuid("/api/ast/abc-1//"), Some("abc-1".to_string()));
    assert_eq!(ast_uuid("/api/ast/"), None);
    assert_eq!(asset_rel("/assets/img/a.png"), Some("img/a.png".to_string()));
    assert_eq!(asset_rel("/assets/"), None);
    assert_eq!(
        neighborhood_request("ms://localhost/api/graph/neighborhood/u1/?depth=3"),
        ("u1".to_string(), 3)
    );
    assert_eq!(neighborhood_request("ms://localhost/api/graph/neighborhood/u1"), ("u1".to_string(), 2));
    assert_eq!(neighborhood_request("ms://localhost/api/graph/neighborhood/u1?a=1&depth=+5"), ("u1".to_string(), 5));
    assert_eq!(neighborhood_request("ms://localhost/api/graph/neighborhood/u1?depth=x&depth=4"), ("u1".to_string(), 2));
    assert_eq!(neighborhood_request("ms://localhost/api/graph/neighborhood/u1?depth="), ("u1".to_string(), 2));
    assert_eq!(error_body("missing uuid"), "{\"error\":\"missing uuid\"}");
}

#[test]
fn decimal_numbers_read_like_parse() {
    let c = |s: &str| s.chars().collect::<Vec<char>>();
    assert_eq!(parse_usize(&c("42")), Some(42));
    assert_eq!(parse_usize(&c("+7")), Some(7));
    assert_eq!(parse_usize(&c("")), None);
    assert_eq!(parse_usize(&c("+")), None);
    assert_eq!(parse_usize(&c("-1")), None);
    assert_eq!(parse_usize(&c("1a")), None);
    assert_eq!(parse_usize(&c("18446744073709551615")), Some(usize::MAX));
    assert_eq!(parse_usize(&c("18446744073709551616")), None);
    assert_eq!(parse_usize(&c("99999999999999999999x")), None);
}
