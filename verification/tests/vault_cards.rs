//! Tests of card titles, heads, healing and the vault tree.

use memory_stream::admin::card_heal::{
    after_recorded_read, find_card_file, first_title, healed_meta, index_state_after_read, require_vault, ReadCardStep,
};
use memory_stream::admin::models::CardMeta;
use memory_stream::admin::sync_plan::SyncStatus;
use memory_stream::admin::vault::{extract_title, parse_frontmatter_head, split_lines, FrontmatterHead};
use memory_stream::admin::vault_tree::{build_tree, TreeFile};

#[test]
fn title_from_frontmatter() {
    assert_eq!(extract_title("---\nuuid: 1\ntitle:  Hello  \n---\n# Other"), Some("Hello".to_string()));
}

#[test]
fn title_from_heading_when_no_frontmatter_title() {
    assert_eq!(extract_title("---\nuuid: 1\n---\n\n  # Big  Title \n"), Some("Big  Title".to_string()));
    assert_eq!(extract_title("text\n## sub\n"), None);
}

#[test]
fn lines_follow_str_lines() {
    let text = "a\r\nb\n\nc";
    let expected: Vec<String> = text.lines().map(|l| l.to_string()).collect();
    assert_eq!(split_lines(text), expected);
    assert!(split_lines("").is_empty());
    assert_eq!(split_lines("x\n"), vec!["x".to_string()]);
}

#[test]
fn head_fields() {
    let head = "---\nuuid: abc\ntitle: T: 1\n---\nbody";
    assert_eq!(
        parse_frontmatter_head(head),
        Some(FrontmatterHead { uuid: Some("abc".to_string()), title: Some("T: 1".to_string()) })
    );
    assert_eq!(parse_frontmatter_head("---\nno colon\n---"), None);
    assert_eq!(parse_frontmatter_head("plain"), Some(FrontmatterHead { uuid: None, title: None }));
}

fn meta(title: &str, category: &str) -> CardMeta {
    CardMeta {
        uuid: "u1".to_string(),
        title: title.to_string(),
        category: category.to_string(),
        created_at: "c".to_string(),
        updated_at: "old".to_string(),
    }
}

#[test]
fn healing_front_matter() {
    assert!(healed_meta(Some(&meta("A", "cat")), "u9", "A", "cat", "now").is_none());
    let h = healed_meta(Some(&meta("A", "cat")), "u9", "B", "cat", "now").unwrap();
    assert_eq!((h.uuid.as_str(), h.title.as_str(), h.created_at.as_str(), h.updated_at.as_str()), ("u1", "B", "c", "now"));
    let fresh = healed_meta(None, "u9", "B", "", "now").unwrap();
    assert_eq!((fresh.uuid.as_str(), fresh.created_at.as_str()), ("u9", "now"));
}

#[test]
fn index_state_defaults() {
    assert_eq!(index_state_after_read(None), (1, SyncStatus::PendingPush, None));
    assert_eq!(
        index_state_after_read(Some((7, SyncStatus::Synced, Some("h".to_string())))),
        (7, SyncStatus::Synced, Some("h".to_string()))
    );
}

#[test]
fn title_candidates() {
    assert_eq!(first_title(vec![None, Some("b".to_string()), Some("c".to_string())], "u"), "b");
    assert_eq!(first_title(vec![None, None], "u"), "u");
}

fn file(rel: &str, uuid: &str) -> TreeFile {
    TreeFile { rel: rel.to_string(), uuid: uuid.to_string(), title: uuid.to_uppercase() }
}

#[test]
fn vault_tree_layout() {
    let files = vec![file("os/a.md", "a"), file("b.md", "b"), file("os/deep/c.md", "c"), file("net/d.md", "d")];
    let dirs = vec!["empty/".to_string(), "os".to_string(), "x/y".to_string()];
    let tree = build_tree(&files, &dirs);
    let ids: Vec<&str> = tree.iter().map(|n| n.id.as_str()).collect();
    assert_eq!(ids, vec!["os", "net", "empty", "b", "c"]);
    assert!(tree[0].is_dir);
    assert_eq!(tree[0].children.len(), 1);
    assert_eq!(tree[0].children[0].id, "a");
    assert_eq!(tree[0].children[0].parent_id.as_deref(), Some("os"));
    assert!(tree[2].children.is_empty());
    assert_eq!(tree[3].parent_id, None);
    assert_eq!(tree[4].parent_id.as_deref(), Some("os/deep"));
    assert_eq!(tree[4].name, "C");
}

#[test]
fn reading_a_card_step_by_step() {
    assert_eq!(require_vault(""), Err("Vault path not configured".to_string()));
    assert_eq!(require_vault("/v"), Ok(()));
    assert_eq!(after_recorded_read(Ok(()), true), Ok(ReadCardStep::UseRecordedFile));
    assert_eq!(after_recorded_read(Ok(()), false), Ok(ReadCardStep::ScanVault));
    assert_eq!(after_recorded_read(Err("File too large".to_string()), true), Err("File too large".to_string()));
    let metas = vec![None, Some("u2".to_string())];
    let stems = vec![Some("u1".to_string()), Some("x".to_string())];
    assert_eq!(find_card_file("u2", &metas, &stems), Ok(1));
    assert_eq!(find_card_file("u1", &metas, &stems), Ok(0));
    assert_eq!(find_card_file("zz", &metas, &stems), Err("Card file not found: zz".to_string()));
}
