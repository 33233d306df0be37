use memory_stream::admin::secrets::{fallback_remove, fallback_store, get_secret, store_falls_back};
use memory_stream::admin::toc::TocNodeDto;
use memory_stream::draft::{after_draft_push, draft_put_url, draft_sendable, draft_sync_base, Draft, DraftError, DraftPushStep};
use memory_stream::ms_ast::toc::TocNode;
use memory_stream::ms_io::ExportError;

#[test]
fn draft_error_messages() {
    assert_eq!(DraftError::OpenError("x".to_string()).message(), "数据库打开失败: x");
    assert_eq!(DraftError::SqlError("y".to_string()).message(), "SQL 执行失败: y");
    assert_eq!(DraftError::TaskPanic.message(), "线程执行崩溃");
}

#[test]
fn draft_record_clones() {
    let d = Draft {
        card_id: "card-1".to_string(),
        title: "Test Title".to_string(),
        raw_md: "# Hello".to_string(),
        ast_data: None,
        toc_data: None,
        excerpt: Some("excerpt".to_string()),
        category_id: Some(3),
        extracted_links: None,
        sync_status: "pending".to_string(),
        updated_at: 42,
    };
    let e = d.clone();
    assert_eq!(e.card_id, "card-1");
    assert_eq!(e.excerpt, Some("excerpt".to_string()));
    assert_eq!(e.updated_at, 42);
}

#[test]
fn export_error_messages() {
    assert_eq!(ExportError::FileCreateError("a".to_string()).message(), "文件创建失败: a");
    assert_eq!(ExportError::ZipError("b".to_string()).message(), "Zip 写入失败: b");
    assert_eq!(ExportError::FetchError("c".to_string()).message(), "数据拉取失败: c");
    assert_eq!(ExportError::TaskPanic.message(), "线程执行崩溃");
    let io = ExportError::IoError(std::io::Error::new(std::io::ErrorKind::Other, "disk"));
    assert_eq!(io.message(), "IO 错误: disk");
}

#[test]
fn toc_nodes_convert_with_their_children() {
    let n = TocNode {
        level: 1,
        text: "A".to_string(),
        slug: "a".to_string(),
        children: vec![TocNode { level: 2, text: "B".to_string(), slug: "b".to_string(), children: vec![] }],
    };
    let d = TocNodeDto::from_node(&n);
    assert_eq!(d.level, 1);
    assert_eq!(d.text, "A");
    assert_eq!(d.slug, "a");
    assert_eq!(d.children.len(), 1);
    assert_eq!(d.children[0].text, "B");
    assert_eq!(d.children[0].level, 2);
    assert!(d.children[0].children.is_empty());
    assert_eq!(TocNodeDto::from_list(&vec![n]).len(), 1);
}

#[test]
fn secret_read_falls_back_and_syncs_back() {
    let store = Ok(vec![("api_key".to_string(), "s3cret".to_string())]);
    assert_eq!(get_secret("api_key", Ok(Some("kr".to_string())), &store), (Ok(Some("kr".to_string())), None));
    assert_eq!(
        get_secret("api_key", Ok(None), &store),
        (Ok(Some("s3cret".to_string())), Some("s3cret".to_string()))
    );
    assert_eq!(get_secret("api_key", Err("locked".to_string()), &store), (Ok(Some("s3cret".to_string())), None));
    assert_eq!(get_secret("other", Ok(None), &store), (Ok(None), None));
    let broken: Result<Vec<(String, String)>, String> = Err("unreadable".to_string());
    assert_eq!(get_secret("api_key", Ok(None), &broken), (Err("unreadable".to_string()), None));
}

#[test]
fn draft_push_decisions() {
    assert_eq!(draft_sync_base("https://api.example.com/api/v1//"), Some("https://api.example.com/api/v1".to_string()));
    assert_eq!(draft_sync_base(""), None);
    assert_eq!(draft_sync_base("///"), None);
    assert_eq!(draft_put_url("https://h/api", "c1"), "https://h/api/cards/c1");
    assert_eq!(after_draft_push(Some(200)), DraftPushStep::MarkSyncedIfUnchanged);
    assert_eq!(after_draft_push(Some(204)), DraftPushStep::MarkSyncedIfUnchanged);
    assert_eq!(after_draft_push(Some(404)), DraftPushStep::DeleteLocal);
    assert_eq!(after_draft_push(Some(500)), DraftPushStep::Retry);
    assert_eq!(after_draft_push(Some(401)), DraftPushStep::Retry);
    assert_eq!(after_draft_push(None), DraftPushStep::Retry);
    let mut d = Draft {
        card_id: "c".to_string(),
        title: String::new(),
        raw_md: String::new(),
        ast_data: None,
        toc_data: None,
        excerpt: None,
        category_id: None,
        extracted_links: None,
        sync_status: "pending".to_string(),
        updated_at: 0,
    };
    assert!(!draft_sendable(&d));
    d.ast_data = Some("{}".to_string());
    assert!(draft_sendable(&d));
}

#[test]
fn secret_store_then_read_and_delete() {
    assert!(!store_falls_back(Ok(()), Ok(Some("v".to_string()))));
    assert!(store_falls_back(Ok(()), Ok(None)));
    assert!(store_falls_back(Err("no keyring".to_string()), Ok(Some("v".to_string()))));
    let mut store: Vec<(String, String)> = Vec::new();
    fallback_store(&mut store, "k", "first_value");
    fallback_store(&mut store, "k", "second_value");
    let loaded = Ok(store.clone());
    assert_eq!(get_secret("k", Err("unavailable".to_string()), &loaded).0, Ok(Some("second_value".to_string())));
    fallback_remove(&mut store, "k");
    assert_eq!(get_secret("k", Ok(None), &Ok(store)).0, Ok(None));
}
