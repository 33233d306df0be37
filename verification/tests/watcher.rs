use memory_stream::admin::watcher::{
    change_label, is_markdown_path, passes_ignored_folder, watch_reports, Debouncer, FsChange, DEBOUNCE_MS,
};

#[test]
fn reported_changes() {
    assert_eq!(change_label(FsChange::Create), Some("create"));
    assert_eq!(change_label(FsChange::Modify), Some("modify"));
    assert_eq!(change_label(FsChange::Remove), Some("delete"));
    assert_eq!(change_label(FsChange::Other), None);
    assert!(is_markdown_path("/vault/a/b.md"));
    assert!(!is_markdown_path("/vault/a/b.md.tmp"));
    assert!(!is_markdown_path("/vault/a/.md"));
    assert!(!is_markdown_path("/vault/a/readme"));
}

#[test]
fn changes_within_the_window_are_reported_once() {
    let mut d = Debouncer::new();
    assert!(d.let_through("a.md", 1000));
    assert!(!d.let_through("a.md", 1000 + DEBOUNCE_MS - 1));
    assert!(d.let_through("b.md", 1050));
    assert!(d.let_through("a.md", 1000 + DEBOUNCE_MS));
    assert!(!d.let_through("a.md", 900));
    assert_eq!(d.len(), 2);
}

#[test]
fn sweep_forgets_stale_entries_only_when_due() {
    let mut d = Debouncer::new();
    for i in 0..250u64 {
        assert!(d.let_through(&format!("f{i}.md"), 20_000 + i * 100));
    }
    assert_eq!(d.len(), 250);
    d.sweep(99, 60_000);
    assert_eq!(d.len(), 250);
    // entries after 45_000 - 10_000 survive: times 20_000 + i*100 > 35_000 for i > 150
    d.sweep(100, 45_000);
    assert_eq!(d.len(), 99);
    assert!(!d.let_through("f249.md", 44_950));
    assert!(d.let_through("f0.md", 45_000));
}

#[test]
fn ignored_folders_are_not_reported() {
    assert!(watch_reports("/vault/notes/a.md"));
    assert!(!watch_reports("/vault/.bunker/glossary.md"));
    assert!(!watch_reports("/vault/.git/x.md"));
    assert!(!watch_reports("C:\\vault\\.obsidian\\w.md"));
    assert!(!watch_reports("/vault/notes/a.txt"));
    assert!(watch_reports("/vault/.gitignore.d/a.md"));
    assert!(passes_ignored_folder(".git"));
    assert!(!passes_ignored_folder("/vault/git/a.md"));
}

#[test]
fn early_sweep_forgets_nothing() {
    let mut d = Debouncer::new();
    for i in 0..201u64 {
        assert!(d.let_through(&format!("f{i}.md"), i));
    }
    d.sweep(100, 500);
    assert_eq!(d.len(), 201);
}
