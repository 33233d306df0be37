//! Tests of wikilink counting and renaming.

use memory_stream::admin::wikilink_replacer::{
    count_links_outside, count_wikilinks_outside_codeblocks, extract_code_ranges, merge_preview,
    replace_wikilinks_in_memory, rewrite_links_outside, CodeRange,
};

fn one_file(content: &str) -> Vec<(String, String)> {
    vec![("test.md".to_string(), content.to_string())]
}

#[test]
fn test_exact_title_replacement() {
    let mut files = one_file("This is [[Alpha]] and [[Alpha Beta]] and [[Alpha]].");
    let count = replace_wikilinks_in_memory(&mut files, "Alpha", "Gamma").unwrap();
    assert_eq!(count, 2);
    let content = &files[0].1;
    assert_eq!(content, "This is [[Gamma]] and [[Alpha Beta]] and [[Gamma]].");
}

#[test]
fn test_code_block_skip() {
    let mut files = one_file("Text [[Victim]] text\n```\n[[Victim]] should not change\n```\n[[Victim]] after");
    let count = replace_wikilinks_in_memory(&mut files, "Victim", "Survivor").unwrap();
    assert_eq!(count, 2);
    let content = &files[0].1;
    assert!(content.contains("[[Survivor]] text"));
    assert!(content.contains("[[Victim]] should not change"));
    assert!(content.contains("[[Survivor]] after"));
}

#[test]
fn test_inline_code_skip() {
    let mut files = one_file("Text [[Victim]] text `[[Victim]] inline` [[Victim]] end");
    let count = replace_wikilinks_in_memory(&mut files, "Victim", "Survivor").unwrap();
    assert_eq!(count, 2);
    let content = &files[0].1;
    assert!(content.starts_with("Text [[Survivor]] text"));
    assert!(content.contains("[[Victim]] inline"));
    assert!(content.ends_with("[[Survivor]] end"));
}

#[test]
fn test_unicode_title() {
    let mut files = one_file("This is [[中文节点]] and [[中文节点扩展]].");
    let count = replace_wikilinks_in_memory(&mut files, "中文节点", "新节点").unwrap();
    assert_eq!(count, 1);
    assert_eq!(files[0].1, "This is [[新节点]] and [[中文节点扩展]].");
}

#[test]
fn test_multiple_occurrences() {
    let mut files = one_file("[[Victim]] first [[Victim]] second [[Victim]] third");
    let count = replace_wikilinks_in_memory(&mut files, "Victim", "Survivor").unwrap();
    assert_eq!(count, 3);
    assert_eq!(files[0].1, "[[Survivor]] first [[Survivor]] second [[Survivor]] third");
}

#[test]
fn test_count_wikilinks_outside_codeblocks() {
    let content = r#"
Text [[Alpha]] here
```
[[Alpha]] in code block
```
`[[Alpha]] inline` and [[Alpha]] outside
"#;
    let count = count_wikilinks_outside_codeblocks(content, "Alpha");
    assert_eq!(count, 2);
}

#[test]
fn test_no_partial_match() {
    let mut files = one_file("[[Victim Extended]] [[Prefix Victim]] [[Victim]]");
    let count = replace_wikilinks_in_memory(&mut files, "Victim", "Survivor").unwrap();
    assert_eq!(count, 1);
    assert_eq!(files[0].1, "[[Victim Extended]] [[Prefix Victim]] [[Survivor]]");
}

#[test]
fn test_empty_files() {
    let mut files: Vec<(String, String)> = Vec::new();
    let count = replace_wikilinks_in_memory(&mut files, "Victim", "Survivor").unwrap();
    assert_eq!(count, 0);
}

#[test]
fn test_no_wikilinks() {
    let mut files = one_file("Just some text without wikilinks");
    let count = replace_wikilinks_in_memory(&mut files, "Victim", "Survivor").unwrap();
    assert_eq!(count, 0);
    assert_eq!(files[0].1, "Just some text without wikilinks");
}

// ── further cases ──

#[test]
fn paths_are_kept_and_counts_summed() {
    let mut files = vec![
        ("a.md".to_string(), "[[X]] [[X]]".to_string()),
        ("b.md".to_string(), "`[[X]]` [[X]]".to_string()),
    ];
    let count = replace_wikilinks_in_memory(&mut files, "X", "Y").unwrap();
    assert_eq!(count, 3);
    assert_eq!(files[0], ("a.md".to_string(), "[[Y]] [[Y]]".to_string()));
    assert_eq!(files[1], ("b.md".to_string(), "`[[X]]` [[Y]]".to_string()));
}

#[test]
fn code_ranges_are_byte_ranges() {
    let ranges = extract_code_ranges("é `x` y");
    assert_eq!(ranges, vec![CodeRange { start: 3, end: 6 }]);
}

#[test]
fn counting_with_given_ranges() {
    let code = vec![CodeRange { start: 0, end: 3 }];
    assert_eq!(count_links_outside("[[a]] [[a]]", "a", &code), 1);
    assert_eq!(count_links_outside("[[a]] [[a]]", "a", &Vec::new()), 2);
}

#[test]
fn rewriting_with_given_ranges() {
    let code = vec![CodeRange { start: 6, end: 7 }];
    let (text, n) = rewrite_links_outside("[[a]] [[a]]", "a", "bb", &code);
    assert_eq!(text, "[[bb]] [[a]]");
    assert_eq!(n, 1);
}

#[test]
fn renaming_to_same_title_keeps_text() {
    let mut files = one_file("[[a]] and [[a]]");
    let count = replace_wikilinks_in_memory(&mut files, "a", "a").unwrap();
    assert_eq!(count, 2);
    assert_eq!(files[0].1, "[[a]] and [[a]]");
}

#[test]
fn merge_preview_sums_links_per_file() {
    let files = vec![
        ("a.md".to_string(), "[[Old]] and [[Older]] and [[Old]]".to_string()),
        ("b.md".to_string(), "`[[Old]]` only in code".to_string()),
        ("c.md".to_string(), "[[Older]]".to_string()),
        ("d.md".to_string(), "nothing".to_string()),
    ];
    let p = merge_preview(&files, &vec!["Old".to_string(), "Older".to_string()]);
    assert_eq!(p.files_to_modify, 2);
    assert_eq!(p.total_wikilinks, 4);
    assert_eq!(p.affected_files.len(), 2);
    assert_eq!(p.affected_files[0].path, "a.md");
    assert_eq!(p.affected_files[0].link_count, 3);
    assert_eq!(p.affected_files[1].path, "c.md");
    assert_eq!(p.affected_files[1].link_count, 1);
    let none = merge_preview(&files, &vec![]);
    assert_eq!(none.files_to_modify, 0);
    assert_eq!(none.total_wikilinks, 0);
}
