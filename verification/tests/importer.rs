//! Importing cards from Markdown documents and archive entries.

use memory_stream::admin::card_document::parse_markdown_document;
use memory_stream::admin::importer::{
    card_from_zip_entry, classify_zip_entry, extract_first_heading, parse_markdown_bytes, EntryKind, ImportError,
};

#[test]
fn valid_front_matter_names_the_card() {
    let text = "---\ntitle: My Card\ncategory: Tech\ntags:\n  - rust\n  - tauri\n---\n# My Card\nContent here.\n";
    let card = parse_markdown_bytes(text.as_bytes(), "/vault/test.md", "test");
    assert_eq!(card.title, "My Card");
    assert_eq!(card.category, Some("Tech".to_string()));
    assert_eq!(card.tags, vec!["rust", "tauri"]);
    assert!(card.body_md.contains("Content here."));
    assert_eq!(card.source_path, "/vault/test.md");
}

#[test]
fn without_front_matter_the_heading_names_the_card() {
    let card = parse_markdown_bytes(b"# No Frontmatter\nJust content.\n", "t.md", "t");
    assert_eq!(card.title, "No Frontmatter");
    assert_eq!(card.category, None);
    assert_eq!(card.tags.len(), 0);
    assert_eq!(card.body_md, "# No Frontmatter\nJust content.");
}

#[test]
fn byte_order_mark_is_dropped() {
    let mut bytes = vec![0xEF, 0xBB, 0xBF];
    bytes.extend_from_slice(b"# BOM Card\n");
    let card = parse_markdown_bytes(&bytes, "bom.md", "bom");
    assert_eq!(card.title, "BOM Card");
}

#[test]
fn malformed_yaml_falls_back_to_the_heading() {
    let card = parse_markdown_bytes(b"---\ninvalid: {{}\n---\n# Fallback Title\n", "bad.md", "bad");
    assert_eq!(card.title, "Fallback Title");
}

#[test]
fn empty_file_uses_the_stem() {
    let card = parse_markdown_bytes(b"", "MyCard.md", "MyCard");
    assert_eq!(card.title, "MyCard");
    assert_eq!(card.body_md, "");
}

#[test]
fn first_heading_is_the_first_level_one_heading() {
    assert_eq!(extract_first_heading("intro\n  #  Title  \n# Other"), Some("Title".to_string()));
    assert_eq!(extract_first_heading("## Two\n# One\n"), Some("One".to_string()));
    assert_eq!(extract_first_heading("#NoSpace"), None);
    assert_eq!(extract_first_heading("   # Indented  "), Some("Indented".to_string()));
}

#[test]
fn archive_entries_are_classified_by_suffix() {
    assert_eq!(classify_zip_entry("card1.md"), EntryKind::Markdown);
    assert_eq!(classify_zip_entry("docs/advanced/deep.md"), EntryKind::Markdown);
    for name in ["photo.png", "diagram.jpg", "x.jpeg", "animation.gif", "modern.webp"] {
        assert_eq!(classify_zip_entry(name), EntryKind::Image);
    }
    for name in ["binary.exe", "document.pdf", "archive.zip", "md"] {
        assert_eq!(classify_zip_entry(name), EntryKind::Skip);
    }
}

#[test]
fn archive_card_with_front_matter() {
    let card = card_from_zip_entry("meta.md", "---\ntitle: Meta Card\ncategory: Test\ntags:\n  - tag1\n---\n\n# Content");
    assert_eq!(card.title, "Meta Card");
    assert_eq!(card.category, Some("Test".to_string()));
    assert_eq!(card.tags, vec!["tag1"]);
    assert_eq!(card.body_md, "# Content");
    assert_eq!(card.source_path, "meta.md");
}

#[test]
fn archive_card_titles_fall_back_to_heading_then_stem() {
    assert_eq!(card_from_zip_entry("card1.md", "# Card 1\n\nContent 1").title, "Card 1");
    assert_eq!(card_from_zip_entry("NoTitle.md", "Just some content without heading.").title, "NoTitle");
    assert_eq!(card_from_zip_entry("docs/another_one.md", "More content here.").title, "another_one");
    assert_eq!(card_from_zip_entry("NoH1File.md", "## Introduction\n\nSome intro.").title, "NoH1File");
    assert_eq!(card_from_zip_entry("multi_h1.md", "# First Heading\n\n# Second Heading").title, "First Heading");
}

#[test]
fn archive_card_tag_forms() {
    let flow = card_from_zip_entry("flow.md", "---\ntitle: Flow Style\ntags: [tag1, tag2, tag3]\n---\n\n# Flow");
    assert_eq!(flow.tags, vec!["tag1", "tag2", "tag3"]);
    let empty = card_from_zip_entry("no_tags.md", "---\ntitle: No Tags\ncategory: Test\ntags: []\n---\n\n# Content");
    assert_eq!(empty.tags.len(), 0);
    let only = card_from_zip_entry("meta_only.md", "---\ntitle: Metadata Only\ncategory: Meta\ntags:\n  - empty\n---\n");
    assert_eq!(only.title, "Metadata Only");
    assert!(only.body_md.is_empty());
}

#[test]
fn archive_card_with_special_characters() {
    let card = card_from_zip_entry(
        "special.md",
        "---\ntitle: 'Title with \"quotes\" and symbols: @#$%'\ncategory: Special-Chars_123\ntags:\n  - 'tag with spaces'\n  - unicode-中文\n---\n\n# Special Content",
    );
    assert!(card.title.contains("quotes"));
    assert!(card.title.contains("@"));
    assert_eq!(card.category, Some("Special-Chars_123".to_string()));
    assert!(card.tags.contains(&"tag with spaces".to_string()));
    assert!(card.tags.contains(&"unicode-中文".to_string()));
}

#[test]
fn import_error_messages() {
    assert_eq!(ImportError::IoError("x".to_string()).message(), "IO Error: x");
    assert_eq!(ImportError::ParseError("y".to_string()).message(), "Parse Error: y");
    assert_eq!(ImportError::InvalidFormat("z".to_string()).message(), "Invalid Format: z");
}

#[test]
fn card_documents_are_read_with_their_metadata() {
    let raw = "---\nuuid: u-1\ntitle: Rust\ncategory: Tech\ncreated_at: '2024-01-01T00:00:00Z'\nupdated_at: '2024-01-02T00:00:00Z'\n---\n# Rust\n\nSee [[Go]] and [[Go]].\n";
    let card = parse_markdown_document(raw).unwrap();
    let meta = card.meta.unwrap();
    assert_eq!(meta.uuid, "u-1");
    assert_eq!(meta.title, "Rust");
    assert_eq!(meta.category, "Tech");
    assert_eq!(meta.created_at, "2024-01-01T00:00:00Z");
    assert_eq!(card.toc.len(), 1);
    assert_eq!(card.toc[0].text, "Rust");
    assert_eq!(card.outbound_links, 1);
    assert_eq!(card.excerpt, "# Rust");
    assert!(card.content.starts_with("# Rust"));

    let partial = parse_markdown_document("---\nuuid: u-2\ntitle: T\n---\nbody").unwrap();
    assert!(partial.meta.is_none());
    assert_eq!(partial.content, "body");
    assert_eq!((partial.lines, partial.chars, partial.words), (1, 4, 1));

    let plain = parse_markdown_document("no front matter").unwrap();
    assert!(plain.meta.is_none());
    assert_eq!(plain.content, "no front matter");
}
