//! Layout of knowledge-base export archives.

use memory_stream::ms_io::{export_entries, total_images, EntrySource, ExportOptions, KbCard, KbImage};

fn card(cat: &str, title: &str, images: &[&str]) -> KbCard {
    KbCard {
        category_name: cat.to_string(),
        title: title.to_string(),
        raw_md: format!("# {title}"),
        images: images.iter().map(|f| KbImage { filename: f.to_string(), data: vec![1, 2] }).collect(),
    }
}

#[test]
fn entries_follow_categories_and_titles() {
    let cards = vec![card("Tech", "Rust: Ownership", &["a.png", "b/c.jpg"]), card("../x", "T", &[])];
    let flat = export_entries(&cards, ExportOptions::new());
    let names: Vec<&str> = flat.iter().map(|e| e.0.as_str()).collect();
    assert_eq!(names, vec!["Tech/Rust_ Ownership.md", "images/a.png", "images/b_c.jpg", "_x/T.md"]);
    assert_eq!(flat[0].1, EntrySource::Card(0));
    assert_eq!(flat[2].1, EntrySource::Image(0, 1));
    assert_eq!(flat[3].1, EntrySource::Card(1));
    let beside = export_entries(&cards, ExportOptions { deflate: true, flatten_images: false });
    assert_eq!(beside[1].0, "Tech/a.png");
    assert_eq!(total_images(&cards), Some(2));
    assert_eq!(total_images(&Vec::new()), Some(0));
}
