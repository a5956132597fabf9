use djanco::data::{CacheData, Database};
use djanco::objects::ProjectMetadata;
use djanco::selectors::group_by_language_order_by_stars_top_n;
use djanco::source::Source;

fn meta(language: Option<&str>, stars: Option<u64>) -> ProjectMetadata {
    let mut m = ProjectMetadata::empty();
    m.language = language.map(|s| s.to_string());
    m.star_count = stars;
    m
}

fn selector_db() -> Database {
    let mut src = Source::new();
    src.project_urls = (0..5u64)
        .map(|i| (i, format!("https://example.com/p{}.git", i)))
        .collect();
    // languages and stars: two groups plus the projects with no language
    src.project_metadata = vec![
        (0, meta(Some("Rust"), Some(5))),
        (1, meta(Some("Rust"), Some(10))),
        (2, meta(Some("C"), None)),
        (3, meta(Some("C"), Some(3))),
        // project 4 has no metadata record at all
    ];
    Database::from_store(src, "cache", CacheData::empty())
}

#[test]
fn top_one_per_language() {
    let mut db = selector_db();
    // groups appear in first-appearance order: Rust, C, no-language;
    // within each group stars order descending, starless last
    let r = group_by_language_order_by_stars_top_n(&mut db, 1);
    assert_eq!(r, vec![1, 3, 4]);
}

#[test]
fn top_two_per_language() {
    let mut db = selector_db();
    let r = group_by_language_order_by_stars_top_n(&mut db, 2);
    assert_eq!(r, vec![1, 0, 3, 2, 4]);
}

#[test]
fn top_zero_selects_nothing() {
    let mut db = selector_db();
    let r = group_by_language_order_by_stars_top_n(&mut db, 0);
    assert_eq!(r, Vec::<u64>::new());
}
