use djanco::attrib::Filter;
use djanco::data::{CacheData, Database};
use djanco::ids::ProjectId;
use djanco::objects::{Head, ProjectMetadata};
use djanco::query::project::{Language, Stars, URL};
use djanco::query::require::{And, AtLeast, AtMost, Contains, Equal, Exists, LessThan, Matches, Missing, MoreThan, Not, Or, Same};
use djanco::source::Source;

fn db_with_metadata() -> Database {
    let mut src = Source::new();
    src.project_urls = vec![
        (0, "https://example.com/a.git".to_string()),
        (1, "https://example.com/b.git".to_string()),
    ];
    let mut meta = ProjectMetadata::empty();
    meta.star_count = Some(10);
    meta.language = Some("Rust".to_string());
    // only project 0 carries metadata; project 1's attributes are absent
    src.project_metadata = vec![(0, meta)];
    Database::from_store(src, "cache", CacheData::empty())
}

#[test]
fn missing_attribute_policy() {
    let mut db = db_with_metadata();
    let absent = db.project(ProjectId(1)).unwrap();
    // absent is treated as infinitely large: AtLeast and MoreThan accept
    assert!(AtLeast(Stars, 5).accept(&mut db, &absent));
    assert!(MoreThan(Stars, 5).accept(&mut db, &absent));
    // the downward comparisons reject an absent value
    assert!(!LessThan(Stars, 5).accept(&mut db, &absent));
    assert!(!AtMost(Stars, 5).accept(&mut db, &absent));
    assert!(!Equal(Stars, 5).accept(&mut db, &absent));
}

#[test]
fn present_attribute_comparisons() {
    let mut db = db_with_metadata();
    let p = db.project(ProjectId(0)).unwrap();
    assert!(AtLeast(Stars, 10).accept(&mut db, &p));
    assert!(!MoreThan(Stars, 10).accept(&mut db, &p));
    assert!(LessThan(Stars, 11).accept(&mut db, &p));
    assert!(AtMost(Stars, 10).accept(&mut db, &p));
    assert!(Equal(Stars, 10).accept(&mut db, &p));
    assert!(!Equal(Stars, 9).accept(&mut db, &p));
}

#[test]
fn boolean_and_existential_filters() {
    let mut db = db_with_metadata();
    let p = db.project(ProjectId(0)).unwrap();
    let absent = db.project(ProjectId(1)).unwrap();
    assert!(And(AtLeast(Stars, 5), LessThan(Stars, 20)).accept(&mut db, &p));
    assert!(!And(AtLeast(Stars, 5), LessThan(Stars, 10)).accept(&mut db, &p));
    assert!(Or(Equal(Stars, 9), Equal(Stars, 10)).accept(&mut db, &p));
    assert!(Not(Equal(Stars, 9)).accept(&mut db, &p));
    assert!(Exists(Stars).accept(&mut db, &p));
    assert!(!Exists(Stars).accept(&mut db, &absent));
    assert!(Missing(Stars).accept(&mut db, &absent));
    assert!(!Missing(Stars).accept(&mut db, &p));
}

#[test]
fn string_filters() {
    let mut db = db_with_metadata();
    let p = db.project(ProjectId(0)).unwrap();
    assert!(Same(Language, "Rust".to_string()).accept(&mut db, &p));
    assert!(!Same(Language, "C".to_string()).accept(&mut db, &p));
    assert!(Contains(URL, "example.com".to_string()).accept(&mut db, &p));
    assert!(!Contains(URL, "elsewhere".to_string()).accept(&mut db, &p));
    // the regular-expression filter reaches the real matcher
    assert!(Matches(URL, "^https://.*git$".to_string()).accept(&mut db, &p));
    assert!(!Matches(URL, "^ftp://".to_string()).accept(&mut db, &p));
    // a pattern that does not compile rejects
    assert!(!Matches(URL, "(".to_string()).accept(&mut db, &p));
}
