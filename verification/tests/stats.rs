use core::marker::PhantomData;
use djanco::attrib::OptionGetter;
use djanco::data::{CacheData, Database};
use djanco::fraction::Fraction;
use djanco::ids::{CommitId, PathId, ProjectId, UserId};
use djanco::objects::Head;
use djanco::query::project::Commits;
use djanco::export::{parse_row, parse_rows, render_row, render_rows};
use djanco::query::stats::{mean_of, median_of, min_of, max_of, Median};
use djanco::source::{CommitBasics, Source};
use djanco::Keys;

#[test]
fn median_of_even_collection_is_exact_fraction() {
    let m = median_of(vec![1, 2, 3, 4]).unwrap();
    assert_eq!(m, Fraction::new(5, 2));
}

#[test]
fn median_of_odd_collection() {
    let m = median_of(vec![1, 2, 3]).unwrap();
    assert_eq!(m, Fraction::new(2, 1));
}

#[test]
fn median_handles_unsorted_input_and_empty() {
    assert_eq!(median_of(vec![4, 1, 3, 2]).unwrap(), Fraction::new(5, 2));
    assert_eq!(median_of(vec![]), None);
    assert_eq!(median_of(vec![7]).unwrap(), Fraction::new(7, 1));
}

#[test]
fn mean_is_exact() {
    assert_eq!(mean_of(&vec![1, 2, 3, 4]).unwrap(), Fraction::new(10, 4));
    assert_eq!(mean_of(&vec![]), None);
}

#[test]
fn min_max() {
    assert_eq!(min_of(&vec![5, 2, 9]), Some(2));
    assert_eq!(max_of(&vec![5, 2, 9]), Some(9));
    assert_eq!(min_of(&vec![]), None);
    assert_eq!(max_of(&vec![]), None);
}

#[test]
fn decimal_codec_round_trips() {
    for n in [0u64, 7, 10, 99, 12345, u64::MAX] {
        let s = djanco::export::u64_to_dec(n);
        assert_eq!(djanco::export::parse_dec(s.as_str()), Some(n));
    }
    assert_eq!(djanco::export::u64_to_dec(1234).as_str(), "1234");
    assert_eq!(djanco::export::parse_dec(""), None);
    assert_eq!(djanco::export::parse_dec("01"), None);
    assert_eq!(djanco::export::parse_dec("12x"), None);
    assert_eq!(djanco::export::parse_dec("18446744073709551616"), None);
    assert_eq!(djanco::export::parse_dec("18446744073709551615"), Some(u64::MAX));
}

#[test]
fn pair_lines_round_trip() {
    let rows = vec![(0u64, 3u64), (1, 4), (18446744073709551615, 0)];
    let lines = djanco::export::render_pairs("a,b", &rows);
    assert_eq!(lines[0].as_str(), "a,b");
    assert_eq!(lines[1].as_str(), "0,3");
    let back = djanco::export::parse_pairs("a,b", &lines).unwrap();
    assert_eq!(back, rows);
    assert_eq!(djanco::export::parse_pairs("a,c", &lines), None);
    assert_eq!(djanco::export::parse_pair("12"), None);
    assert_eq!(djanco::export::parse_pair("1,2,3"), None);
}

#[test]
fn median_combinator_over_commit_keys() {
    let mut src = Source::new();
    src.project_urls = vec![(0, "https://example.com/a.git".to_string())];
    src.project_heads = vec![(0, vec![Head::new("main".to_string(), CommitId(3))])];
    let mk = |parents: Vec<u64>| CommitBasics {
        committer: UserId(7),
        committer_time: 1,
        author: UserId(7),
        author_time: 1,
        parents: parents.into_iter().map(CommitId).collect(),
        changes: vec![(PathId(0), 1)],
        message: "m".to_string(),
    };
    src.commits = vec![
        (0, mk(vec![])),
        (1, mk(vec![0])),
        (2, mk(vec![0])),
        (3, mk(vec![1, 2])),
    ];
    src.users = vec![(7, "seven@example.com".to_string())];
    let mut db = Database::from_store(src, "cache", CacheData::empty());
    let p = db.project(ProjectId(0)).unwrap();
    // the project reaches commits {0,1,2,3}: the median of their ids is 3/2
    let med = Median(Keys(Commits, PhantomData)).get_opt(&mut db, &p).unwrap();
    assert_eq!(med, Fraction::new(3, 2));
}

#[test]
fn row_lines_round_trip() {
    assert_eq!(render_row(&vec![1, 2, 3]).as_str(), "1,2,3");
    assert_eq!(render_row(&vec![42]).as_str(), "42");
    assert_eq!(parse_row("1,2,3"), Some(vec![1, 2, 3]));
    assert_eq!(parse_row("42"), Some(vec![42]));
    assert_eq!(parse_row(""), None);
    assert_eq!(parse_row("1,,2"), None);
    assert_eq!(parse_row("1,2x"), None);
    assert_eq!(parse_row("01,2"), None);

    let rows = vec![vec![0u64, 7, 7], vec![1, 8, 7], vec![2, 8, 8]];
    let lines = render_rows("commit_id,committer_id,author_id", &rows);
    assert_eq!(lines[0].as_str(), "commit_id,committer_id,author_id");
    assert_eq!(lines[1].as_str(), "0,7,7");
    let back = parse_rows("commit_id,committer_id,author_id", &lines).unwrap();
    assert_eq!(back, rows);
    assert_eq!(parse_rows("other", &lines), None);
}
