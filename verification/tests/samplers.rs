use core::marker::PhantomData;
use djanco::attrib::Sampler;
use djanco::data::{CacheData, Database};
use djanco::fraction::Fraction;
use djanco::ids::{CommitId, PathId, ProjectId, UserId};
use djanco::objects::Head;
use djanco::query::project::Commits;
use djanco::query::sample::{Distinct, Random, Ratio, Seed, Top};
use djanco::source::{CommitBasics, Source};

fn empty_db() -> Database {
    Database::from_store(Source::new(), "cache", CacheData::empty())
}

#[test]
fn top_truncates_preserving_order() {
    let mut db = empty_db();
    let items: Vec<u64> = vec![5, 3, 9, 1];
    assert_eq!(Top(2).sample(&mut db, items.clone()), vec![5, 3]);
    // truncation keeps min(k, len) elements
    assert_eq!(Top(10).sample(&mut db, items.clone()), vec![5, 3, 9, 1]);
    assert_eq!(Top(0).sample(&mut db, items), Vec::<u64>::new());
}

#[test]
fn random_sampling_is_reproducible() {
    let mut db = empty_db();
    let items: Vec<u64> = (0..100).collect();
    let first = Random(10, Seed(42)).sample(&mut db, items.clone());
    let second = Random(10, Seed(42)).sample(&mut db, items.clone());
    // the same seed always yields the same output sequence
    assert_eq!(first, second);
    assert_eq!(first.len(), 10);
    // sampling is without replacement, from the input collection
    for (i, a) in first.iter().enumerate() {
        assert!(items.contains(a));
        for (j, b) in first.iter().enumerate() {
            if i != j {
                assert_ne!(a, b);
            }
        }
    }
    // a short collection is returned whole
    let few: Vec<u64> = vec![1, 2, 3];
    assert_eq!(Random(10, Seed(1)).sample(&mut db, few).len(), 3);
}

#[test]
fn seed_bytes() {
    let s = Seed(0x0102_0304_0506_0708_090a_0b0c_0d0e_0f10u128);
    let be = s.to_be_bytes();
    assert_eq!(be[0], 1);
    assert_eq!(be[15], 0x10);
    let le = s.to_le_bytes();
    assert_eq!(le[0], 0x10);
    assert_eq!(le[15], 1);
}

#[test]
fn distinct_deduplicates_by_commit_overlap() {
    let mut src = Source::new();
    src.project_urls = vec![
        (0, "https://example.com/a.git".to_string()),
        (1, "https://example.com/a-fork.git".to_string()),
        (2, "https://example.com/other.git".to_string()),
    ];
    src.project_heads = vec![
        (0, vec![Head::new("main".to_string(), CommitId(3))]),
        (1, vec![Head::new("main".to_string(), CommitId(4))]),
        (2, vec![]),
    ];
    src.commits = vec![
        (0, commit(7, 10, vec![])),
        (1, commit(7, 20, vec![0])),
        (2, commit(8, 25, vec![0])),
        (3, commit(7, 50, vec![1, 2])),
        (4, commit(8, 60, vec![1])),
    ];
    src.users = vec![(7, "a@example.com".to_string()), (8, "b@example.com".to_string())];
    let mut db = Database::from_store(src, "cache", CacheData::empty());
    let p0 = db.project(ProjectId(0)).unwrap();
    let p1 = db.project(ProjectId(1)).unwrap();
    let p2 = db.project(ProjectId(2)).unwrap();
    // project 0 reaches {0,1,2,3}; project 1 reaches {0,1,4}: it shares
    // half of project 0's commits, above a third, so it is dropped;
    // project 2 reaches nothing and stays
    let sampler = Distinct(Top(10), Ratio(Commits, Fraction::new(1, 3), PhantomData));
    let kept = sampler.sample(&mut db, vec![p0, p1, p2]);
    let ids: Vec<u64> = kept.iter().map(|p| p.id.0).collect();
    assert_eq!(ids, vec![0, 2]);
}

fn commit(user: u64, time: i64, parents: Vec<u64>) -> CommitBasics {
    CommitBasics {
        committer: UserId(user),
        committer_time: time,
        author: UserId(user),
        author_time: time,
        parents: parents.into_iter().map(CommitId).collect(),
        changes: vec![(PathId(0), 1)],
        message: "m".to_string(),
    }
}
