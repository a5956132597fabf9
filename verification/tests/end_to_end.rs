use djanco::ids::{CommitId, PathId, ProjectId, SnapshotId, UserId};
use djanco::objects::Head;
use djanco::source::{CommitBasics, Source};
use djanco::data::{CacheData, Database};

/// A toy dataset: three projects, five commits, two users.
///
/// Commit graph: project 0 has head at commit 3, a diamond merge
/// (3 -> {1, 2} -> 0); project 1 has head at commit 4 (4 -> 1 -> 0);
/// project 2 has no heads.
pub fn toy_source() -> Source {
    let mut src = Source::new();
    src.project_urls = vec![
        (0, "https://example.com/a.git".to_string()),
        (1, "https://example.com/b.git".to_string()),
        (2, "https://example.com/c.git".to_string()),
    ];
    src.project_heads = vec![
        (0, vec![Head::new("main".to_string(), CommitId(3))]),
        (1, vec![Head::new("main".to_string(), CommitId(4))]),
        (2, vec![]),
    ];
    src.commits = vec![
        (
            0,
            CommitBasics {
                committer: UserId(7),
                committer_time: 10,
                author: UserId(7),
                author_time: 10,
                parents: vec![],
                changes: vec![(PathId(0), 100)],
                message: "root".to_string(),
            },
        ),
        (
            1,
            CommitBasics {
                committer: UserId(8),
                committer_time: 20,
                author: UserId(7),
                author_time: 18,
                parents: vec![CommitId(0)],
                changes: vec![(PathId(1), 101)],
                message: "left".to_string(),
            },
        ),
        (
            2,
            CommitBasics {
                committer: UserId(8),
                committer_time: 25,
                author: UserId(8),
                author_time: 24,
                parents: vec![CommitId(0)],
                changes: vec![],
                message: "right".to_string(),
            },
        ),
        (
            3,
            CommitBasics {
                committer: UserId(7),
                committer_time: 50,
                author: UserId(7),
                author_time: 50,
                parents: vec![CommitId(1), CommitId(2)],
                changes: vec![(PathId(0), 102)],
                message: "merge".to_string(),
            },
        ),
        (
            4,
            CommitBasics {
                committer: UserId(8),
                committer_time: 60,
                author: UserId(8),
                author_time: 58,
                parents: vec![CommitId(1)],
                changes: vec![],
                message: "tip".to_string(),
            },
        ),
    ];
    src.commit_hashes = vec![
        (0, "c0".to_string()),
        (1, "c1".to_string()),
        (2, "c2".to_string()),
        (3, "c3".to_string()),
        (4, "c4".to_string()),
    ];
    src.users = vec![(7, "seven@example.com".to_string()), (8, "eight@example.com".to_string())];
    src.paths = vec![(0, "src/lib.rs".to_string()), (1, "README.md".to_string())];
    src.contents = vec![(1000, 100), (1001, 101), (1002, 102)];
    src.snapshot_bytes = vec![];
    src
}

pub fn toy_db() -> Database {
    Database::from_store(toy_source(), "cache", CacheData::empty())
}

#[test]
fn diamond_reachability_each_commit_once() {
    let mut db = toy_db();
    // project 0: head 3, diamond 3 -> {1, 2} -> 0; every commit exactly once
    let cids = db.project_commit_ids(ProjectId(0)).unwrap();
    assert_eq!(cids, vec![0, 1, 2, 3]);
    // project 1: chain 4 -> 1 -> 0
    let cids1 = db.project_commit_ids(ProjectId(1)).unwrap();
    assert_eq!(cids1, vec![0, 1, 4]);
    // project 2: no heads reach nothing
    let cids2 = db.project_commit_ids(ProjectId(2)).unwrap();
    assert_eq!(cids2, Vec::<u64>::new());
}

#[test]
fn smart_load_idempotent() {
    let mut db = toy_db();
    let first = db.project_commit_ids(ProjectId(0)).unwrap();
    let second = db.project_commit_ids(ProjectId(0)).unwrap();
    assert_eq!(first, second);
    let e1 = db.user_experience(UserId(7));
    let e2 = db.user_experience(UserId(7));
    assert_eq!(e1, e2);
}

#[test]
fn end_to_end_export_reimport() {
    let mut db = toy_db();
    // project -> commit relation
    let pids = db.all_project_ids();
    let pcm = djanco::dump::dump_project_commit_map(&mut db, &pids);
    let rows = djanco::export::parse_pairs("project_id,commit_id", &pcm).unwrap();
    let mut expected: Vec<(u64, u64)> = Vec::new();
    for p in &pids {
        if let Some(cids) = db.project_commit_ids(ProjectId(*p)) {
            for c in cids {
                expected.push((*p, c));
            }
        }
    }
    assert_eq!(rows, expected);

    // commit -> author and commit -> committer relations
    let mut author_rows: Vec<(u64, u64)> = Vec::new();
    let mut committer_rows: Vec<(u64, u64)> = Vec::new();
    for c in db.all_commit_ids() {
        let cm = db.commit(CommitId(c)).unwrap();
        author_rows.push((c, cm.author_id().0));
        committer_rows.push((c, cm.committer_id().0));
    }
    let a_lines = djanco::export::render_pairs("commit_id,author_id", &author_rows);
    let c_lines = djanco::export::render_pairs("commit_id,committer_id", &committer_rows);
    let a_back = djanco::export::parse_pairs("commit_id,author_id", &a_lines).unwrap();
    let c_back = djanco::export::parse_pairs("commit_id,committer_id", &c_lines).unwrap();
    assert_eq!(a_back, author_rows);
    assert_eq!(c_back, committer_rows);

    // timestamp relation: committer timestamps as (id, shifted) pairs
    let mut ts_rows: Vec<(u64, u64)> = Vec::new();
    for c in db.all_commit_ids() {
        let t = db.commit_committer_timestamp(CommitId(c)).unwrap();
        ts_rows.push((c, t as u64));
    }
    let t_lines = djanco::export::render_pairs("commit_id,committer_time", &ts_rows);
    let t_back = djanco::export::parse_pairs("commit_id,committer_time", &t_lines).unwrap();
    assert_eq!(t_back, ts_rows);

    // re-imported relations agree with direct accessor calls
    for (c, u) in a_back {
        assert_eq!(db.commit(CommitId(c)).unwrap().author_id(), UserId(u));
    }
    for (c, t) in t_back {
        assert_eq!(db.commit_committer_timestamp(CommitId(c)).unwrap(), t as i64);
    }
}

#[test]
fn cache_round_trip_matches_fresh_computation() {
    // compute the derived table directly from freshly loaded prerequisites
    let src = toy_source();
    let heads = djanco::extract::extract_project_heads(&src);
    let commits = djanco::extract::extract_commits(&src);
    let table = djanco::extract::extract_project_commits(&heads, &commits);
    let words = table.encode();

    // a database loading that table from its persisted words answers
    // identically to one that computes it
    let mut cache = CacheData::empty();
    cache.project_commits = Some(words);
    let mut db_cached = Database::from_store(toy_source(), "cache", cache);
    let mut db_fresh = toy_db();
    for p in 0..3u64 {
        assert_eq!(
            db_cached.project_commit_ids(ProjectId(p)),
            db_fresh.project_commit_ids(ProjectId(p))
        );
    }
}

#[test]
fn corrupt_cache_falls_back_to_recomputation() {
    let mut cache = CacheData::empty();
    cache.project_commits = Some(vec![9999, 1, 2, 3]);
    let mut db_cached = Database::from_store(toy_source(), "cache", cache);
    let mut db_fresh = toy_db();
    for p in 0..3u64 {
        assert_eq!(
            db_cached.project_commit_ids(ProjectId(p)),
            db_fresh.project_commit_ids(ProjectId(p))
        );
    }
}

#[test]
fn table_codec_round_trips() {
    let mut t: djanco::table::Table<u64> = djanco::table::Table::new();
    t.append(1, 10);
    t.append(5, 50);
    t.append(9, 90);
    let words = t.encode();
    let back: djanco::table::Table<u64> = djanco::table::Table::decode(&words).unwrap();
    assert_eq!(back.len(), 3);
    assert_eq!(back.get(5), Some(&50));
    assert_eq!(back.get(2), None);

    // a table of heads, strings included, reloads exactly
    let mut h: djanco::table::Table<Vec<Head>> = djanco::table::Table::new();
    h.append(0, vec![Head::new("main".to_string(), CommitId(3))]);
    let hw = h.encode();
    let hback: djanco::table::Table<Vec<Head>> = djanco::table::Table::decode(&hw).unwrap();
    assert_eq!(hback.len(), 1);
    let hs = hback.get(0).unwrap();
    assert_eq!(hs.len(), 1);
    assert_eq!(hs[0].name(), "main");
    assert_eq!(hs[0].commit_id(), CommitId(3));

    // a malformed stream is a cache miss, never a table
    let bad: Option<djanco::table::Table<u64>> = djanco::table::Table::decode(&vec![1]);
    assert!(bad.is_none());
    // unsorted keys are malformed too
    let mut t2: djanco::table::Table<u64> = djanco::table::Table::new();
    t2.append(1, 10);
    let mut w2 = t2.encode();
    let mut w3 = t2.encode();
    w2.append(&mut w3);
    let bad2: Option<djanco::table::Table<u64>> = djanco::table::Table::decode(&w2);
    assert!(bad2.is_none());
}

#[test]
fn experience_spans() {
    let mut db = toy_db();
    // user 7 committed at {10, 50}: experience span 40
    assert_eq!(db.user_committed_experience(UserId(7)).unwrap().as_secs(), 40);
    // user 8 committed at {20, 25, 60}: span 40
    assert_eq!(db.user_committed_experience(UserId(8)).unwrap().as_secs(), 40);
    // a user with no commits has no experience value
    assert_eq!(db.user_committed_experience(UserId(99)), None);
    // a user with exactly one commit has zero experience
    let mut src = toy_source();
    src.commits.truncate(1);
    src.commit_hashes.truncate(1);
    let mut db_one = Database::from_store(src, "cache", CacheData::empty());
    assert_eq!(db_one.user_committed_experience(UserId(7)).unwrap().as_secs(), 0);
    assert_eq!(db_one.user_author_experience(UserId(7)).unwrap().as_secs(), 0);
}

#[test]
fn lifetime_and_counts() {
    let mut db = toy_db();
    // project 0 commits carry timestamps 10..50 (author and committer)
    assert_eq!(db.project_lifetime(ProjectId(0)).unwrap().as_secs(), 40);
    assert_eq!(db.project_commit_count(ProjectId(0)), Some(4));
    assert_eq!(db.project_commit_count(ProjectId(2)), Some(0));
    assert_eq!(db.project_commit_count(ProjectId(77)), None);
    assert_eq!(db.user_committed_commit_count(UserId(8)), Some(3));
    // project users: committers first, then authors, first occurrences kept
    assert_eq!(db.project_user_ids(ProjectId(0)).unwrap(), vec![7, 8]);
    assert_eq!(db.project_author_ids(ProjectId(1)).unwrap(), vec![7, 8]);
    // changed paths of the project
    assert_eq!(db.project_path_ids(ProjectId(0)).unwrap(), vec![0, 1]);
    // snapshots resolved through the content-hash mapping
    assert_eq!(db.project_snapshot_ids(ProjectId(0)).unwrap(), vec![1000, 1001, 1002]);
}
