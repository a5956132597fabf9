//! Pure extraction functions: each derived table is computed from the raw
//! store or from prerequisite tables by one function here.

use vstd::prelude::*;
use crate::ids::{CommitId, PathId, SnapshotId};
use crate::codec::Record;
use crate::objects::{Change, Commit, CommitV, Head, HeadV};
use crate::sequences::{dedup_first, seq_max_i64, seq_min_i64, strictly_increasing};
use crate::source::{keys_of, CommitBasics, Source};
use crate::table::{tlookup, Table};

verus! {

/// The project-url table the store holds.
pub open spec fn urls_view(src: Source) -> Seq<(u64, Seq<char>)> {
    src.project_urls@.map(|i: int, r: (u64, String)| (r.0, r.1@))
}

/// The commit-hash table the store holds.
pub open spec fn hashes_view(src: Source) -> Seq<(u64, Seq<char>)> {
    src.commit_hashes@.map(|i: int, r: (u64, String)| (r.0, r.1@))
}

/// The user-email table the store holds.
pub open spec fn users_view(src: Source) -> Seq<(u64, Seq<char>)> {
    src.users@.map(|i: int, r: (u64, String)| (r.0, r.1@))
}

/// The path-location table the store holds.
pub open spec fn paths_view(src: Source) -> Seq<(u64, Seq<char>)> {
    src.paths@.map(|i: int, r: (u64, String)| (r.0, r.1@))
}

/// The commit table: ids, committers, authors and parent lists.
pub open spec fn commits_view(src: Source) -> Seq<(u64, CommitV)> {
    src.commits@.map(
        |i: int, r: (u64, CommitBasics)|
            (
                r.0,
                CommitV {
                    id: r.0,
                    committer: r.1.bv().committer,
                    author: r.1.bv().author,
                    parents: r.1.bv().parents,
                },
            ),
    )
}

/// The commit-message table.
pub open spec fn messages_view(src: Source) -> Seq<(u64, Seq<char>)> {
    src.commits@.map(|i: int, r: (u64, CommitBasics)| (r.0, r.1.bv().message))
}

/// One of the two commit-timestamp tables.
pub open spec fn timestamps_view(src: Source, use_author: bool) -> Seq<(u64, i64)> {
    src.commits@.map(
        |i: int, r: (u64, CommitBasics)|
            (r.0, if use_author { r.1.bv().author_time } else { r.1.bv().committer_time }),
    )
}

/// The project-heads table.
pub open spec fn heads_view(src: Source) -> Seq<(u64, Seq<HeadV>)> {
    src.project_heads@.map(
        |i: int, r: (u64, Vec<Head>)| (r.0, r.1@.map(|j: int, h: Head| h.hv())),
    )
}

/// Build a string-valued table from one sorted store enumeration.
fn string_table(rows: &Vec<(u64, String)>) -> (r: Table<String>)
    requires
        strictly_increasing(keys_of(rows@)),
    ensures
        r.wf(),
        r.tview() == rows@.map(|i: int, e: (u64, String)| (e.0, e.1@)),
{
    let ghost goal = rows@.map(|i: int, e: (u64, String)| (e.0, e.1@));
    let mut t = Table::<String>::new();
    let n = rows.len();
    let mut i: usize = 0;
    proof {
        assert(t.tview() =~= goal.take(0));
    }
    while i < n
        invariant
            n == rows@.len(),
            0 <= i <= n,
            goal == rows@.map(|i: int, e: (u64, String)| (e.0, e.1@)),
            strictly_increasing(keys_of(rows@)),
            t.wf(),
            t.tview() == goal.take(i as int),
        decreases n - i,
    {
        let k = rows[i].0;
        let v = rows[i].1.clone();
        proof {
            assert(keys_of(rows@)[i as int] == k);
            if i > 0 {
                assert(t.tview().last() == goal[i - 1]);
                assert(keys_of(rows@)[i - 1] == rows@[i - 1].0);
            }
        }
        t.append(k, v);
        proof {
            assert(goal[i as int] == (k, rows@[i as int].1@));
            assert(t.tview() =~= goal.take(i + 1));
        }
        i = i + 1;
    }
    proof {
        assert(goal.take(n as int) =~= goal);
    }
    t
}

pub fn extract_project_urls(src: &Source) -> (r: Table<String>)
    requires
        src.wf(),
    ensures
        r.wf(),
        r.tview() == urls_view(*src),
{
    string_table(&src.project_urls)
}

pub fn extract_commit_hashes(src: &Source) -> (r: Table<String>)
    requires
        src.wf(),
    ensures
        r.wf(),
        r.tview() == hashes_view(*src),
{
    string_table(&src.commit_hashes)
}

pub fn extract_users(src: &Source) -> (r: Table<String>)
    requires
        src.wf(),
    ensures
        r.wf(),
        r.tview() == users_view(*src),
{
    string_table(&src.users)
}

pub fn extract_paths(src: &Source) -> (r: Table<String>)
    requires
        src.wf(),
    ensures
        r.wf(),
        r.tview() == paths_view(*src),
{
    string_table(&src.paths)
}

pub fn extract_commits(src: &Source) -> (r: Table<Commit>)
    requires
        src.wf(),
    ensures
        r.wf(),
        r.tview() == commits_view(*src),
{
    let ghost goal = commits_view(*src);
    let mut t = Table::<Commit>::new();
    let n = src.commits.len();
    let mut i: usize = 0;
    proof {
        assert(t.tview() =~= goal.take(0));
    }
    while i < n
        invariant
            n == src.commits@.len(),
            0 <= i <= n,
            goal == commits_view(*src),
            src.wf(),
            t.wf(),
            t.tview() == goal.take(i as int),
        decreases n - i,
    {
        let k = src.commits[i].0;
        let b: &CommitBasics = &src.commits[i].1;
        let parents = b.parents.clone();
        proof {
            assert forall|j: int| 0 <= j < parents@.len() implies parents@[j]
                == b.parents@[j] by {
                assert(vstd::pervasive::cloned::<CommitId>(b.parents[j], parents[j]));
            }
            assert(parents@ =~= b.parents@);
        }
        let c = Commit::new(CommitId(k), b.committer, b.author, parents);
        proof {
            assert(keys_of(src.commits@)[i as int] == k);
            if i > 0 {
                assert(t.tview().last() == goal[i - 1]);
                assert(keys_of(src.commits@)[i - 1] == src.commits@[i - 1].0);
            }
            assert(c.cv().parents =~= b.bv().parents);
            assert(c.cv() == goal[i as int].1);
        }
        t.append(k, c);
        proof {
            assert(t.tview() =~= goal.take(i + 1));
        }
        i = i + 1;
    }
    proof {
        assert(goal.take(n as int) =~= goal);
    }
    t
}

pub fn extract_commit_messages(src: &Source) -> (r: Table<String>)
    requires
        src.wf(),
    ensures
        r.wf(),
        r.tview() == messages_view(*src),
{
    let ghost goal = messages_view(*src);
    let mut t = Table::<String>::new();
    let n = src.commits.len();
    let mut i: usize = 0;
    proof {
        assert(t.tview() =~= goal.take(0));
    }
    while i < n
        invariant
            n == src.commits@.len(),
            0 <= i <= n,
            goal == messages_view(*src),
            src.wf(),
            t.wf(),
            t.tview() == goal.take(i as int),
        decreases n - i,
    {
        let k = src.commits[i].0;
        let v = src.commits[i].1.message.clone();
        proof {
            assert(keys_of(src.commits@)[i as int] == k);
            if i > 0 {
                assert(t.tview().last() == goal[i - 1]);
                assert(keys_of(src.commits@)[i - 1] == src.commits@[i - 1].0);
            }
        }
        t.append(k, v);
        proof {
            assert(goal[i as int] == (k, src.commits@[i as int].1.bv().message));
            assert(t.tview() =~= goal.take(i + 1));
        }
        i = i + 1;
    }
    proof {
        assert(goal.take(n as int) =~= goal);
    }
    t
}

pub fn extract_commit_timestamps(src: &Source, use_author: bool) -> (r: Table<i64>)
    requires
        src.wf(),
    ensures
        r.wf(),
        r.tview() == timestamps_view(*src, use_author),
{
    let ghost goal = timestamps_view(*src, use_author);
    let mut t = Table::<i64>::new();
    let n = src.commits.len();
    let mut i: usize = 0;
    proof {
        assert(t.tview() =~= goal.take(0));
    }
    while i < n
        invariant
            n == src.commits@.len(),
            0 <= i <= n,
            goal == timestamps_view(*src, use_author),
            src.wf(),
            t.wf(),
            t.tview() == goal.take(i as int),
        decreases n - i,
    {
        let k = src.commits[i].0;
        let v: i64 = if use_author {
            src.commits[i].1.author_time
        } else {
            src.commits[i].1.committer_time
        };
        proof {
            assert(keys_of(src.commits@)[i as int] == k);
            if i > 0 {
                assert(t.tview().last() == goal[i - 1]);
                assert(keys_of(src.commits@)[i - 1] == src.commits@[i - 1].0);
            }
        }
        t.append(k, v);
        proof {
            assert(goal[i as int] == (k, v));
            assert(t.tview() =~= goal.take(i + 1));
        }
        i = i + 1;
    }
    proof {
        assert(goal.take(n as int) =~= goal);
    }
    t
}

pub fn extract_project_heads(src: &Source) -> (r: Table<Vec<Head>>)
    requires
        src.wf(),
    ensures
        r.wf(),
        r.tview() == heads_view(*src),
{
    let ghost goal = heads_view(*src);
    let mut t = Table::<Vec<Head>>::new();
    let n = src.project_heads.len();
    let mut i: usize = 0;
    proof {
        assert(t.tview() =~= goal.take(0));
    }
    while i < n
        invariant
            n == src.project_heads@.len(),
            0 <= i <= n,
            goal == heads_view(*src),
            src.wf(),
            t.wf(),
            t.tview() == goal.take(i as int),
        decreases n - i,
    {
        let k = src.project_heads[i].0;
        let hs: &Vec<Head> = &src.project_heads[i].1;
        let mut v: Vec<Head> = Vec::new();
        let m = hs.len();
        let mut j: usize = 0;
        while j < m
            invariant
                m == hs@.len(),
                0 <= j <= m,
                v@.len() == j,
                forall|l: int| 0 <= l < j ==> #[trigger] v@[l].hv() == hs@[l].hv(),
            decreases m - j,
        {
            let h = hs[j].clone();
            v.push(h);
            j = j + 1;
        }
        proof {
            assert(keys_of(src.project_heads@)[i as int] == k);
            if i > 0 {
                assert(t.tview().last() == goal[i - 1]);
                assert(keys_of(src.project_heads@)[i - 1] == src.project_heads@[i - 1].0);
            }
            assert(crate::codec::Record::rv(v) =~= hs@.map(|l: int, h: Head| h.hv()));
            assert(goal[i as int].1 == hs@.map(|l: int, h: Head| h.hv()));
        }
        t.append(k, v);
        proof {
            assert(t.tview() =~= goal.take(i + 1));
        }
        i = i + 1;
    }
    proof {
        assert(goal.take(n as int) =~= goal);
    }
    t
}

/// The content snapshot a hash id refers to: the contents enumeration maps
/// snapshot ids to hash ids, and a hash that occurs more than once resolves
/// to the snapshot recorded last.
pub open spec fn hash_to_content(rows: Seq<(u64, u64)>, h: u64) -> Option<u64>
    decreases rows.len(),
{
    if rows.len() == 0 {
        None
    } else if rows.last().1 == h {
        Some(rows.last().0)
    } else {
        hash_to_content(rows.drop_last(), h)
    }
}

/// The snapshot id a content hash resolves to.
pub fn lookup_hash(rows: &Vec<(u64, u64)>, h: u64) -> (r: Option<u64>)
    ensures
        r == hash_to_content(rows@, h),
{
    let mut i = rows.len();
    proof {
        assert(rows@.take(rows@.len() as int) =~= rows@);
    }
    while i > 0
        invariant
            0 <= i <= rows@.len(),
            hash_to_content(rows@, h) == hash_to_content(rows@.take(i as int), h),
        decreases i,
    {
        proof {
            assert(rows@.take(i as int).last() == rows@[i - 1]);
            assert(rows@.take(i as int).drop_last() =~= rows@.take(i - 1));
        }
        if rows[i - 1].1 == h {
            return Some(rows[i - 1].0);
        }
        i = i - 1;
    }
    proof {
        assert(rows@.take(0).len() == 0);
    }
    None
}

/// The commit-changes table: each commit's changed paths, with each content
/// hash resolved to its snapshot id.
pub open spec fn changes_view(src: Source) -> Seq<(u64, Seq<(u64, Option<u64>)>)> {
    src.commits@.map(
        |i: int, r: (u64, CommitBasics)|
            (
                r.0,
                r.1.bv().changes.map(
                    |j: int, c: (u64, u64)| (c.0, hash_to_content(src.contents@, c.1)),
                ),
            ),
    )
}

pub fn extract_commit_changes(src: &Source) -> (r: Table<Vec<Change>>)
    requires
        src.wf(),
    ensures
        r.wf(),
        r.tview() == changes_view(*src),
{
    let ghost goal = changes_view(*src);
    let mut t = Table::<Vec<Change>>::new();
    let n = src.commits.len();
    let mut i: usize = 0;
    proof {
        assert(t.tview() =~= goal.take(0));
    }
    while i < n
        invariant
            n == src.commits@.len(),
            0 <= i <= n,
            goal == changes_view(*src),
            src.wf(),
            t.wf(),
            t.tview() == goal.take(i as int),
        decreases n - i,
    {
        let k = src.commits[i].0;
        let chs: &Vec<(PathId, u64)> = &src.commits[i].1.changes;
        let mut v: Vec<Change> = Vec::new();
        let m = chs.len();
        let mut j: usize = 0;
        while j < m
            invariant
                m == chs@.len(),
                0 <= j <= m,
                v@.len() == j,
                forall|l: int|
                    0 <= l < j ==> #[trigger] v@[l].rv() == (
                    chs@[l].0.0,
                    hash_to_content(src.contents@, chs@[l].1),
                    ),
            decreases m - j,
        {
            let snap = match lookup_hash(&src.contents, chs[j].1) {
                Some(c) => Some(SnapshotId(c)),
                None => None,
            };
            let ch = Change::new(chs[j].0, snap);
            v.push(ch);
            j = j + 1;
        }
        proof {
            assert(keys_of(src.commits@)[i as int] == k);
            if i > 0 {
                assert(t.tview().last() == goal[i - 1]);
                assert(keys_of(src.commits@)[i - 1] == src.commits@[i - 1].0);
            }
            assert(crate::codec::Record::rv(v) =~= goal[i as int].1);
        }
        t.append(k, v);
        proof {
            assert(t.tview() =~= goal.take(i + 1));
        }
        i = i + 1;
    }
    proof {
        assert(goal.take(n as int) =~= goal);
    }
    t
}

/// The count table of a collection-valued table: the same keys, each mapped
/// to how many items its collection holds.
pub open spec fn counts_view<T>(t: Seq<(u64, Seq<T>)>) -> Seq<(u64, u64)> {
    t.map(|i: int, e: (u64, Seq<T>)| (e.0, e.1.len() as u64))
}

pub fn extract_counts<V: Record>(t: &Table<Vec<V>>) -> (r: Table<u64>)
    requires
        t.wf(),
    ensures
        r.wf(),
        r.tview() == counts_view::<V::RV>(t.tview()),
{
    let ghost goal = counts_view::<V::RV>(t.tview());
    let mut out = Table::<u64>::new();
    let n = t.len();
    let mut i: usize = 0;
    proof {
        assert(out.tview() =~= goal.take(0));
    }
    while i < n
        invariant
            n == t.tview().len(),
            0 <= i <= n,
            goal == counts_view::<V::RV>(t.tview()),
            t.wf(),
            out.wf(),
            out.tview() == goal.take(i as int),
        decreases n - i,
    {
        let k = t.key_at(i);
        let v: &Vec<V> = t.value_at(i);
        let c = v.len();
        proof {
            assert(crate::codec::Record::rv(*v).len() == v@.len());
            if i > 0 {
                assert(out.tview().last() == goal[i - 1]);
            }
        }
        out.append(k, c as u64);
        proof {
            assert(goal[i as int] == (k, c as u64));
            assert(out.tview() =~= goal.take(i + 1));
        }
        i = i + 1;
    }
    proof {
        assert(goal.take(n as int) =~= goal);
    }
    out
}

/// The head commit ids of a project's branch heads.
pub open spec fn head_roots(hs: Seq<HeadV>) -> Seq<u64> {
    hs.map(|i: int, h: HeadV| h.commit)
}

/// The commits a project reaches: the unique sorted enumeration of the
/// ids reachable from its heads.
pub open spec fn reach_sorted(ctv: Seq<(u64, CommitV)>, roots: Seq<u64>) -> Seq<u64> {
    choose|s: Seq<u64>|
        strictly_increasing(s) && (forall|c: u64|
            s.contains(c) <==> crate::reach::reachable_from(ctv, roots, c))
}

pub proof fn lemma_reach_sorted_eq(ctv: Seq<(u64, CommitV)>, roots: Seq<u64>, s: Seq<u64>)
    requires
        strictly_increasing(s),
        forall|c: u64| s.contains(c) <==> crate::reach::reachable_from(ctv, roots, c),
    ensures
        s == reach_sorted(ctv, roots),
{
    assert(strictly_increasing(s) && (forall|c: u64|
        s.contains(c) <==> crate::reach::reachable_from(ctv, roots, c)));
    let s2 = reach_sorted(ctv, roots);
    crate::sequences::lemma_increasing_unique(s, s2);
}

/// The project-commits table: each project's heads expanded to the full
/// set of reachable commits.
pub open spec fn project_commits_of(
    heads_tv: Seq<(u64, Seq<HeadV>)>,
    ctv: Seq<(u64, CommitV)>,
) -> Seq<(u64, Seq<u64>)> {
    heads_tv.map(|i: int, e: (u64, Seq<HeadV>)| (e.0, reach_sorted(ctv, head_roots(e.1))))
}

pub fn extract_project_commits(heads: &Table<Vec<Head>>, commits: &Table<Commit>) -> (r: Table<
    Vec<u64>,
>)
    requires
        heads.wf(),
        commits.wf(),
    ensures
        r.wf(),
        r.tview() == project_commits_of(heads.tview(), commits.tview()),
{
    let ghost goal = project_commits_of(heads.tview(), commits.tview());
    let mut t = Table::<Vec<u64>>::new();
    let n = heads.len();
    let mut i: usize = 0;
    proof {
        assert(t.tview() =~= goal.take(0));
    }
    while i < n
        invariant
            n == heads.tview().len(),
            0 <= i <= n,
            goal == project_commits_of(heads.tview(), commits.tview()),
            heads.wf(),
            commits.wf(),
            t.wf(),
            t.tview() == goal.take(i as int),
        decreases n - i,
    {
        let k = heads.key_at(i);
        let hs: &Vec<Head> = heads.value_at(i);
        let mut roots: Vec<u64> = Vec::new();
        let m = hs.len();
        let mut j: usize = 0;
        while j < m
            invariant
                m == hs@.len(),
                0 <= j <= m,
                roots@.len() == j,
                forall|l: int| 0 <= l < j ==> roots@[l] == #[trigger] hs@[l].hv().commit,
            decreases m - j,
        {
            let c = hs[j].commit_id();
            roots.push(c.0);
            j = j + 1;
        }
        proof {
            assert(roots@ =~= head_roots(crate::codec::Record::rv(*hs)));
        }
        let v = crate::reach::commits_from_heads(commits, &roots);
        proof {
            lemma_reach_sorted_eq(commits.tview(), roots@, v@);
            if i > 0 {
                assert(t.tview().last() == goal[i - 1]);
            }
            assert(crate::codec::Record::rv(v) =~= v@);
            assert(goal[i as int] == (k, reach_sorted(commits.tview(), roots@)));
        }
        t.append(k, v);
        proof {
            assert(t.tview() =~= goal.take(i + 1));
        }
        i = i + 1;
    }
    proof {
        assert(goal.take(n as int) =~= goal);
    }
    t
}

/// The user a commit record names.
pub open spec fn sel_user(cv: CommitV, use_author: bool) -> u64 {
    if use_author {
        cv.author
    } else {
        cv.committer
    }
}

/// The user of one looked-up commit, or nothing when the table lacks it.
pub open spec fn opt_user(ctv: Seq<(u64, CommitV)>, cid: u64, use_author: bool) -> Seq<u64> {
    match tlookup::<Commit>(ctv, cid) {
        Some(cv) => seq![sel_user(cv, use_author)],
        None => Seq::empty(),
    }
}

/// The users of a commit-id list, in order, skipping ids the commit table
/// lacks.
pub open spec fn users_in(ctv: Seq<(u64, CommitV)>, cids: Seq<u64>, use_author: bool) -> Seq<u64>
    decreases cids.len(),
{
    if cids.len() == 0 {
        Seq::empty()
    } else {
        users_in(ctv, cids.drop_last(), use_author) + opt_user(ctv, cids.last(), use_author)
    }
}

/// The per-project user table derived from the project-commits table: each
/// project's commit list mapped to its authors (or committers), first
/// occurrences kept.
pub open spec fn project_users_of(
    pc_tv: Seq<(u64, Seq<u64>)>,
    ctv: Seq<(u64, CommitV)>,
    use_author: bool,
) -> Seq<(u64, Seq<u64>)> {
    pc_tv.map(
        |i: int, e: (u64, Seq<u64>)| (e.0, dedup_first(users_in(ctv, e.1, use_author))),
    )
}

pub fn extract_project_members(
    project_commits: &Table<Vec<u64>>,
    commits: &Table<Commit>,
    use_author: bool,
) -> (r: Table<Vec<u64>>)
    requires
        project_commits.wf(),
        commits.wf(),
    ensures
        r.wf(),
        r.tview() == project_users_of(project_commits.tview(), commits.tview(), use_author),
{
    let ghost ctv = commits.tview();
    let ghost goal = project_users_of(project_commits.tview(), ctv, use_author);
    let mut t = Table::<Vec<u64>>::new();
    let n = project_commits.len();
    let mut i: usize = 0;
    proof {
        assert(t.tview() =~= goal.take(0));
    }
    while i < n
        invariant
            n == project_commits.tview().len(),
            0 <= i <= n,
            ctv == commits.tview(),
            goal == project_users_of(project_commits.tview(), ctv, use_author),
            project_commits.wf(),
            commits.wf(),
            t.wf(),
            t.tview() == goal.take(i as int),
        decreases n - i,
    {
        let k = project_commits.key_at(i);
        let cids: &Vec<u64> = project_commits.value_at(i);
        let ghost cidsv = crate::codec::Record::rv(*cids);
        proof {
            assert(cidsv =~= cids@);
        }
        let mut acc: Vec<u64> = Vec::new();
        let m = cids.len();
        let mut j: usize = 0;
        proof {
            assert(acc@ =~= users_in(ctv, cids@.take(0), use_author));
        }
        while j < m
            invariant
                m == cids@.len(),
                0 <= j <= m,
                ctv == commits.tview(),
                commits.wf(),
                acc@ == users_in(ctv, cids@.take(j as int), use_author),
            decreases m - j,
        {
            proof {
                assert(cids@.take(j + 1).drop_last() =~= cids@.take(j as int));
                assert(cids@.take(j + 1).last() == cids@[j as int]);
            }
            match commits.get(cids[j]) {
                Some(cm) => {
                    let u = if use_author {
                        cm.author_id().0
                    } else {
                        cm.committer_id().0
                    };
                    acc.push(u);
                    proof {
                        assert(tlookup::<Commit>(ctv, cids@[j as int]) == Some(cm.cv()));
                        assert(acc@ =~= users_in(ctv, cids@.take(j + 1), use_author));
                    }
                },
                None => {
                    proof {
                        assert(acc@ =~= users_in(ctv, cids@.take(j + 1), use_author));
                    }
                },
            }
            j = j + 1;
        }
        proof {
            assert(cids@.take(m as int) =~= cids@);
        }
        let v = crate::sequences::dedup_first_vec(&acc);
        proof {
            if i > 0 {
                assert(t.tview().last() == goal[i - 1]);
            }
            assert(crate::codec::Record::rv(v) =~= v@);
            assert(goal[i as int] == (k, dedup_first(users_in(ctv, cidsv, use_author))));
        }
        t.append(k, v);
        proof {
            assert(t.tview() =~= goal.take(i + 1));
        }
        i = i + 1;
    }
    proof {
        assert(goal.take(n as int) =~= goal);
    }
    t
}

/// The combined project-users table: for each project of the authors
/// table, its committers (if any are recorded) followed by its authors,
/// first occurrences kept.
pub open spec fn combined_users_of(
    authors_tv: Seq<(u64, Seq<u64>)>,
    committers_tv: Seq<(u64, Seq<u64>)>,
) -> Seq<(u64, Seq<u64>)> {
    authors_tv.map(
        |i: int, e: (u64, Seq<u64>)|
            (
                e.0,
                dedup_first(
                    (match tlookup::<Vec<u64>>(committers_tv, e.0) {
                        Some(cs) => cs,
                        None => Seq::empty(),
                    }) + e.1,
                ),
            ),
    )
}

pub fn extract_project_users(authors: &Table<Vec<u64>>, committers: &Table<Vec<u64>>) -> (r:
    Table<Vec<u64>>)
    requires
        authors.wf(),
        committers.wf(),
    ensures
        r.wf(),
        r.tview() == combined_users_of(authors.tview(), committers.tview()),
{
    let ghost goal = combined_users_of(authors.tview(), committers.tview());
    let mut t = Table::<Vec<u64>>::new();
    let n = authors.len();
    let mut i: usize = 0;
    proof {
        assert(t.tview() =~= goal.take(0));
    }
    while i < n
        invariant
            n == authors.tview().len(),
            0 <= i <= n,
            goal == combined_users_of(authors.tview(), committers.tview()),
            authors.wf(),
            committers.wf(),
            t.wf(),
            t.tview() == goal.take(i as int),
        decreases n - i,
    {
        let k = authors.key_at(i);
        let auths: &Vec<u64> = authors.value_at(i);
        let mut acc: Vec<u64> = Vec::new();
        let ghost cpart: Seq<u64> = match tlookup::<Vec<u64>>(committers.tview(), k) {
            Some(cs) => cs,
            None => Seq::empty(),
        };
        match committers.get(k) {
            Some(cs) => {
                let m = cs.len();
                let mut j: usize = 0;
                proof {
                    assert(cpart =~= crate::codec::Record::rv(*cs));
                    assert(cpart =~= cs@);
                }
                while j < m
                    invariant
                        m == cs@.len(),
                        0 <= j <= m,
                        acc@ == cs@.take(j as int),
                    decreases m - j,
                {
                    acc.push(cs[j]);
                    proof {
                        assert(acc@ =~= cs@.take(j + 1));
                    }
                    j = j + 1;
                }
                proof {
                    assert(acc@ =~= cpart);
                }
            },
            None => {
                proof {
                    assert(acc@ =~= cpart);
                }
            },
        }
        let m2 = auths.len();
        let mut j2: usize = 0;
        while j2 < m2
            invariant
                m2 == auths@.len(),
                0 <= j2 <= m2,
                acc@ == cpart + auths@.take(j2 as int),
            decreases m2 - j2,
        {
            acc.push(auths[j2]);
            proof {
                assert(acc@ =~= cpart + auths@.take(j2 + 1));
            }
            j2 = j2 + 1;
        }
        proof {
            assert(acc@ =~= cpart + auths@);
        }
        let v = crate::sequences::dedup_first_vec(&acc);
        proof {
            if i > 0 {
                assert(t.tview().last() == goal[i - 1]);
            }
            assert(crate::codec::Record::rv(v) =~= v@);
            assert(crate::codec::Record::rv(*auths) =~= auths@);
            assert(goal[i as int] == (k, dedup_first(cpart + auths@)));
        }
        t.append(k, v);
        proof {
            assert(t.tview() =~= goal.take(i + 1));
        }
        i = i + 1;
    }
    proof {
        assert(goal.take(n as int) =~= goal);
    }
    t
}

/// Whether some commit names this user.
pub open spec fn is_user_of(ctv: Seq<(u64, CommitV)>, u: u64, use_author: bool) -> bool {
    exists|i: int| 0 <= i < ctv.len() && sel_user(#[trigger] ctv[i].1, use_author) == u
}

/// The users the commit table names, sorted ascending: the unique sorted
/// enumeration of the ids that occur.
pub open spec fn user_ids_sorted(ctv: Seq<(u64, CommitV)>, use_author: bool) -> Seq<u64> {
    choose|s: Seq<u64>|
        strictly_increasing(s) && (forall|u: u64| s.contains(u) <==> is_user_of(ctv, u, use_author))
}

/// The commits a user authored (or committed), in commit-id order.
pub open spec fn commits_of_user(ctv: Seq<(u64, CommitV)>, u: u64, use_author: bool) -> Seq<u64>
    decreases ctv.len(),
{
    if ctv.len() == 0 {
        Seq::empty()
    } else {
        let rest = commits_of_user(ctv.drop_last(), u, use_author);
        if sel_user(ctv.last().1, use_author) == u {
            rest.push(ctv.last().0)
        } else {
            rest
        }
    }
}

/// The user-commits table: one record per user the commit table names, in
/// user-id order, holding that user's commits in commit-id order.
pub open spec fn user_commits_of(ctv: Seq<(u64, CommitV)>, use_author: bool) -> Seq<(u64, Seq<u64>)> {
    user_ids_sorted(ctv, use_author).map(
        |i: int, u: u64| (u, commits_of_user(ctv, u, use_author)),
    )
}

pub fn extract_user_commits(commits: &Table<Commit>, use_author: bool) -> (r: Table<Vec<u64>>)
    requires
        commits.wf(),
    ensures
        r.wf(),
        r.tview() == user_commits_of(commits.tview(), use_author),
{
    let ghost ctv = commits.tview();
    let n = commits.len();
    let mut us: Vec<u64> = Vec::new();
    let mut i: usize = 0;
    while i < n
        invariant
            n == ctv.len(),
            ctv == commits.tview(),
            commits.wf(),
            0 <= i <= n,
            strictly_increasing(us@),
            forall|u: u64| us@.contains(u) <==> is_user_of(ctv.take(i as int), u, use_author),
        decreases n - i,
    {
        let cm = commits.value_at(i);
        let ghost pre = us@;
        let u = if use_author {
            cm.author_id().0
        } else {
            cm.committer_id().0
        };
        proof {
            assert(cm.cv() == ctv[i as int].1);
            assert(sel_user(ctv[i as int].1, use_author) == u);
        }
        let seen = crate::sequences::contains_u64(&us, u);
        if !seen {
            crate::sequences::sorted_insert(&mut us, u);
        }
        proof {
            assert forall|x: u64| us@.contains(x) implies is_user_of(
                ctv.take(i + 1),
                x,
                use_author,
            ) by {
                if pre.contains(x) {
                    assert(is_user_of(ctv.take(i as int), x, use_author));
                    let l = choose|l: int|
                        0 <= l < ctv.take(i as int).len() && sel_user(
                            #[trigger] ctv.take(i as int)[l].1,
                            use_author,
                        ) == x;
                    assert(sel_user(ctv.take(i + 1)[l].1, use_author) == x);
                } else {
                    assert(x == u);
                    assert(sel_user(ctv.take(i + 1)[i as int].1, use_author) == x);
                }
            }
            assert forall|x: u64| is_user_of(ctv.take(i + 1), x, use_author) implies us@.contains(
                x,
            ) by {
                let l = choose|l: int|
                    0 <= l < ctv.take(i + 1).len() && sel_user(
                        #[trigger] ctv.take(i + 1)[l].1,
                        use_author,
                    ) == x;
                if l < i {
                    assert(sel_user(ctv.take(i as int)[l].1, use_author) == x);
                    assert(is_user_of(ctv.take(i as int), x, use_author));
                    assert(pre.contains(x));
                } else {
                    assert(x == u);
                }
            }
        }
        i = i + 1;
    }
    proof {
        assert(ctv.take(n as int) =~= ctv);
        assert(us@ == user_ids_sorted(ctv, use_author)) by {
            assert(strictly_increasing(us@) && (forall|u: u64|
                us@.contains(u) <==> is_user_of(ctv, u, use_author)));
            let s2 = user_ids_sorted(ctv, use_author);
            crate::sequences::lemma_increasing_unique(us@, s2);
        }
    }
    let ghost goal = user_commits_of(ctv, use_author);
    let mut t = Table::<Vec<u64>>::new();
    let nu = us.len();
    let mut j: usize = 0;
    proof {
        assert(t.tview() =~= goal.take(0));
    }
    while j < nu
        invariant
            nu == us@.len(),
            0 <= j <= nu,
            ctv == commits.tview(),
            commits.wf(),
            us@ == user_ids_sorted(ctv, use_author),
            strictly_increasing(us@),
            goal == user_commits_of(ctv, use_author),
            goal.len() == nu,
            t.wf(),
            t.tview() == goal.take(j as int),
        decreases nu - j,
    {
        let u = us[j];
        let mut acc: Vec<u64> = Vec::new();
        let m = commits.len();
        let mut l: usize = 0;
        proof {
            assert(acc@ =~= commits_of_user(ctv.take(0), u, use_author));
        }
        while l < m
            invariant
                m == ctv.len(),
                0 <= l <= m,
                ctv == commits.tview(),
                commits.wf(),
                acc@ == commits_of_user(ctv.take(l as int), u, use_author),
            decreases m - l,
        {
            proof {
                assert(ctv.take(l + 1).drop_last() =~= ctv.take(l as int));
                assert(ctv.take(l + 1).last() == ctv[l as int]);
            }
            let cm = commits.value_at(l);
            let cu = if use_author {
                cm.author_id().0
            } else {
                cm.committer_id().0
            };
            proof {
                assert(cm.cv() == ctv[l as int].1);
            }
            if cu == u {
                let ck = commits.key_at(l);
                acc.push(ck);
                proof {
                    assert(acc@ =~= commits_of_user(ctv.take(l + 1), u, use_author));
                }
            } else {
                proof {
                    assert(acc@ =~= commits_of_user(ctv.take(l + 1), u, use_author));
                }
            }
            l = l + 1;
        }
        proof {
            assert(ctv.take(m as int) =~= ctv);
            if j > 0 {
                assert(t.tview().last() == goal[j - 1]);
                assert(goal[j - 1].0 == us@[j - 1]);
            }
            assert(goal[j as int] == (u, commits_of_user(ctv, u, use_author)));
        }
        t.append(u, acc);
        proof {
            assert(crate::codec::Record::rv(acc) =~= acc@);
            assert(t.tview() =~= goal.take(j + 1));
        }
        j = j + 1;
    }
    proof {
        assert(goal.take(nu as int) =~= goal);
    }
    t
}

/// One looked-up timestamp, or nothing when the table lacks the commit.
pub open spec fn opt_ts(tstv: Seq<(u64, i64)>, cid: u64) -> Seq<i64> {
    match tlookup::<i64>(tstv, cid) {
        Some(t) => seq![t],
        None => Seq::empty(),
    }
}

/// The timestamps of a commit-id list, in order, skipping absent ids.
pub open spec fn ts_of(tstv: Seq<(u64, i64)>, cids: Seq<u64>) -> Seq<i64>
    decreases cids.len(),
{
    if cids.len() == 0 {
        Seq::empty()
    } else {
        ts_of(tstv, cids.drop_last()) + opt_ts(tstv, cids.last())
    }
}

/// The author and committer timestamps of a commit-id list, in order.
pub open spec fn ts2_of(atv: Seq<(u64, i64)>, btv: Seq<(u64, i64)>, cids: Seq<u64>) -> Seq<i64>
    decreases cids.len(),
{
    if cids.len() == 0 {
        Seq::empty()
    } else {
        ts2_of(atv, btv, cids.drop_last()) + opt_ts(atv, cids.last()) + opt_ts(btv, cids.last())
    }
}

/// The span of a timestamp list: no value for zero timestamps, zero for
/// one, and greatest minus least otherwise.
pub open spec fn span_of(l: Seq<i64>) -> Option<u64> {
    if l.len() == 0 {
        None
    } else {
        Some(((seq_max_i64(l) - seq_min_i64(l)) as u64))
    }
}

/// An experience table over one timestamp table: entities whose commits
/// have no timestamps are absent.
pub open spec fn spans_view(keyed: Seq<(u64, Seq<u64>)>, tstv: Seq<(u64, i64)>) -> Seq<(u64, u64)>
    decreases keyed.len(),
{
    if keyed.len() == 0 {
        Seq::empty()
    } else {
        spans_view(keyed.drop_last(), tstv) + (match span_of(ts_of(tstv, keyed.last().1)) {
            Some(e) => seq![(keyed.last().0, e)],
            None => Seq::empty(),
        })
    }
}

/// An experience or lifetime table over both timestamp tables.
pub open spec fn spans2_view(
    keyed: Seq<(u64, Seq<u64>)>,
    atv: Seq<(u64, i64)>,
    btv: Seq<(u64, i64)>,
) -> Seq<(u64, u64)>
    decreases keyed.len(),
{
    if keyed.len() == 0 {
        Seq::empty()
    } else {
        spans2_view(keyed.drop_last(), atv, btv) + (match span_of(
            ts2_of(atv, btv, keyed.last().1),
        ) {
            Some(e) => seq![(keyed.last().0, e)],
            None => Seq::empty(),
        })
    }
}

/// The span, as the machine computes it, of a non-empty timestamp vector.
fn span_of_vec(ts: &Vec<i64>) -> (r: u64)
    requires
        ts@.len() > 0,
    ensures
        Some(r) == span_of(ts@),
{
    let (mn, mx) = crate::sequences::min_max_i64(ts);
    proof {
        crate::sequences::lemma_minmax_bounds(ts@);
    }
    let d: i128 = (mx as i128) - (mn as i128);
    d as u64
}

pub fn extract_spans(keyed: &Table<Vec<u64>>, ts: &Table<i64>) -> (r: Table<u64>)
    requires
        keyed.wf(),
        ts.wf(),
    ensures
        r.wf(),
        r.tview() == spans_view(keyed.tview(), ts.tview()),
{
    let ghost ktv = keyed.tview();
    let ghost tstv = ts.tview();
    let mut t = Table::<u64>::new();
    let n = keyed.len();
    let mut i: usize = 0;
    proof {
        assert(t.tview() =~= spans_view(ktv.take(0), tstv));
    }
    while i < n
        invariant
            n == ktv.len(),
            0 <= i <= n,
            ktv == keyed.tview(),
            tstv == ts.tview(),
            keyed.wf(),
            ts.wf(),
            t.wf(),
            t.tview() == spans_view(ktv.take(i as int), tstv),
            t.tview().len() > 0 && i < n ==> t.tview().last().0 < ktv[i as int].0,
        decreases n - i,
    {
        let k = keyed.key_at(i);
        let cids: &Vec<u64> = keyed.value_at(i);
        let ghost cidsv = crate::codec::Record::rv(*cids);
        proof {
            assert(cidsv =~= cids@);
            assert(ktv.take(i + 1).drop_last() =~= ktv.take(i as int));
            assert(ktv.take(i + 1).last() == ktv[i as int]);
        }
        let mut acc: Vec<i64> = Vec::new();
        let m = cids.len();
        let mut j: usize = 0;
        proof {
            assert(acc@ =~= ts_of(tstv, cids@.take(0)));
        }
        while j < m
            invariant
                m == cids@.len(),
                0 <= j <= m,
                tstv == ts.tview(),
                ts.wf(),
                acc@ == ts_of(tstv, cids@.take(j as int)),
            decreases m - j,
        {
            proof {
                assert(cids@.take(j + 1).drop_last() =~= cids@.take(j as int));
                assert(cids@.take(j + 1).last() == cids@[j as int]);
            }
            match ts.get(cids[j]) {
                Some(v) => {
                    acc.push(*v);
                    proof {
                        assert(acc@ =~= ts_of(tstv, cids@.take(j + 1)));
                    }
                },
                None => {
                    proof {
                        assert(acc@ =~= ts_of(tstv, cids@.take(j + 1)));
                    }
                },
            }
            j = j + 1;
        }
        proof {
            assert(cids@.take(m as int) =~= cids@);
        }
        if acc.len() > 0 {
            let e = span_of_vec(&acc);
            t.append(k, e);
            proof {
                assert(t.tview() =~= spans_view(ktv.take(i + 1), tstv));
            }
        } else {
            proof {
                assert(t.tview() =~= spans_view(ktv.take(i + 1), tstv));
            }
        }
        i = i + 1;
    }
    proof {
        assert(ktv.take(n as int) =~= ktv);
    }
    t
}

pub fn extract_spans_combined(keyed: &Table<Vec<u64>>, ats: &Table<i64>, bts: &Table<i64>) -> (r:
    Table<u64>)
    requires
        keyed.wf(),
        ats.wf(),
        bts.wf(),
    ensures
        r.wf(),
        r.tview() == spans2_view(keyed.tview(), ats.tview(), bts.tview()),
{
    let ghost ktv = keyed.tview();
    let ghost atv = ats.tview();
    let ghost btv = bts.tview();
    let mut t = Table::<u64>::new();
    let n = keyed.len();
    let mut i: usize = 0;
    proof {
        assert(t.tview() =~= spans2_view(ktv.take(0), atv, btv));
    }
    while i < n
        invariant
            n == ktv.len(),
            0 <= i <= n,
            ktv == keyed.tview(),
            atv == ats.tview(),
            btv == bts.tview(),
            keyed.wf(),
            ats.wf(),
            bts.wf(),
            t.wf(),
            t.tview() == spans2_view(ktv.take(i as int), atv, btv),
            t.tview().len() > 0 && i < n ==> t.tview().last().0 < ktv[i as int].0,
        decreases n - i,
    {
        let k = keyed.key_at(i);
        let cids: &Vec<u64> = keyed.value_at(i);
        let ghost cidsv = crate::codec::Record::rv(*cids);
        proof {
            assert(cidsv =~= cids@);
            assert(ktv.take(i + 1).drop_last() =~= ktv.take(i as int));
            assert(ktv.take(i + 1).last() == ktv[i as int]);
        }
        let mut acc: Vec<i64> = Vec::new();
        let m = cids.len();
        let mut j: usize = 0;
        proof {
            assert(acc@ =~= ts2_of(atv, btv, cids@.take(0)));
        }
        while j < m
            invariant
                m == cids@.len(),
                0 <= j <= m,
                atv == ats.tview(),
                btv == bts.tview(),
                ats.wf(),
                bts.wf(),
                acc@ == ts2_of(atv, btv, cids@.take(j as int)),
            decreases m - j,
        {
            proof {
                assert(cids@.take(j + 1).drop_last() =~= cids@.take(j as int));
                assert(cids@.take(j + 1).last() == cids@[j as int]);
            }
            let ghost before = acc@;
            match ats.get(cids[j]) {
                Some(v) => {
                    acc.push(*v);
                    proof {
                        assert(acc@ =~= before + opt_ts(atv, cids@[j as int]));
                    }
                },
                None => {
                    proof {
                        assert(acc@ =~= before + opt_ts(atv, cids@[j as int]));
                    }
                },
            }
            let ghost mid = acc@;
            match bts.get(cids[j]) {
                Some(v) => {
                    acc.push(*v);
                    proof {
                        assert(acc@ =~= mid + opt_ts(btv, cids@[j as int]));
                        assert(acc@ =~= ts2_of(atv, btv, cids@.take(j + 1)));
                    }
                },
                None => {
                    proof {
                        assert(acc@ =~= mid + opt_ts(btv, cids@[j as int]));
                        assert(acc@ =~= ts2_of(atv, btv, cids@.take(j + 1)));
                    }
                },
            }
            j = j + 1;
        }
        proof {
            assert(cids@.take(m as int) =~= cids@);
        }
        if acc.len() > 0 {
            let e = span_of_vec(&acc);
            t.append(k, e);
            proof {
                assert(t.tview() =~= spans2_view(ktv.take(i + 1), atv, btv));
            }
        } else {
            proof {
                assert(t.tview() =~= spans2_view(ktv.take(i + 1), atv, btv));
            }
        }
        i = i + 1;
    }
    proof {
        assert(ktv.take(n as int) =~= ktv);
    }
    t
}

/// The recorded changes of one commit; a commit the changes table lacks
/// contributes nothing.
pub open spec fn changes_of(
    chtv: Seq<(u64, Seq<(u64, Option<u64>)>)>,
    cid: u64,
) -> Seq<(u64, Option<u64>)> {
    match tlookup::<Vec<Change>>(chtv, cid) {
        Some(chs) => chs,
        None => Seq::empty(),
    }
}

/// The changed path ids of a commit-id list, in order.
pub open spec fn paths_in(
    chtv: Seq<(u64, Seq<(u64, Option<u64>)>)>,
    cids: Seq<u64>,
) -> Seq<u64>
    decreases cids.len(),
{
    if cids.len() == 0 {
        Seq::empty()
    } else {
        paths_in(chtv, cids.drop_last()) + changes_of(chtv, cids.last()).map(
            |j: int, c: (u64, Option<u64>)| c.0,
        )
    }
}

/// The snapshot ids among a change list.
pub open spec fn somes(chs: Seq<(u64, Option<u64>)>) -> Seq<u64>
    decreases chs.len(),
{
    if chs.len() == 0 {
        Seq::empty()
    } else {
        somes(chs.drop_last()) + (match chs.last().1 {
            Some(x) => seq![x],
            None => Seq::empty(),
        })
    }
}

/// The written snapshot ids of a commit-id list, in order.
pub open spec fn snaps_in(
    chtv: Seq<(u64, Seq<(u64, Option<u64>)>)>,
    cids: Seq<u64>,
) -> Seq<u64>
    decreases cids.len(),
{
    if cids.len() == 0 {
        Seq::empty()
    } else {
        snaps_in(chtv, cids.drop_last()) + somes(changes_of(chtv, cids.last()))
    }
}

/// The project-paths table: each project's commits' changed paths, first
/// occurrences kept.
pub open spec fn project_paths_of(
    pc_tv: Seq<(u64, Seq<u64>)>,
    chtv: Seq<(u64, Seq<(u64, Option<u64>)>)>,
) -> Seq<(u64, Seq<u64>)> {
    pc_tv.map(|i: int, e: (u64, Seq<u64>)| (e.0, dedup_first(paths_in(chtv, e.1))))
}

/// The project-snapshots table: each project's commits' written snapshots,
/// first occurrences kept.
pub open spec fn project_snapshots_of(
    pc_tv: Seq<(u64, Seq<u64>)>,
    chtv: Seq<(u64, Seq<(u64, Option<u64>)>)>,
) -> Seq<(u64, Seq<u64>)> {
    pc_tv.map(|i: int, e: (u64, Seq<u64>)| (e.0, dedup_first(snaps_in(chtv, e.1))))
}

pub fn extract_project_items(
    project_commits: &Table<Vec<u64>>,
    changes: &Table<Vec<Change>>,
    snapshots: bool,
) -> (r: Table<Vec<u64>>)
    requires
        project_commits.wf(),
        changes.wf(),
    ensures
        r.wf(),
        snapshots ==> r.tview() == project_snapshots_of(project_commits.tview(), changes.tview()),
        !snapshots ==> r.tview() == project_paths_of(project_commits.tview(), changes.tview()),
{
    let ghost pctv = project_commits.tview();
    let ghost chtv = changes.tview();
    let mut t = Table::<Vec<u64>>::new();
    let n = project_commits.len();
    let mut i: usize = 0;
    proof {
        assert(t.tview() =~= Seq::<(u64, Seq<u64>)>::empty());
    }
    while i < n
        invariant
            n == pctv.len(),
            0 <= i <= n,
            pctv == project_commits.tview(),
            chtv == changes.tview(),
            project_commits.wf(),
            changes.wf(),
            t.wf(),
            snapshots ==> t.tview() == project_snapshots_of(pctv, chtv).take(i as int),
            !snapshots ==> t.tview() == project_paths_of(pctv, chtv).take(i as int),
        decreases n - i,
    {
        let k = project_commits.key_at(i);
        let cids: &Vec<u64> = project_commits.value_at(i);
        let ghost cidsv = crate::codec::Record::rv(*cids);
        proof {
            assert(cidsv =~= cids@);
        }
        let mut acc: Vec<u64> = Vec::new();
        let m = cids.len();
        let mut j: usize = 0;
        proof {
            assert(acc@ =~= paths_in(chtv, cids@.take(0)));
            assert(acc@ =~= snaps_in(chtv, cids@.take(0)));
        }
        while j < m
            invariant
                m == cids@.len(),
                0 <= j <= m,
                chtv == changes.tview(),
                changes.wf(),
                snapshots ==> acc@ == snaps_in(chtv, cids@.take(j as int)),
                !snapshots ==> acc@ == paths_in(chtv, cids@.take(j as int)),
            decreases m - j,
        {
            proof {
                assert(cids@.take(j + 1).drop_last() =~= cids@.take(j as int));
                assert(cids@.take(j + 1).last() == cids@[j as int]);
            }
            let ghost before = acc@;
            match changes.get(cids[j]) {
                Some(chs) => {
                    let ghost chsv = crate::codec::Record::rv(*chs);
                    proof {
                        assert(changes_of(chtv, cids@[j as int]) == chsv);
                    }
                    let mc = chs.len();
                    let mut l: usize = 0;
                    proof {
                        assert(chsv.take(0).map(|x: int, c: (u64, Option<u64>)| c.0)
                            =~= Seq::<u64>::empty());
                        assert(somes(chsv.take(0)) =~= Seq::<u64>::empty());
                    }
                    while l < mc
                        invariant
                            mc == chs@.len(),
                            0 <= l <= mc,
                            chsv == crate::codec::Record::rv(*chs),
                            chsv.len() == mc,
                            forall|x: int| 0 <= x < mc ==> chsv[x] == #[trigger] chs@[x].rv(),
                            snapshots ==> acc@ == before + somes(chsv.take(l as int)),
                            !snapshots ==> acc@ == before + chsv.take(l as int).map(
                                |x: int, c: (u64, Option<u64>)| c.0,
                            ),
                        decreases mc - l,
                    {
                        proof {
                            assert(chsv.take(l + 1).drop_last() =~= chsv.take(l as int));
                            assert(chsv.take(l + 1).last() == chsv[l as int]);
                        }
                        let ch = chs[l];
                        if snapshots {
                            match ch.snapshot_id() {
                                Some(sid) => {
                                    acc.push(sid.0);
                                    proof {
                                        assert(acc@ =~= before + somes(chsv.take(l + 1)));
                                    }
                                },
                                None => {
                                    proof {
                                        assert(acc@ =~= before + somes(chsv.take(l + 1)));
                                    }
                                },
                            }
                        } else {
                            acc.push(ch.path_id().0);
                            proof {
                                assert(chsv.take(l + 1).map(|x: int, c: (u64, Option<u64>)| c.0)
                                    =~= chsv.take(l as int).map(
                                    |x: int, c: (u64, Option<u64>)| c.0,
                                ).push(chsv[l as int].0));
                                assert(acc@ =~= before + chsv.take(l + 1).map(
                                    |x: int, c: (u64, Option<u64>)| c.0,
                                ));
                            }
                        }
                        l = l + 1;
                    }
                    proof {
                        assert(chsv.take(mc as int) =~= chsv);
                        if snapshots {
                            assert(acc@ =~= snaps_in(chtv, cids@.take(j + 1)));
                        } else {
                            assert(acc@ =~= paths_in(chtv, cids@.take(j + 1)));
                        }
                    }
                },
                None => {
                    proof {
                        assert(changes_of(chtv, cids@[j as int]) =~= Seq::<(u64, Option<u64>)>::empty());
                        assert(somes(changes_of(chtv, cids@[j as int])) =~= Seq::<u64>::empty());
                        assert(changes_of(chtv, cids@[j as int]).map(
                            |x: int, c: (u64, Option<u64>)| c.0,
                        ) =~= Seq::<u64>::empty());
                        if snapshots {
                            assert(acc@ =~= snaps_in(chtv, cids@.take(j + 1)));
                        } else {
                            assert(acc@ =~= paths_in(chtv, cids@.take(j + 1)));
                        }
                    }
                },
            }
            j = j + 1;
        }
        proof {
            assert(cids@.take(m as int) =~= cids@);
        }
        let v = crate::sequences::dedup_first_vec(&acc);
        proof {
            if i > 0 {
                if snapshots {
                    assert(t.tview().last() == project_snapshots_of(pctv, chtv)[i - 1]);
                } else {
                    assert(t.tview().last() == project_paths_of(pctv, chtv)[i - 1]);
                }
            }
            assert(crate::codec::Record::rv(v) =~= v@);
            assert(project_paths_of(pctv, chtv)[i as int] == (
                k,
                dedup_first(paths_in(chtv, cidsv)),
            ));
            assert(project_snapshots_of(pctv, chtv)[i as int] == (
                k,
                dedup_first(snaps_in(chtv, cidsv)),
            ));
        }
        t.append(k, v);
        proof {
            if snapshots {
                assert(t.tview() =~= project_snapshots_of(pctv, chtv).take(i + 1));
            } else {
                assert(t.tview() =~= project_paths_of(pctv, chtv).take(i + 1));
            }
        }
        i = i + 1;
    }
    proof {
        assert(project_snapshots_of(pctv, chtv).take(n as int) =~= project_snapshots_of(
            pctv,
            chtv,
        ));
        assert(project_paths_of(pctv, chtv).take(n as int) =~= project_paths_of(pctv, chtv));
    }
    t
}

} // verus!
