//! The dependency-ordered loader: it owns every derived table and loads
//! each lazily, in prerequisite order, at most once per run.
//!
//! A "smart load" accessor returns at once when its table is resident;
//! otherwise it smart-loads every prerequisite, decodes the table's cache
//! words if they are present and valid -- their presence and validity is
//! the sole signal -- and computes the table from the prerequisites when
//! they are not.  The `eff_*` functions state, per table, exactly which
//! content the loader serves: the decoded cache when it decodes, the
//! derivation from the prerequisites' own effective content otherwise.

use vstd::prelude::*;
use crate::extract::{changes_view, combined_users_of, commits_view, counts_view,
    extract_commit_changes, extract_commit_hashes, extract_commit_messages,
    extract_commit_timestamps, extract_commits, extract_counts, extract_paths,
    extract_project_commits, extract_project_heads, extract_project_items,
    extract_project_members, extract_project_urls, extract_project_users, extract_spans,
    extract_spans_combined, extract_user_commits, extract_users, hashes_view, heads_view,
    messages_view, paths_view, project_commits_of, project_paths_of, project_snapshots_of,
    project_users_of, spans2_view, spans_view, timestamps_view, urls_view, user_commits_of,
    users_view};
use crate::objects::{Change, Commit, CommitV, Head, HeadV, ProjectMetadata};
use crate::persistent::PersistentMap;
use crate::source::Source;
use crate::table::spec_decode;

verus! {

/// An iterator holder whose inner iterator may be absent.
pub struct OptionIter<I> {
    pub iter: Option<I>,
}

impl<I> OptionIter<I> {
    pub fn new() -> (r: Self)
        ensures
            r.iter is None,
    {
        OptionIter { iter: None }
    }
}

/// The cache words read from each persisted table's file, where the file
/// existed.  The reader that fills this from a cache directory lives
/// outside the library.
pub struct CacheData {
    pub project_heads: Option<Vec<u64>>,
    pub commits: Option<Vec<u64>>,
    pub commit_author_timestamps: Option<Vec<u64>>,
    pub commit_committer_timestamps: Option<Vec<u64>>,
    pub project_commits: Option<Vec<u64>>,
    pub project_authors: Option<Vec<u64>>,
    pub project_committers: Option<Vec<u64>>,
    pub project_users: Option<Vec<u64>>,
    pub project_paths: Option<Vec<u64>>,
    pub project_snapshots: Option<Vec<u64>>,
    pub project_lifetimes: Option<Vec<u64>>,
    pub project_commit_count: Option<Vec<u64>>,
    pub project_author_count: Option<Vec<u64>>,
    pub project_committer_count: Option<Vec<u64>>,
    pub project_user_count: Option<Vec<u64>>,
    pub project_path_count: Option<Vec<u64>>,
    pub project_snapshot_count: Option<Vec<u64>>,
    pub user_authored_commits: Option<Vec<u64>>,
    pub user_committed_commits: Option<Vec<u64>>,
    pub user_author_experience: Option<Vec<u64>>,
    pub user_committer_experience: Option<Vec<u64>>,
    pub user_experience: Option<Vec<u64>>,
    pub user_authored_commit_count: Option<Vec<u64>>,
    pub user_committed_commit_count: Option<Vec<u64>>,
    pub commit_change_count: Option<Vec<u64>>,
}

impl CacheData {
    /// No cache file was present for any table.
    pub fn empty() -> (r: CacheData)
        ensures
            r.project_heads is None,
            r.commits is None,
            r.commit_author_timestamps is None,
            r.commit_committer_timestamps is None,
            r.project_commits is None,
            r.project_authors is None,
            r.project_committers is None,
            r.project_users is None,
            r.project_paths is None,
            r.project_snapshots is None,
            r.project_lifetimes is None,
            r.project_commit_count is None,
            r.project_author_count is None,
            r.project_committer_count is None,
            r.project_user_count is None,
            r.project_path_count is None,
            r.project_snapshot_count is None,
            r.user_authored_commits is None,
            r.user_committed_commits is None,
            r.user_author_experience is None,
            r.user_committer_experience is None,
            r.user_experience is None,
            r.user_authored_commit_count is None,
            r.user_committed_commit_count is None,
            r.commit_change_count is None,
    {
        CacheData {
            project_heads: None,
            commits: None,
            commit_author_timestamps: None,
            commit_committer_timestamps: None,
            project_commits: None,
            project_authors: None,
            project_committers: None,
            project_users: None,
            project_paths: None,
            project_snapshots: None,
            project_lifetimes: None,
            project_commit_count: None,
            project_author_count: None,
            project_committer_count: None,
            project_user_count: None,
            project_path_count: None,
            project_snapshot_count: None,
            user_authored_commits: None,
            user_committed_commits: None,
            user_author_experience: None,
            user_committer_experience: None,
            user_experience: None,
            user_authored_commit_count: None,
            user_committed_commit_count: None,
            commit_change_count: None,
        }
    }
}

/// The loader's configuration: per table, the cache words it was created
/// with, when caching is enabled for it.  The effective content of every
/// table is a function of this configuration and the source alone.
pub ghost struct DataCfg {
    pub commit_change_count: Option<Seq<u64>>,
    pub project_urls: Option<Seq<u64>>,
    pub project_heads: Option<Seq<u64>>,
    pub commits: Option<Seq<u64>>,
    pub commit_hashes: Option<Seq<u64>>,
    pub commit_messages: Option<Seq<u64>>,
    pub commit_author_timestamps: Option<Seq<u64>>,
    pub commit_committer_timestamps: Option<Seq<u64>>,
    pub commit_changes: Option<Seq<u64>>,
    pub users: Option<Seq<u64>>,
    pub paths: Option<Seq<u64>>,
    pub project_commits: Option<Seq<u64>>,
    pub project_authors: Option<Seq<u64>>,
    pub project_committers: Option<Seq<u64>>,
    pub project_users: Option<Seq<u64>>,
    pub project_paths: Option<Seq<u64>>,
    pub project_snapshots: Option<Seq<u64>>,
    pub project_lifetimes: Option<Seq<u64>>,
    pub project_commit_count: Option<Seq<u64>>,
    pub project_author_count: Option<Seq<u64>>,
    pub project_committer_count: Option<Seq<u64>>,
    pub project_user_count: Option<Seq<u64>>,
    pub project_path_count: Option<Seq<u64>>,
    pub project_snapshot_count: Option<Seq<u64>>,
    pub user_authored_commits: Option<Seq<u64>>,
    pub user_committed_commits: Option<Seq<u64>>,
    pub user_author_experience: Option<Seq<u64>>,
    pub user_committer_experience: Option<Seq<u64>>,
    pub user_experience: Option<Seq<u64>>,
    pub user_authored_commit_count: Option<Seq<u64>>,
    pub user_committed_commit_count: Option<Seq<u64>>,
}

/// The content a table serves: its decoded cache words when present and
/// valid, the computed fallback otherwise.
pub open spec fn cache_or<V: crate::codec::Record>(
    c: Option<Seq<u64>>,
    fallback: Seq<(u64, V::RV)>,
) -> Seq<(u64, V::RV)> {
    match c {
        Some(w) => match spec_decode::<V>(w) {
            Some(tv) => tv,
            None => fallback,
        },
        None => fallback,
    }
}

/// The effective content of the project_urls table.
pub open spec fn eff_project_urls(cfg: DataCfg, src: Source) -> Seq<(u64, Seq<char>)> {
    cache_or::<String>(cfg.project_urls, urls_view(src))
}

/// The effective content of the project_heads table.
pub open spec fn eff_project_heads(cfg: DataCfg, src: Source) -> Seq<(u64, Seq<HeadV>)> {
    cache_or::<Vec<Head>>(cfg.project_heads, heads_view(src))
}

/// The effective content of the commits table.
pub open spec fn eff_commits(cfg: DataCfg, src: Source) -> Seq<(u64, CommitV)> {
    cache_or::<Commit>(cfg.commits, commits_view(src))
}

/// The effective content of the commit_hashes table.
pub open spec fn eff_commit_hashes(cfg: DataCfg, src: Source) -> Seq<(u64, Seq<char>)> {
    cache_or::<String>(cfg.commit_hashes, hashes_view(src))
}

/// The effective content of the commit_messages table.
pub open spec fn eff_commit_messages(cfg: DataCfg, src: Source) -> Seq<(u64, Seq<char>)> {
    cache_or::<String>(cfg.commit_messages, messages_view(src))
}

/// The effective content of the commit_author_timestamps table.
pub open spec fn eff_commit_author_timestamps(cfg: DataCfg, src: Source) -> Seq<(u64, i64)> {
    cache_or::<i64>(cfg.commit_author_timestamps, timestamps_view(src, true))
}

/// The effective content of the commit_committer_timestamps table.
pub open spec fn eff_commit_committer_timestamps(cfg: DataCfg, src: Source) -> Seq<(u64, i64)> {
    cache_or::<i64>(cfg.commit_committer_timestamps, timestamps_view(src, false))
}

/// The effective content of the commit_changes table.
pub open spec fn eff_commit_changes(cfg: DataCfg, src: Source) -> Seq<(u64, Seq<(u64, Option<u64>)>)> {
    cache_or::<Vec<Change>>(cfg.commit_changes, changes_view(src))
}

/// The effective content of the users table.
pub open spec fn eff_users(cfg: DataCfg, src: Source) -> Seq<(u64, Seq<char>)> {
    cache_or::<String>(cfg.users, users_view(src))
}

/// The effective content of the paths table.
pub open spec fn eff_paths(cfg: DataCfg, src: Source) -> Seq<(u64, Seq<char>)> {
    cache_or::<String>(cfg.paths, paths_view(src))
}

/// The effective content of the project_commits table.
pub open spec fn eff_project_commits(cfg: DataCfg, src: Source) -> Seq<(u64, Seq<u64>)> {
    cache_or::<Vec<u64>>(cfg.project_commits, project_commits_of(eff_project_heads(cfg, src), eff_commits(cfg, src)))
}

/// The effective content of the project_authors table.
pub open spec fn eff_project_authors(cfg: DataCfg, src: Source) -> Seq<(u64, Seq<u64>)> {
    cache_or::<Vec<u64>>(cfg.project_authors, project_users_of(eff_project_commits(cfg, src), eff_commits(cfg, src), true))
}

/// The effective content of the project_committers table.
pub open spec fn eff_project_committers(cfg: DataCfg, src: Source) -> Seq<(u64, Seq<u64>)> {
    cache_or::<Vec<u64>>(cfg.project_committers, project_users_of(eff_project_commits(cfg, src), eff_commits(cfg, src), false))
}

/// The effective content of the project_users table.
pub open spec fn eff_project_users(cfg: DataCfg, src: Source) -> Seq<(u64, Seq<u64>)> {
    cache_or::<Vec<u64>>(cfg.project_users, combined_users_of(eff_project_authors(cfg, src), eff_project_committers(cfg, src)))
}

/// The effective content of the project_paths table.
pub open spec fn eff_project_paths(cfg: DataCfg, src: Source) -> Seq<(u64, Seq<u64>)> {
    cache_or::<Vec<u64>>(cfg.project_paths, project_paths_of(eff_project_commits(cfg, src), eff_commit_changes(cfg, src)))
}

/// The effective content of the project_snapshots table.
pub open spec fn eff_project_snapshots(cfg: DataCfg, src: Source) -> Seq<(u64, Seq<u64>)> {
    cache_or::<Vec<u64>>(cfg.project_snapshots, project_snapshots_of(eff_project_commits(cfg, src), eff_commit_changes(cfg, src)))
}

/// The effective content of the project_lifetimes table.
pub open spec fn eff_project_lifetimes(cfg: DataCfg, src: Source) -> Seq<(u64, u64)> {
    cache_or::<u64>(cfg.project_lifetimes, spans2_view(eff_project_commits(cfg, src), eff_commit_author_timestamps(cfg, src), eff_commit_committer_timestamps(cfg, src)))
}

/// The effective content of the project_commit_count table.
pub open spec fn eff_project_commit_count(cfg: DataCfg, src: Source) -> Seq<(u64, u64)> {
    cache_or::<u64>(cfg.project_commit_count, counts_view::<u64>(eff_project_commits(cfg, src)))
}

/// The effective content of the project_author_count table.
pub open spec fn eff_project_author_count(cfg: DataCfg, src: Source) -> Seq<(u64, u64)> {
    cache_or::<u64>(cfg.project_author_count, counts_view::<u64>(eff_project_authors(cfg, src)))
}

/// The effective content of the project_committer_count table.
pub open spec fn eff_project_committer_count(cfg: DataCfg, src: Source) -> Seq<(u64, u64)> {
    cache_or::<u64>(cfg.project_committer_count, counts_view::<u64>(eff_project_committers(cfg, src)))
}

/// The effective content of the project_user_count table.
pub open spec fn eff_project_user_count(cfg: DataCfg, src: Source) -> Seq<(u64, u64)> {
    cache_or::<u64>(cfg.project_user_count, counts_view::<u64>(eff_project_users(cfg, src)))
}

/// The effective content of the project_path_count table.
pub open spec fn eff_project_path_count(cfg: DataCfg, src: Source) -> Seq<(u64, u64)> {
    cache_or::<u64>(cfg.project_path_count, counts_view::<u64>(eff_project_paths(cfg, src)))
}

/// The effective content of the project_snapshot_count table.
pub open spec fn eff_project_snapshot_count(cfg: DataCfg, src: Source) -> Seq<(u64, u64)> {
    cache_or::<u64>(cfg.project_snapshot_count, counts_view::<u64>(eff_project_snapshots(cfg, src)))
}

/// The effective content of the user_authored_commits table.
pub open spec fn eff_user_authored_commits(cfg: DataCfg, src: Source) -> Seq<(u64, Seq<u64>)> {
    cache_or::<Vec<u64>>(cfg.user_authored_commits, user_commits_of(eff_commits(cfg, src), true))
}

/// The effective content of the user_committed_commits table.
pub open spec fn eff_user_committed_commits(cfg: DataCfg, src: Source) -> Seq<(u64, Seq<u64>)> {
    cache_or::<Vec<u64>>(cfg.user_committed_commits, user_commits_of(eff_commits(cfg, src), false))
}

/// The effective content of the user_author_experience table.
pub open spec fn eff_user_author_experience(cfg: DataCfg, src: Source) -> Seq<(u64, u64)> {
    cache_or::<u64>(cfg.user_author_experience, spans_view(eff_user_authored_commits(cfg, src), eff_commit_author_timestamps(cfg, src)))
}

/// The effective content of the user_committer_experience table.
pub open spec fn eff_user_committer_experience(cfg: DataCfg, src: Source) -> Seq<(u64, u64)> {
    cache_or::<u64>(cfg.user_committer_experience, spans_view(eff_user_committed_commits(cfg, src), eff_commit_committer_timestamps(cfg, src)))
}

/// The effective content of the user_experience table.
pub open spec fn eff_user_experience(cfg: DataCfg, src: Source) -> Seq<(u64, u64)> {
    cache_or::<u64>(cfg.user_experience, spans2_view(eff_user_committed_commits(cfg, src), eff_commit_author_timestamps(cfg, src), eff_commit_committer_timestamps(cfg, src)))
}

/// The effective content of the user_authored_commit_count table.
pub open spec fn eff_user_authored_commit_count(cfg: DataCfg, src: Source) -> Seq<(u64, u64)> {
    cache_or::<u64>(cfg.user_authored_commit_count, counts_view::<u64>(eff_user_authored_commits(cfg, src)))
}

/// The effective content of the user_committed_commit_count table.
pub open spec fn eff_user_committed_commit_count(cfg: DataCfg, src: Source) -> Seq<(u64, u64)> {
    cache_or::<u64>(cfg.user_committed_commit_count, counts_view::<u64>(eff_user_committed_commits(cfg, src)))
}

/// Loading never evicts: every table resident before stays resident.
pub open spec fn loaded_leq(a: Data, b: Data) -> bool {
    &&& (a.loaded_project_urls() ==> b.loaded_project_urls())
    &&& (a.loaded_project_heads() ==> b.loaded_project_heads())
    &&& (a.loaded_commits() ==> b.loaded_commits())
    &&& (a.loaded_commit_hashes() ==> b.loaded_commit_hashes())
    &&& (a.loaded_commit_messages() ==> b.loaded_commit_messages())
    &&& (a.loaded_commit_author_timestamps() ==> b.loaded_commit_author_timestamps())
    &&& (a.loaded_commit_committer_timestamps() ==> b.loaded_commit_committer_timestamps())
    &&& (a.loaded_commit_changes() ==> b.loaded_commit_changes())
    &&& (a.loaded_users() ==> b.loaded_users())
    &&& (a.loaded_paths() ==> b.loaded_paths())
    &&& (a.loaded_project_commits() ==> b.loaded_project_commits())
    &&& (a.loaded_project_authors() ==> b.loaded_project_authors())
    &&& (a.loaded_project_committers() ==> b.loaded_project_committers())
    &&& (a.loaded_project_users() ==> b.loaded_project_users())
    &&& (a.loaded_project_paths() ==> b.loaded_project_paths())
    &&& (a.loaded_project_snapshots() ==> b.loaded_project_snapshots())
    &&& (a.loaded_project_lifetimes() ==> b.loaded_project_lifetimes())
    &&& (a.loaded_project_commit_count() ==> b.loaded_project_commit_count())
    &&& (a.loaded_project_author_count() ==> b.loaded_project_author_count())
    &&& (a.loaded_project_committer_count() ==> b.loaded_project_committer_count())
    &&& (a.loaded_project_user_count() ==> b.loaded_project_user_count())
    &&& (a.loaded_project_path_count() ==> b.loaded_project_path_count())
    &&& (a.loaded_project_snapshot_count() ==> b.loaded_project_snapshot_count())
    &&& (a.loaded_user_authored_commits() ==> b.loaded_user_authored_commits())
    &&& (a.loaded_user_committed_commits() ==> b.loaded_user_committed_commits())
    &&& (a.loaded_user_author_experience() ==> b.loaded_user_author_experience())
    &&& (a.loaded_user_committer_experience() ==> b.loaded_user_committer_experience())
    &&& (a.loaded_user_experience() ==> b.loaded_user_experience())
    &&& (a.loaded_user_authored_commit_count() ==> b.loaded_user_authored_commit_count())
    &&& (a.loaded_user_committed_commit_count() ==> b.loaded_user_committed_commit_count())
    &&& (a.loaded_commit_change_count() ==> b.loaded_commit_change_count())
}

/// The effective content of the commit_change_count table.
pub open spec fn eff_commit_change_count(cfg: DataCfg, src: Source) -> Seq<(u64, u64)> {
    cache_or::<u64>(cfg.commit_change_count, counts_view::<(u64, Option<u64>)>(eff_commit_changes(cfg, src)))
}

/// The loader: one persistent map per derived table.
pub struct Data {
    project_urls: PersistentMap<String>,
    project_heads: PersistentMap<Vec<Head>>,
    commits: PersistentMap<Commit>,
    commit_hashes: PersistentMap<String>,
    commit_messages: PersistentMap<String>,
    commit_author_timestamps: PersistentMap<i64>,
    commit_committer_timestamps: PersistentMap<i64>,
    commit_changes: PersistentMap<Vec<Change>>,
    users: PersistentMap<String>,
    paths: PersistentMap<String>,
    project_commits: PersistentMap<Vec<u64>>,
    project_authors: PersistentMap<Vec<u64>>,
    project_committers: PersistentMap<Vec<u64>>,
    project_users: PersistentMap<Vec<u64>>,
    project_paths: PersistentMap<Vec<u64>>,
    project_snapshots: PersistentMap<Vec<u64>>,
    project_lifetimes: PersistentMap<u64>,
    project_commit_count: PersistentMap<u64>,
    project_author_count: PersistentMap<u64>,
    project_committer_count: PersistentMap<u64>,
    project_user_count: PersistentMap<u64>,
    project_path_count: PersistentMap<u64>,
    project_snapshot_count: PersistentMap<u64>,
    user_authored_commits: PersistentMap<Vec<u64>>,
    user_committed_commits: PersistentMap<Vec<u64>>,
    user_author_experience: PersistentMap<u64>,
    user_committer_experience: PersistentMap<u64>,
    user_experience: PersistentMap<u64>,
    user_authored_commit_count: PersistentMap<u64>,
    user_committed_commit_count: PersistentMap<u64>,
    commit_change_count: PersistentMap<u64>,
}

impl Data {
    /// The loader's configuration.
    pub closed spec fn cfg(self) -> DataCfg {
        DataCfg {
            project_urls: self.project_urls.cview(),
            project_heads: self.project_heads.cview(),
            commits: self.commits.cview(),
            commit_hashes: self.commit_hashes.cview(),
            commit_messages: self.commit_messages.cview(),
            commit_author_timestamps: self.commit_author_timestamps.cview(),
            commit_committer_timestamps: self.commit_committer_timestamps.cview(),
            commit_changes: self.commit_changes.cview(),
            users: self.users.cview(),
            paths: self.paths.cview(),
            project_commits: self.project_commits.cview(),
            project_authors: self.project_authors.cview(),
            project_committers: self.project_committers.cview(),
            project_users: self.project_users.cview(),
            project_paths: self.project_paths.cview(),
            project_snapshots: self.project_snapshots.cview(),
            project_lifetimes: self.project_lifetimes.cview(),
            project_commit_count: self.project_commit_count.cview(),
            project_author_count: self.project_author_count.cview(),
            project_committer_count: self.project_committer_count.cview(),
            project_user_count: self.project_user_count.cview(),
            project_path_count: self.project_path_count.cview(),
            project_snapshot_count: self.project_snapshot_count.cview(),
            user_authored_commits: self.user_authored_commits.cview(),
            user_committed_commits: self.user_committed_commits.cview(),
            user_author_experience: self.user_author_experience.cview(),
            user_committer_experience: self.user_committer_experience.cview(),
            user_experience: self.user_experience.cview(),
            user_authored_commit_count: self.user_authored_commit_count.cview(),
            user_committed_commit_count: self.user_committed_commit_count.cview(),
            commit_change_count: self.commit_change_count.cview(),
        }
    }

    pub closed spec fn loaded_project_urls(self) -> bool {
        self.project_urls.spec_loaded()
    }

    pub closed spec fn loaded_project_heads(self) -> bool {
        self.project_heads.spec_loaded()
    }

    pub closed spec fn loaded_commits(self) -> bool {
        self.commits.spec_loaded()
    }

    pub closed spec fn loaded_commit_hashes(self) -> bool {
        self.commit_hashes.spec_loaded()
    }

    pub closed spec fn loaded_commit_messages(self) -> bool {
        self.commit_messages.spec_loaded()
    }

    pub closed spec fn loaded_commit_author_timestamps(self) -> bool {
        self.commit_author_timestamps.spec_loaded()
    }

    pub closed spec fn loaded_commit_committer_timestamps(self) -> bool {
        self.commit_committer_timestamps.spec_loaded()
    }

    pub closed spec fn loaded_commit_changes(self) -> bool {
        self.commit_changes.spec_loaded()
    }

    pub closed spec fn loaded_users(self) -> bool {
        self.users.spec_loaded()
    }

    pub closed spec fn loaded_paths(self) -> bool {
        self.paths.spec_loaded()
    }

    pub closed spec fn loaded_project_commits(self) -> bool {
        self.project_commits.spec_loaded()
    }

    pub closed spec fn loaded_project_authors(self) -> bool {
        self.project_authors.spec_loaded()
    }

    pub closed spec fn loaded_project_committers(self) -> bool {
        self.project_committers.spec_loaded()
    }

    pub closed spec fn loaded_project_users(self) -> bool {
        self.project_users.spec_loaded()
    }

    pub closed spec fn loaded_project_paths(self) -> bool {
        self.project_paths.spec_loaded()
    }

    pub closed spec fn loaded_project_snapshots(self) -> bool {
        self.project_snapshots.spec_loaded()
    }

    pub closed spec fn loaded_project_lifetimes(self) -> bool {
        self.project_lifetimes.spec_loaded()
    }

    pub closed spec fn loaded_project_commit_count(self) -> bool {
        self.project_commit_count.spec_loaded()
    }

    pub closed spec fn loaded_project_author_count(self) -> bool {
        self.project_author_count.spec_loaded()
    }

    pub closed spec fn loaded_project_committer_count(self) -> bool {
        self.project_committer_count.spec_loaded()
    }

    pub closed spec fn loaded_project_user_count(self) -> bool {
        self.project_user_count.spec_loaded()
    }

    pub closed spec fn loaded_project_path_count(self) -> bool {
        self.project_path_count.spec_loaded()
    }

    pub closed spec fn loaded_project_snapshot_count(self) -> bool {
        self.project_snapshot_count.spec_loaded()
    }

    pub closed spec fn loaded_user_authored_commits(self) -> bool {
        self.user_authored_commits.spec_loaded()
    }

    pub closed spec fn loaded_user_committed_commits(self) -> bool {
        self.user_committed_commits.spec_loaded()
    }

    pub closed spec fn loaded_user_author_experience(self) -> bool {
        self.user_author_experience.spec_loaded()
    }

    pub closed spec fn loaded_user_committer_experience(self) -> bool {
        self.user_committer_experience.spec_loaded()
    }

    pub closed spec fn loaded_user_experience(self) -> bool {
        self.user_experience.spec_loaded()
    }

    pub closed spec fn loaded_user_authored_commit_count(self) -> bool {
        self.user_authored_commit_count.spec_loaded()
    }

    pub closed spec fn loaded_user_committed_commit_count(self) -> bool {
        self.user_committed_commit_count.spec_loaded()
    }

    pub closed spec fn loaded_commit_change_count(self) -> bool {
        self.commit_change_count.spec_loaded()
    }

    /// Every resident table is well-formed and holds exactly its
    /// effective content.
    pub closed spec fn inv(self, src: Source) -> bool {
        &&& self.project_urls.inv()
        &&& (self.project_urls.spec_loaded() ==> self.project_urls.lview() == Some(eff_project_urls(self.cfg(), src)))
        &&& self.project_heads.inv()
        &&& (self.project_heads.spec_loaded() ==> self.project_heads.lview() == Some(eff_project_heads(self.cfg(), src)))
        &&& self.commits.inv()
        &&& (self.commits.spec_loaded() ==> self.commits.lview() == Some(eff_commits(self.cfg(), src)))
        &&& self.commit_hashes.inv()
        &&& (self.commit_hashes.spec_loaded() ==> self.commit_hashes.lview() == Some(eff_commit_hashes(self.cfg(), src)))
        &&& self.commit_messages.inv()
        &&& (self.commit_messages.spec_loaded() ==> self.commit_messages.lview() == Some(eff_commit_messages(self.cfg(), src)))
        &&& self.commit_author_timestamps.inv()
        &&& (self.commit_author_timestamps.spec_loaded() ==> self.commit_author_timestamps.lview() == Some(eff_commit_author_timestamps(self.cfg(), src)))
        &&& self.commit_committer_timestamps.inv()
        &&& (self.commit_committer_timestamps.spec_loaded() ==> self.commit_committer_timestamps.lview() == Some(eff_commit_committer_timestamps(self.cfg(), src)))
        &&& self.commit_changes.inv()
        &&& (self.commit_changes.spec_loaded() ==> self.commit_changes.lview() == Some(eff_commit_changes(self.cfg(), src)))
        &&& self.users.inv()
        &&& (self.users.spec_loaded() ==> self.users.lview() == Some(eff_users(self.cfg(), src)))
        &&& self.paths.inv()
        &&& (self.paths.spec_loaded() ==> self.paths.lview() == Some(eff_paths(self.cfg(), src)))
        &&& self.project_commits.inv()
        &&& (self.project_commits.spec_loaded() ==> self.project_commits.lview() == Some(eff_project_commits(self.cfg(), src)))
        &&& self.project_authors.inv()
        &&& (self.project_authors.spec_loaded() ==> self.project_authors.lview() == Some(eff_project_authors(self.cfg(), src)))
        &&& self.project_committers.inv()
        &&& (self.project_committers.spec_loaded() ==> self.project_committers.lview() == Some(eff_project_committers(self.cfg(), src)))
        &&& self.project_users.inv()
        &&& (self.project_users.spec_loaded() ==> self.project_users.lview() == Some(eff_project_users(self.cfg(), src)))
        &&& self.project_paths.inv()
        &&& (self.project_paths.spec_loaded() ==> self.project_paths.lview() == Some(eff_project_paths(self.cfg(), src)))
        &&& self.project_snapshots.inv()
        &&& (self.project_snapshots.spec_loaded() ==> self.project_snapshots.lview() == Some(eff_project_snapshots(self.cfg(), src)))
        &&& self.project_lifetimes.inv()
        &&& (self.project_lifetimes.spec_loaded() ==> self.project_lifetimes.lview() == Some(eff_project_lifetimes(self.cfg(), src)))
        &&& self.project_commit_count.inv()
        &&& (self.project_commit_count.spec_loaded() ==> self.project_commit_count.lview() == Some(eff_project_commit_count(self.cfg(), src)))
        &&& self.project_author_count.inv()
        &&& (self.project_author_count.spec_loaded() ==> self.project_author_count.lview() == Some(eff_project_author_count(self.cfg(), src)))
        &&& self.project_committer_count.inv()
        &&& (self.project_committer_count.spec_loaded() ==> self.project_committer_count.lview() == Some(eff_project_committer_count(self.cfg(), src)))
        &&& self.project_user_count.inv()
        &&& (self.project_user_count.spec_loaded() ==> self.project_user_count.lview() == Some(eff_project_user_count(self.cfg(), src)))
        &&& self.project_path_count.inv()
        &&& (self.project_path_count.spec_loaded() ==> self.project_path_count.lview() == Some(eff_project_path_count(self.cfg(), src)))
        &&& self.project_snapshot_count.inv()
        &&& (self.project_snapshot_count.spec_loaded() ==> self.project_snapshot_count.lview() == Some(eff_project_snapshot_count(self.cfg(), src)))
        &&& self.user_authored_commits.inv()
        &&& (self.user_authored_commits.spec_loaded() ==> self.user_authored_commits.lview() == Some(eff_user_authored_commits(self.cfg(), src)))
        &&& self.user_committed_commits.inv()
        &&& (self.user_committed_commits.spec_loaded() ==> self.user_committed_commits.lview() == Some(eff_user_committed_commits(self.cfg(), src)))
        &&& self.user_author_experience.inv()
        &&& (self.user_author_experience.spec_loaded() ==> self.user_author_experience.lview() == Some(eff_user_author_experience(self.cfg(), src)))
        &&& self.user_committer_experience.inv()
        &&& (self.user_committer_experience.spec_loaded() ==> self.user_committer_experience.lview() == Some(eff_user_committer_experience(self.cfg(), src)))
        &&& self.user_experience.inv()
        &&& (self.user_experience.spec_loaded() ==> self.user_experience.lview() == Some(eff_user_experience(self.cfg(), src)))
        &&& self.user_authored_commit_count.inv()
        &&& (self.user_authored_commit_count.spec_loaded() ==> self.user_authored_commit_count.lview() == Some(eff_user_authored_commit_count(self.cfg(), src)))
        &&& self.user_committed_commit_count.inv()
        &&& (self.user_committed_commit_count.spec_loaded() ==> self.user_committed_commit_count.lview() == Some(eff_user_committed_commit_count(self.cfg(), src)))
        &&& self.commit_change_count.inv()
        &&& (self.commit_change_count.spec_loaded() ==> self.commit_change_count.lview() == Some(eff_commit_change_count(self.cfg(), src)))
    }

    /// A fresh loader: every table unloaded, each bound to its cache file
    /// under `cache_dir`, holding the words that were read from it.
    pub fn new(cache_dir: &str, cache: CacheData) -> (r: Data)
        ensures
            forall|src: Source| r.inv(src),
            !r.loaded_project_urls(),
            r.cfg().project_urls is None,
            !r.loaded_project_heads(),
            r.cfg().project_heads == match cache.project_heads {
                Some(w) => Some(w@),
                None => None::<Seq<u64>>,
            },
            !r.loaded_commits(),
            r.cfg().commits == match cache.commits {
                Some(w) => Some(w@),
                None => None::<Seq<u64>>,
            },
            !r.loaded_commit_hashes(),
            r.cfg().commit_hashes is None,
            !r.loaded_commit_messages(),
            r.cfg().commit_messages is None,
            !r.loaded_commit_author_timestamps(),
            r.cfg().commit_author_timestamps == match cache.commit_author_timestamps {
                Some(w) => Some(w@),
                None => None::<Seq<u64>>,
            },
            !r.loaded_commit_committer_timestamps(),
            r.cfg().commit_committer_timestamps == match cache.commit_committer_timestamps {
                Some(w) => Some(w@),
                None => None::<Seq<u64>>,
            },
            !r.loaded_commit_changes(),
            r.cfg().commit_changes is None,
            !r.loaded_users(),
            r.cfg().users is None,
            !r.loaded_paths(),
            r.cfg().paths is None,
            !r.loaded_project_commits(),
            r.cfg().project_commits == match cache.project_commits {
                Some(w) => Some(w@),
                None => None::<Seq<u64>>,
            },
            !r.loaded_project_authors(),
            r.cfg().project_authors == match cache.project_authors {
                Some(w) => Some(w@),
                None => None::<Seq<u64>>,
            },
            !r.loaded_project_committers(),
            r.cfg().project_committers == match cache.project_committers {
                Some(w) => Some(w@),
                None => None::<Seq<u64>>,
            },
            !r.loaded_project_users(),
            r.cfg().project_users == match cache.project_users {
                Some(w) => Some(w@),
                None => None::<Seq<u64>>,
            },
            !r.loaded_project_paths(),
            r.cfg().project_paths == match cache.project_paths {
                Some(w) => Some(w@),
                None => None::<Seq<u64>>,
            },
            !r.loaded_project_snapshots(),
            r.cfg().project_snapshots == match cache.project_snapshots {
                Some(w) => Some(w@),
                None => None::<Seq<u64>>,
            },
            !r.loaded_project_lifetimes(),
            r.cfg().project_lifetimes == match cache.project_lifetimes {
                Some(w) => Some(w@),
                None => None::<Seq<u64>>,
            },
            !r.loaded_project_commit_count(),
            r.cfg().project_commit_count == match cache.project_commit_count {
                Some(w) => Some(w@),
                None => None::<Seq<u64>>,
            },
            !r.loaded_project_author_count(),
            r.cfg().project_author_count == match cache.project_author_count {
                Some(w) => Some(w@),
                None => None::<Seq<u64>>,
            },
            !r.loaded_project_committer_count(),
            r.cfg().project_committer_count == match cache.project_committer_count {
                Some(w) => Some(w@),
                None => None::<Seq<u64>>,
            },
            !r.loaded_project_user_count(),
            r.cfg().project_user_count == match cache.project_user_count {
                Some(w) => Some(w@),
                None => None::<Seq<u64>>,
            },
            !r.loaded_project_path_count(),
            r.cfg().project_path_count == match cache.project_path_count {
                Some(w) => Some(w@),
                None => None::<Seq<u64>>,
            },
            !r.loaded_project_snapshot_count(),
            r.cfg().project_snapshot_count == match cache.project_snapshot_count {
                Some(w) => Some(w@),
                None => None::<Seq<u64>>,
            },
            !r.loaded_user_authored_commits(),
            r.cfg().user_authored_commits == match cache.user_authored_commits {
                Some(w) => Some(w@),
                None => None::<Seq<u64>>,
            },
            !r.loaded_user_committed_commits(),
            r.cfg().user_committed_commits == match cache.user_committed_commits {
                Some(w) => Some(w@),
                None => None::<Seq<u64>>,
            },
            !r.loaded_user_author_experience(),
            r.cfg().user_author_experience == match cache.user_author_experience {
                Some(w) => Some(w@),
                None => None::<Seq<u64>>,
            },
            !r.loaded_user_committer_experience(),
            r.cfg().user_committer_experience == match cache.user_committer_experience {
                Some(w) => Some(w@),
                None => None::<Seq<u64>>,
            },
            !r.loaded_user_experience(),
            r.cfg().user_experience == match cache.user_experience {
                Some(w) => Some(w@),
                None => None::<Seq<u64>>,
            },
            !r.loaded_user_authored_commit_count(),
            r.cfg().user_authored_commit_count == match cache.user_authored_commit_count {
                Some(w) => Some(w@),
                None => None::<Seq<u64>>,
            },
            !r.loaded_user_committed_commit_count(),
            r.cfg().user_committed_commit_count == match cache.user_committed_commit_count {
                Some(w) => Some(w@),
                None => None::<Seq<u64>>,
            },
            !r.loaded_commit_change_count(),
            r.cfg().commit_change_count == match cache.commit_change_count {
                Some(w) => Some(w@),
                None => None::<Seq<u64>>,
            },
    {
        let r = Data {
            project_urls: PersistentMap::new("project_urls", cache_dir, None).without_cache(),
            project_heads: PersistentMap::new("project_heads", cache_dir, cache.project_heads),
            commits: PersistentMap::new("commits", cache_dir, cache.commits),
            commit_hashes: PersistentMap::new("commit_hashes", cache_dir, None).without_cache(),
            commit_messages: PersistentMap::new("commit_messages", cache_dir, None).without_cache(),
            commit_author_timestamps: PersistentMap::new("commit_author_timestamps", cache_dir, cache.commit_author_timestamps),
            commit_committer_timestamps: PersistentMap::new("commit_committer_timestamps", cache_dir, cache.commit_committer_timestamps),
            commit_changes: PersistentMap::new("commit_changes", cache_dir, None).without_cache(),
            users: PersistentMap::new("users", cache_dir, None).without_cache(),
            paths: PersistentMap::new("paths", cache_dir, None).without_cache(),
            project_commits: PersistentMap::new("project_commits", cache_dir, cache.project_commits),
            project_authors: PersistentMap::new("project_authors", cache_dir, cache.project_authors),
            project_committers: PersistentMap::new("project_committers", cache_dir, cache.project_committers),
            project_users: PersistentMap::new("project_users", cache_dir, cache.project_users),
            project_paths: PersistentMap::new("project_paths", cache_dir, cache.project_paths),
            project_snapshots: PersistentMap::new("project_snapshots", cache_dir, cache.project_snapshots),
            project_lifetimes: PersistentMap::new("project_lifetimes", cache_dir, cache.project_lifetimes),
            project_commit_count: PersistentMap::new("project_commit_count", cache_dir, cache.project_commit_count),
            project_author_count: PersistentMap::new("project_author_count", cache_dir, cache.project_author_count),
            project_committer_count: PersistentMap::new("project_committer_count", cache_dir, cache.project_committer_count),
            project_user_count: PersistentMap::new("project_user_count", cache_dir, cache.project_user_count),
            project_path_count: PersistentMap::new("project_path_count", cache_dir, cache.project_path_count),
            project_snapshot_count: PersistentMap::new("project_snapshot_count", cache_dir, cache.project_snapshot_count),
            user_authored_commits: PersistentMap::new("user_authored_commits", cache_dir, cache.user_authored_commits),
            user_committed_commits: PersistentMap::new("user_committed_commits", cache_dir, cache.user_committed_commits),
            user_author_experience: PersistentMap::new("user_author_experience", cache_dir, cache.user_author_experience),
            user_committer_experience: PersistentMap::new("user_committer_experience", cache_dir, cache.user_committer_experience),
            user_experience: PersistentMap::new("user_experience", cache_dir, cache.user_experience),
            user_authored_commit_count: PersistentMap::new("user_authored_commit_count", cache_dir, cache.user_authored_commit_count),
            user_committed_commit_count: PersistentMap::new("user_committed_commit_count", cache_dir, cache.user_committed_commit_count),
            commit_change_count: PersistentMap::new("commit_change_count", cache_dir, cache.commit_change_count),
        };
        r
    }

    pub fn smart_load_project_urls(&mut self, source: &Source)
        requires
            old(self).inv(*source),
            source.wf(),
        ensures
            final(self).inv(*source),
            final(self).cfg() == old(self).cfg(),
            loaded_leq(*old(self), *final(self)),
            final(self).loaded_project_urls(),
            old(self).loaded_project_urls() ==> *final(self) == *old(self),
    {
        if !self.project_urls.is_loaded() {
            if !self.project_urls.try_load_cache() {
                let t = extract_project_urls(source);
                self.project_urls.load_computed(t);
            }
        }
    }

    pub fn smart_load_project_heads(&mut self, source: &Source)
        requires
            old(self).inv(*source),
            source.wf(),
        ensures
            final(self).inv(*source),
            final(self).cfg() == old(self).cfg(),
            loaded_leq(*old(self), *final(self)),
            final(self).loaded_project_heads(),
            old(self).loaded_project_heads() ==> *final(self) == *old(self),
    {
        if !self.project_heads.is_loaded() {
            if !self.project_heads.try_load_cache() {
                let t = extract_project_heads(source);
                self.project_heads.load_computed(t);
            }
        }
    }

    pub fn smart_load_commits(&mut self, source: &Source)
        requires
            old(self).inv(*source),
            source.wf(),
        ensures
            final(self).inv(*source),
            final(self).cfg() == old(self).cfg(),
            loaded_leq(*old(self), *final(self)),
            final(self).loaded_commits(),
            old(self).loaded_commits() ==> *final(self) == *old(self),
    {
        if !self.commits.is_loaded() {
            if !self.commits.try_load_cache() {
                let t = extract_commits(source);
                self.commits.load_computed(t);
            }
        }
    }

    pub fn smart_load_commit_hashes(&mut self, source: &Source)
        requires
            old(self).inv(*source),
            source.wf(),
        ensures
            final(self).inv(*source),
            final(self).cfg() == old(self).cfg(),
            loaded_leq(*old(self), *final(self)),
            final(self).loaded_commit_hashes(),
            old(self).loaded_commit_hashes() ==> *final(self) == *old(self),
    {
        if !self.commit_hashes.is_loaded() {
            if !self.commit_hashes.try_load_cache() {
                let t = extract_commit_hashes(source);
                self.commit_hashes.load_computed(t);
            }
        }
    }

    pub fn smart_load_commit_messages(&mut self, source: &Source)
        requires
            old(self).inv(*source),
            source.wf(),
        ensures
            final(self).inv(*source),
            final(self).cfg() == old(self).cfg(),
            loaded_leq(*old(self), *final(self)),
            final(self).loaded_commit_messages(),
            old(self).loaded_commit_messages() ==> *final(self) == *old(self),
    {
        if !self.commit_messages.is_loaded() {
            if !self.commit_messages.try_load_cache() {
                let t = extract_commit_messages(source);
                self.commit_messages.load_computed(t);
            }
        }
    }

    pub fn smart_load_commit_author_timestamps(&mut self, source: &Source)
        requires
            old(self).inv(*source),
            source.wf(),
        ensures
            final(self).inv(*source),
            final(self).cfg() == old(self).cfg(),
            loaded_leq(*old(self), *final(self)),
            final(self).loaded_commit_author_timestamps(),
            old(self).loaded_commit_author_timestamps() ==> *final(self) == *old(self),
    {
        if !self.commit_author_timestamps.is_loaded() {
            if !self.commit_author_timestamps.try_load_cache() {
                let t = extract_commit_timestamps(source, true);
                self.commit_author_timestamps.load_computed(t);
            }
        }
    }

    pub fn smart_load_commit_committer_timestamps(&mut self, source: &Source)
        requires
            old(self).inv(*source),
            source.wf(),
        ensures
            final(self).inv(*source),
            final(self).cfg() == old(self).cfg(),
            loaded_leq(*old(self), *final(self)),
            final(self).loaded_commit_committer_timestamps(),
            old(self).loaded_commit_committer_timestamps() ==> *final(self) == *old(self),
    {
        if !self.commit_committer_timestamps.is_loaded() {
            if !self.commit_committer_timestamps.try_load_cache() {
                let t = extract_commit_timestamps(source, false);
                self.commit_committer_timestamps.load_computed(t);
            }
        }
    }

    pub fn smart_load_commit_changes(&mut self, source: &Source)
        requires
            old(self).inv(*source),
            source.wf(),
        ensures
            final(self).inv(*source),
            final(self).cfg() == old(self).cfg(),
            loaded_leq(*old(self), *final(self)),
            final(self).loaded_commit_changes(),
            old(self).loaded_commit_changes() ==> *final(self) == *old(self),
    {
        if !self.commit_changes.is_loaded() {
            if !self.commit_changes.try_load_cache() {
                let t = extract_commit_changes(source);
                self.commit_changes.load_computed(t);
            }
        }
    }

    pub fn smart_load_users(&mut self, source: &Source)
        requires
            old(self).inv(*source),
            source.wf(),
        ensures
            final(self).inv(*source),
            final(self).cfg() == old(self).cfg(),
            loaded_leq(*old(self), *final(self)),
            final(self).loaded_users(),
            old(self).loaded_users() ==> *final(self) == *old(self),
    {
        if !self.users.is_loaded() {
            if !self.users.try_load_cache() {
                let t = extract_users(source);
                self.users.load_computed(t);
            }
        }
    }

    pub fn smart_load_paths(&mut self, source: &Source)
        requires
            old(self).inv(*source),
            source.wf(),
        ensures
            final(self).inv(*source),
            final(self).cfg() == old(self).cfg(),
            loaded_leq(*old(self), *final(self)),
            final(self).loaded_paths(),
            old(self).loaded_paths() ==> *final(self) == *old(self),
    {
        if !self.paths.is_loaded() {
            if !self.paths.try_load_cache() {
                let t = extract_paths(source);
                self.paths.load_computed(t);
            }
        }
    }

        pub fn smart_load_project_commits(&mut self, source: &Source)
        requires
            old(self).inv(*source),
            source.wf(),
        ensures
            final(self).inv(*source),
            final(self).cfg() == old(self).cfg(),
            loaded_leq(*old(self), *final(self)),
            final(self).loaded_project_commits(),
            !old(self).loaded_project_commits() ==> final(self).loaded_project_heads(),
            !old(self).loaded_project_commits() ==> final(self).loaded_commits(),
            old(self).loaded_project_commits() ==> *final(self) == *old(self),
    {
        if !self.project_commits.is_loaded() {
            self.smart_load_project_heads(source);
            self.smart_load_commits(source);
            if !self.project_commits.is_loaded() {
                if !self.project_commits.try_load_cache() {
                    let t = extract_project_commits(self.project_heads.grab_collection(), self.commits.grab_collection());
                    self.project_commits.load_computed(t);
                }
            }
        }
    }

        pub fn smart_load_project_authors(&mut self, source: &Source)
        requires
            old(self).inv(*source),
            source.wf(),
        ensures
            final(self).inv(*source),
            final(self).cfg() == old(self).cfg(),
            loaded_leq(*old(self), *final(self)),
            final(self).loaded_project_authors(),
            !old(self).loaded_project_authors() ==> final(self).loaded_project_commits(),
            !old(self).loaded_project_authors() ==> final(self).loaded_commits(),
            old(self).loaded_project_authors() ==> *final(self) == *old(self),
    {
        if !self.project_authors.is_loaded() {
            self.smart_load_project_commits(source);
            self.smart_load_commits(source);
            if !self.project_authors.is_loaded() {
                if !self.project_authors.try_load_cache() {
                    let t = extract_project_members(self.project_commits.grab_collection(), self.commits.grab_collection(), true);
                    self.project_authors.load_computed(t);
                }
            }
        }
    }

        pub fn smart_load_project_committers(&mut self, source: &Source)
        requires
            old(self).inv(*source),
            source.wf(),
        ensures
            final(self).inv(*source),
            final(self).cfg() == old(self).cfg(),
            loaded_leq(*old(self), *final(self)),
            final(self).loaded_project_committers(),
            !old(self).loaded_project_committers() ==> final(self).loaded_project_commits(),
            !old(self).loaded_project_committers() ==> final(self).loaded_commits(),
            old(self).loaded_project_committers() ==> *final(self) == *old(self),
    {
        if !self.project_committers.is_loaded() {
            self.smart_load_project_commits(source);
            self.smart_load_commits(source);
            if !self.project_committers.is_loaded() {
                if !self.project_committers.try_load_cache() {
                    let t = extract_project_members(self.project_commits.grab_collection(), self.commits.grab_collection(), false);
                    self.project_committers.load_computed(t);
                }
            }
        }
    }

        pub fn smart_load_project_users(&mut self, source: &Source)
        requires
            old(self).inv(*source),
            source.wf(),
        ensures
            final(self).inv(*source),
            final(self).cfg() == old(self).cfg(),
            loaded_leq(*old(self), *final(self)),
            final(self).loaded_project_users(),
            !old(self).loaded_project_users() ==> final(self).loaded_project_authors(),
            !old(self).loaded_project_users() ==> final(self).loaded_project_committers(),
            old(self).loaded_project_users() ==> *final(self) == *old(self),
    {
        if !self.project_users.is_loaded() {
            self.smart_load_project_authors(source);
            self.smart_load_project_committers(source);
            if !self.project_users.is_loaded() {
                if !self.project_users.try_load_cache() {
                    let t = extract_project_users(self.project_authors.grab_collection(), self.project_committers.grab_collection());
                    self.project_users.load_computed(t);
                }
            }
        }
    }

        pub fn smart_load_project_paths(&mut self, source: &Source)
        requires
            old(self).inv(*source),
            source.wf(),
        ensures
            final(self).inv(*source),
            final(self).cfg() == old(self).cfg(),
            loaded_leq(*old(self), *final(self)),
            final(self).loaded_project_paths(),
            !old(self).loaded_project_paths() ==> final(self).loaded_project_commits(),
            !old(self).loaded_project_paths() ==> final(self).loaded_commit_changes(),
            old(self).loaded_project_paths() ==> *final(self) == *old(self),
    {
        if !self.project_paths.is_loaded() {
            self.smart_load_project_commits(source);
            self.smart_load_commit_changes(source);
            if !self.project_paths.is_loaded() {
                if !self.project_paths.try_load_cache() {
                    let t = extract_project_items(self.project_commits.grab_collection(), self.commit_changes.grab_collection(), false);
                    self.project_paths.load_computed(t);
                }
            }
        }
    }

        pub fn smart_load_project_snapshots(&mut self, source: &Source)
        requires
            old(self).inv(*source),
            source.wf(),
        ensures
            final(self).inv(*source),
            final(self).cfg() == old(self).cfg(),
            loaded_leq(*old(self), *final(self)),
            final(self).loaded_project_snapshots(),
            !old(self).loaded_project_snapshots() ==> final(self).loaded_project_commits(),
            !old(self).loaded_project_snapshots() ==> final(self).loaded_commit_changes(),
            old(self).loaded_project_snapshots() ==> *final(self) == *old(self),
    {
        if !self.project_snapshots.is_loaded() {
            self.smart_load_project_commits(source);
            self.smart_load_commit_changes(source);
            if !self.project_snapshots.is_loaded() {
                if !self.project_snapshots.try_load_cache() {
                    let t = extract_project_items(self.project_commits.grab_collection(), self.commit_changes.grab_collection(), true);
                    self.project_snapshots.load_computed(t);
                }
            }
        }
    }

        pub fn smart_load_project_lifetimes(&mut self, source: &Source)
        requires
            old(self).inv(*source),
            source.wf(),
        ensures
            final(self).inv(*source),
            final(self).cfg() == old(self).cfg(),
            loaded_leq(*old(self), *final(self)),
            final(self).loaded_project_lifetimes(),
            !old(self).loaded_project_lifetimes() ==> final(self).loaded_project_commits(),
            !old(self).loaded_project_lifetimes() ==> final(self).loaded_commit_author_timestamps(),
            !old(self).loaded_project_lifetimes() ==> final(self).loaded_commit_committer_timestamps(),
            old(self).loaded_project_lifetimes() ==> *final(self) == *old(self),
    {
        if !self.project_lifetimes.is_loaded() {
            self.smart_load_project_commits(source);
            self.smart_load_commit_author_timestamps(source);
            self.smart_load_commit_committer_timestamps(source);
            if !self.project_lifetimes.is_loaded() {
                if !self.project_lifetimes.try_load_cache() {
                    let t = extract_spans_combined(self.project_commits.grab_collection(), self.commit_author_timestamps.grab_collection(), self.commit_committer_timestamps.grab_collection());
                    self.project_lifetimes.load_computed(t);
                }
            }
        }
    }

        pub fn smart_load_project_commit_count(&mut self, source: &Source)
        requires
            old(self).inv(*source),
            source.wf(),
        ensures
            final(self).inv(*source),
            final(self).cfg() == old(self).cfg(),
            loaded_leq(*old(self), *final(self)),
            final(self).loaded_project_commit_count(),
            !old(self).loaded_project_commit_count() ==> final(self).loaded_project_commits(),
            old(self).loaded_project_commit_count() ==> *final(self) == *old(self),
    {
        if !self.project_commit_count.is_loaded() {
            self.smart_load_project_commits(source);
            if !self.project_commit_count.is_loaded() {
                if !self.project_commit_count.try_load_cache() {
                    let t = extract_counts::<u64>(self.project_commits.grab_collection());
                    self.project_commit_count.load_computed(t);
                }
            }
        }
    }

        pub fn smart_load_project_author_count(&mut self, source: &Source)
        requires
            old(self).inv(*source),
            source.wf(),
        ensures
            final(self).inv(*source),
            final(self).cfg() == old(self).cfg(),
            loaded_leq(*old(self), *final(self)),
            final(self).loaded_project_author_count(),
            !old(self).loaded_project_author_count() ==> final(self).loaded_project_authors(),
            old(self).loaded_project_author_count() ==> *final(self) == *old(self),
    {
        if !self.project_author_count.is_loaded() {
            self.smart_load_project_authors(source);
            if !self.project_author_count.is_loaded() {
                if !self.project_author_count.try_load_cache() {
                    let t = extract_counts::<u64>(self.project_authors.grab_collection());
                    self.project_author_count.load_computed(t);
                }
            }
        }
    }

        pub fn smart_load_project_committer_count(&mut self, source: &Source)
        requires
            old(self).inv(*source),
            source.wf(),
        ensures
            final(self).inv(*source),
            final(self).cfg() == old(self).cfg(),
            loaded_leq(*old(self), *final(self)),
            final(self).loaded_project_committer_count(),
            !old(self).loaded_project_committer_count() ==> final(self).loaded_project_committers(),
            old(self).loaded_project_committer_count() ==> *final(self) == *old(self),
    {
        if !self.project_committer_count.is_loaded() {
            self.smart_load_project_committers(source);
            if !self.project_committer_count.is_loaded() {
                if !self.project_committer_count.try_load_cache() {
                    let t = extract_counts::<u64>(self.project_committers.grab_collection());
                    self.project_committer_count.load_computed(t);
                }
            }
        }
    }

        pub fn smart_load_project_user_count(&mut self, source: &Source)
        requires
            old(self).inv(*source),
            source.wf(),
        ensures
            final(self).inv(*source),
            final(self).cfg() == old(self).cfg(),
            loaded_leq(*old(self), *final(self)),
            final(self).loaded_project_user_count(),
            !old(self).loaded_project_user_count() ==> final(self).loaded_project_users(),
            old(self).loaded_project_user_count() ==> *final(self) == *old(self),
    {
        if !self.project_user_count.is_loaded() {
            self.smart_load_project_users(source);
            if !self.project_user_count.is_loaded() {
                if !self.project_user_count.try_load_cache() {
                    let t = extract_counts::<u64>(self.project_users.grab_collection());
                    self.project_user_count.load_computed(t);
                }
            }
        }
    }

        pub fn smart_load_project_path_count(&mut self, source: &Source)
        requires
            old(self).inv(*source),
            source.wf(),
        ensures
            final(self).inv(*source),
            final(self).cfg() == old(self).cfg(),
            loaded_leq(*old(self), *final(self)),
            final(self).loaded_project_path_count(),
            !old(self).loaded_project_path_count() ==> final(self).loaded_project_paths(),
            old(self).loaded_project_path_count() ==> *final(self) == *old(self),
    {
        if !self.project_path_count.is_loaded() {
            self.smart_load_project_paths(source);
            if !self.project_path_count.is_loaded() {
                if !self.project_path_count.try_load_cache() {
                    let t = extract_counts::<u64>(self.project_paths.grab_collection());
                    self.project_path_count.load_computed(t);
                }
            }
        }
    }

        pub fn smart_load_project_snapshot_count(&mut self, source: &Source)
        requires
            old(self).inv(*source),
            source.wf(),
        ensures
            final(self).inv(*source),
            final(self).cfg() == old(self).cfg(),
            loaded_leq(*old(self), *final(self)),
            final(self).loaded_project_snapshot_count(),
            !old(self).loaded_project_snapshot_count() ==> final(self).loaded_project_snapshots(),
            old(self).loaded_project_snapshot_count() ==> *final(self) == *old(self),
    {
        if !self.project_snapshot_count.is_loaded() {
            self.smart_load_project_snapshots(source);
            if !self.project_snapshot_count.is_loaded() {
                if !self.project_snapshot_count.try_load_cache() {
                    let t = extract_counts::<u64>(self.project_snapshots.grab_collection());
                    self.project_snapshot_count.load_computed(t);
                }
            }
        }
    }

        pub fn smart_load_user_authored_commits(&mut self, source: &Source)
        requires
            old(self).inv(*source),
            source.wf(),
        ensures
            final(self).inv(*source),
            final(self).cfg() == old(self).cfg(),
            loaded_leq(*old(self), *final(self)),
            final(self).loaded_user_authored_commits(),
            !old(self).loaded_user_authored_commits() ==> final(self).loaded_commits(),
            old(self).loaded_user_authored_commits() ==> *final(self) == *old(self),
    {
        if !self.user_authored_commits.is_loaded() {
            self.smart_load_commits(source);
            if !self.user_authored_commits.is_loaded() {
                if !self.user_authored_commits.try_load_cache() {
                    let t = extract_user_commits(self.commits.grab_collection(), true);
                    self.user_authored_commits.load_computed(t);
                }
            }
        }
    }

        pub fn smart_load_user_committed_commits(&mut self, source: &Source)
        requires
            old(self).inv(*source),
            source.wf(),
        ensures
            final(self).inv(*source),
            final(self).cfg() == old(self).cfg(),
            loaded_leq(*old(self), *final(self)),
            final(self).loaded_user_committed_commits(),
            !old(self).loaded_user_committed_commits() ==> final(self).loaded_commits(),
            old(self).loaded_user_committed_commits() ==> *final(self) == *old(self),
    {
        if !self.user_committed_commits.is_loaded() {
            self.smart_load_commits(source);
            if !self.user_committed_commits.is_loaded() {
                if !self.user_committed_commits.try_load_cache() {
                    let t = extract_user_commits(self.commits.grab_collection(), false);
                    self.user_committed_commits.load_computed(t);
                }
            }
        }
    }

        pub fn smart_load_user_author_experience(&mut self, source: &Source)
        requires
            old(self).inv(*source),
            source.wf(),
        ensures
            final(self).inv(*source),
            final(self).cfg() == old(self).cfg(),
            loaded_leq(*old(self), *final(self)),
            final(self).loaded_user_author_experience(),
            !old(self).loaded_user_author_experience() ==> final(self).loaded_user_authored_commits(),
            !old(self).loaded_user_author_experience() ==> final(self).loaded_commit_author_timestamps(),
            old(self).loaded_user_author_experience() ==> *final(self) == *old(self),
    {
        if !self.user_author_experience.is_loaded() {
            self.smart_load_user_authored_commits(source);
            self.smart_load_commit_author_timestamps(source);
            if !self.user_author_experience.is_loaded() {
                if !self.user_author_experience.try_load_cache() {
                    let t = extract_spans(self.user_authored_commits.grab_collection(), self.commit_author_timestamps.grab_collection());
                    self.user_author_experience.load_computed(t);
                }
            }
        }
    }

        pub fn smart_load_user_committer_experience(&mut self, source: &Source)
        requires
            old(self).inv(*source),
            source.wf(),
        ensures
            final(self).inv(*source),
            final(self).cfg() == old(self).cfg(),
            loaded_leq(*old(self), *final(self)),
            final(self).loaded_user_committer_experience(),
            !old(self).loaded_user_committer_experience() ==> final(self).loaded_user_committed_commits(),
            !old(self).loaded_user_committer_experience() ==> final(self).loaded_commit_committer_timestamps(),
            old(self).loaded_user_committer_experience() ==> *final(self) == *old(self),
    {
        if !self.user_committer_experience.is_loaded() {
            self.smart_load_user_committed_commits(source);
            self.smart_load_commit_committer_timestamps(source);
            if !self.user_committer_experience.is_loaded() {
                if !self.user_committer_experience.try_load_cache() {
                    let t = extract_spans(self.user_committed_commits.grab_collection(), self.commit_committer_timestamps.grab_collection());
                    self.user_committer_experience.load_computed(t);
                }
            }
        }
    }

        pub fn smart_load_user_experience(&mut self, source: &Source)
        requires
            old(self).inv(*source),
            source.wf(),
        ensures
            final(self).inv(*source),
            final(self).cfg() == old(self).cfg(),
            loaded_leq(*old(self), *final(self)),
            final(self).loaded_user_experience(),
            !old(self).loaded_user_experience() ==> final(self).loaded_user_committed_commits(),
            !old(self).loaded_user_experience() ==> final(self).loaded_commit_author_timestamps(),
            !old(self).loaded_user_experience() ==> final(self).loaded_commit_committer_timestamps(),
            old(self).loaded_user_experience() ==> *final(self) == *old(self),
    {
        if !self.user_experience.is_loaded() {
            self.smart_load_user_committed_commits(source);
            self.smart_load_commit_author_timestamps(source);
            self.smart_load_commit_committer_timestamps(source);
            if !self.user_experience.is_loaded() {
                if !self.user_experience.try_load_cache() {
                    let t = extract_spans_combined(self.user_committed_commits.grab_collection(), self.commit_author_timestamps.grab_collection(), self.commit_committer_timestamps.grab_collection());
                    self.user_experience.load_computed(t);
                }
            }
        }
    }

        pub fn smart_load_user_authored_commit_count(&mut self, source: &Source)
        requires
            old(self).inv(*source),
            source.wf(),
        ensures
            final(self).inv(*source),
            final(self).cfg() == old(self).cfg(),
            loaded_leq(*old(self), *final(self)),
            final(self).loaded_user_authored_commit_count(),
            !old(self).loaded_user_authored_commit_count() ==> final(self).loaded_user_authored_commits(),
            old(self).loaded_user_authored_commit_count() ==> *final(self) == *old(self),
    {
        if !self.user_authored_commit_count.is_loaded() {
            self.smart_load_user_authored_commits(source);
            if !self.user_authored_commit_count.is_loaded() {
                if !self.user_authored_commit_count.try_load_cache() {
                    let t = extract_counts::<u64>(self.user_authored_commits.grab_collection());
                    self.user_authored_commit_count.load_computed(t);
                }
            }
        }
    }

        pub fn smart_load_user_committed_commit_count(&mut self, source: &Source)
        requires
            old(self).inv(*source),
            source.wf(),
        ensures
            final(self).inv(*source),
            final(self).cfg() == old(self).cfg(),
            loaded_leq(*old(self), *final(self)),
            final(self).loaded_user_committed_commit_count(),
            !old(self).loaded_user_committed_commit_count() ==> final(self).loaded_user_committed_commits(),
            old(self).loaded_user_committed_commit_count() ==> *final(self) == *old(self),
    {
        if !self.user_committed_commit_count.is_loaded() {
            self.smart_load_user_committed_commits(source);
            if !self.user_committed_commit_count.is_loaded() {
                if !self.user_committed_commit_count.try_load_cache() {
                    let t = extract_counts::<u64>(self.user_committed_commits.grab_collection());
                    self.user_committed_commit_count.load_computed(t);
                }
            }
        }
    }

    pub fn smart_load_commit_change_count(&mut self, source: &Source)
        requires
            old(self).inv(*source),
            source.wf(),
        ensures
            final(self).inv(*source),
            final(self).cfg() == old(self).cfg(),
            loaded_leq(*old(self), *final(self)),
            final(self).loaded_commit_change_count(),
            !old(self).loaded_commit_change_count() ==> final(self).loaded_commit_changes(),
            old(self).loaded_commit_change_count() ==> *final(self) == *old(self),
    {
        if !self.commit_change_count.is_loaded() {
            self.smart_load_commit_changes(source);
            if !self.commit_change_count.is_loaded() {
                if !self.commit_change_count.try_load_cache() {
                    let t = extract_counts::<Change>(self.commit_changes.grab_collection());
                    self.commit_change_count.load_computed(t);
                }
            }
        }
    }

}

/// The keys of a table view.
pub open spec fn tkeys<T>(tv: Seq<(u64, T)>) -> Seq<u64> {
    tv.map(|i: int, e: (u64, T)| e.0)
}

/// The metadata record of one project, scanned from the store enumeration.
pub open spec fn meta_lookup(rows: Seq<(u64, ProjectMetadata)>, k: u64) -> Option<ProjectMetadata>
    decreases rows.len(),
{
    if rows.len() == 0 {
        None
    } else if rows[0].0 == k {
        Some(rows[0].1)
    } else {
        meta_lookup(rows.skip(1), k)
    }
}

/// The commit records of a commit-id list, skipping absent ids.
pub open spec fn commits_in(ctv: Seq<(u64, CommitV)>, cids: Seq<u64>) -> Seq<CommitV>
    decreases cids.len(),
{
    if cids.len() == 0 {
        Seq::empty()
    } else {
        commits_in(ctv, cids.drop_last()) + (match crate::table::tlookup::<Commit>(
            ctv,
            cids.last(),
        ) {
            Some(cv) => seq![cv],
            None => Seq::empty(),
        })
    }
}

/// The id and email of each user of an id list, skipping absent ids.
pub open spec fn users_at(utv: Seq<(u64, Seq<char>)>, uids: Seq<u64>) -> Seq<(u64, Seq<char>)>
    decreases uids.len(),
{
    if uids.len() == 0 {
        Seq::empty()
    } else {
        users_at(utv, uids.drop_last()) + (match crate::table::tlookup::<String>(
            utv,
            uids.last(),
        ) {
            Some(e) => seq![(uids.last(), e)],
            None => Seq::empty(),
        })
    }
}

/// The query facade: the raw store and the loader, consumed together.
/// Loading tables mutates cached state, so every accessor takes the
/// database exclusively, even though the answers never change.
pub struct Database {
    data: Data,
    source: Source,
}

impl Database {
    /// The store this database answers from.
    pub closed spec fn src(self) -> Source {
        self.source
    }

    /// The loader's configuration.
    pub closed spec fn dcfg(self) -> DataCfg {
        self.data.cfg()
    }

    /// The facade is consistent: the store is well-formed and every
    /// resident table holds its effective content.
    pub closed spec fn wf(self) -> bool {
        self.source.wf() && self.data.inv(self.source)
    }

    /// A consistent database holds a well-formed store.
    pub proof fn lemma_wf_source(self)
        requires
            self.wf(),
        ensures
            self.src().wf(),
    {
    }

    pub fn from_store(store: Source, cache_dir: &str, cache: CacheData) -> (r: Database)
        requires
            store.wf(),
        ensures
            r.wf(),
            r.src() == store,
            r.dcfg().project_urls is None,
            r.dcfg().project_heads == match cache.project_heads {
                Some(w) => Some(w@),
                None => None::<Seq<u64>>,
            },
            r.dcfg().commits == match cache.commits {
                Some(w) => Some(w@),
                None => None::<Seq<u64>>,
            },
            r.dcfg().commit_hashes is None,
            r.dcfg().commit_messages is None,
            r.dcfg().commit_author_timestamps == match cache.commit_author_timestamps {
                Some(w) => Some(w@),
                None => None::<Seq<u64>>,
            },
            r.dcfg().commit_committer_timestamps == match cache.commit_committer_timestamps {
                Some(w) => Some(w@),
                None => None::<Seq<u64>>,
            },
            r.dcfg().commit_changes is None,
            r.dcfg().users is None,
            r.dcfg().paths is None,
            r.dcfg().project_commits == match cache.project_commits {
                Some(w) => Some(w@),
                None => None::<Seq<u64>>,
            },
            r.dcfg().project_authors == match cache.project_authors {
                Some(w) => Some(w@),
                None => None::<Seq<u64>>,
            },
            r.dcfg().project_committers == match cache.project_committers {
                Some(w) => Some(w@),
                None => None::<Seq<u64>>,
            },
            r.dcfg().project_users == match cache.project_users {
                Some(w) => Some(w@),
                None => None::<Seq<u64>>,
            },
            r.dcfg().project_paths == match cache.project_paths {
                Some(w) => Some(w@),
                None => None::<Seq<u64>>,
            },
            r.dcfg().project_snapshots == match cache.project_snapshots {
                Some(w) => Some(w@),
                None => None::<Seq<u64>>,
            },
            r.dcfg().project_lifetimes == match cache.project_lifetimes {
                Some(w) => Some(w@),
                None => None::<Seq<u64>>,
            },
            r.dcfg().project_commit_count == match cache.project_commit_count {
                Some(w) => Some(w@),
                None => None::<Seq<u64>>,
            },
            r.dcfg().project_author_count == match cache.project_author_count {
                Some(w) => Some(w@),
                None => None::<Seq<u64>>,
            },
            r.dcfg().project_committer_count == match cache.project_committer_count {
                Some(w) => Some(w@),
                None => None::<Seq<u64>>,
            },
            r.dcfg().project_user_count == match cache.project_user_count {
                Some(w) => Some(w@),
                None => None::<Seq<u64>>,
            },
            r.dcfg().project_path_count == match cache.project_path_count {
                Some(w) => Some(w@),
                None => None::<Seq<u64>>,
            },
            r.dcfg().project_snapshot_count == match cache.project_snapshot_count {
                Some(w) => Some(w@),
                None => None::<Seq<u64>>,
            },
            r.dcfg().user_authored_commits == match cache.user_authored_commits {
                Some(w) => Some(w@),
                None => None::<Seq<u64>>,
            },
            r.dcfg().user_committed_commits == match cache.user_committed_commits {
                Some(w) => Some(w@),
                None => None::<Seq<u64>>,
            },
            r.dcfg().user_author_experience == match cache.user_author_experience {
                Some(w) => Some(w@),
                None => None::<Seq<u64>>,
            },
            r.dcfg().user_committer_experience == match cache.user_committer_experience {
                Some(w) => Some(w@),
                None => None::<Seq<u64>>,
            },
            r.dcfg().user_experience == match cache.user_experience {
                Some(w) => Some(w@),
                None => None::<Seq<u64>>,
            },
            r.dcfg().user_authored_commit_count == match cache.user_authored_commit_count {
                Some(w) => Some(w@),
                None => None::<Seq<u64>>,
            },
            r.dcfg().user_committed_commit_count == match cache.user_committed_commit_count {
                Some(w) => Some(w@),
                None => None::<Seq<u64>>,
            },
            r.dcfg().commit_change_count == match cache.commit_change_count {
                Some(w) => Some(w@),
                None => None::<Seq<u64>>,
            },
    {
        Database { data: Data::new(cache_dir, cache), source: store }
    }
}

impl Database {
    pub fn project_commit_count(&mut self, id: crate::ids::ProjectId) -> (r: Option<u64>)
        requires
            old(self).wf(),
        ensures
            final(self).wf(),
            final(self).src() == old(self).src(),
            final(self).dcfg() == old(self).dcfg(),
            r == crate::table::tlookup::<u64>(
                eff_project_commit_count(old(self).dcfg(), old(self).src()),
                id.0,
            ),
    {
        self.data.smart_load_project_commit_count(&self.source);
        match self.data.project_commit_count.grab_collection().get(id.0) {
            Some(v) => Some(*v),
            None => None,
        }
    }

    pub fn project_author_count(&mut self, id: crate::ids::ProjectId) -> (r: Option<u64>)
        requires
            old(self).wf(),
        ensures
            final(self).wf(),
            final(self).src() == old(self).src(),
            final(self).dcfg() == old(self).dcfg(),
            r == crate::table::tlookup::<u64>(
                eff_project_author_count(old(self).dcfg(), old(self).src()),
                id.0,
            ),
    {
        self.data.smart_load_project_author_count(&self.source);
        match self.data.project_author_count.grab_collection().get(id.0) {
            Some(v) => Some(*v),
            None => None,
        }
    }

    pub fn project_committer_count(&mut self, id: crate::ids::ProjectId) -> (r: Option<u64>)
        requires
            old(self).wf(),
        ensures
            final(self).wf(),
            final(self).src() == old(self).src(),
            final(self).dcfg() == old(self).dcfg(),
            r == crate::table::tlookup::<u64>(
                eff_project_committer_count(old(self).dcfg(), old(self).src()),
                id.0,
            ),
    {
        self.data.smart_load_project_committer_count(&self.source);
        match self.data.project_committer_count.grab_collection().get(id.0) {
            Some(v) => Some(*v),
            None => None,
        }
    }

    pub fn project_user_count(&mut self, id: crate::ids::ProjectId) -> (r: Option<u64>)
        requires
            old(self).wf(),
        ensures
            final(self).wf(),
            final(self).src() == old(self).src(),
            final(self).dcfg() == old(self).dcfg(),
            r == crate::table::tlookup::<u64>(
                eff_project_user_count(old(self).dcfg(), old(self).src()),
                id.0,
            ),
    {
        self.data.smart_load_project_user_count(&self.source);
        match self.data.project_user_count.grab_collection().get(id.0) {
            Some(v) => Some(*v),
            None => None,
        }
    }

    pub fn project_path_count(&mut self, id: crate::ids::ProjectId) -> (r: Option<u64>)
        requires
            old(self).wf(),
        ensures
            final(self).wf(),
            final(self).src() == old(self).src(),
            final(self).dcfg() == old(self).dcfg(),
            r == crate::table::tlookup::<u64>(
                eff_project_path_count(old(self).dcfg(), old(self).src()),
                id.0,
            ),
    {
        self.data.smart_load_project_path_count(&self.source);
        match self.data.project_path_count.grab_collection().get(id.0) {
            Some(v) => Some(*v),
            None => None,
        }
    }

    pub fn project_snapshot_count(&mut self, id: crate::ids::ProjectId) -> (r: Option<u64>)
        requires
            old(self).wf(),
        ensures
            final(self).wf(),
            final(self).src() == old(self).src(),
            final(self).dcfg() == old(self).dcfg(),
            r == crate::table::tlookup::<u64>(
                eff_project_snapshot_count(old(self).dcfg(), old(self).src()),
                id.0,
            ),
    {
        self.data.smart_load_project_snapshot_count(&self.source);
        match self.data.project_snapshot_count.grab_collection().get(id.0) {
            Some(v) => Some(*v),
            None => None,
        }
    }

    pub fn user_authored_commit_count(&mut self, id: crate::ids::UserId) -> (r: Option<u64>)
        requires
            old(self).wf(),
        ensures
            final(self).wf(),
            final(self).src() == old(self).src(),
            final(self).dcfg() == old(self).dcfg(),
            r == crate::table::tlookup::<u64>(
                eff_user_authored_commit_count(old(self).dcfg(), old(self).src()),
                id.0,
            ),
    {
        self.data.smart_load_user_authored_commit_count(&self.source);
        match self.data.user_authored_commit_count.grab_collection().get(id.0) {
            Some(v) => Some(*v),
            None => None,
        }
    }

    pub fn user_committed_commit_count(&mut self, id: crate::ids::UserId) -> (r: Option<u64>)
        requires
            old(self).wf(),
        ensures
            final(self).wf(),
            final(self).src() == old(self).src(),
            final(self).dcfg() == old(self).dcfg(),
            r == crate::table::tlookup::<u64>(
                eff_user_committed_commit_count(old(self).dcfg(), old(self).src()),
                id.0,
            ),
    {
        self.data.smart_load_user_committed_commit_count(&self.source);
        match self.data.user_committed_commit_count.grab_collection().get(id.0) {
            Some(v) => Some(*v),
            None => None,
        }
    }

    pub fn commit_change_count(&mut self, id: crate::ids::CommitId) -> (r: Option<u64>)
        requires
            old(self).wf(),
        ensures
            final(self).wf(),
            final(self).src() == old(self).src(),
            final(self).dcfg() == old(self).dcfg(),
            r == crate::table::tlookup::<u64>(
                eff_commit_change_count(old(self).dcfg(), old(self).src()),
                id.0,
            ),
    {
        self.data.smart_load_commit_change_count(&self.source);
        match self.data.commit_change_count.grab_collection().get(id.0) {
            Some(v) => Some(*v),
            None => None,
        }
    }

    pub fn commit_changed_path_count(&mut self, id: crate::ids::CommitId) -> (r: Option<u64>)
        requires
            old(self).wf(),
        ensures
            final(self).wf(),
            final(self).src() == old(self).src(),
            final(self).dcfg() == old(self).dcfg(),
            r == crate::table::tlookup::<u64>(
                eff_commit_change_count(old(self).dcfg(), old(self).src()),
                id.0,
            ),
    {
        self.data.smart_load_commit_change_count(&self.source);
        match self.data.commit_change_count.grab_collection().get(id.0) {
            Some(v) => Some(*v),
            None => None,
        }
    }

    pub fn project_lifetime(&mut self, id: crate::ids::ProjectId) -> (r: Option<crate::objects::Duration>)
        requires
            old(self).wf(),
        ensures
            final(self).wf(),
            final(self).src() == old(self).src(),
            final(self).dcfg() == old(self).dcfg(),
            r == match crate::table::tlookup::<u64>(
                eff_project_lifetimes(old(self).dcfg(), old(self).src()),
                id.0,
            ) {
                Some(sec) => Some(crate::objects::Duration { seconds: sec }),
                None => None::<crate::objects::Duration>,
            },
    {
        self.data.smart_load_project_lifetimes(&self.source);
        match self.data.project_lifetimes.grab_collection().get(id.0) {
            Some(v) => Some(crate::objects::Duration { seconds: *v }),
            None => None,
        }
    }

    pub fn user_author_experience(&mut self, id: crate::ids::UserId) -> (r: Option<crate::objects::Duration>)
        requires
            old(self).wf(),
        ensures
            final(self).wf(),
            final(self).src() == old(self).src(),
            final(self).dcfg() == old(self).dcfg(),
            r == match crate::table::tlookup::<u64>(
                eff_user_author_experience(old(self).dcfg(), old(self).src()),
                id.0,
            ) {
                Some(sec) => Some(crate::objects::Duration { seconds: sec }),
                None => None::<crate::objects::Duration>,
            },
    {
        self.data.smart_load_user_author_experience(&self.source);
        match self.data.user_author_experience.grab_collection().get(id.0) {
            Some(v) => Some(crate::objects::Duration { seconds: *v }),
            None => None,
        }
    }

    pub fn user_committed_experience(&mut self, id: crate::ids::UserId) -> (r: Option<crate::objects::Duration>)
        requires
            old(self).wf(),
        ensures
            final(self).wf(),
            final(self).src() == old(self).src(),
            final(self).dcfg() == old(self).dcfg(),
            r == match crate::table::tlookup::<u64>(
                eff_user_committer_experience(old(self).dcfg(), old(self).src()),
                id.0,
            ) {
                Some(sec) => Some(crate::objects::Duration { seconds: sec }),
                None => None::<crate::objects::Duration>,
            },
    {
        self.data.smart_load_user_committer_experience(&self.source);
        match self.data.user_committer_experience.grab_collection().get(id.0) {
            Some(v) => Some(crate::objects::Duration { seconds: *v }),
            None => None,
        }
    }

    pub fn user_experience(&mut self, id: crate::ids::UserId) -> (r: Option<crate::objects::Duration>)
        requires
            old(self).wf(),
        ensures
            final(self).wf(),
            final(self).src() == old(self).src(),
            final(self).dcfg() == old(self).dcfg(),
            r == match crate::table::tlookup::<u64>(
                eff_user_experience(old(self).dcfg(), old(self).src()),
                id.0,
            ) {
                Some(sec) => Some(crate::objects::Duration { seconds: sec }),
                None => None::<crate::objects::Duration>,
            },
    {
        self.data.smart_load_user_experience(&self.source);
        match self.data.user_experience.grab_collection().get(id.0) {
            Some(v) => Some(crate::objects::Duration { seconds: *v }),
            None => None,
        }
    }

    pub fn commit_author_timestamp(&mut self, id: crate::ids::CommitId) -> (r: Option<i64>)
        requires
            old(self).wf(),
        ensures
            final(self).wf(),
            final(self).src() == old(self).src(),
            final(self).dcfg() == old(self).dcfg(),
            r == crate::table::tlookup::<i64>(
                eff_commit_author_timestamps(old(self).dcfg(), old(self).src()),
                id.0,
            ),
    {
        self.data.smart_load_commit_author_timestamps(&self.source);
        match self.data.commit_author_timestamps.grab_collection().get(id.0) {
            Some(v) => Some(*v),
            None => None,
        }
    }

    pub fn commit_committer_timestamp(&mut self, id: crate::ids::CommitId) -> (r: Option<i64>)
        requires
            old(self).wf(),
        ensures
            final(self).wf(),
            final(self).src() == old(self).src(),
            final(self).dcfg() == old(self).dcfg(),
            r == crate::table::tlookup::<i64>(
                eff_commit_committer_timestamps(old(self).dcfg(), old(self).src()),
                id.0,
            ),
    {
        self.data.smart_load_commit_committer_timestamps(&self.source);
        match self.data.commit_committer_timestamps.grab_collection().get(id.0) {
            Some(v) => Some(*v),
            None => None,
        }
    }

    pub fn project_url(&mut self, id: crate::ids::ProjectId) -> (r: Option<String>)
        requires
            old(self).wf(),
        ensures
            final(self).wf(),
            final(self).src() == old(self).src(),
            final(self).dcfg() == old(self).dcfg(),
            r is Some <==> crate::table::tlookup::<String>(
                eff_project_urls(old(self).dcfg(), old(self).src()),
                id.0,
            ) is Some,
            r matches Some(s) ==> Some(s@) == crate::table::tlookup::<String>(
                eff_project_urls(old(self).dcfg(), old(self).src()),
                id.0,
            ),
    {
        self.data.smart_load_project_urls(&self.source);
        match self.data.project_urls.grab_collection().get(id.0) {
            Some(v) => Some(v.clone()),
            None => None,
        }
    }

    pub fn commit_hash(&mut self, id: crate::ids::CommitId) -> (r: Option<String>)
        requires
            old(self).wf(),
        ensures
            final(self).wf(),
            final(self).src() == old(self).src(),
            final(self).dcfg() == old(self).dcfg(),
            r is Some <==> crate::table::tlookup::<String>(
                eff_commit_hashes(old(self).dcfg(), old(self).src()),
                id.0,
            ) is Some,
            r matches Some(s) ==> Some(s@) == crate::table::tlookup::<String>(
                eff_commit_hashes(old(self).dcfg(), old(self).src()),
                id.0,
            ),
    {
        self.data.smart_load_commit_hashes(&self.source);
        match self.data.commit_hashes.grab_collection().get(id.0) {
            Some(v) => Some(v.clone()),
            None => None,
        }
    }

    pub fn commit_message(&mut self, id: crate::ids::CommitId) -> (r: Option<String>)
        requires
            old(self).wf(),
        ensures
            final(self).wf(),
            final(self).src() == old(self).src(),
            final(self).dcfg() == old(self).dcfg(),
            r is Some <==> crate::table::tlookup::<String>(
                eff_commit_messages(old(self).dcfg(), old(self).src()),
                id.0,
            ) is Some,
            r matches Some(s) ==> Some(s@) == crate::table::tlookup::<String>(
                eff_commit_messages(old(self).dcfg(), old(self).src()),
                id.0,
            ),
    {
        self.data.smart_load_commit_messages(&self.source);
        match self.data.commit_messages.grab_collection().get(id.0) {
            Some(v) => Some(v.clone()),
            None => None,
        }
    }

    pub fn user_email(&mut self, id: crate::ids::UserId) -> (r: Option<String>)
        requires
            old(self).wf(),
        ensures
            final(self).wf(),
            final(self).src() == old(self).src(),
            final(self).dcfg() == old(self).dcfg(),
            r is Some <==> crate::table::tlookup::<String>(
                eff_users(old(self).dcfg(), old(self).src()),
                id.0,
            ) is Some,
            r matches Some(s) ==> Some(s@) == crate::table::tlookup::<String>(
                eff_users(old(self).dcfg(), old(self).src()),
                id.0,
            ),
    {
        self.data.smart_load_users(&self.source);
        match self.data.users.grab_collection().get(id.0) {
            Some(v) => Some(v.clone()),
            None => None,
        }
    }

    pub fn path_location(&mut self, id: crate::ids::PathId) -> (r: Option<String>)
        requires
            old(self).wf(),
        ensures
            final(self).wf(),
            final(self).src() == old(self).src(),
            final(self).dcfg() == old(self).dcfg(),
            r is Some <==> crate::table::tlookup::<String>(
                eff_paths(old(self).dcfg(), old(self).src()),
                id.0,
            ) is Some,
            r matches Some(s) ==> Some(s@) == crate::table::tlookup::<String>(
                eff_paths(old(self).dcfg(), old(self).src()),
                id.0,
            ),
    {
        self.data.smart_load_paths(&self.source);
        match self.data.paths.grab_collection().get(id.0) {
            Some(v) => Some(v.clone()),
            None => None,
        }
    }

    pub fn project_commit_ids(&mut self, id: crate::ids::ProjectId) -> (r: Option<Vec<u64>>)
        requires
            old(self).wf(),
        ensures
            final(self).wf(),
            final(self).src() == old(self).src(),
            final(self).dcfg() == old(self).dcfg(),
            r is Some <==> crate::table::tlookup::<Vec<u64>>(
                eff_project_commits(old(self).dcfg(), old(self).src()),
                id.0,
            ) is Some,
            r matches Some(v) ==> Some(v@) == crate::table::tlookup::<Vec<u64>>(
                eff_project_commits(old(self).dcfg(), old(self).src()),
                id.0,
            ),
    {
        self.data.smart_load_project_commits(&self.source);
        match self.data.project_commits.grab_collection().get(id.0) {
            Some(v) => {
                let ghost rv = crate::codec::Record::rv(*v);
                proof {
                    assert(rv =~= v@);
                }
                Some(crate::sequences::copy_vec_u64(v))
            },
            None => None,
        }
    }

    pub fn project_author_ids(&mut self, id: crate::ids::ProjectId) -> (r: Option<Vec<u64>>)
        requires
            old(self).wf(),
        ensures
            final(self).wf(),
            final(self).src() == old(self).src(),
            final(self).dcfg() == old(self).dcfg(),
            r is Some <==> crate::table::tlookup::<Vec<u64>>(
                eff_project_authors(old(self).dcfg(), old(self).src()),
                id.0,
            ) is Some,
            r matches Some(v) ==> Some(v@) == crate::table::tlookup::<Vec<u64>>(
                eff_project_authors(old(self).dcfg(), old(self).src()),
                id.0,
            ),
    {
        self.data.smart_load_project_authors(&self.source);
        match self.data.project_authors.grab_collection().get(id.0) {
            Some(v) => {
                let ghost rv = crate::codec::Record::rv(*v);
                proof {
                    assert(rv =~= v@);
                }
                Some(crate::sequences::copy_vec_u64(v))
            },
            None => None,
        }
    }

    pub fn project_committer_ids(&mut self, id: crate::ids::ProjectId) -> (r: Option<Vec<u64>>)
        requires
            old(self).wf(),
        ensures
            final(self).wf(),
            final(self).src() == old(self).src(),
            final(self).dcfg() == old(self).dcfg(),
            r is Some <==> crate::table::tlookup::<Vec<u64>>(
                eff_project_committers(old(self).dcfg(), old(self).src()),
                id.0,
            ) is Some,
            r matches Some(v) ==> Some(v@) == crate::table::tlookup::<Vec<u64>>(
                eff_project_committers(old(self).dcfg(), old(self).src()),
                id.0,
            ),
    {
        self.data.smart_load_project_committers(&self.source);
        match self.data.project_committers.grab_collection().get(id.0) {
            Some(v) => {
                let ghost rv = crate::codec::Record::rv(*v);
                proof {
                    assert(rv =~= v@);
                }
                Some(crate::sequences::copy_vec_u64(v))
            },
            None => None,
        }
    }

    pub fn project_user_ids(&mut self, id: crate::ids::ProjectId) -> (r: Option<Vec<u64>>)
        requires
            old(self).wf(),
        ensures
            final(self).wf(),
            final(self).src() == old(self).src(),
            final(self).dcfg() == old(self).dcfg(),
            r is Some <==> crate::table::tlookup::<Vec<u64>>(
                eff_project_users(old(self).dcfg(), old(self).src()),
                id.0,
            ) is Some,
            r matches Some(v) ==> Some(v@) == crate::table::tlookup::<Vec<u64>>(
                eff_project_users(old(self).dcfg(), old(self).src()),
                id.0,
            ),
    {
        self.data.smart_load_project_users(&self.source);
        match self.data.project_users.grab_collection().get(id.0) {
            Some(v) => {
                let ghost rv = crate::codec::Record::rv(*v);
                proof {
                    assert(rv =~= v@);
                }
                Some(crate::sequences::copy_vec_u64(v))
            },
            None => None,
        }
    }

    pub fn project_path_ids(&mut self, id: crate::ids::ProjectId) -> (r: Option<Vec<u64>>)
        requires
            old(self).wf(),
        ensures
            final(self).wf(),
            final(self).src() == old(self).src(),
            final(self).dcfg() == old(self).dcfg(),
            r is Some <==> crate::table::tlookup::<Vec<u64>>(
                eff_project_paths(old(self).dcfg(), old(self).src()),
                id.0,
            ) is Some,
            r matches Some(v) ==> Some(v@) == crate::table::tlookup::<Vec<u64>>(
                eff_project_paths(old(self).dcfg(), old(self).src()),
                id.0,
            ),
    {
        self.data.smart_load_project_paths(&self.source);
        match self.data.project_paths.grab_collection().get(id.0) {
            Some(v) => {
                let ghost rv = crate::codec::Record::rv(*v);
                proof {
                    assert(rv =~= v@);
                }
                Some(crate::sequences::copy_vec_u64(v))
            },
            None => None,
        }
    }

    pub fn project_snapshot_ids(&mut self, id: crate::ids::ProjectId) -> (r: Option<Vec<u64>>)
        requires
            old(self).wf(),
        ensures
            final(self).wf(),
            final(self).src() == old(self).src(),
            final(self).dcfg() == old(self).dcfg(),
            r is Some <==> crate::table::tlookup::<Vec<u64>>(
                eff_project_snapshots(old(self).dcfg(), old(self).src()),
                id.0,
            ) is Some,
            r matches Some(v) ==> Some(v@) == crate::table::tlookup::<Vec<u64>>(
                eff_project_snapshots(old(self).dcfg(), old(self).src()),
                id.0,
            ),
    {
        self.data.smart_load_project_snapshots(&self.source);
        match self.data.project_snapshots.grab_collection().get(id.0) {
            Some(v) => {
                let ghost rv = crate::codec::Record::rv(*v);
                proof {
                    assert(rv =~= v@);
                }
                Some(crate::sequences::copy_vec_u64(v))
            },
            None => None,
        }
    }

    pub fn user_authored_commit_ids(&mut self, id: crate::ids::UserId) -> (r: Option<Vec<u64>>)
        requires
            old(self).wf(),
        ensures
            final(self).wf(),
            final(self).src() == old(self).src(),
            final(self).dcfg() == old(self).dcfg(),
            r is Some <==> crate::table::tlookup::<Vec<u64>>(
                eff_user_authored_commits(old(self).dcfg(), old(self).src()),
                id.0,
            ) is Some,
            r matches Some(v) ==> Some(v@) == crate::table::tlookup::<Vec<u64>>(
                eff_user_authored_commits(old(self).dcfg(), old(self).src()),
                id.0,
            ),
    {
        self.data.smart_load_user_authored_commits(&self.source);
        match self.data.user_authored_commits.grab_collection().get(id.0) {
            Some(v) => {
                let ghost rv = crate::codec::Record::rv(*v);
                proof {
                    assert(rv =~= v@);
                }
                Some(crate::sequences::copy_vec_u64(v))
            },
            None => None,
        }
    }

    pub fn user_committed_commit_ids(&mut self, id: crate::ids::UserId) -> (r: Option<Vec<u64>>)
        requires
            old(self).wf(),
        ensures
            final(self).wf(),
            final(self).src() == old(self).src(),
            final(self).dcfg() == old(self).dcfg(),
            r is Some <==> crate::table::tlookup::<Vec<u64>>(
                eff_user_committed_commits(old(self).dcfg(), old(self).src()),
                id.0,
            ) is Some,
            r matches Some(v) ==> Some(v@) == crate::table::tlookup::<Vec<u64>>(
                eff_user_committed_commits(old(self).dcfg(), old(self).src()),
                id.0,
            ),
    {
        self.data.smart_load_user_committed_commits(&self.source);
        match self.data.user_committed_commits.grab_collection().get(id.0) {
            Some(v) => {
                let ghost rv = crate::codec::Record::rv(*v);
                proof {
                    assert(rv =~= v@);
                }
                Some(crate::sequences::copy_vec_u64(v))
            },
            None => None,
        }
    }

}

impl Database {
    /// All project ids the store enumerates.
    pub fn all_project_ids(&mut self) -> (r: Vec<u64>)
        requires
            old(self).wf(),
        ensures
            final(self).wf(),
            final(self).src() == old(self).src(),
            final(self).dcfg() == old(self).dcfg(),
            r@ == tkeys(eff_project_urls(old(self).dcfg(), old(self).src())),
    {
        self.data.smart_load_project_urls(&self.source);
        let t = self.data.project_urls.grab_collection();
        let ghost goal = tkeys(eff_project_urls(self.data.cfg(), self.source));
        let n = t.len();
        let mut out: Vec<u64> = Vec::new();
        let mut i: usize = 0;
        proof {
            assert(out@ =~= goal.take(0));
        }
        while i < n
            invariant
                n == t.tview().len(),
                goal == tkeys(t.tview()),
                0 <= i <= n,
                out@ == goal.take(i as int),
            decreases n - i,
        {
            out.push(t.key_at(i));
            proof {
                assert(out@ =~= goal.take(i + 1));
            }
            i = i + 1;
        }
        proof {
            assert(goal.take(n as int) =~= goal);
        }
        out
    }

    /// All user ids the store enumerates.
    pub fn all_user_ids(&mut self) -> (r: Vec<u64>)
        requires
            old(self).wf(),
        ensures
            final(self).wf(),
            final(self).src() == old(self).src(),
            final(self).dcfg() == old(self).dcfg(),
            r@ == tkeys(eff_users(old(self).dcfg(), old(self).src())),
    {
        self.data.smart_load_users(&self.source);
        let t = self.data.users.grab_collection();
        let ghost goal = tkeys(eff_users(self.data.cfg(), self.source));
        let n = t.len();
        let mut out: Vec<u64> = Vec::new();
        let mut i: usize = 0;
        proof {
            assert(out@ =~= goal.take(0));
        }
        while i < n
            invariant
                n == t.tview().len(),
                goal == tkeys(t.tview()),
                0 <= i <= n,
                out@ == goal.take(i as int),
            decreases n - i,
        {
            out.push(t.key_at(i));
            proof {
                assert(out@ =~= goal.take(i + 1));
            }
            i = i + 1;
        }
        proof {
            assert(goal.take(n as int) =~= goal);
        }
        out
    }

    /// All path ids the store enumerates.
    pub fn all_path_ids(&mut self) -> (r: Vec<u64>)
        requires
            old(self).wf(),
        ensures
            final(self).wf(),
            final(self).src() == old(self).src(),
            final(self).dcfg() == old(self).dcfg(),
            r@ == tkeys(eff_paths(old(self).dcfg(), old(self).src())),
    {
        self.data.smart_load_paths(&self.source);
        let t = self.data.paths.grab_collection();
        let ghost goal = tkeys(eff_paths(self.data.cfg(), self.source));
        let n = t.len();
        let mut out: Vec<u64> = Vec::new();
        let mut i: usize = 0;
        proof {
            assert(out@ =~= goal.take(0));
        }
        while i < n
            invariant
                n == t.tview().len(),
                goal == tkeys(t.tview()),
                0 <= i <= n,
                out@ == goal.take(i as int),
            decreases n - i,
        {
            out.push(t.key_at(i));
            proof {
                assert(out@ =~= goal.take(i + 1));
            }
            i = i + 1;
        }
        proof {
            assert(goal.take(n as int) =~= goal);
        }
        out
    }

    /// All commit ids the store enumerates.
    pub fn all_commit_ids(&mut self) -> (r: Vec<u64>)
        requires
            old(self).wf(),
        ensures
            final(self).wf(),
            final(self).src() == old(self).src(),
            final(self).dcfg() == old(self).dcfg(),
            r@ == tkeys(eff_commits(old(self).dcfg(), old(self).src())),
    {
        self.data.smart_load_commits(&self.source);
        let t = self.data.commits.grab_collection();
        let ghost goal = tkeys(eff_commits(self.data.cfg(), self.source));
        let n = t.len();
        let mut out: Vec<u64> = Vec::new();
        let mut i: usize = 0;
        proof {
            assert(out@ =~= goal.take(0));
        }
        while i < n
            invariant
                n == t.tview().len(),
                goal == tkeys(t.tview()),
                0 <= i <= n,
                out@ == goal.take(i as int),
            decreases n - i,
        {
            out.push(t.key_at(i));
            proof {
                assert(out@ =~= goal.take(i + 1));
            }
            i = i + 1;
        }
        proof {
            assert(goal.take(n as int) =~= goal);
        }
        out
    }

    /// Every project, as an id and clone URL, in id order.
    pub fn projects(&mut self) -> (r: Vec<crate::objects::Project>)
        requires
            old(self).wf(),
        ensures
            final(self).wf(),
            final(self).src() == old(self).src(),
            final(self).dcfg() == old(self).dcfg(),
            r@.len() == eff_project_urls(old(self).dcfg(), old(self).src()).len(),
            forall|i: int|
                0 <= i < r@.len() ==> (#[trigger] r@[i].id.0, r@[i].url@) == eff_project_urls(
                    old(self).dcfg(),
                    old(self).src(),
                )[i],
    {
        self.data.smart_load_project_urls(&self.source);
        let t = self.data.project_urls.grab_collection();
        let ghost goal = eff_project_urls(self.data.cfg(), self.source);
        let n = t.len();
        let mut out: Vec<crate::objects::Project> = Vec::new();
        let mut i: usize = 0;
        while i < n
            invariant
                n == t.tview().len(),
                goal == t.tview(),
                0 <= i <= n,
                out@.len() == i,
                forall|j: int|
                    0 <= j < i ==> (#[trigger] out@[j].id.0, out@[j].url@) == goal[j],
            decreases n - i,
        {
            let k = t.key_at(i);
            let url = t.value_at(i).clone();
            out.push(crate::objects::Project::new(crate::ids::ProjectId(k), url));
            i = i + 1;
        }
        out
    }

    /// One project, when the store records it.
    pub fn project(&mut self, id: crate::ids::ProjectId) -> (r: Option<crate::objects::Project>)
        requires
            old(self).wf(),
        ensures
            final(self).wf(),
            final(self).src() == old(self).src(),
            final(self).dcfg() == old(self).dcfg(),
            r is Some <==> crate::table::tlookup::<String>(
                eff_project_urls(old(self).dcfg(), old(self).src()),
                id.0,
            ) is Some,
            r matches Some(p) ==> p.id == id && Some(p.url@) == crate::table::tlookup::<String>(
                eff_project_urls(old(self).dcfg(), old(self).src()),
                id.0,
            ),
    {
        match self.project_url(id) {
            Some(url) => Some(crate::objects::Project::new(id, url)),
            None => None,
        }
    }

    /// One user, when the store records it.
    pub fn user(&mut self, id: crate::ids::UserId) -> (r: Option<crate::objects::User>)
        requires
            old(self).wf(),
        ensures
            final(self).wf(),
            final(self).src() == old(self).src(),
            final(self).dcfg() == old(self).dcfg(),
            r is Some <==> crate::table::tlookup::<String>(
                eff_users(old(self).dcfg(), old(self).src()),
                id.0,
            ) is Some,
            r matches Some(u) ==> u.id == id && Some(u.email@) == crate::table::tlookup::<String>(
                eff_users(old(self).dcfg(), old(self).src()),
                id.0,
            ),
    {
        match self.user_email(id) {
            Some(email) => Some(crate::objects::User::new(id, email)),
            None => None,
        }
    }

    /// One path, when the store records it.
    pub fn path(&mut self, id: crate::ids::PathId) -> (r: Option<crate::objects::Path>)
        requires
            old(self).wf(),
        ensures
            final(self).wf(),
            final(self).src() == old(self).src(),
            final(self).dcfg() == old(self).dcfg(),
            r is Some <==> crate::table::tlookup::<String>(
                eff_paths(old(self).dcfg(), old(self).src()),
                id.0,
            ) is Some,
            r matches Some(p) ==> p.id == id && Some(p.location@)
                == crate::table::tlookup::<String>(
                eff_paths(old(self).dcfg(), old(self).src()),
                id.0,
            ),
    {
        match self.path_location(id) {
            Some(location) => Some(crate::objects::Path::new(id, location)),
            None => None,
        }
    }

    /// One commit, when the store records it.
    pub fn commit(&mut self, id: crate::ids::CommitId) -> (r: Option<crate::objects::Commit>)
        requires
            old(self).wf(),
        ensures
            final(self).wf(),
            final(self).src() == old(self).src(),
            final(self).dcfg() == old(self).dcfg(),
            r is Some <==> crate::table::tlookup::<Commit>(
                eff_commits(old(self).dcfg(), old(self).src()),
                id.0,
            ) is Some,
            r matches Some(c) ==> Some(c.cv()) == crate::table::tlookup::<Commit>(
                eff_commits(old(self).dcfg(), old(self).src()),
                id.0,
            ),
    {
        self.data.smart_load_commits(&self.source);
        match self.data.commits.grab_collection().get(id.0) {
            Some(c) => Some(c.clone()),
            None => None,
        }
    }

    /// A project's branch heads.
    pub fn project_heads(&mut self, id: crate::ids::ProjectId) -> (r: Option<Vec<Head>>)
        requires
            old(self).wf(),
        ensures
            final(self).wf(),
            final(self).src() == old(self).src(),
            final(self).dcfg() == old(self).dcfg(),
            r is Some <==> crate::table::tlookup::<Vec<Head>>(
                eff_project_heads(old(self).dcfg(), old(self).src()),
                id.0,
            ) is Some,
            r matches Some(v) ==> Some(v@.map(|i: int, h: Head| h.hv()))
                == crate::table::tlookup::<Vec<Head>>(
                eff_project_heads(old(self).dcfg(), old(self).src()),
                id.0,
            ),
    {
        self.data.smart_load_project_heads(&self.source);
        match self.data.project_heads.grab_collection().get(id.0) {
            Some(hs) => {
                let ghost hsv = crate::codec::Record::rv(*hs);
                let mut out: Vec<Head> = Vec::new();
                let n = hs.len();
                let mut i: usize = 0;
                while i < n
                    invariant
                        n == hs@.len(),
                        0 <= i <= n,
                        out@.len() == i,
                        forall|j: int| 0 <= j < i ==> #[trigger] out@[j].hv() == hs@[j].hv(),
                    decreases n - i,
                {
                    out.push(hs[i].clone());
                    i = i + 1;
                }
                proof {
                    assert(out@.map(|i: int, h: Head| h.hv()) =~= hsv);
                }
                Some(out)
            },
            None => None,
        }
    }

    /// A commit's recorded changes.
    pub fn commit_changes(&mut self, id: crate::ids::CommitId) -> (r: Option<Vec<Change>>)
        requires
            old(self).wf(),
        ensures
            final(self).wf(),
            final(self).src() == old(self).src(),
            final(self).dcfg() == old(self).dcfg(),
            r is Some <==> crate::table::tlookup::<Vec<Change>>(
                eff_commit_changes(old(self).dcfg(), old(self).src()),
                id.0,
            ) is Some,
            r matches Some(v) ==> Some(v@.map(|i: int, c: Change| crate::codec::Record::rv(c)))
                == crate::table::tlookup::<Vec<Change>>(
                eff_commit_changes(old(self).dcfg(), old(self).src()),
                id.0,
            ),
    {
        self.data.smart_load_commit_changes(&self.source);
        match self.data.commit_changes.grab_collection().get(id.0) {
            Some(chs) => {
                let ghost chsv = crate::codec::Record::rv(*chs);
                let mut out: Vec<Change> = Vec::new();
                let n = chs.len();
                let mut i: usize = 0;
                while i < n
                    invariant
                        n == chs@.len(),
                        0 <= i <= n,
                        out@.len() == i,
                        forall|j: int| 0 <= j < i ==> #[trigger] out@[j] == chs@[j],
                    decreases n - i,
                {
                    out.push(chs[i]);
                    i = i + 1;
                }
                proof {
                    assert(out@.map(|i: int, c: Change| crate::codec::Record::rv(c)) =~= chsv);
                }
                Some(out)
            },
            None => None,
        }
    }
}

impl Database {
    /// The metadata record of one project.
    fn metadata_of(&self, id: u64) -> (r: Option<&ProjectMetadata>)
        requires
            self.wf(),
        ensures
            r is Some <==> meta_lookup(self.src().project_metadata@, id) is Some,
            r matches Some(m) ==> Some(*m) == meta_lookup(self.src().project_metadata@, id),
    {
        let rows = &self.source.project_metadata;
        let n = rows.len();
        let mut i: usize = 0;
        proof {
            assert(rows@.skip(0) =~= rows@);
        }
        while i < n
            invariant
                n == rows@.len(),
                0 <= i <= n,
                rows@ == self.src().project_metadata@,
                meta_lookup(rows@, id) == meta_lookup(rows@.skip(i as int), id),
            decreases n - i,
        {
            proof {
                assert(rows@.skip(i as int)[0] == rows@[i as int]);
                assert(rows@.skip(i as int).skip(1) =~= rows@.skip(i + 1));
            }
            if rows[i].0 == id {
                proof {
                    assert(rows@.skip(i as int).len() > 0);
                    assert(rows@.skip(i as int)[0].0 == id);
                    assert(meta_lookup(rows@.skip(i as int), id) == Some(rows@[i as int].1));
                }
                return Some(&rows[i].1);
            }
            i = i + 1;
        }
        proof {
            assert(rows@.skip(n as int) =~= Seq::<(u64, ProjectMetadata)>::empty());
        }
        None
    }

    pub fn project_is_fork(&self, id: crate::ids::ProjectId) -> (r: Option<bool>)
        requires
            self.wf(),
        ensures
            r == match meta_lookup(self.src().project_metadata@, id.0) {
                Some(m) => m.is_fork,
                None => None::<bool>,
            },
    {
        match self.metadata_of(id.0) {
            Some(m) => m.is_fork,
            None => None,
        }
    }

    pub fn project_is_archived(&self, id: crate::ids::ProjectId) -> (r: Option<bool>)
        requires
            self.wf(),
        ensures
            r == match meta_lookup(self.src().project_metadata@, id.0) {
                Some(m) => m.is_archived,
                None => None::<bool>,
            },
    {
        match self.metadata_of(id.0) {
            Some(m) => m.is_archived,
            None => None,
        }
    }

    pub fn project_is_disabled(&self, id: crate::ids::ProjectId) -> (r: Option<bool>)
        requires
            self.wf(),
        ensures
            r == match meta_lookup(self.src().project_metadata@, id.0) {
                Some(m) => m.is_disabled,
                None => None::<bool>,
            },
    {
        match self.metadata_of(id.0) {
            Some(m) => m.is_disabled,
            None => None,
        }
    }

    pub fn project_star_gazer_count(&self, id: crate::ids::ProjectId) -> (r: Option<u64>)
        requires
            self.wf(),
        ensures
            r == match meta_lookup(self.src().project_metadata@, id.0) {
                Some(m) => m.star_count,
                None => None::<u64>,
            },
    {
        match self.metadata_of(id.0) {
            Some(m) => m.star_count,
            None => None,
        }
    }

    pub fn project_watcher_count(&self, id: crate::ids::ProjectId) -> (r: Option<u64>)
        requires
            self.wf(),
        ensures
            r == match meta_lookup(self.src().project_metadata@, id.0) {
                Some(m) => m.watcher_count,
                None => None::<u64>,
            },
    {
        match self.metadata_of(id.0) {
            Some(m) => m.watcher_count,
            None => None,
        }
    }

    pub fn project_size(&self, id: crate::ids::ProjectId) -> (r: Option<u64>)
        requires
            self.wf(),
        ensures
            r == match meta_lookup(self.src().project_metadata@, id.0) {
                Some(m) => m.size,
                None => None::<u64>,
            },
    {
        match self.metadata_of(id.0) {
            Some(m) => m.size,
            None => None,
        }
    }

    pub fn project_open_issue_count(&self, id: crate::ids::ProjectId) -> (r: Option<u64>)
        requires
            self.wf(),
        ensures
            r == match meta_lookup(self.src().project_metadata@, id.0) {
                Some(m) => m.open_issue_count,
                None => None::<u64>,
            },
    {
        match self.metadata_of(id.0) {
            Some(m) => m.open_issue_count,
            None => None,
        }
    }

    pub fn project_fork_count(&self, id: crate::ids::ProjectId) -> (r: Option<u64>)
        requires
            self.wf(),
        ensures
            r == match meta_lookup(self.src().project_metadata@, id.0) {
                Some(m) => m.fork_count,
                None => None::<u64>,
            },
    {
        match self.metadata_of(id.0) {
            Some(m) => m.fork_count,
            None => None,
        }
    }

    pub fn project_subscriber_count(&self, id: crate::ids::ProjectId) -> (r: Option<u64>)
        requires
            self.wf(),
        ensures
            r == match meta_lookup(self.src().project_metadata@, id.0) {
                Some(m) => m.subscriber_count,
                None => None::<u64>,
            },
    {
        match self.metadata_of(id.0) {
            Some(m) => m.subscriber_count,
            None => None,
        }
    }

    pub fn project_has_issues(&self, id: crate::ids::ProjectId) -> (r: Option<bool>)
        requires
            self.wf(),
        ensures
            r == match meta_lookup(self.src().project_metadata@, id.0) {
                Some(m) => m.has_issues,
                None => None::<bool>,
            },
    {
        match self.metadata_of(id.0) {
            Some(m) => m.has_issues,
            None => None,
        }
    }

    pub fn project_has_downloads(&self, id: crate::ids::ProjectId) -> (r: Option<bool>)
        requires
            self.wf(),
        ensures
            r == match meta_lookup(self.src().project_metadata@, id.0) {
                Some(m) => m.has_downloads,
                None => None::<bool>,
            },
    {
        match self.metadata_of(id.0) {
            Some(m) => m.has_downloads,
            None => None,
        }
    }

    pub fn project_has_wiki(&self, id: crate::ids::ProjectId) -> (r: Option<bool>)
        requires
            self.wf(),
        ensures
            r == match meta_lookup(self.src().project_metadata@, id.0) {
                Some(m) => m.has_wiki,
                None => None::<bool>,
            },
    {
        match self.metadata_of(id.0) {
            Some(m) => m.has_wiki,
            None => None,
        }
    }

    pub fn project_has_pages(&self, id: crate::ids::ProjectId) -> (r: Option<bool>)
        requires
            self.wf(),
        ensures
            r == match meta_lookup(self.src().project_metadata@, id.0) {
                Some(m) => m.has_pages,
                None => None::<bool>,
            },
    {
        match self.metadata_of(id.0) {
            Some(m) => m.has_pages,
            None => None,
        }
    }

    pub fn project_created(&self, id: crate::ids::ProjectId) -> (r: Option<i64>)
        requires
            self.wf(),
        ensures
            r == match meta_lookup(self.src().project_metadata@, id.0) {
                Some(m) => m.created,
                None => None::<i64>,
            },
    {
        match self.metadata_of(id.0) {
            Some(m) => m.created,
            None => None,
        }
    }

    pub fn project_updated(&self, id: crate::ids::ProjectId) -> (r: Option<i64>)
        requires
            self.wf(),
        ensures
            r == match meta_lookup(self.src().project_metadata@, id.0) {
                Some(m) => m.updated,
                None => None::<i64>,
            },
    {
        match self.metadata_of(id.0) {
            Some(m) => m.updated,
            None => None,
        }
    }

    pub fn project_pushed(&self, id: crate::ids::ProjectId) -> (r: Option<i64>)
        requires
            self.wf(),
        ensures
            r == match meta_lookup(self.src().project_metadata@, id.0) {
                Some(m) => m.pushed,
                None => None::<i64>,
            },
    {
        match self.metadata_of(id.0) {
            Some(m) => m.pushed,
            None => None,
        }
    }

    pub fn project_issues(&self, id: crate::ids::ProjectId) -> (r: Option<u64>)
        requires
            self.wf(),
        ensures
            r == match meta_lookup(self.src().project_metadata@, id.0) {
                Some(m) => m.issue_count,
                None => None::<u64>,
            },
    {
        match self.metadata_of(id.0) {
            Some(m) => m.issue_count,
            None => None,
        }
    }

    pub fn project_buggy_issues(&self, id: crate::ids::ProjectId) -> (r: Option<u64>)
        requires
            self.wf(),
        ensures
            r == match meta_lookup(self.src().project_metadata@, id.0) {
                Some(m) => m.buggy_issue_count,
                None => None::<u64>,
            },
    {
        match self.metadata_of(id.0) {
            Some(m) => m.buggy_issue_count,
            None => None,
        }
    }

    pub fn project_license(&self, id: crate::ids::ProjectId) -> (r: Option<String>)
        requires
            self.wf(),
        ensures
            r is Some <==> (meta_lookup(self.src().project_metadata@, id.0) matches Some(m)
                && m.license is Some),
            r matches Some(v) ==> Some(v@) == match meta_lookup(
                self.src().project_metadata@,
                id.0,
            ) {
                Some(m) => match m.license {
                    Some(x) => Some(x@),
                    None => None::<Seq<char>>,
                },
                None => None::<Seq<char>>,
            },
    {
        match self.metadata_of(id.0) {
            Some(m) => match &m.license {
                Some(v) => Some(v.clone()),
                None => None,
            },
            None => None,
        }
    }

    pub fn project_language(&self, id: crate::ids::ProjectId) -> (r: Option<String>)
        requires
            self.wf(),
        ensures
            r is Some <==> (meta_lookup(self.src().project_metadata@, id.0) matches Some(m)
                && m.language is Some),
            r matches Some(v) ==> Some(v@) == match meta_lookup(
                self.src().project_metadata@,
                id.0,
            ) {
                Some(m) => match m.language {
                    Some(x) => Some(x@),
                    None => None::<Seq<char>>,
                },
                None => None::<Seq<char>>,
            },
    {
        match self.metadata_of(id.0) {
            Some(m) => match &m.language {
                Some(v) => Some(v.clone()),
                None => None,
            },
            None => None,
        }
    }

    pub fn project_description(&self, id: crate::ids::ProjectId) -> (r: Option<String>)
        requires
            self.wf(),
        ensures
            r is Some <==> (meta_lookup(self.src().project_metadata@, id.0) matches Some(m)
                && m.description is Some),
            r matches Some(v) ==> Some(v@) == match meta_lookup(
                self.src().project_metadata@,
                id.0,
            ) {
                Some(m) => match m.description {
                    Some(x) => Some(x@),
                    None => None::<Seq<char>>,
                },
                None => None::<Seq<char>>,
            },
    {
        match self.metadata_of(id.0) {
            Some(m) => match &m.description {
                Some(v) => Some(v.clone()),
                None => None,
            },
            None => None,
        }
    }

    pub fn project_homepage(&self, id: crate::ids::ProjectId) -> (r: Option<String>)
        requires
            self.wf(),
        ensures
            r is Some <==> (meta_lookup(self.src().project_metadata@, id.0) matches Some(m)
                && m.homepage is Some),
            r matches Some(v) ==> Some(v@) == match meta_lookup(
                self.src().project_metadata@,
                id.0,
            ) {
                Some(m) => match m.homepage {
                    Some(x) => Some(x@),
                    None => None::<Seq<char>>,
                },
                None => None::<Seq<char>>,
            },
    {
        match self.metadata_of(id.0) {
            Some(m) => match &m.homepage {
                Some(v) => Some(v.clone()),
                None => None,
            },
            None => None,
        }
    }

    pub fn project_master(&self, id: crate::ids::ProjectId) -> (r: Option<String>)
        requires
            self.wf(),
        ensures
            r is Some <==> (meta_lookup(self.src().project_metadata@, id.0) matches Some(m)
                && m.master is Some),
            r matches Some(v) ==> Some(v@) == match meta_lookup(
                self.src().project_metadata@,
                id.0,
            ) {
                Some(m) => match m.master {
                    Some(x) => Some(x@),
                    None => None::<Seq<char>>,
                },
                None => None::<Seq<char>>,
            },
    {
        match self.metadata_of(id.0) {
            Some(m) => match &m.master {
                Some(v) => Some(v.clone()),
                None => None,
            },
            None => None,
        }
    }

}

} // verus!
