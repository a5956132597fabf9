use vstd::prelude::*;
use crate::attrib::{Attribute, Getter, Keyed, OptionGetter};
use crate::data::{Database, DataCfg};
use crate::ids::CommitId;
use crate::objects::{Commit, User};
use crate::query::project::fetch_commits;
use crate::source::Source;
use crate::table::tlookup;
use crate::{EntitiesGetter, EntityGetter, TextGetter};

verus! {

/// A commit's own id.
pub struct Id;

impl Attribute for Id {
    type Object = Commit;
}

impl Getter for Id {
    type IntoItem = CommitId;

    type ItemModel = u64;

    open spec fn model_total(it: CommitId) -> u64 {
        it.0
    }

    open spec fn spec_get(self, cfg: DataCfg, src: Source, key: u64) -> u64 {
        key
    }

    fn get(&self, db: &mut Database, object: &Commit) -> (r: CommitId) {
        object.id()
    }
}

/// A commit's author, as a user entity, when the user table records them.
pub struct Author;

impl Attribute for Author {
    type Object = Commit;
}

impl OptionGetter for Author {
    type IntoItem = User;

    type ItemModel = u64;

    open spec fn model(it: User) -> u64 {
        it.id.0
    }

    open spec fn spec_get_opt(self, cfg: DataCfg, src: Source, key: u64) -> Option<u64> {
        match tlookup::<Commit>(crate::data::eff_commits(cfg, src), key) {
            Some(cv) => match tlookup::<String>(crate::data::eff_users(cfg, src), cv.author) {
                Some(e) => Some(cv.author),
                None => None,
            },
            None => None,
        }
    }

    fn get_opt(&self, db: &mut Database, object: &Commit) -> (r: Option<User>) {
        match db.commit(object.id()) {
            Some(c) => db.user(c.author_id()),
            None => None,
        }
    }
}

impl EntityGetter for Author {
    proof fn lemma_model_is_key(it: User) {
    }
}

/// A commit's committer, as a user entity, when the user table records
/// them.
pub struct Committer;

impl Attribute for Committer {
    type Object = Commit;
}

impl OptionGetter for Committer {
    type IntoItem = User;

    type ItemModel = u64;

    open spec fn model(it: User) -> u64 {
        it.id.0
    }

    open spec fn spec_get_opt(self, cfg: DataCfg, src: Source, key: u64) -> Option<u64> {
        match tlookup::<Commit>(crate::data::eff_commits(cfg, src), key) {
            Some(cv) => match tlookup::<String>(crate::data::eff_users(cfg, src), cv.committer) {
                Some(e) => Some(cv.committer),
                None => None,
            },
            None => None,
        }
    }

    fn get_opt(&self, db: &mut Database, object: &Commit) -> (r: Option<User>) {
        match db.commit(object.id()) {
            Some(c) => db.user(c.committer_id()),
            None => None,
        }
    }
}

impl EntityGetter for Committer {
    proof fn lemma_model_is_key(it: User) {
    }
}

/// A commit's hash string.
pub struct Hash;

impl Attribute for Hash {
    type Object = Commit;
}

impl OptionGetter for Hash {
    type IntoItem = String;

    type ItemModel = Seq<char>;

    open spec fn model(it: String) -> Seq<char> {
        it@
    }

    open spec fn spec_get_opt(self, cfg: DataCfg, src: Source, key: u64) -> Option<Seq<char>> {
        tlookup::<String>(crate::data::eff_commit_hashes(cfg, src), key)
    }

    fn get_opt(&self, db: &mut Database, object: &Commit) -> (r: Option<String>) {
        db.commit_hash(object.id)
    }
}

/// A commit's message.
pub struct Message;

impl Attribute for Message {
    type Object = Commit;
}

impl OptionGetter for Message {
    type IntoItem = String;

    type ItemModel = Seq<char>;

    open spec fn model(it: String) -> Seq<char> {
        it@
    }

    open spec fn spec_get_opt(self, cfg: DataCfg, src: Source, key: u64) -> Option<Seq<char>> {
        tlookup::<String>(crate::data::eff_commit_messages(cfg, src), key)
    }

    fn get_opt(&self, db: &mut Database, object: &Commit) -> (r: Option<String>) {
        db.commit_message(object.id)
    }
}

/// A commit's authoring timestamp.
pub struct AuthoredTimestamp;

impl Attribute for AuthoredTimestamp {
    type Object = Commit;
}

impl OptionGetter for AuthoredTimestamp {
    type IntoItem = i64;

    type ItemModel = i64;

    open spec fn model(it: i64) -> i64 {
        it
    }

    open spec fn spec_get_opt(self, cfg: DataCfg, src: Source, key: u64) -> Option<i64> {
        tlookup::<i64>(crate::data::eff_commit_author_timestamps(cfg, src), key)
    }

    fn get_opt(&self, db: &mut Database, object: &Commit) -> (r: Option<i64>) {
        db.commit_author_timestamp(object.id)
    }
}

/// A commit's committing timestamp.
pub struct CommittedTimestamp;

impl Attribute for CommittedTimestamp {
    type Object = Commit;
}

impl OptionGetter for CommittedTimestamp {
    type IntoItem = i64;

    type ItemModel = i64;

    open spec fn model(it: i64) -> i64 {
        it
    }

    open spec fn spec_get_opt(self, cfg: DataCfg, src: Source, key: u64) -> Option<i64> {
        tlookup::<i64>(crate::data::eff_commit_committer_timestamps(cfg, src), key)
    }

    fn get_opt(&self, db: &mut Database, object: &Commit) -> (r: Option<i64>) {
        db.commit_committer_timestamp(object.id)
    }
}

/// A commit's parents, as commit entities, skipping parents the commit
/// table does not record.
pub struct Parents;

impl Attribute for Parents {
    type Object = Commit;
}

impl OptionGetter for Parents {
    type IntoItem = Vec<Commit>;

    type ItemModel = Seq<u64>;

    open spec fn model(it: Vec<Commit>) -> Seq<u64> {
        it@.map(|i: int, c: Commit| c.cv().id)
    }

    open spec fn spec_get_opt(self, cfg: DataCfg, src: Source, key: u64) -> Option<Seq<u64>> {
        match tlookup::<Commit>(crate::data::eff_commits(cfg, src), key) {
            Some(cv) => Some(
                crate::data::commits_in(crate::data::eff_commits(cfg, src), cv.parents).map(
                    |i: int, c: crate::objects::CommitV| c.id,
                ),
            ),
            None => None,
        }
    }

    fn get_opt(&self, db: &mut Database, object: &Commit) -> (r: Option<Vec<Commit>>) {
        match db.commit(object.id()) {
            Some(c) => {
                let mut pids: Vec<u64> = Vec::new();
                let ps = c.parent_ids();
                let n = ps.len();
                let mut i: usize = 0;
                while i < n
                    invariant
                        n == ps@.len(),
                        0 <= i <= n,
                        pids@ == ps@.map(|l: int, p: CommitId| p.0).take(i as int),
                    decreases n - i,
                {
                    pids.push(ps[i].0);
                    proof {
                        assert(pids@ =~= ps@.map(|l: int, p: CommitId| p.0).take(i + 1));
                    }
                    i = i + 1;
                }
                proof {
                    assert(ps@.map(|l: int, p: CommitId| p.0).take(n as int) =~= ps@.map(
                        |l: int, p: CommitId| p.0,
                    ));
                    assert(pids@ =~= c.cv().parents);
                }
                Some(fetch_commits(db, &pids))
            },
            None => None,
        }
    }
}

impl EntitiesGetter<Commit> for Parents {
    proof fn lemma_models_are_keys(v: Vec<Commit>) {
        assert(Self::model(v) =~= v@.map(|i: int, e: Commit| e.key()));
    }
}

impl TextGetter for Hash {
    proof fn lemma_model_is_view(it: String) {
    }
}

impl TextGetter for Message {
    proof fn lemma_model_is_view(it: String) {
    }
}

} // verus!
