use vstd::prelude::*;
use crate::attrib::{Attribute, Getter, Keyed, OptionCountable, OptionGetter};
use crate::data::{Database, DataCfg};
use crate::ids::UserId;
use crate::objects::{Commit, Duration, User};
use crate::query::project::fetch_commits;
use crate::source::Source;
use crate::table::tlookup;
use crate::{EntitiesGetter, TextGetter};

verus! {

/// A user's own id.
pub struct Id;

impl Attribute for Id {
    type Object = User;
}

impl Getter for Id {
    type IntoItem = UserId;

    type ItemModel = u64;

    open spec fn model_total(it: UserId) -> u64 {
        it.0
    }

    open spec fn spec_get(self, cfg: DataCfg, src: Source, key: u64) -> u64 {
        key
    }

    fn get(&self, db: &mut Database, object: &User) -> (r: UserId) {
        object.id()
    }
}

/// A user's email, as the store records it.
pub struct Email;

impl Attribute for Email {
    type Object = User;
}

impl OptionGetter for Email {
    type IntoItem = String;

    type ItemModel = Seq<char>;

    open spec fn model(it: String) -> Seq<char> {
        it@
    }

    open spec fn spec_get_opt(self, cfg: DataCfg, src: Source, key: u64) -> Option<Seq<char>> {
        tlookup::<String>(crate::data::eff_users(cfg, src), key)
    }

    fn get_opt(&self, db: &mut Database, object: &User) -> (r: Option<String>) {
        db.user_email(object.id)
    }
}

/// The span of a user's authoring timestamps.
pub struct AuthorExperience;

impl Attribute for AuthorExperience {
    type Object = User;
}

impl OptionGetter for AuthorExperience {
    type IntoItem = Duration;

    type ItemModel = Duration;

    open spec fn model(it: Duration) -> Duration {
        it
    }

    open spec fn spec_get_opt(self, cfg: DataCfg, src: Source, key: u64) -> Option<Duration> {
        match tlookup::<u64>(crate::data::eff_user_author_experience(cfg, src), key) {
            Some(sec) => Some(Duration { seconds: sec }),
            None => None,
        }
    }

    fn get_opt(&self, db: &mut Database, object: &User) -> (r: Option<Duration>) {
        db.user_author_experience(object.id)
    }
}

/// The span of a user's committing timestamps.
pub struct CommitterExperience;

impl Attribute for CommitterExperience {
    type Object = User;
}

impl OptionGetter for CommitterExperience {
    type IntoItem = Duration;

    type ItemModel = Duration;

    open spec fn model(it: Duration) -> Duration {
        it
    }

    open spec fn spec_get_opt(self, cfg: DataCfg, src: Source, key: u64) -> Option<Duration> {
        match tlookup::<u64>(crate::data::eff_user_committer_experience(cfg, src), key) {
            Some(sec) => Some(Duration { seconds: sec }),
            None => None,
        }
    }

    fn get_opt(&self, db: &mut Database, object: &User) -> (r: Option<Duration>) {
        db.user_committed_experience(object.id)
    }
}

/// The span of all timestamps of the commits a user committed.
pub struct Experience;

impl Attribute for Experience {
    type Object = User;
}

impl OptionGetter for Experience {
    type IntoItem = Duration;

    type ItemModel = Duration;

    open spec fn model(it: Duration) -> Duration {
        it
    }

    open spec fn spec_get_opt(self, cfg: DataCfg, src: Source, key: u64) -> Option<Duration> {
        match tlookup::<u64>(crate::data::eff_user_experience(cfg, src), key) {
            Some(sec) => Some(Duration { seconds: sec }),
            None => None,
        }
    }

    fn get_opt(&self, db: &mut Database, object: &User) -> (r: Option<Duration>) {
        db.user_experience(object.id)
    }
}

/// The commits a user authored, as commit entities.
pub struct AuthoredCommits;

impl Attribute for AuthoredCommits {
    type Object = User;
}

impl OptionGetter for AuthoredCommits {
    type IntoItem = Vec<Commit>;

    type ItemModel = Seq<u64>;

    open spec fn model(it: Vec<Commit>) -> Seq<u64> {
        it@.map(|i: int, c: Commit| c.cv().id)
    }

    open spec fn spec_get_opt(self, cfg: DataCfg, src: Source, key: u64) -> Option<Seq<u64>> {
        match tlookup::<Vec<u64>>(crate::data::eff_user_authored_commits(cfg, src), key) {
            Some(cids) => Some(
                crate::data::commits_in(crate::data::eff_commits(cfg, src), cids).map(
                    |i: int, cv: crate::objects::CommitV| cv.id,
                ),
            ),
            None => None,
        }
    }

    fn get_opt(&self, db: &mut Database, object: &User) -> (r: Option<Vec<Commit>>) {
        match db.user_authored_commit_ids(object.id) {
            Some(cids) => Some(fetch_commits(db, &cids)),
            None => None,
        }
    }
}

impl EntitiesGetter<Commit> for AuthoredCommits {
    proof fn lemma_models_are_keys(v: Vec<Commit>) {
        assert(Self::model(v) =~= v@.map(|i: int, e: Commit| e.key()));
    }
}

impl OptionCountable for AuthoredCommits {
    open spec fn spec_count_opt(self, cfg: DataCfg, src: Source, key: u64) -> Option<u64> {
        tlookup::<u64>(crate::data::eff_user_authored_commit_count(cfg, src), key)
    }

    fn count_opt(&self, db: &mut Database, object: &User) -> (r: Option<u64>) {
        db.user_authored_commit_count(object.id)
    }
}

/// The commits a user committed, as commit entities.
pub struct CommittedCommits;

impl Attribute for CommittedCommits {
    type Object = User;
}

impl OptionGetter for CommittedCommits {
    type IntoItem = Vec<Commit>;

    type ItemModel = Seq<u64>;

    open spec fn model(it: Vec<Commit>) -> Seq<u64> {
        it@.map(|i: int, c: Commit| c.cv().id)
    }

    open spec fn spec_get_opt(self, cfg: DataCfg, src: Source, key: u64) -> Option<Seq<u64>> {
        match tlookup::<Vec<u64>>(crate::data::eff_user_committed_commits(cfg, src), key) {
            Some(cids) => Some(
                crate::data::commits_in(crate::data::eff_commits(cfg, src), cids).map(
                    |i: int, cv: crate::objects::CommitV| cv.id,
                ),
            ),
            None => None,
        }
    }

    fn get_opt(&self, db: &mut Database, object: &User) -> (r: Option<Vec<Commit>>) {
        match db.user_committed_commit_ids(object.id) {
            Some(cids) => Some(fetch_commits(db, &cids)),
            None => None,
        }
    }
}

impl EntitiesGetter<Commit> for CommittedCommits {
    proof fn lemma_models_are_keys(v: Vec<Commit>) {
        assert(Self::model(v) =~= v@.map(|i: int, e: Commit| e.key()));
    }
}

impl OptionCountable for CommittedCommits {
    open spec fn spec_count_opt(self, cfg: DataCfg, src: Source, key: u64) -> Option<u64> {
        tlookup::<u64>(crate::data::eff_user_committed_commit_count(cfg, src), key)
    }

    fn count_opt(&self, db: &mut Database, object: &User) -> (r: Option<u64>) {
        db.user_committed_commit_count(object.id)
    }
}

impl TextGetter for Email {
    proof fn lemma_model_is_view(it: String) {
    }
}

} // verus!
