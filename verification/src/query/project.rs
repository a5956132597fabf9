use vstd::prelude::*;
use crate::attrib::{Attribute, Getter, Keyed, OptionCountable, OptionGetter};
use crate::data::{Database, DataCfg};
use crate::ids::{CommitId, PathId, ProjectId, UserId};
use crate::objects::{Commit, Duration, Path, Project, User};
use crate::source::Source;
use crate::table::tlookup;
use crate::{EntitiesGetter, EntityGetter, NumberGetter, TextGetter};

verus! {

/// A project's own id.
pub struct Id;

impl Attribute for Id {
    type Object = Project;
}

impl Getter for Id {
    type IntoItem = ProjectId;

    type ItemModel = u64;

    open spec fn model_total(it: ProjectId) -> u64 {
        it.0
    }

    open spec fn spec_get(self, cfg: DataCfg, src: Source, key: u64) -> u64 {
        key
    }

    fn get(&self, db: &mut Database, object: &Project) -> (r: ProjectId) {
        object.id()
    }
}

/// A project's clone URL, as the store records it.
pub struct URL;

impl Attribute for URL {
    type Object = Project;
}

impl OptionGetter for URL {
    type IntoItem = String;

    type ItemModel = Seq<char>;

    open spec fn model(it: String) -> Seq<char> {
        it@
    }

    open spec fn spec_get_opt(self, cfg: DataCfg, src: Source, key: u64) -> Option<Seq<char>> {
        tlookup::<String>(crate::data::eff_project_urls(cfg, src), key)
    }

    fn get_opt(&self, db: &mut Database, object: &Project) -> (r: Option<String>) {
        db.project_url(object.id)
    }
}

/// A project's star count, when the forge metadata records it.
pub struct Stars;

impl Attribute for Stars {
    type Object = Project;
}

impl OptionGetter for Stars {
    type IntoItem = u64;

    type ItemModel = u64;

    open spec fn model(it: u64) -> u64 {
        it
    }

    open spec fn spec_get_opt(self, cfg: DataCfg, src: Source, key: u64) -> Option<u64> {
        match crate::data::meta_lookup(src.project_metadata@, key) {
            Some(m) => {
                m.star_count
            },
            None => None,
        }
    }

    fn get_opt(&self, db: &mut Database, object: &Project) -> (r: Option<u64>) {
        db.project_star_gazer_count(object.id)
    }
}

/// A project's watcher count.
pub struct Watchers;

impl Attribute for Watchers {
    type Object = Project;
}

impl OptionGetter for Watchers {
    type IntoItem = u64;

    type ItemModel = u64;

    open spec fn model(it: u64) -> u64 {
        it
    }

    open spec fn spec_get_opt(self, cfg: DataCfg, src: Source, key: u64) -> Option<u64> {
        match crate::data::meta_lookup(src.project_metadata@, key) {
            Some(m) => {
                m.watcher_count
            },
            None => None,
        }
    }

    fn get_opt(&self, db: &mut Database, object: &Project) -> (r: Option<u64>) {
        db.project_watcher_count(object.id)
    }
}

/// A project's size.
pub struct Size;

impl Attribute for Size {
    type Object = Project;
}

impl OptionGetter for Size {
    type IntoItem = u64;

    type ItemModel = u64;

    open spec fn model(it: u64) -> u64 {
        it
    }

    open spec fn spec_get_opt(self, cfg: DataCfg, src: Source, key: u64) -> Option<u64> {
        match crate::data::meta_lookup(src.project_metadata@, key) {
            Some(m) => {
                m.size
            },
            None => None,
        }
    }

    fn get_opt(&self, db: &mut Database, object: &Project) -> (r: Option<u64>) {
        db.project_size(object.id)
    }
}

/// A project's fork count.
pub struct Forks;

impl Attribute for Forks {
    type Object = Project;
}

impl OptionGetter for Forks {
    type IntoItem = u64;

    type ItemModel = u64;

    open spec fn model(it: u64) -> u64 {
        it
    }

    open spec fn spec_get_opt(self, cfg: DataCfg, src: Source, key: u64) -> Option<u64> {
        match crate::data::meta_lookup(src.project_metadata@, key) {
            Some(m) => {
                m.fork_count
            },
            None => None,
        }
    }

    fn get_opt(&self, db: &mut Database, object: &Project) -> (r: Option<u64>) {
        db.project_fork_count(object.id)
    }
}

/// A project's subscriber count.
pub struct Subscribers;

impl Attribute for Subscribers {
    type Object = Project;
}

impl OptionGetter for Subscribers {
    type IntoItem = u64;

    type ItemModel = u64;

    open spec fn model(it: u64) -> u64 {
        it
    }

    open spec fn spec_get_opt(self, cfg: DataCfg, src: Source, key: u64) -> Option<u64> {
        match crate::data::meta_lookup(src.project_metadata@, key) {
            Some(m) => {
                m.subscriber_count
            },
            None => None,
        }
    }

    fn get_opt(&self, db: &mut Database, object: &Project) -> (r: Option<u64>) {
        db.project_subscriber_count(object.id)
    }
}

/// A project's open-issue count.
pub struct OpenIssues;

impl Attribute for OpenIssues {
    type Object = Project;
}

impl OptionGetter for OpenIssues {
    type IntoItem = u64;

    type ItemModel = u64;

    open spec fn model(it: u64) -> u64 {
        it
    }

    open spec fn spec_get_opt(self, cfg: DataCfg, src: Source, key: u64) -> Option<u64> {
        match crate::data::meta_lookup(src.project_metadata@, key) {
            Some(m) => {
                m.open_issue_count
            },
            None => None,
        }
    }

    fn get_opt(&self, db: &mut Database, object: &Project) -> (r: Option<u64>) {
        db.project_open_issue_count(object.id)
    }
}

/// A project's issue count.
pub struct Issues;

impl Attribute for Issues {
    type Object = Project;
}

impl OptionGetter for Issues {
    type IntoItem = u64;

    type ItemModel = u64;

    open spec fn model(it: u64) -> u64 {
        it
    }

    open spec fn spec_get_opt(self, cfg: DataCfg, src: Source, key: u64) -> Option<u64> {
        match crate::data::meta_lookup(src.project_metadata@, key) {
            Some(m) => {
                m.issue_count
            },
            None => None,
        }
    }

    fn get_opt(&self, db: &mut Database, object: &Project) -> (r: Option<u64>) {
        db.project_issues(object.id)
    }
}

/// A project's buggy-issue count.
pub struct BuggyIssues;

impl Attribute for BuggyIssues {
    type Object = Project;
}

impl OptionGetter for BuggyIssues {
    type IntoItem = u64;

    type ItemModel = u64;

    open spec fn model(it: u64) -> u64 {
        it
    }

    open spec fn spec_get_opt(self, cfg: DataCfg, src: Source, key: u64) -> Option<u64> {
        match crate::data::meta_lookup(src.project_metadata@, key) {
            Some(m) => {
                m.buggy_issue_count
            },
            None => None,
        }
    }

    fn get_opt(&self, db: &mut Database, object: &Project) -> (r: Option<u64>) {
        db.project_buggy_issues(object.id)
    }
}

/// A project's main language name.
pub struct Language;

impl Attribute for Language {
    type Object = Project;
}

impl OptionGetter for Language {
    type IntoItem = String;

    type ItemModel = Seq<char>;

    open spec fn model(it: String) -> Seq<char> {
        it@
    }

    open spec fn spec_get_opt(self, cfg: DataCfg, src: Source, key: u64) -> Option<Seq<char>> {
        match crate::data::meta_lookup(src.project_metadata@, key) {
            Some(m) => {
                match m.language {
                    Some(x) => Some(x@),
                    None => None,
                }
            },
            None => None,
        }
    }

    fn get_opt(&self, db: &mut Database, object: &Project) -> (r: Option<String>) {
        db.project_language(object.id)
    }
}

/// A project's license name.
pub struct License;

impl Attribute for License {
    type Object = Project;
}

impl OptionGetter for License {
    type IntoItem = String;

    type ItemModel = Seq<char>;

    open spec fn model(it: String) -> Seq<char> {
        it@
    }

    open spec fn spec_get_opt(self, cfg: DataCfg, src: Source, key: u64) -> Option<Seq<char>> {
        match crate::data::meta_lookup(src.project_metadata@, key) {
            Some(m) => {
                match m.license {
                    Some(x) => Some(x@),
                    None => None,
                }
            },
            None => None,
        }
    }

    fn get_opt(&self, db: &mut Database, object: &Project) -> (r: Option<String>) {
        db.project_license(object.id)
    }
}

/// A project's description.
pub struct Description;

impl Attribute for Description {
    type Object = Project;
}

impl OptionGetter for Description {
    type IntoItem = String;

    type ItemModel = Seq<char>;

    open spec fn model(it: String) -> Seq<char> {
        it@
    }

    open spec fn spec_get_opt(self, cfg: DataCfg, src: Source, key: u64) -> Option<Seq<char>> {
        match crate::data::meta_lookup(src.project_metadata@, key) {
            Some(m) => {
                match m.description {
                    Some(x) => Some(x@),
                    None => None,
                }
            },
            None => None,
        }
    }

    fn get_opt(&self, db: &mut Database, object: &Project) -> (r: Option<String>) {
        db.project_description(object.id)
    }
}

/// A project's homepage.
pub struct Homepage;

impl Attribute for Homepage {
    type Object = Project;
}

impl OptionGetter for Homepage {
    type IntoItem = String;

    type ItemModel = Seq<char>;

    open spec fn model(it: String) -> Seq<char> {
        it@
    }

    open spec fn spec_get_opt(self, cfg: DataCfg, src: Source, key: u64) -> Option<Seq<char>> {
        match crate::data::meta_lookup(src.project_metadata@, key) {
            Some(m) => {
                match m.homepage {
                    Some(x) => Some(x@),
                    None => None,
                }
            },
            None => None,
        }
    }

    fn get_opt(&self, db: &mut Database, object: &Project) -> (r: Option<String>) {
        db.project_homepage(object.id)
    }
}

/// Whether a project is a fork.
pub struct IsFork;

impl Attribute for IsFork {
    type Object = Project;
}

impl OptionGetter for IsFork {
    type IntoItem = bool;

    type ItemModel = bool;

    open spec fn model(it: bool) -> bool {
        it
    }

    open spec fn spec_get_opt(self, cfg: DataCfg, src: Source, key: u64) -> Option<bool> {
        match crate::data::meta_lookup(src.project_metadata@, key) {
            Some(m) => m.is_fork,
            None => None,
        }
    }

    fn get_opt(&self, db: &mut Database, object: &Project) -> (r: Option<bool>) {
        db.project_is_fork(object.id)
    }
}

/// A project's lifetime: the span of its commits' timestamps.
pub struct Age;

impl Attribute for Age {
    type Object = Project;
}

impl OptionGetter for Age {
    type IntoItem = Duration;

    type ItemModel = Duration;

    open spec fn model(it: Duration) -> Duration {
        it
    }

    open spec fn spec_get_opt(self, cfg: DataCfg, src: Source, key: u64) -> Option<Duration> {
        match tlookup::<u64>(crate::data::eff_project_lifetimes(cfg, src), key) {
            Some(sec) => Some(Duration { seconds: sec }),
            None => None,
        }
    }

    fn get_opt(&self, db: &mut Database, object: &Project) -> (r: Option<Duration>) {
        db.project_lifetime(object.id)
    }
}

/// The commits a project's heads reach, as commit entities.
pub struct Commits;

impl Attribute for Commits {
    type Object = Project;
}

impl OptionGetter for Commits {
    type IntoItem = Vec<Commit>;

    type ItemModel = Seq<u64>;

    open spec fn model(it: Vec<Commit>) -> Seq<u64> {
        it@.map(|i: int, c: Commit| c.cv().id)
    }

    open spec fn spec_get_opt(self, cfg: DataCfg, src: Source, key: u64) -> Option<Seq<u64>> {
        match tlookup::<Vec<u64>>(crate::data::eff_project_commits(cfg, src), key) {
            Some(cids) => Some(
                crate::data::commits_in(crate::data::eff_commits(cfg, src), cids).map(
                    |i: int, cv: crate::objects::CommitV| cv.id,
                ),
            ),
            None => None,
        }
    }

    fn get_opt(&self, db: &mut Database, object: &Project) -> (r: Option<Vec<Commit>>) {
        match db.project_commit_ids(object.id) {
            Some(cids) => Some(fetch_commits(db, &cids)),
            None => None,
        }
    }
}

impl EntitiesGetter<Commit> for Commits {
    proof fn lemma_models_are_keys(v: Vec<Commit>) {
        assert(Self::model(v) =~= v@.map(|i: int, e: Commit| e.key()));
    }
}

impl OptionCountable for Commits {
    open spec fn spec_count_opt(self, cfg: DataCfg, src: Source, key: u64) -> Option<u64> {
        tlookup::<u64>(crate::data::eff_project_commit_count(cfg, src), key)
    }

    fn count_opt(&self, db: &mut Database, object: &Project) -> (r: Option<u64>) {
        db.project_commit_count(object.id)
    }
}

/// The commit entities of an id list, skipping ids the commit table lacks.
pub fn fetch_commits(db: &mut Database, cids: &Vec<u64>) -> (r: Vec<Commit>)
    requires
        old(db).wf(),
    ensures
        final(db).wf(),
        final(db).src() == old(db).src(),
        final(db).dcfg() == old(db).dcfg(),
        r@.map(|i: int, c: Commit| c.cv()) == crate::data::commits_in(
            crate::data::eff_commits(old(db).dcfg(), old(db).src()),
            cids@,
        ),
{
    let ghost cfg = db.dcfg();
    let ghost src = db.src();
    let ghost ctv = crate::data::eff_commits(cfg, src);
    let mut out: Vec<Commit> = Vec::new();
    let n = cids.len();
    let mut i: usize = 0;
    proof {
        assert(out@.map(|l: int, c: Commit| c.cv()) =~= crate::data::commits_in(
            ctv,
            cids@.take(0),
        ));
    }
    while i < n
        invariant
            old(db).wf(),
            db.wf(),
            db.src() == src,
            db.dcfg() == cfg,
            ctv == crate::data::eff_commits(cfg, src),
            n == cids@.len(),
            0 <= i <= n,
            out@.map(|l: int, c: Commit| c.cv()) == crate::data::commits_in(ctv, cids@.take(i as int)),
        decreases n - i,
    {
        proof {
            assert(cids@.take(i + 1).drop_last() =~= cids@.take(i as int));
            assert(cids@.take(i + 1).last() == cids@[i as int]);
        }
        let ghost pre = out@.map(|l: int, c: Commit| c.cv());
        match db.commit(CommitId(cids[i])) {
            Some(c) => {
                out.push(c);
                proof {
                    assert(out@.map(|l: int, c: Commit| c.cv()) =~= crate::data::commits_in(
                        ctv,
                        cids@.take(i + 1),
                    ));
                }
            },
            None => {
                proof {
                    assert(out@.map(|l: int, c: Commit| c.cv()) =~= crate::data::commits_in(
                        ctv,
                        cids@.take(i + 1),
                    ));
                }
            },
        }
        i = i + 1;
    }
    proof {
        assert(cids@.take(n as int) =~= cids@);
    }
    out
}

/// The user entities of an id list, skipping ids the user table lacks.
pub fn fetch_users(db: &mut Database, uids: &Vec<u64>) -> (r: Vec<User>)
    requires
        old(db).wf(),
    ensures
        final(db).wf(),
        final(db).src() == old(db).src(),
        final(db).dcfg() == old(db).dcfg(),
        r@.map(|i: int, u: User| (u.id.0, u.email@)) == crate::data::users_at(
            crate::data::eff_users(old(db).dcfg(), old(db).src()),
            uids@,
        ),
{
    let ghost cfg = db.dcfg();
    let ghost src = db.src();
    let ghost utv = crate::data::eff_users(cfg, src);
    let mut out: Vec<User> = Vec::new();
    let n = uids.len();
    let mut i: usize = 0;
    proof {
        assert(out@.map(|l: int, u: User| (u.id.0, u.email@)) =~= crate::data::users_at(
            utv,
            uids@.take(0),
        ));
    }
    while i < n
        invariant
            old(db).wf(),
            db.wf(),
            db.src() == src,
            db.dcfg() == cfg,
            utv == crate::data::eff_users(cfg, src),
            n == uids@.len(),
            0 <= i <= n,
            out@.map(|l: int, u: User| (u.id.0, u.email@)) == crate::data::users_at(
                utv,
                uids@.take(i as int),
            ),
        decreases n - i,
    {
        proof {
            assert(uids@.take(i + 1).drop_last() =~= uids@.take(i as int));
            assert(uids@.take(i + 1).last() == uids@[i as int]);
        }
        match db.user(UserId(uids[i])) {
            Some(u) => {
                out.push(u);
                proof {
                    assert(out@.map(|l: int, u: User| (u.id.0, u.email@)) =~= crate::data::users_at(
                        utv,
                        uids@.take(i + 1),
                    ));
                }
            },
            None => {
                proof {
                    assert(out@.map(|l: int, u: User| (u.id.0, u.email@)) =~= crate::data::users_at(
                        utv,
                        uids@.take(i + 1),
                    ));
                }
            },
        }
        i = i + 1;
    }
    proof {
        assert(uids@.take(n as int) =~= uids@);
    }
    out
}

/// The users who authored a project's commits.
pub struct Authors;

impl Attribute for Authors {
    type Object = Project;
}

impl OptionGetter for Authors {
    type IntoItem = Vec<User>;

    type ItemModel = Seq<u64>;

    open spec fn model(it: Vec<User>) -> Seq<u64> {
        it@.map(|i: int, u: User| u.id.0)
    }

    open spec fn spec_get_opt(self, cfg: DataCfg, src: Source, key: u64) -> Option<Seq<u64>> {
        match tlookup::<Vec<u64>>(crate::data::eff_project_authors(cfg, src), key) {
            Some(uids) => Some(
                crate::data::users_at(crate::data::eff_users(cfg, src), uids).map(
                    |i: int, p: (u64, Seq<char>)| p.0,
                ),
            ),
            None => None,
        }
    }

    fn get_opt(&self, db: &mut Database, object: &Project) -> (r: Option<Vec<User>>) {
        match db.project_author_ids(object.id) {
            Some(uids) => {
                let us = fetch_users(db, &uids);
                proof {
                    assert(Self::model(us) =~= crate::data::users_at(
                        crate::data::eff_users(old(db).dcfg(), old(db).src()),
                        uids@,
                    ).map(|i: int, p: (u64, Seq<char>)| p.0));
                }
                Some(us)
            },
            None => None,
        }
    }
}

impl EntitiesGetter<User> for Authors {
    proof fn lemma_models_are_keys(v: Vec<User>) {
        assert(Self::model(v) =~= v@.map(|i: int, e: User| e.key()));
    }
}

impl OptionCountable for Authors {
    open spec fn spec_count_opt(self, cfg: DataCfg, src: Source, key: u64) -> Option<u64> {
        tlookup::<u64>(crate::data::eff_project_author_count(cfg, src), key)
    }

    fn count_opt(&self, db: &mut Database, object: &Project) -> (r: Option<u64>) {
        db.project_author_count(object.id)
    }
}

/// The users who committed a project's commits.
pub struct Committers;

impl Attribute for Committers {
    type Object = Project;
}

impl OptionGetter for Committers {
    type IntoItem = Vec<User>;

    type ItemModel = Seq<u64>;

    open spec fn model(it: Vec<User>) -> Seq<u64> {
        it@.map(|i: int, u: User| u.id.0)
    }

    open spec fn spec_get_opt(self, cfg: DataCfg, src: Source, key: u64) -> Option<Seq<u64>> {
        match tlookup::<Vec<u64>>(crate::data::eff_project_committers(cfg, src), key) {
            Some(uids) => Some(
                crate::data::users_at(crate::data::eff_users(cfg, src), uids).map(
                    |i: int, p: (u64, Seq<char>)| p.0,
                ),
            ),
            None => None,
        }
    }

    fn get_opt(&self, db: &mut Database, object: &Project) -> (r: Option<Vec<User>>) {
        match db.project_committer_ids(object.id) {
            Some(uids) => {
                let us = fetch_users(db, &uids);
                proof {
                    assert(Self::model(us) =~= crate::data::users_at(
                        crate::data::eff_users(old(db).dcfg(), old(db).src()),
                        uids@,
                    ).map(|i: int, p: (u64, Seq<char>)| p.0));
                }
                Some(us)
            },
            None => None,
        }
    }
}

impl EntitiesGetter<User> for Committers {
    proof fn lemma_models_are_keys(v: Vec<User>) {
        assert(Self::model(v) =~= v@.map(|i: int, e: User| e.key()));
    }
}

impl OptionCountable for Committers {
    open spec fn spec_count_opt(self, cfg: DataCfg, src: Source, key: u64) -> Option<u64> {
        tlookup::<u64>(crate::data::eff_project_committer_count(cfg, src), key)
    }

    fn count_opt(&self, db: &mut Database, object: &Project) -> (r: Option<u64>) {
        db.project_committer_count(object.id)
    }
}

/// The users who touched a project, committers first.
pub struct Users;

impl Attribute for Users {
    type Object = Project;
}

impl OptionGetter for Users {
    type IntoItem = Vec<User>;

    type ItemModel = Seq<u64>;

    open spec fn model(it: Vec<User>) -> Seq<u64> {
        it@.map(|i: int, u: User| u.id.0)
    }

    open spec fn spec_get_opt(self, cfg: DataCfg, src: Source, key: u64) -> Option<Seq<u64>> {
        match tlookup::<Vec<u64>>(crate::data::eff_project_users(cfg, src), key) {
            Some(uids) => Some(
                crate::data::users_at(crate::data::eff_users(cfg, src), uids).map(
                    |i: int, p: (u64, Seq<char>)| p.0,
                ),
            ),
            None => None,
        }
    }

    fn get_opt(&self, db: &mut Database, object: &Project) -> (r: Option<Vec<User>>) {
        match db.project_user_ids(object.id) {
            Some(uids) => {
                let us = fetch_users(db, &uids);
                proof {
                    assert(Self::model(us) =~= crate::data::users_at(
                        crate::data::eff_users(old(db).dcfg(), old(db).src()),
                        uids@,
                    ).map(|i: int, p: (u64, Seq<char>)| p.0));
                }
                Some(us)
            },
            None => None,
        }
    }
}

impl EntitiesGetter<User> for Users {
    proof fn lemma_models_are_keys(v: Vec<User>) {
        assert(Self::model(v) =~= v@.map(|i: int, e: User| e.key()));
    }
}

impl OptionCountable for Users {
    open spec fn spec_count_opt(self, cfg: DataCfg, src: Source, key: u64) -> Option<u64> {
        tlookup::<u64>(crate::data::eff_project_user_count(cfg, src), key)
    }

    fn count_opt(&self, db: &mut Database, object: &Project) -> (r: Option<u64>) {
        db.project_user_count(object.id)
    }
}

impl NumberGetter for Stars {
    proof fn lemma_model_is_value(it: u64) {
    }
}

impl NumberGetter for Watchers {
    proof fn lemma_model_is_value(it: u64) {
    }
}

impl NumberGetter for Size {
    proof fn lemma_model_is_value(it: u64) {
    }
}

impl NumberGetter for Forks {
    proof fn lemma_model_is_value(it: u64) {
    }
}

impl NumberGetter for Subscribers {
    proof fn lemma_model_is_value(it: u64) {
    }
}

impl NumberGetter for OpenIssues {
    proof fn lemma_model_is_value(it: u64) {
    }
}

impl NumberGetter for Issues {
    proof fn lemma_model_is_value(it: u64) {
    }
}

impl NumberGetter for BuggyIssues {
    proof fn lemma_model_is_value(it: u64) {
    }
}

impl TextGetter for URL {
    proof fn lemma_model_is_view(it: String) {
    }
}

impl TextGetter for Language {
    proof fn lemma_model_is_view(it: String) {
    }
}

impl TextGetter for License {
    proof fn lemma_model_is_view(it: String) {
    }
}

impl TextGetter for Description {
    proof fn lemma_model_is_view(it: String) {
    }
}

impl TextGetter for Homepage {
    proof fn lemma_model_is_view(it: String) {
    }
}

} // verus!
