//! A query engine over an immutable software-repository mining dataset.
//!
//! The crate models projects, commits, users, paths and file-content
//! snapshots; derives per-entity tables from a raw source in dependency
//! order, memoizing each table and persisting it through a word-level
//! cache codec; and exposes a composable attribute algebra (getters,
//! filters, statistics and samplers) over the loaded data.

pub mod attrib;
pub mod codec;
pub mod data;
pub mod dump;
pub mod export;
pub mod extract;
pub mod fraction;
pub mod ids;
pub mod objects;
pub mod persistent;
pub mod reach;
pub mod sequences;
pub mod selectors;
pub mod source;
pub mod table;

pub mod query;

use vstd::prelude::*;
use crate::attrib::{Attribute, Filter, Keyed, OptionGetter};
use crate::data::{Database, DataCfg};
use crate::source::Source;

verus! {

/// An option getter that yields a machine word as its own model.
pub trait NumberGetter: OptionGetter<IntoItem = u64, ItemModel = u64> where Self::Object: Keyed {
    proof fn lemma_model_is_value(it: u64)
        ensures
            Self::model(it) == it,
    ;
}

/// An option getter that yields a word vector, modelled by its values.
pub trait NumbersGetter: OptionGetter<IntoItem = Vec<u64>, ItemModel = Seq<u64>> where
    Self::Object: Keyed,
 {
    proof fn lemma_model_is_values(it: Vec<u64>)
        ensures
            Self::model(it) == it@,
    ;
}

/// An option getter that yields a string, modelled by its characters.
pub trait TextGetter: OptionGetter<IntoItem = String, ItemModel = Seq<char>> where
    Self::Object: Keyed,
 {
    proof fn lemma_model_is_view(it: String)
        ensures
            Self::model(it) == it@,
    ;
}

/// An option getter that yields one entity; the entity's key is its model.
pub trait EntityGetter: OptionGetter<ItemModel = u64> where
    Self::Object: Keyed,
    Self::IntoItem: Keyed,
 {
    proof fn lemma_model_is_key(it: Self::IntoItem)
        ensures
            Self::model(it) == it.key(),
    ;
}

/// An option getter that yields a collection of entities; the entities'
/// keys are its model.
pub trait EntitiesGetter<E: Keyed>: OptionGetter<IntoItem = Vec<E>, ItemModel = Seq<u64>> where
    Self::Object: Keyed,
 {
    proof fn lemma_models_are_keys(v: Vec<E>)
        ensures
            Self::model(v) == v@.map(|i: int, e: E| e.key()),
    ;
}

/// The values an attribute yields over a key list, dropping keys where the
/// attribute is absent.
pub open spec fn gathered<A: OptionGetter>(a: A, cfg: DataCfg, src: Source, ks: Seq<u64>) -> Seq<
    A::ItemModel,
> where A::Object: Keyed
    decreases ks.len(),
{
    if ks.len() == 0 {
        Seq::empty()
    } else {
        gathered(a, cfg, src, ks.drop_last()) + (match a.spec_get_opt(cfg, src, ks.last()) {
            Some(m) => seq![m],
            None => Seq::empty(),
        })
    }
}

/// The keys of a key list that a filter accepts.
pub open spec fn sifted<P: Filter>(p: P, cfg: DataCfg, src: Source, ks: Seq<u64>) -> Seq<u64>
    decreases ks.len(),
{
    if ks.len() == 0 {
        Seq::empty()
    } else {
        let rest = sifted(p, cfg, src, ks.drop_last());
        if p.spec_accept(cfg, src, ks.last()) {
            rest.push(ks.last())
        } else {
            rest
        }
    }
}

/// Get an attribute's attribute: fetch the outer relational attribute,
/// then evaluate the inner one against the entity it yielded.  Absence on
/// either side propagates.
pub struct From<O: Attribute, A: Attribute>(pub O, pub A);

impl<T: Keyed, O, A> Attribute for From<O, A> where O: Attribute<Object = T>, A: Attribute {
    type Object = T;
}

impl<T: Keyed, I: Keyed, O, A> OptionGetter for From<O, A> where
    O: Attribute<Object = T> + EntityGetter<IntoItem = I>,
    A: Attribute<Object = I> + OptionGetter,
 {
    type IntoItem = A::IntoItem;

    type ItemModel = A::ItemModel;

    open spec fn model(it: A::IntoItem) -> A::ItemModel {
        A::model(it)
    }

    open spec fn spec_get_opt(self, cfg: DataCfg, src: Source, key: u64) -> Option<A::ItemModel> {
        match self.0.spec_get_opt(cfg, src, key) {
            Some(ik) => self.1.spec_get_opt(cfg, src, ik),
            None => None,
        }
    }

    fn get_opt(&self, db: &mut Database, object: &T) -> (r: Option<A::IntoItem>) {
        match self.0.get_opt(db, object) {
            Some(e) => {
                proof {
                    O::lemma_model_is_key(e);
                }
                self.1.get_opt(db, &e)
            },
            None => None,
        }
    }
}

/// Get an attribute from each element of a collection-valued attribute,
/// dropping elements where the inner attribute is absent; an absent outer
/// collection yields no value overall.
pub struct FromEach<O: Attribute, A: Attribute>(pub O, pub A);

impl<T: Keyed, O, A> Attribute for FromEach<O, A> where O: Attribute<Object = T>, A: Attribute {
    type Object = T;
}

impl<T: Keyed, I: Keyed, O, A> OptionGetter for FromEach<O, A> where
    O: Attribute<Object = T> + EntitiesGetter<I>,
    A: Attribute<Object = I> + OptionGetter,
 {
    type IntoItem = Vec<A::IntoItem>;

    type ItemModel = Seq<A::ItemModel>;

    open spec fn model(it: Vec<A::IntoItem>) -> Seq<A::ItemModel> {
        it@.map(|i: int, e: A::IntoItem| A::model(e))
    }

    open spec fn spec_get_opt(self, cfg: DataCfg, src: Source, key: u64) -> Option<
        Seq<A::ItemModel>,
    > {
        match self.0.spec_get_opt(cfg, src, key) {
            Some(ks) => Some(gathered(self.1, cfg, src, ks)),
            None => None,
        }
    }

    fn get_opt(&self, db: &mut Database, object: &T) -> (r: Option<Vec<A::IntoItem>>) {
        match self.0.get_opt(db, object) {
            Some(es) => {
                let ghost cfg = db.dcfg();
                let ghost src = db.src();
                let ghost ks = O::model(es);
                proof {
                    O::lemma_models_are_keys(es);
                }
                let mut out: Vec<A::IntoItem> = Vec::new();
                let n = es.len();
                let mut i: usize = 0;
                proof {
                    assert(Self::model(out) =~= gathered(self.1, cfg, src, ks.take(0)));
                }
                while i < n
                    invariant
                        old(db).wf(),
                        db.wf(),
                        db.src() == src,
                        db.dcfg() == cfg,
                        n == es@.len(),
                        0 <= i <= n,
                        ks == es@.map(|l: int, e: I| e.key()),
                        Self::model(out) == gathered(self.1, cfg, src, ks.take(i as int)),
                    decreases n - i,
                {
                    proof {
                        assert(ks.take(i + 1).drop_last() =~= ks.take(i as int));
                        assert(ks.take(i + 1).last() == es@[i as int].key());
                    }
                    let ghost pre = Self::model(out);
                    match self.1.get_opt(db, &es[i]) {
                        Some(v) => {
                            out.push(v);
                            proof {
                                assert(Self::model(out) =~= pre + seq![A::model(v)]);
                                assert(Self::model(out) =~= gathered(
                                    self.1,
                                    cfg,
                                    src,
                                    ks.take(i + 1),
                                ));
                            }
                        },
                        None => {
                            proof {
                                assert(Self::model(out) =~= gathered(
                                    self.1,
                                    cfg,
                                    src,
                                    ks.take(i + 1),
                                ));
                            }
                        },
                    }
                    i = i + 1;
                }
                proof {
                    assert(ks.take(n as int) =~= ks);
                }
                Some(out)
            },
            None => None,
        }
    }
}

impl<T: Keyed, I: Keyed, O, A> crate::attrib::Getter for FromEach<O, A> where
    O: Attribute<Object = T> + EntitiesGetter<I>,
    A: Attribute<Object = I> + OptionGetter,
 {
    type IntoItem = Option<Vec<A::IntoItem>>;

    type ItemModel = Option<Seq<A::ItemModel>>;

    open spec fn model_total(it: Option<Vec<A::IntoItem>>) -> Option<Seq<A::ItemModel>> {
        match it {
            Some(v) => Some(<Self as OptionGetter>::model(v)),
            None => None,
        }
    }

    open spec fn spec_get(self, cfg: DataCfg, src: Source, key: u64) -> Option<
        Seq<A::ItemModel>,
    > {
        self.spec_get_opt(cfg, src, key)
    }

    fn get(&self, db: &mut Database, object: &T) -> (r: Option<Vec<A::IntoItem>>) {
        self.get_opt(db, object)
    }
}

/// Keep, from a collection-valued attribute, the elements a filter
/// accepts; an absent collection yields no value overall.
pub struct FromEachIf<A: Attribute, P>(pub A, pub P);

impl<T: Keyed, A, P> Attribute for FromEachIf<A, P> where A: Attribute<Object = T> {
    type Object = T;
}

impl<T: Keyed, I: Keyed, A, P> OptionGetter for FromEachIf<A, P> where
    A: Attribute<Object = T> + EntitiesGetter<I>,
    P: Filter<Item = I>,
 {
    type IntoItem = Vec<I>;

    type ItemModel = Seq<u64>;

    open spec fn model(it: Vec<I>) -> Seq<u64> {
        it@.map(|i: int, e: I| e.key())
    }

    open spec fn spec_get_opt(self, cfg: DataCfg, src: Source, key: u64) -> Option<Seq<u64>> {
        match self.0.spec_get_opt(cfg, src, key) {
            Some(ks) => Some(sifted(self.1, cfg, src, ks)),
            None => None,
        }
    }

    fn get_opt(&self, db: &mut Database, object: &T) -> (r: Option<Vec<I>>) {
        match self.0.get_opt(db, object) {
            Some(es) => {
                let ghost cfg = db.dcfg();
                let ghost src = db.src();
                let ghost ks = A::model(es);
                proof {
                    A::lemma_models_are_keys(es);
                }
                let mut out: Vec<I> = Vec::new();
                let n = es.len();
                let mut i: usize = 0;
                let mut rest = es;
                let ghost esv = rest@;
                proof {
                    assert(Self::model(out) =~= sifted(self.1, cfg, src, ks.take(0)));
                }
                while i < n
                    invariant
                        old(db).wf(),
                        db.wf(),
                        db.src() == src,
                        db.dcfg() == cfg,
                        n == esv.len(),
                        rest@ == esv.skip(i as int),
                        0 <= i <= n,
                        ks == esv.map(|l: int, e: I| e.key()),
                        Self::model(out) == sifted(self.1, cfg, src, ks.take(i as int)),
                    decreases n - i,
                {
                    proof {
                        assert(ks.take(i + 1).drop_last() =~= ks.take(i as int));
                        assert(ks.take(i + 1).last() == esv[i as int].key());
                        assert(rest@[0] == esv[i as int]);
                    }
                    let ghost pre = Self::model(out);
                    let e = remove_first(&mut rest);
                    let keep = self.1.accept(db, &e);
                    if keep {
                        out.push(e);
                        proof {
                            assert(Self::model(out) =~= pre.push(esv[i as int].key()));
                            assert(Self::model(out) =~= sifted(self.1, cfg, src, ks.take(i + 1)));
                        }
                    } else {
                        proof {
                            assert(Self::model(out) =~= sifted(self.1, cfg, src, ks.take(i + 1)));
                        }
                    }
                    proof {
                        assert(rest@ =~= esv.skip(i + 1));
                    }
                    i = i + 1;
                }
                proof {
                    assert(ks.take(n as int) =~= ks);
                }
                Some(out)
            },
            None => None,
        }
    }
}

impl<T: Keyed, I: Keyed, A, P> crate::attrib::Getter for FromEachIf<A, P> where
    A: Attribute<Object = T> + EntitiesGetter<I>,
    P: Filter<Item = I>,
 {
    type IntoItem = Option<Vec<I>>;

    type ItemModel = Option<Seq<u64>>;

    open spec fn model_total(it: Option<Vec<I>>) -> Option<Seq<u64>> {
        match it {
            Some(v) => Some(<Self as OptionGetter>::model(v)),
            None => None,
        }
    }

    open spec fn spec_get(self, cfg: DataCfg, src: Source, key: u64) -> Option<Seq<u64>> {
        self.spec_get_opt(cfg, src, key)
    }

    fn get(&self, db: &mut Database, object: &T) -> (r: Option<Vec<I>>) {
        self.get_opt(db, object)
    }
}

impl<T: Keyed, I: Keyed, A, P> crate::attrib::OptionCountable for FromEachIf<A, P> where
    A: Attribute<Object = T> + EntitiesGetter<I>,
    P: Filter<Item = I>,
 {
    open spec fn spec_count_opt(self, cfg: DataCfg, src: Source, key: u64) -> Option<u64> {
        match self.0.spec_get_opt(cfg, src, key) {
            Some(ks) => Some(sifted(self.1, cfg, src, ks).len() as u64),
            None => None,
        }
    }

    fn count_opt(&self, db: &mut Database, object: &T) -> (r: Option<u64>) {
        match self.get_opt(db, object) {
            Some(v) => {
                proof {
                    assert(Self::model(v).len() == v@.len());
                }
                Some(v.len() as u64)
            },
            None => None,
        }
    }
}

/// The keys of a collection-valued attribute, as a plain numeric
/// collection: the adapter that feeds entity collections to the numeric
/// statistics.
pub struct Keys<A: Attribute, E>(pub A, pub core::marker::PhantomData<E>);

impl<T: Keyed, E, A> Attribute for Keys<A, E> where A: Attribute<Object = T> {
    type Object = T;
}

impl<T: Keyed, I: Keyed, A> OptionGetter for Keys<A, I> where
    A: Attribute<Object = T> + EntitiesGetter<I>,
 {
    type IntoItem = Vec<u64>;

    type ItemModel = Seq<u64>;

    open spec fn model(it: Vec<u64>) -> Seq<u64> {
        it@
    }

    open spec fn spec_get_opt(self, cfg: DataCfg, src: Source, key: u64) -> Option<Seq<u64>> {
        self.0.spec_get_opt(cfg, src, key)
    }

    fn get_opt(&self, db: &mut Database, object: &T) -> (r: Option<Vec<u64>>) {
        match self.0.get_opt(db, object) {
            Some(es) => {
                proof {
                    A::lemma_models_are_keys(es);
                }
                Some(crate::query::sample::keys_of_entities(&es))
            },
            None => None,
        }
    }
}

impl<T: Keyed, I: Keyed, A> NumbersGetter for Keys<A, I> where
    A: Attribute<Object = T> + EntitiesGetter<I>,
 {
    proof fn lemma_model_is_values(it: Vec<u64>) {
    }
}

/// Keep, from a collection-valued attribute, the elements that meet a
/// requirement; an absent collection yields no value overall.
pub struct Requirement<A: Attribute, P>(pub A, pub P);

impl<T: Keyed, A, P> Attribute for Requirement<A, P> where A: Attribute<Object = T> {
    type Object = T;
}

impl<T: Keyed, I: Keyed, A, P> OptionGetter for Requirement<A, P> where
    A: Attribute<Object = T> + EntitiesGetter<I>,
    P: Filter<Item = I>,
 {
    type IntoItem = Vec<I>;

    type ItemModel = Seq<u64>;

    open spec fn model(it: Vec<I>) -> Seq<u64> {
        it@.map(|i: int, e: I| e.key())
    }

    open spec fn spec_get_opt(self, cfg: DataCfg, src: Source, key: u64) -> Option<Seq<u64>> {
        match self.0.spec_get_opt(cfg, src, key) {
            Some(ks) => Some(sifted(self.1, cfg, src, ks)),
            None => None,
        }
    }

    fn get_opt(&self, db: &mut Database, object: &T) -> (r: Option<Vec<I>>) {
        match self.0.get_opt(db, object) {
            Some(es) => {
                let ghost cfg = db.dcfg();
                let ghost src = db.src();
                let ghost ks = A::model(es);
                proof {
                    A::lemma_models_are_keys(es);
                }
                let mut out: Vec<I> = Vec::new();
                let n = es.len();
                let mut i: usize = 0;
                let mut rest = es;
                let ghost esv = rest@;
                proof {
                    assert(Self::model(out) =~= sifted(self.1, cfg, src, ks.take(0)));
                }
                while i < n
                    invariant
                        old(db).wf(),
                        db.wf(),
                        db.src() == src,
                        db.dcfg() == cfg,
                        n == esv.len(),
                        rest@ == esv.skip(i as int),
                        0 <= i <= n,
                        ks == esv.map(|l: int, e: I| e.key()),
                        Self::model(out) == sifted(self.1, cfg, src, ks.take(i as int)),
                    decreases n - i,
                {
                    proof {
                        assert(ks.take(i + 1).drop_last() =~= ks.take(i as int));
                        assert(ks.take(i + 1).last() == esv[i as int].key());
                        assert(rest@[0] == esv[i as int]);
                    }
                    let ghost pre = Self::model(out);
                    let e = remove_first(&mut rest);
                    let keep = self.1.accept(db, &e);
                    if keep {
                        out.push(e);
                        proof {
                            assert(Self::model(out) =~= pre.push(esv[i as int].key()));
                            assert(Self::model(out) =~= sifted(self.1, cfg, src, ks.take(i + 1)));
                        }
                    } else {
                        proof {
                            assert(Self::model(out) =~= sifted(self.1, cfg, src, ks.take(i + 1)));
                        }
                    }
                    proof {
                        assert(rest@ =~= esv.skip(i + 1));
                    }
                    i = i + 1;
                }
                proof {
                    assert(ks.take(n as int) =~= ks);
                }
                Some(out)
            },
            None => None,
        }
    }
}

impl<T: Keyed, I: Keyed, A, P> crate::attrib::Getter for Requirement<A, P> where
    A: Attribute<Object = T> + EntitiesGetter<I>,
    P: Filter<Item = I>,
 {
    type IntoItem = Option<Vec<I>>;

    type ItemModel = Option<Seq<u64>>;

    open spec fn model_total(it: Option<Vec<I>>) -> Option<Seq<u64>> {
        match it {
            Some(v) => Some(<Self as OptionGetter>::model(v)),
            None => None,
        }
    }

    open spec fn spec_get(self, cfg: DataCfg, src: Source, key: u64) -> Option<Seq<u64>> {
        self.spec_get_opt(cfg, src, key)
    }

    fn get(&self, db: &mut Database, object: &T) -> (r: Option<Vec<I>>) {
        self.get_opt(db, object)
    }
}

impl<T: Keyed, I: Keyed, A, P> crate::attrib::OptionCountable for Requirement<A, P> where
    A: Attribute<Object = T> + EntitiesGetter<I>,
    P: Filter<Item = I>,
 {
    open spec fn spec_count_opt(self, cfg: DataCfg, src: Source, key: u64) -> Option<u64> {
        match self.0.spec_get_opt(cfg, src, key) {
            Some(ks) => Some(sifted(self.1, cfg, src, ks).len() as u64),
            None => None,
        }
    }

    fn count_opt(&self, db: &mut Database, object: &T) -> (r: Option<u64>) {
        match self.get_opt(db, object) {
            Some(v) => {
                proof {
                    assert(Self::model(v).len() == v@.len());
                }
                Some(v.len() as u64)
            },
            None => None,
        }
    }
}

/// Take the first element out of a vector.
pub fn remove_first<T>(v: &mut Vec<T>) -> (r: T)
    requires
        old(v)@.len() > 0,
    ensures
        r == old(v)@[0],
        final(v)@ == old(v)@.skip(1),
{
    let r = v.remove(0);
    proof {
        assert(final(v)@ =~= old(v)@.skip(1));
    }
    r
}

} // verus!
