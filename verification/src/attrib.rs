//! The attribute algebra's capability traits.
//!
//! An attribute is a typed handle for "a property of an entity": a getter
//! yields a value, an option getter yields it only when the underlying
//! data exists, a countable yields a size, a filter yields a decision, and
//! a sampler selects a sub-collection.  Every capability carries a
//! specification function over the database's effective content, so that
//! attribute evaluation is provably a pure function of the attribute, the
//! entity and the dataset.

use vstd::prelude::*;
use core::marker::PhantomData;
use crate::data::{Database, DataCfg};
use crate::source::Source;

verus! {

/// An entity an attribute can range over: it is identified by its integer
/// key, and every attribute's value is a function of that key alone.
pub trait Keyed: Sized {
    spec fn key(self) -> u64;

    /// The entity's key, as the machine reads it.
    fn key_of(&self) -> (r: u64)
        ensures
            r == self.key(),
    ;
}

impl Keyed for crate::objects::Project {
    open spec fn key(self) -> u64 {
        self.id.0
    }

    fn key_of(&self) -> (r: u64) {
        self.id.0
    }
}

impl Keyed for crate::objects::Commit {
    open spec fn key(self) -> u64 {
        self.id.0
    }

    fn key_of(&self) -> (r: u64) {
        self.id.0
    }
}

impl Keyed for crate::objects::User {
    open spec fn key(self) -> u64 {
        self.id.0
    }

    fn key_of(&self) -> (r: u64) {
        self.id.0
    }
}

impl Keyed for crate::objects::Path {
    open spec fn key(self) -> u64 {
        self.id.0
    }

    fn key_of(&self) -> (r: u64) {
        self.id.0
    }
}

impl Keyed for crate::objects::Snapshot {
    open spec fn key(self) -> u64 {
        self.id.0
    }

    fn key_of(&self) -> (r: u64) {
        self.id.0
    }
}

/// A typed property of one entity kind.
pub trait Attribute: Sized {
    type Object;
}

/// An attribute that always yields a value.
pub trait Getter: Attribute where Self::Object: Keyed {
    type IntoItem;

    /// The mathematical value of a yielded item.
    type ItemModel;

    spec fn model_total(it: Self::IntoItem) -> Self::ItemModel;

    /// What the attribute yields, as a function of the dataset and the
    /// entity's key.
    spec fn spec_get(self, cfg: DataCfg, src: Source, key: u64) -> Self::ItemModel;

    fn get(&self, db: &mut Database, object: &Self::Object) -> (r: Self::IntoItem)
        requires
            old(db).wf(),
        ensures
            final(db).wf(),
            final(db).src() == old(db).src(),
            final(db).dcfg() == old(db).dcfg(),
            Self::model_total(r) == self.spec_get(old(db).dcfg(), old(db).src(), object.key()),
    ;
}

/// An attribute that yields a value only when the underlying data exists.
/// This is the composable primitive: combinators are defined in terms of
/// it, and absence propagates, never panics.
pub trait OptionGetter: Attribute where Self::Object: Keyed {
    type IntoItem;

    /// The mathematical value of a yielded item.
    type ItemModel;

    spec fn model(it: Self::IntoItem) -> Self::ItemModel;

    /// What the attribute yields, as a function of the dataset and the
    /// entity's key; absent data yields no value.
    spec fn spec_get_opt(self, cfg: DataCfg, src: Source, key: u64) -> Option<Self::ItemModel>;

    fn get_opt(&self, db: &mut Database, object: &Self::Object) -> (r: Option<Self::IntoItem>)
        requires
            old(db).wf(),
        ensures
            final(db).wf(),
            final(db).src() == old(db).src(),
            final(db).dcfg() == old(db).dcfg(),
            r matches Some(v) ==> Some(Self::model(v)) == self.spec_get_opt(
                old(db).dcfg(),
                old(db).src(),
                object.key(),
            ),
            r is None ==> self.spec_get_opt(old(db).dcfg(), old(db).src(), object.key()) is None,
    ;
}

/// A collection-valued attribute whose size is always known.
pub trait Countable: Attribute where Self::Object: Keyed {
    spec fn spec_count(self, cfg: DataCfg, src: Source, key: u64) -> u64;

    fn count(&self, db: &mut Database, object: &Self::Object) -> (r: u64)
        requires
            old(db).wf(),
        ensures
            final(db).wf(),
            final(db).src() == old(db).src(),
            final(db).dcfg() == old(db).dcfg(),
            r == self.spec_count(old(db).dcfg(), old(db).src(), object.key()),
    ;
}

/// A collection-valued attribute whose size exists only when the
/// underlying data does.
pub trait OptionCountable: Attribute where Self::Object: Keyed {
    spec fn spec_count_opt(self, cfg: DataCfg, src: Source, key: u64) -> Option<u64>;

    fn count_opt(&self, db: &mut Database, object: &Self::Object) -> (r: Option<u64>)
        requires
            old(db).wf(),
        ensures
            final(db).wf(),
            final(db).src() == old(db).src(),
            final(db).dcfg() == old(db).dcfg(),
            r == self.spec_count_opt(old(db).dcfg(), old(db).src(), object.key()),
    ;
}

/// A decision over one entity.
pub trait Filter: Sized {
    type Item: Keyed;

    spec fn spec_accept(self, cfg: DataCfg, src: Source, key: u64) -> bool;

    fn accept(&self, db: &mut Database, item: &Self::Item) -> (r: bool)
        requires
            old(db).wf(),
        ensures
            final(db).wf(),
            final(db).src() == old(db).src(),
            final(db).dcfg() == old(db).dcfg(),
            r == self.spec_accept(old(db).dcfg(), old(db).src(), item.key()),
    ;
}

/// A pipeline stage that selects a sub-collection.
pub trait Sampler<T>: Sized {
    spec fn spec_sample(self, cfg: DataCfg, src: Source, items: Seq<T>) -> Seq<T>;

    fn sample(&self, db: &mut Database, items: Vec<T>) -> (r: Vec<T>)
        requires
            old(db).wf(),
        ensures
            final(db).wf(),
            final(db).src() == old(db).src(),
            final(db).dcfg() == old(db).dcfg(),
            r@ == self.spec_sample(old(db).dcfg(), old(db).src(), items@),
    ;
}

/// A value tagged, at the type level only, with the attribute it came
/// from.
pub struct AttributeValue<A: Attribute, T> {
    pub value: T,
    pub attribute_type: PhantomData<A>,
}

impl<A: Attribute, T> AttributeValue<A, T> {
    pub fn new(_attribute: &A, value: T) -> (r: AttributeValue<A, T>)
        ensures
            r.value == value,
    {
        AttributeValue { value, attribute_type: PhantomData }
    }
}

/// Grouping stage: classify each element under a key.
pub trait Group<T> {
    type Key;

    fn select(&self, db: &mut Database, element: &T) -> (r: Self::Key)
        requires
            old(db).wf(),
        ensures
            final(db).wf(),
    ;
}

/// Ordering stage.
pub trait Sort<T> {
    fn execute(&mut self, db: &mut Database, vector: Vec<T>, direction: Direction) -> (r: Vec<T>)
        requires
            old(db).wf(),
        ensures
            final(db).wf(),
    ;
}

/// Selection stage: keep a sub-collection.
pub trait Sample<T> {
    fn execute(&mut self, db: &mut Database, vector: Vec<T>) -> (r: Vec<T>)
        requires
            old(db).wf(),
        ensures
            final(db).wf(),
    ;
}

/// Projection stage: map each element to a chosen value.
pub trait Select<T> {
    type Entity;

    fn select(&self, db: &mut Database, element: T) -> (r: Self::Entity)
        requires
            old(db).wf(),
        ensures
            final(db).wf(),
    ;
}

/// An attribute whose value may be unknown for some entities.
pub trait OptionalAttribute {
    type Entity: Keyed;

    fn unknown(&self, db: &mut Database, entity: &Self::Entity) -> (r: bool)
        requires
            old(db).wf(),
        ensures
            final(db).wf(),
    ;
}

/// An attribute that can witness whether any item exists.
pub trait ExistentialAttribute {
    type Entity: Keyed;

    fn exists_for(&self, db: &mut Database, entity: &Self::Entity) -> (r: bool)
        requires
            old(db).wf(),
        ensures
            final(db).wf(),
    ;
}

/// A collection-valued attribute, materialized.
pub trait CollectionAttribute {
    type Entity: Keyed;

    type Item;

    fn items(&self, db: &mut Database, entity: &Self::Entity) -> (r: Vec<Self::Item>)
        requires
            old(db).wf(),
        ensures
            final(db).wf(),
    ;
}

/// A sorting direction for pipeline stages.
#[derive(Clone, Copy, Hash, Eq, PartialEq, Structural, Debug)]
pub enum Direction {
    Descending,
    Ascending,
}

impl Direction {
    pub fn descending(&self) -> (r: bool)
        ensures
            r == (*self == Direction::Descending),
    {
        match self {
            Direction::Descending => true,
            Direction::Ascending => false,
        }
    }

    pub fn ascending(&self) -> (r: bool)
        ensures
            r == (*self == Direction::Ascending),
    {
        match self {
            Direction::Ascending => true,
            Direction::Descending => false,
        }
    }
}

/// The key components of a keyed pair list.
pub open spec fn fsts<T>(s: Seq<(u64, T)>) -> Seq<u64> {
    s.map(|l: int, p: (u64, T)| p.0)
}

/// The element components of a keyed pair list.
pub open spec fn snds<T>(s: Seq<(u64, T)>) -> Seq<T> {
    s.map(|l: int, p: (u64, T)| p.1)
}

/// Rearranging pairs rearranges their elements: pair lists with equal
/// multisets have element lists with equal multisets.
pub proof fn lemma_snds_multiset<T>(a: Seq<(u64, T)>, b: Seq<(u64, T)>)
    requires
        a.to_multiset() == b.to_multiset(),
    ensures
        snds(a).to_multiset() == snds(b).to_multiset(),
    decreases a.len(),
{
    broadcast use vstd::seq_lib::group_to_multiset_ensures;
    broadcast use vstd::multiset::group_multiset_axioms;

    if a.len() == 0 {
        assert(a.to_multiset().len() == a.len());
        assert(b.to_multiset().len() == b.len());
        assert(b.len() == 0);
        assert(snds(a) =~= Seq::<T>::empty());
        assert(snds(b) =~= Seq::<T>::empty());
        assert(snds(a).to_multiset() =~= snds(b).to_multiset());
    } else {
        let x = a.last();
        assert(a.contains(x)) by {
            assert(a[a.len() - 1] == x);
        }
        assert(b.to_multiset().count(x) > 0);
        assert(b.contains(x));
        let k = choose|k: int| 0 <= k < b.len() && b[k] == x;
        let a2 = a.drop_last();
        let b2 = b.remove(k);
        assert(a == a2.push(x)) by {
            assert(a =~= a2.push(x));
        }
        assert(a2.push(x).to_multiset() == a2.to_multiset().insert(x));
        assert(b2.to_multiset() == b.to_multiset().remove(x));
        assert(a2.to_multiset() =~= b2.to_multiset());
        lemma_snds_multiset(a2, b2);
        assert(snds(a) =~= snds(a2).push(x.1));
        assert(snds(a).to_multiset() == snds(a2).to_multiset().insert(x.1));
        assert(snds(b2) =~= snds(b).remove(k)) by {
            assert(forall|l: int|
                0 <= l < b2.len() ==> b2[l] == (if l < k {
                    b[l]
                } else {
                    b[l + 1]
                }));
        }
        assert(snds(b).remove(k).to_multiset() == snds(b).to_multiset().remove(snds(b)[k]));
        assert(snds(b)[k] == x.1);
        assert(snds(b).contains(snds(b)[k])) by {
            assert(0 <= k < snds(b).len());
        }
        assert(snds(b).to_multiset().count(x.1) > 0);
        assert(snds(a).to_multiset() =~= snds(b).to_multiset());
    }
}

/// The vector is ordered by key values the function admits: each element
/// was keyed by one of the function's possible answers, and those keys run
/// ascending (or descending).
pub open spec fn key_ordered<T, F: Fn(&T) -> u64>(f: F, s: Seq<T>, ascending: bool) -> bool {
    exists|keys: Seq<u64>|
        #![trigger keys.len()]
        {
            &&& keys.len() == s.len()
            &&& (forall|i: int| 0 <= i < s.len() ==> call_ensures(f, (&s[i],), #[trigger] keys[i]))
            &&& (forall|i: int, j: int|
                0 <= i <= j < s.len() ==> (if ascending {
                    keys[i] <= keys[j]
                } else {
                    keys[i] >= keys[j]
                }))
        }
}

/// One adjacent pair stands in order, witnessed by a comparison the
/// function admits: the later element, compared against the earlier, did
/// not come out smaller — or the earlier, compared against the later, came
/// out smaller.
pub open spec fn adjacent_in_order<T, F: Fn(&T, &T) -> core::cmp::Ordering>(
    f: F,
    a: T,
    b: T,
) -> bool {
    ||| exists|o: core::cmp::Ordering|
        #[trigger] call_ensures(f, (&b, &a), o) && o != core::cmp::Ordering::Less
    ||| call_ensures(f, (&a, &b), core::cmp::Ordering::Less)
}

/// Every adjacent pair of the vector stands in comparison order.
pub open spec fn adjacents_ordered<T, F: Fn(&T, &T) -> core::cmp::Ordering>(
    f: F,
    s: Seq<T>,
) -> bool {
    forall|i: int| 0 <= i < s.len() - 1 ==> #[trigger] adjacent_in_order(f, s[i], s[i + 1])
}

/// A vector with a chosen output order: ascending by a key, or reversed.
pub struct Sorter<T> {
    vector: Vec<T>,
    reverse: bool,
}

impl<T> Sorter<T> {
    pub fn from(vector: Vec<T>, direction: Direction) -> (r: Self)
        ensures
            r.vec_view() == vector@,
            r.is_reversed() == (direction == Direction::Descending),
    {
        let rev = direction.descending();
        Sorter { vector, reverse: rev }
    }

    pub fn new(vector: Vec<T>, reverse: bool) -> (r: Self)
        ensures
            r.vec_view() == vector@,
            r.is_reversed() == reverse,
    {
        Sorter { vector, reverse }
    }

    pub closed spec fn vec_view(self) -> Seq<T> {
        self.vector@
    }

    pub closed spec fn is_reversed(self) -> bool {
        self.reverse
    }

    /// Order the held vector by an integer key, computed once per element:
    /// the output is a permutation of the input, ascending by its keys — or
    /// descending, for a reversed sorter.
    pub fn sort_by_key<F: Fn(&T) -> u64>(self, f: F) -> (r: Vec<T>)
        requires
            forall|t: &T| #[trigger] call_requires(f, (t,)),
        ensures
            r@.to_multiset() == self.vec_view().to_multiset(),
            !self.is_reversed() ==> key_ordered(f, r@, true),
            self.is_reversed() ==> key_ordered(f, r@, false),
    {
        broadcast use vstd::seq_lib::group_to_multiset_ensures;
        broadcast use vstd::multiset::group_multiset_axioms;

        let Sorter { vector, reverse } = self;
        let ghost orig = vector@;
        // key every element once
        let mut rest = vector;
        let mut pairs: Vec<(u64, T)> = Vec::new();
        proof {
            assert(orig =~= snds(pairs@) + rest@);
        }
        while rest.len() > 0
            invariant
                forall|t: &T| #[trigger] call_requires(f, (t,)),
                orig == snds(pairs@) + rest@,
                forall|l: int|
                    0 <= l < pairs@.len() ==> call_ensures(
                        f,
                        (&pairs@[l].1,),
                        #[trigger] pairs@[l].0,
                    ),
            decreases rest@.len(),
        {
            let ghost ppre = pairs@;
            let x = crate::remove_first(&mut rest);
            let k = f(&x);
            pairs.push((k, x));
            proof {
                assert(snds(pairs@) =~= snds(ppre).push(pairs@.last().1));
                assert(orig =~= snds(pairs@) + rest@);
                assert forall|l: int| 0 <= l < pairs@.len() implies call_ensures(
                    f,
                    (&pairs@[l].1,),
                    #[trigger] pairs@[l].0,
                ) by {
                    if l < ppre.len() {
                        assert(pairs@[l] == ppre[l]);
                    }
                }
            }
        }
        proof {
            assert(rest@ =~= Seq::<T>::empty());
            assert(orig =~= snds(pairs@));
        }
        // order the pairs by their cached keys, ascending
        let ghost pairs0 = pairs@;
        let mut out: Vec<(u64, T)> = Vec::new();
        proof {
            assert(out@.to_multiset().add(pairs@.to_multiset()) =~= pairs0.to_multiset());
        }
        while pairs.len() > 0
            invariant
                out@.to_multiset().add(pairs@.to_multiset()) == pairs0.to_multiset(),
                forall|i: int, j: int| 0 <= i <= j < out@.len() ==> out@[i].0 <= out@[j].0,
                forall|l: int|
                    0 <= l < pairs@.len() && out@.len() > 0 ==> out@.last().0 <= (
                    #[trigger] pairs@[l]).0,
                forall|l: int|
                    0 <= l < out@.len() ==> call_ensures(f, (&out@[l].1,), #[trigger] out@[l].0),
                forall|l: int|
                    0 <= l < pairs@.len() ==> call_ensures(
                        f,
                        (&pairs@[l].1,),
                        #[trigger] pairs@[l].0,
                    ),
            decreases pairs@.len(),
        {
            let mut j: usize = 0;
            let mut w: usize = 1;
            while w < pairs.len()
                invariant
                    pairs@.len() > 0,
                    0 <= j < w <= pairs@.len(),
                    forall|l: int| 0 <= l < w ==> pairs@[j as int].0 <= (#[trigger] pairs@[l]).0,
                decreases pairs@.len() - w,
            {
                if pairs[w].0 < pairs[j].0 {
                    j = w;
                }
                w = w + 1;
            }
            let ghost ppre = pairs@;
            let ghost opre = out@;
            let x = pairs.remove(j);
            out.push(x);
            proof {
                broadcast use vstd::seq_lib::group_to_multiset_ensures;
                broadcast use vstd::multiset::group_multiset_axioms;

                assert(ppre.remove(j as int).to_multiset() =~= ppre.to_multiset().remove(x));
                assert(out@.to_multiset().add(pairs@.to_multiset()) =~= pairs0.to_multiset());
                assert(forall|l: int|
                    0 <= l < pairs@.len() ==> pairs@[l] == (if l < j {
                        ppre[l]
                    } else {
                        ppre[l + 1]
                    }));
                assert forall|i: int, j2: int| 0 <= i <= j2 < out@.len() implies out@[i].0
                    <= out@[j2].0 by {
                    if j2 < opre.len() {
                        assert(out@[i] == opre[i] && out@[j2] == opre[j2]);
                    } else if i < opre.len() {
                        assert(out@[i] == opre[i]);
                        assert(out@[j2] == x);
                        assert(opre[i].0 <= opre[opre.len() - 1].0);
                        assert(opre.last().0 <= ppre[j as int].0);
                    }
                }
                assert forall|l: int| 0 <= l < pairs@.len() && out@.len() > 0 implies out@.last().0
                    <= (#[trigger] pairs@[l]).0 by {
                    assert(out@.last() == x);
                    assert(x.0 == ppre[j as int].0);
                    if l < j {
                        assert(pairs@[l] == ppre[l]);
                    } else {
                        assert(pairs@[l] == ppre[l + 1]);
                    }
                }
                assert forall|l: int| 0 <= l < out@.len() implies call_ensures(
                    f,
                    (&out@[l].1,),
                    #[trigger] out@[l].0,
                ) by {
                    if l < opre.len() {
                        assert(out@[l] == opre[l]);
                    } else {
                        assert(out@[l] == ppre[j as int]);
                    }
                }
                assert forall|l: int| 0 <= l < pairs@.len() implies call_ensures(
                    f,
                    (&pairs@[l].1,),
                    #[trigger] pairs@[l].0,
                ) by {
                    if l < j {
                        assert(pairs@[l] == ppre[l]);
                    } else {
                        assert(pairs@[l] == ppre[l + 1]);
                    }
                }
            }
        }
        proof {
            assert(pairs@.to_multiset() =~= vstd::multiset::Multiset::<(u64, T)>::empty());
            assert(out@.to_multiset() =~= pairs0.to_multiset());
            lemma_snds_multiset(out@, pairs0);
        }
        // unwrap the ordered elements
        let ghost sortedp = out@;
        let mut res: Vec<T> = Vec::new();
        let mut rest2 = out;
        while rest2.len() > 0
            invariant
                res@.len() + rest2@.len() == sortedp.len(),
                rest2@ == sortedp.skip(res@.len() as int),
                forall|l: int| 0 <= l < res@.len() ==> #[trigger] res@[l] == sortedp[l].1,
            decreases rest2@.len(),
        {
            let ghost i = res@.len() as int;
            proof {
                assert(rest2@[0] == sortedp[i]);
            }
            let p = crate::remove_first(&mut rest2);
            res.push(p.1);
            proof {
                assert(rest2@ =~= sortedp.skip(i + 1));
            }
        }
        proof {
            assert(res@ =~= snds(sortedp));
        }
        if reverse {
            let rr = reverse_vec(res);
            proof {
                let keys = fsts(sortedp).reverse();
                assert(keys.len() == rr@.len());
                assert forall|i: int| 0 <= i < rr@.len() implies call_ensures(
                    f,
                    (&rr@[i],),
                    #[trigger] keys[i],
                ) by {
                    assert(rr@[i] == snds(sortedp)[sortedp.len() - 1 - i]);
                    assert(keys[i] == fsts(sortedp)[sortedp.len() - 1 - i]);
                }
                assert(forall|i: int, j: int|
                    0 <= i <= j < rr@.len() ==> keys[i] >= keys[j]) by {
                    assert(forall|i: int, j: int|
                        0 <= i <= j < rr@.len() ==> keys[i] == sortedp[sortedp.len() - 1 - i].0
                            && keys[j] == sortedp[sortedp.len() - 1 - j].0);
                }
                assert(key_ordered(f, rr@, false));
            }
            rr
        } else {
            proof {
                let keys = fsts(sortedp);
                assert(keys.len() == res@.len());
                assert forall|i: int| 0 <= i < res@.len() implies call_ensures(
                    f,
                    (&res@[i],),
                    #[trigger] keys[i],
                ) by {
                    assert(res@[i] == sortedp[i].1);
                    assert(keys[i] == sortedp[i].0);
                }
                assert(forall|i: int, j: int|
                    0 <= i <= j < res@.len() ==> keys[i] <= keys[j]) by {
                    assert(forall|i: int, j: int|
                        0 <= i <= j < res@.len() ==> keys[i] == sortedp[i].0 && keys[j]
                            == sortedp[j].0);
                }
                assert(key_ordered(f, res@, true));
            }
            res
        }
    }

    /// Order the held vector by a comparison function: the output is a
    /// permutation of the input in which every adjacent pair was justified
    /// by an actual comparison — reversed, for a reversed sorter.
    pub fn sort_by<F: Fn(&T, &T) -> core::cmp::Ordering>(self, f: F) -> (r: Vec<T>)
        requires
            forall|a: &T, b: &T| #[trigger] call_requires(f, (a, b)),
        ensures
            r@.to_multiset() == self.vec_view().to_multiset(),
            !self.is_reversed() ==> adjacents_ordered(f, r@),
            self.is_reversed() ==> adjacents_ordered(f, r@.reverse()),
    {
        broadcast use vstd::seq_lib::group_to_multiset_ensures;
        broadcast use vstd::multiset::group_multiset_axioms;

        let Sorter { vector, reverse } = self;
        let ghost orig = vector@;
        let mut rest = vector;
        let mut out: Vec<T> = Vec::new();
        proof {
            assert(out@.to_multiset().add(rest@.to_multiset()) =~= orig.to_multiset());
        }
        while rest.len() > 0
            invariant
                forall|a: &T, b: &T| #[trigger] call_requires(f, (a, b)),
                out@.to_multiset().add(rest@.to_multiset()) == orig.to_multiset(),
                adjacents_ordered(f, out@),
            decreases rest@.len(),
        {
            let ghost rpre = rest@;
            let x = crate::remove_first(&mut rest);
            proof {
                broadcast use vstd::seq_lib::group_to_multiset_ensures;
                broadcast use vstd::multiset::group_multiset_axioms;

                assert(rest@ =~= rpre.remove(0));
                assert(rpre.remove(0).to_multiset() =~= rpre.to_multiset().remove(x));
            }
            let mut p = out.len();
            let mut scanning = true;
            while scanning && p > 0
                invariant
                    forall|a: &T, b: &T| #[trigger] call_requires(f, (a, b)),
                    p <= out@.len(),
                    p < out@.len() ==> call_ensures(
                        f,
                        (&x, &out@[p as int]),
                        core::cmp::Ordering::Less,
                    ),
                    !scanning ==> p > 0 && (exists|o: core::cmp::Ordering|
                        #[trigger] call_ensures(f, (&x, &out@[p - 1]), o) && o
                            != core::cmp::Ordering::Less),
                decreases (if scanning {
                    1int
                } else {
                    0int
                }), p,
            {
                let o = f(&x, &out[p - 1]);
                match o {
                    core::cmp::Ordering::Less => {
                        p = p - 1;
                    },
                    _ => {
                        scanning = false;
                    },
                }
            }
            let ghost opre = out@;
            out.insert(p, x);
            proof {
                broadcast use vstd::seq_lib::group_to_multiset_ensures;
                broadcast use vstd::multiset::group_multiset_axioms;

                assert(out@ == opre.insert(p as int, x));
                assert(out@.to_multiset() =~= opre.to_multiset().insert(x));
                assert(out@.to_multiset().add(rest@.to_multiset()) =~= orig.to_multiset());
                assert(forall|l: int|
                    0 <= l < out@.len() ==> out@[l] == (if l < p {
                        opre[l]
                    } else if l == p {
                        x
                    } else {
                        opre[l - 1]
                    }));
                assert forall|i: int| 0 <= i < out@.len() - 1 implies #[trigger] adjacent_in_order(
                    f,
                    out@[i],
                    out@[i + 1],
                ) by {
                    if i + 1 < p {
                        assert(out@[i] == opre[i] && out@[i + 1] == opre[i + 1]);
                        assert(adjacent_in_order(f, opre[i], opre[i + 1]));
                    } else if i + 1 == p {
                        assert(out@[i] == opre[i] && out@[i + 1] == x);
                        assert(exists|o: core::cmp::Ordering|
                            #[trigger] call_ensures(f, (&x, &opre[p - 1]), o) && o
                                != core::cmp::Ordering::Less);
                    } else if i == p {
                        assert(out@[i] == x && out@[i + 1] == opre[i]);
                        assert(call_ensures(f, (&x, &opre[p as int]), core::cmp::Ordering::Less));
                    } else {
                        assert(out@[i] == opre[i - 1] && out@[i + 1] == opre[i]);
                        assert(0 <= i - 1 < opre.len() - 1);
                        assert(adjacent_in_order(f, opre[i - 1], opre[i - 1 + 1]));
                        assert(opre[i - 1 + 1] == opre[i]);
                    }
                }
            }
        }
        proof {
            assert(rest@.to_multiset() =~= vstd::multiset::Multiset::<T>::empty());
            assert(out@.to_multiset() =~= orig.to_multiset());
        }
        if reverse {
            let rr = reverse_vec(out);
            proof {
                assert(rr@.reverse() =~= out@);
            }
            rr
        } else {
            out
        }
    }
}

/// Reverse a vector.
pub fn reverse_vec<T>(v: Vec<T>) -> (r: Vec<T>)
    ensures
        r@ == v@.reverse(),
        r@.to_multiset() == v@.to_multiset(),
{
    let ghost orig = v@;
    let mut src = v;
    let mut out: Vec<T> = Vec::new();
    while src.len() > 0
        invariant
            orig == src@ + out@.reverse(),
        decreases src.len(),
    {
        let x = match src.pop() {
            Some(x) => x,
            None => vstd::pervasive::unreached(),
        };
        out.push(x);
        proof {
            assert(orig =~= src@ + out@.reverse());
        }
    }
    proof {
        assert(src@ =~= Seq::<T>::empty());
        assert(orig =~= out@.reverse());
        assert(out@ =~= orig.reverse());
        orig.lemma_reverse_to_multiset();
    }
    out
}

/// An attribute paired, at the type level, with the id kind it selects.
pub struct ID<I, A> {
    attribute: A,
    id: PhantomData<I>,
}

impl<I, A> ID<I, A> {
    pub fn with(attribute: A) -> (r: Self)
        ensures
            r.attr_view() == attribute,
    {
        ID { attribute, id: PhantomData }
    }

    pub closed spec fn attr_view(self) -> A {
        self.attribute
    }
}

} // verus!
