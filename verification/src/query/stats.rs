//! Statistics over collection-valued attributes: counts, extrema, and
//! exact rational mean and median — a numerator/denominator pair, never a
//! lossily-rounded float.

use vstd::prelude::*;
use crate::attrib::{Attribute, Getter, Keyed, OptionCountable, OptionGetter};
use crate::data::{Database, DataCfg};
use crate::fraction::Fraction;
use crate::sequences::{sort_ascending, sort_u64};
use crate::source::Source;

verus! {

/// The sum of a word sequence.
pub open spec fn sum_of(s: Seq<u64>) -> int
    decreases s.len(),
{
    if s.len() == 0 {
        0
    } else {
        sum_of(s.drop_last()) + s.last()
    }
}

pub proof fn lemma_sum_bound(s: Seq<u64>)
    ensures
        0 <= sum_of(s) <= s.len() * 0xffff_ffff_ffff_ffffu64,
    decreases s.len(),
{
    if s.len() > 0 {
        lemma_sum_bound(s.drop_last());
        assert((s.len() - 1) * 0xffff_ffff_ffff_ffffu64 + 0xffff_ffff_ffff_ffffu64 == s.len()
            * 0xffff_ffff_ffff_ffffu64) by (nonlinear_arith);
    }
}

/// The exact mean of a collection: its sum over its size; an empty
/// collection has no mean.
pub open spec fn spec_mean(s: Seq<u64>) -> Option<Fraction> {
    if s.len() == 0 {
        None
    } else {
        Some(Fraction { numerator: sum_of(s) as u128, denominator: s.len() as u128 })
    }
}

/// The exact median of a collection: the middle of its sorted arrangement,
/// or the exact average of the two middles when the length is even; an
/// empty collection has no median.
pub open spec fn spec_median(s: Seq<u64>) -> Option<Fraction> {
    if s.len() == 0 {
        None
    } else {
        let sorted = sort_ascending(s);
        if s.len() % 2 == 1 {
            Some(Fraction { numerator: sorted[s.len() as int / 2] as u128, denominator: 1 })
        } else {
            Some(
                Fraction {
                    numerator: (sorted[s.len() as int / 2 - 1] + sorted[
                        s.len() as int / 2
                    ]) as u128,
                    denominator: 2,
                },
            )
        }
    }
}

/// The least element of a non-empty word sequence.
pub open spec fn spec_min(s: Seq<u64>) -> u64
    decreases s.len(),
{
    if s.len() <= 1 {
        s[0]
    } else {
        let m = spec_min(s.drop_last());
        if s.last() < m {
            s.last()
        } else {
            m
        }
    }
}

/// The greatest element of a non-empty word sequence.
pub open spec fn spec_max(s: Seq<u64>) -> u64
    decreases s.len(),
{
    if s.len() <= 1 {
        s[0]
    } else {
        let m = spec_max(s.drop_last());
        if s.last() > m {
            s.last()
        } else {
            m
        }
    }
}

/// The exact mean of the collection, when it is non-empty.
pub fn mean_of(v: &Vec<u64>) -> (r: Option<Fraction>)
    ensures
        r == spec_mean(v@),
{
    let n = v.len();
    if n == 0 {
        return None;
    }
    let mut acc: u128 = 0;
    let mut i: usize = 0;
    proof {
        lemma_sum_bound(v@.take(0));
    }
    while i < n
        invariant
            n == v@.len(),
            0 <= i <= n,
            acc == sum_of(v@.take(i as int)),
            acc <= (i as int) * 0xffff_ffff_ffff_ffffu64,
        decreases n - i,
    {
        proof {
            assert(v@.take(i + 1).drop_last() =~= v@.take(i as int));
            assert(v@.take(i + 1).last() == v@[i as int]);
            assert((i as int) * 0xffff_ffff_ffff_ffffu64 + 0xffff_ffff_ffff_ffffu64 == (i + 1)
                * 0xffff_ffff_ffff_ffffu64) by (nonlinear_arith);
            assert((i + 1) * 0xffff_ffff_ffff_ffffu64
                <= 0xffff_ffff_ffff_ffffu64 * 0xffff_ffff_ffff_ffffu64) by (nonlinear_arith)
                requires
                    0 <= i + 1 <= 0xffff_ffff_ffff_ffffu64 as int,
            ;
        }
        acc = acc + (v[i] as u128);
        i = i + 1;
    }
    proof {
        assert(v@.take(n as int) =~= v@);
    }
    Some(Fraction { numerator: acc, denominator: n as u128 })
}

/// The exact median of the collection, when it is non-empty.
pub fn median_of(v: Vec<u64>) -> (r: Option<Fraction>)
    ensures
        r == spec_median(v@),
{
    let ghost orig = v@;
    let n = v.len();
    if n == 0 {
        return None;
    }
    let sorted = sort_u64(v);
    proof {
        crate::sequences::lemma_sort_ascending_ensures(orig);
    }
    if n % 2 == 1 {
        Some(Fraction { numerator: sorted[n / 2] as u128, denominator: 1 })
    } else {
        let left = sorted[n / 2 - 1];
        let right = sorted[n / 2];
        Some(Fraction { numerator: (left as u128) + (right as u128), denominator: 2 })
    }
}

/// The least element, when the collection is non-empty.
pub fn min_of(v: &Vec<u64>) -> (r: Option<u64>)
    ensures
        v@.len() == 0 ==> r is None,
        v@.len() > 0 ==> r == Some(spec_min(v@)),
{
    let n = v.len();
    if n == 0 {
        return None;
    }
    let mut m = v[0];
    let mut i: usize = 1;
    proof {
        assert(v@.take(1).len() == 1);
        assert(v@.take(1)[0] == v@[0]);
    }
    while i < n
        invariant
            n == v@.len(),
            1 <= i <= n,
            m == spec_min(v@.take(i as int)),
        decreases n - i,
    {
        proof {
            assert(v@.take(i + 1).drop_last() =~= v@.take(i as int));
            assert(v@.take(i + 1).last() == v@[i as int]);
            assert(v@.take(i + 1).len() == i + 1);
        }
        if v[i] < m {
            m = v[i];
        }
        i = i + 1;
    }
    proof {
        assert(v@.take(n as int) =~= v@);
    }
    Some(m)
}

/// The greatest element, when the collection is non-empty.
pub fn max_of(v: &Vec<u64>) -> (r: Option<u64>)
    ensures
        v@.len() == 0 ==> r is None,
        v@.len() > 0 ==> r == Some(spec_max(v@)),
{
    let n = v.len();
    if n == 0 {
        return None;
    }
    let mut m = v[0];
    let mut i: usize = 1;
    proof {
        assert(v@.take(1).len() == 1);
        assert(v@.take(1)[0] == v@[0]);
    }
    while i < n
        invariant
            n == v@.len(),
            1 <= i <= n,
            m == spec_max(v@.take(i as int)),
        decreases n - i,
    {
        proof {
            assert(v@.take(i + 1).drop_last() =~= v@.take(i as int));
            assert(v@.take(i + 1).last() == v@[i as int]);
            assert(v@.take(i + 1).len() == i + 1);
        }
        if v[i] > m {
            m = v[i];
        }
        i = i + 1;
    }
    proof {
        assert(v@.take(n as int) =~= v@);
    }
    Some(m)
}

/// The size of a collection attribute; zero when the underlying collection
/// is absent.
pub struct Count<A: Attribute>(pub A);

impl<A, T: Keyed> Attribute for Count<A> where A: Attribute<Object = T> {
    type Object = T;
}

impl<A, T: Keyed> Getter for Count<A> where A: Attribute<Object = T> + OptionCountable {
    type IntoItem = u64;

    type ItemModel = u64;

    open spec fn model_total(it: u64) -> u64 {
        it
    }

    open spec fn spec_get(self, cfg: DataCfg, src: Source, key: u64) -> u64 {
        match self.0.spec_count_opt(cfg, src, key) {
            Some(c) => c,
            None => 0,
        }
    }

    fn get(&self, db: &mut Database, object: &T) -> (r: u64) {
        match self.0.count_opt(db, object) {
            Some(c) => c,
            None => 0,
        }
    }
}

impl<A, T: Keyed> OptionGetter for Count<A> where A: Attribute<Object = T> + OptionCountable {
    type IntoItem = u64;

    type ItemModel = u64;

    open spec fn model(it: u64) -> u64 {
        it
    }

    open spec fn spec_get_opt(self, cfg: DataCfg, src: Source, key: u64) -> Option<u64> {
        self.0.spec_count_opt(cfg, src, key)
    }

    fn get_opt(&self, db: &mut Database, object: &T) -> (r: Option<u64>) {
        self.0.count_opt(db, object)
    }
}

/// A histogram bin of the query surface.
pub struct Bin;

/// A histogram bucket of the query surface.
pub struct Bucket;

/// The least value of a numeric collection attribute; absent when the
/// collection is absent or empty.
pub struct Min<A: Attribute>(pub A);

impl<A, T: Keyed> Attribute for Min<A> where A: Attribute<Object = T> {
    type Object = T;
}

impl<A, T: Keyed> OptionGetter for Min<A> where
    A: Attribute<Object = T> + OptionGetter<IntoItem = Vec<u64>, ItemModel = Seq<u64>>,
    A: crate::NumbersGetter,
 {
    type IntoItem = u64;

    type ItemModel = u64;

    open spec fn model(it: u64) -> u64 {
        it
    }

    open spec fn spec_get_opt(self, cfg: DataCfg, src: Source, key: u64) -> Option<u64> {
        match self.0.spec_get_opt(cfg, src, key) {
            Some(s) => if s.len() == 0 {
                None
            } else {
                Some(spec_min(s))
            },
            None => None,
        }
    }

    fn get_opt(&self, db: &mut Database, object: &T) -> (r: Option<u64>) {
        match self.0.get_opt(db, object) {
            Some(v) => {
                proof {
                    A::lemma_model_is_values(v);
                }
                min_of(&v)
            },
            None => None,
        }
    }
}

/// The greatest value of a numeric collection attribute.
pub struct Max<A: Attribute>(pub A);

impl<A, T: Keyed> Attribute for Max<A> where A: Attribute<Object = T> {
    type Object = T;
}

impl<A, T: Keyed> OptionGetter for Max<A> where
    A: Attribute<Object = T> + OptionGetter<IntoItem = Vec<u64>, ItemModel = Seq<u64>>,
    A: crate::NumbersGetter,
 {
    type IntoItem = u64;

    type ItemModel = u64;

    open spec fn model(it: u64) -> u64 {
        it
    }

    open spec fn spec_get_opt(self, cfg: DataCfg, src: Source, key: u64) -> Option<u64> {
        match self.0.spec_get_opt(cfg, src, key) {
            Some(s) => if s.len() == 0 {
                None
            } else {
                Some(spec_max(s))
            },
            None => None,
        }
    }

    fn get_opt(&self, db: &mut Database, object: &T) -> (r: Option<u64>) {
        match self.0.get_opt(db, object) {
            Some(v) => {
                proof {
                    A::lemma_model_is_values(v);
                }
                max_of(&v)
            },
            None => None,
        }
    }
}

/// The least and greatest values of a numeric collection attribute.
pub struct MinMax<A: Attribute>(pub A);

impl<A, T: Keyed> Attribute for MinMax<A> where A: Attribute<Object = T> {
    type Object = T;
}

impl<A, T: Keyed> OptionGetter for MinMax<A> where
    A: Attribute<Object = T> + OptionGetter<IntoItem = Vec<u64>, ItemModel = Seq<u64>>,
    A: crate::NumbersGetter,
 {
    type IntoItem = (u64, u64);

    type ItemModel = (u64, u64);

    open spec fn model(it: (u64, u64)) -> (u64, u64) {
        it
    }

    open spec fn spec_get_opt(self, cfg: DataCfg, src: Source, key: u64) -> Option<(u64, u64)> {
        match self.0.spec_get_opt(cfg, src, key) {
            Some(s) => if s.len() == 0 {
                None
            } else {
                Some((spec_min(s), spec_max(s)))
            },
            None => None,
        }
    }

    fn get_opt(&self, db: &mut Database, object: &T) -> (r: Option<(u64, u64)>) {
        match self.0.get_opt(db, object) {
            Some(v) => {
                proof {
                    A::lemma_model_is_values(v);
                }
                match (min_of(&v), max_of(&v)) {
                    (Some(a), Some(b)) => Some((a, b)),
                    _ => None,
                }
            },
            None => None,
        }
    }
}

/// The exact mean of a numeric collection attribute.
pub struct Mean<A: Attribute>(pub A);

impl<A, T: Keyed> Attribute for Mean<A> where A: Attribute<Object = T> {
    type Object = T;
}

impl<A, T: Keyed> OptionGetter for Mean<A> where
    A: Attribute<Object = T> + OptionGetter<IntoItem = Vec<u64>, ItemModel = Seq<u64>>,
    A: crate::NumbersGetter,
 {
    type IntoItem = Fraction;

    type ItemModel = Fraction;

    open spec fn model(it: Fraction) -> Fraction {
        it
    }

    open spec fn spec_get_opt(self, cfg: DataCfg, src: Source, key: u64) -> Option<Fraction> {
        match self.0.spec_get_opt(cfg, src, key) {
            Some(s) => spec_mean(s),
            None => None,
        }
    }

    fn get_opt(&self, db: &mut Database, object: &T) -> (r: Option<Fraction>) {
        match self.0.get_opt(db, object) {
            Some(v) => {
                proof {
                    A::lemma_model_is_values(v);
                }
                mean_of(&v)
            },
            None => None,
        }
    }
}

/// The exact median of a numeric collection attribute.
pub struct Median<A: Attribute>(pub A);

impl<A, T: Keyed> Attribute for Median<A> where A: Attribute<Object = T> {
    type Object = T;
}

impl<A, T: Keyed> OptionGetter for Median<A> where
    A: Attribute<Object = T> + OptionGetter<IntoItem = Vec<u64>, ItemModel = Seq<u64>>,
    A: crate::NumbersGetter,
 {
    type IntoItem = Fraction;

    type ItemModel = Fraction;

    open spec fn model(it: Fraction) -> Fraction {
        it
    }

    open spec fn spec_get_opt(self, cfg: DataCfg, src: Source, key: u64) -> Option<Fraction> {
        match self.0.spec_get_opt(cfg, src, key) {
            Some(s) => spec_median(s),
            None => None,
        }
    }

    fn get_opt(&self, db: &mut Database, object: &T) -> (r: Option<Fraction>) {
        match self.0.get_opt(db, object) {
            Some(v) => {
                proof {
                    A::lemma_model_is_values(v);
                }
                median_of(v)
            },
            None => None,
        }
    }
}

/// The exact ratio of two collection attributes' sizes.
pub struct Ratio<A: Attribute, P: Attribute>(pub A, pub P);

impl<A, P, T: Keyed> Attribute for Ratio<A, P> where
    A: Attribute<Object = T>,
    P: Attribute<Object = T>,
 {
    type Object = T;
}

impl<A, P, T: Keyed> OptionGetter for Ratio<A, P> where
    A: Attribute<Object = T> + OptionCountable,
    P: Attribute<Object = T> + OptionCountable,
 {
    type IntoItem = Fraction;

    type ItemModel = Fraction;

    open spec fn model(it: Fraction) -> Fraction {
        it
    }

    open spec fn spec_get_opt(self, cfg: DataCfg, src: Source, key: u64) -> Option<Fraction> {
        match (self.0.spec_count_opt(cfg, src, key), self.1.spec_count_opt(cfg, src, key)) {
            (Some(n), Some(m)) => Some(Fraction { numerator: n as u128, denominator: m as u128 }),
            _ => None,
        }
    }

    fn get_opt(&self, db: &mut Database, object: &T) -> (r: Option<Fraction>) {
        let a = self.0.count_opt(db, object);
        let b = self.1.count_opt(db, object);
        match (a, b) {
            (Some(n), Some(m)) => Some(
                Fraction { numerator: n as u128, denominator: m as u128 },
            ),
            _ => None,
        }
    }
}

} // verus!
