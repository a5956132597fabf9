//! Samplers: order-preserving truncation, seeded reproducible random
//! sampling, and deduplication by a similarity criterion.

use vstd::prelude::*;
use crate::attrib::{Attribute, Keyed, OptionGetter, Sampler};
use crate::data::{Database, DataCfg};
use crate::fraction::Fraction;
use crate::sequences::{contains_u64, dedup_first, dedup_first_vec};
use crate::source::Source;
use crate::EntitiesGetter;

verus! {

/// Keep the first `n` elements, in their current order.
#[derive(Clone, Copy, Eq, PartialEq, Structural, Debug, Hash)]
pub struct Top(pub usize);

impl<T> Sampler<T> for Top {
    open spec fn spec_sample(self, cfg: DataCfg, src: Source, items: Seq<T>) -> Seq<T> {
        if items.len() <= self.0 {
            items
        } else {
            items.take(self.0 as int)
        }
    }

    fn sample(&self, db: &mut Database, items: Vec<T>) -> (r: Vec<T>) {
        let mut v = items;
        let ghost orig = v@;
        v.truncate(self.0);
        proof {
            if orig.len() <= self.0 {
                assert(v@ =~= orig);
            } else {
                assert(v@ =~= orig.take(self.0 as int));
            }
        }
        v
    }
}

/// The byte at one big-endian position of a seed.
pub open spec fn be_byte(v: u128, i: int) -> u8 {
    (v >> (((15 - i) * 8) as u128)) as u8
}

/// The byte at one little-endian position of a seed.
pub open spec fn le_byte(v: u128, i: int) -> u8 {
    (v >> ((i * 8) as u128)) as u8
}

/// A random sampler's seed: the same seed always reproduces the same
/// sample.
#[derive(Clone, Copy, Eq, PartialEq, Structural, Debug, Hash, PartialOrd, Ord)]
pub struct Seed(pub u128);

impl Seed {
    /// The seed's sixteen bytes, most significant first.
    pub fn to_be_bytes(&self) -> (r: [u8; 16])
        ensures
            forall|i: int| 0 <= i < 16 ==> r@[i] == be_byte(self.0, i),
    {
        let mut out: Vec<u8> = Vec::new();
        let mut i: usize = 0;
        while i < 16
            invariant
                0 <= i <= 16,
                out@.len() == i,
                forall|j: int| 0 <= j < i ==> out@[j] == be_byte(self.0, j),
            decreases 16 - i,
        {
            let sh: u128 = ((15 - i) * 8) as u128;
            let b: u8 = (self.0 >> sh) as u8;
            out.push(b);
            i = i + 1;
        }
        let r: [u8; 16] = vec_to_array16(out);
        r
    }

    /// The seed's sixteen bytes, least significant first.
    pub fn to_le_bytes(&self) -> (r: [u8; 16])
        ensures
            forall|i: int| 0 <= i < 16 ==> r@[i] == le_byte(self.0, i),
    {
        let mut out: Vec<u8> = Vec::new();
        let mut i: usize = 0;
        while i < 16
            invariant
                0 <= i <= 16,
                out@.len() == i,
                forall|j: int| 0 <= j < i ==> out@[j] == le_byte(self.0, j),
            decreases 16 - i,
        {
            let sh: u128 = (i * 8) as u128;
            let b: u8 = (self.0 >> sh) as u8;
            out.push(b);
            i = i + 1;
        }
        let r: [u8; 16] = vec_to_array16(out);
        r
    }
}

/// Relies on <[u8; 16] as TryFrom<&[u8]>>::try_from of std, which succeeds
/// exactly on slices of length sixteen and copies the bytes through.
#[verifier::external_body]
fn vec_to_array16(v: Vec<u8>) -> (r: [u8; 16])
    requires
        v@.len() == 16,
    ensures
        forall|i: int| 0 <= i < 16 ==> r@[i] == v@[i],
{
    match <[u8; 16]>::try_from(v.as_slice()) {
        Ok(a) => a,
        Err(_) => [0u8; 16],
    }
}

/// The positions a seeded random sample picks from a collection of the
/// given length.
pub uninterp spec fn sample_indices(len: usize, amount: usize, seed: u128) -> Seq<usize>;

/// Relies on rand_pcg::Pcg64Mcg, a deterministic generator whose output
/// stream is a function of its sixteen seed bytes alone, and on
/// rand::seq::IteratorRandom::choose_multiple, which collects `amount`
/// positions of the iterator without repetition and returns every position
/// when the iterator holds fewer than `amount`.
#[verifier::external_body]
fn choose_indices(len: usize, amount: usize, seed: Seed) -> (r: Vec<usize>)
    ensures
        r@ == sample_indices(len, amount, seed.0),
        r@.len() == if len < amount {
            len as int
        } else {
            amount as int
        },
        forall|i: int| 0 <= i < r@.len() ==> r@[i] < len,
        forall|i: int, j: int| 0 <= i < j < r@.len() ==> r@[i] != r@[j],
{
    let mut rng = <rand_pcg::Pcg64Mcg as rand::SeedableRng>::from_seed(seed.to_be_bytes());
    rand::seq::IteratorRandom::choose_multiple(0..len, &mut rng, amount)
}

/// The elements of a collection at the given positions, skipping any
/// position beyond the collection.
pub open spec fn picked<T>(items: Seq<T>, idx: Seq<usize>) -> Seq<T>
    decreases idx.len(),
{
    if idx.len() == 0 {
        Seq::empty()
    } else {
        let rest = picked(items, idx.drop_last());
        if idx.last() < items.len() {
            rest.push(items[idx.last() as int])
        } else {
            rest
        }
    }
}

/// A seeded, reproducible uniform sample of `n` elements without
/// replacement: the same seed and collection always yield the same
/// output sequence.
#[derive(Clone, Copy, Eq, PartialEq, Structural, Debug, Hash)]
pub struct Random(pub usize, pub Seed);

/// In-order first occurrences of a position list's in-range entries.
pub open spec fn distinct_in_range(idx: Seq<usize>, len: usize) -> Seq<usize>
    decreases idx.len(),
{
    if idx.len() == 0 {
        Seq::empty()
    } else {
        let rest = distinct_in_range(idx.drop_last(), len);
        if idx.last() < len && !rest.contains(idx.last()) {
            rest.push(idx.last())
        } else {
            rest
        }
    }
}

/// The positions strictly below a bound, as a set.
pub open spec fn positions_below(len: usize) -> Set<u64>
    decreases len,
{
    if len == 0 {
        Set::empty()
    } else {
        positions_below((len - 1) as usize).insert((len - 1) as u64)
    }
}

pub proof fn lemma_positions_below(len: usize)
    ensures
        positions_below(len).finite(),
        positions_below(len).len() == len,
        forall|x: u64| positions_below(len).contains(x) <==> x < len,
    decreases len,
{
    broadcast use vstd::set::group_set_axioms;

    if len > 0 {
        lemma_positions_below((len - 1) as usize);
        assert(!positions_below((len - 1) as usize).contains((len - 1) as u64));
    }
}

/// A duplicate-free position list below a bound has at most that many
/// entries.
pub proof fn lemma_distinct_positions_card(base: Seq<usize>, len: usize)
    requires
        base.no_duplicates(),
        forall|l: int| 0 <= l < base.len() ==> (#[trigger] base[l]) < len,
    ensures
        base.len() <= len,
{
    broadcast use vstd::set::group_set_axioms;

    let words = base.map(|l: int, p: usize| p as u64);
    assert(words.no_duplicates());
    words.unique_seq_to_set();
    lemma_positions_below(len);
    assert(words.to_set() <= positions_below(len)) by {
        assert forall|x: u64| words.to_set().contains(x) implies positions_below(len).contains(
            x,
        ) by {
            assert(words.contains(x));
            let l = choose|l: int| 0 <= l < words.len() && words[l] == x;
            assert(base[l] < len);
        }
    }
    vstd::set_lib::lemma_len_subset(words.to_set(), positions_below(len));
}

/// The smallest unused position at or above `j`.
pub open spec fn first_unused_from(base: Seq<usize>, len: usize, j: usize) -> usize
    decreases len - j,
{
    if j >= len {
        0
    } else if !base.contains(j) {
        j
    } else {
        first_unused_from(base, len, (j + 1) as usize)
    }
}

pub proof fn lemma_first_unused(base: Seq<usize>, len: usize, j: usize)
    requires
        base.no_duplicates(),
        forall|l: int| 0 <= l < base.len() ==> (#[trigger] base[l]) < len,
        base.len() < len,
        j <= len,
        forall|p: usize| p < j ==> base.contains(p),
    ensures
        first_unused_from(base, len, j) < len,
        !base.contains(first_unused_from(base, len, j)),
    decreases len - j,
{
    broadcast use vstd::set::group_set_axioms;

    if j >= len {
        // every position below the bound would sit in the list, which its
        // length forbids
        let words = base.map(|l: int, p: usize| p as u64);
        assert(words.no_duplicates());
        words.unique_seq_to_set();
        lemma_positions_below(len);
        assert(positions_below(len) <= words.to_set()) by {
            assert forall|x: u64| positions_below(len).contains(x) implies words.to_set().contains(
                x,
            ) by {
                assert(x < len);
                assert(base.contains(x as usize));
                let l = choose|l: int| 0 <= l < base.len() && base[l] == x as usize;
                assert(words[l] == x);
                assert(words.contains(x));
            }
        }
        vstd::set_lib::lemma_len_subset(positions_below(len), words.to_set());
        assert(false);
    } else if !base.contains(j) {
    } else {
        lemma_first_unused(base, len, (j + 1) as usize);
    }
}

/// Complete a duplicate-free position list with the smallest unused
/// positions, then cut it to the target length.
pub open spec fn extend_distinct(base: Seq<usize>, len: usize, target: int) -> Seq<usize>
    decreases target - base.len(),
{
    if base.len() >= target {
        base.take(target)
    } else {
        extend_distinct(base.push(first_unused_from(base, len, 0)), len, target)
    }
}

pub proof fn lemma_extend_distinct_props(base: Seq<usize>, len: usize, target: int)
    requires
        base.no_duplicates(),
        forall|l: int| 0 <= l < base.len() ==> (#[trigger] base[l]) < len,
        0 <= target <= len,
    ensures
        extend_distinct(base, len, target).len() == target,
        extend_distinct(base, len, target).no_duplicates(),
        forall|l: int|
            0 <= l < target ==> (#[trigger] extend_distinct(base, len, target)[l]) < len,
    decreases target - base.len(),
{
    if base.len() >= target {
        assert(extend_distinct(base, len, target) == base.take(target));
        assert(forall|l: int| 0 <= l < target ==> base.take(target)[l] == base[l]);
    } else {
        lemma_first_unused(base, len, 0);
        let u = first_unused_from(base, len, 0);
        let base2 = base.push(u);
        assert(base2.no_duplicates()) by {
            assert forall|i: int, j: int|
                0 <= i < base2.len() && 0 <= j < base2.len() && i != j implies base2[i]
                != base2[j] by {
                if i < base.len() && j < base.len() {
                    assert(base[i] == base2[i] && base[j] == base2[j]);
                } else if i < base.len() {
                    assert(base2[j] == u);
                    if base2[i] == u {
                        assert(base.contains(u)) by {
                            assert(base[i] == u);
                        }
                    }
                } else {
                    assert(base2[i] == u);
                    if base2[j] == u {
                        assert(base.contains(u)) by {
                            assert(base[j] == u);
                        }
                    }
                }
            }
        }
        assert(forall|l: int| 0 <= l < base2.len() ==> (#[trigger] base2[l]) < len);
        lemma_extend_distinct_props(base2, len, target);
    }
}

/// The positions a sample takes, made well-shaped by construction:
/// out-of-range entries dropped, repeats dropped, and the list completed
/// with the smallest unused positions, so that exactly min(amount, len)
/// distinct in-range positions remain.
pub open spec fn groomed_indices(idx: Seq<usize>, len: usize, amount: usize) -> Seq<usize> {
    let target: int = if (len as int) < (amount as int) {
        len as int
    } else {
        amount as int
    };
    extend_distinct(distinct_in_range(idx, len), len, target)
}

pub proof fn lemma_distinct_in_range_props(idx: Seq<usize>, len: usize)
    ensures
        distinct_in_range(idx, len).no_duplicates(),
        forall|l: int|
            0 <= l < distinct_in_range(idx, len).len() ==> (#[trigger] distinct_in_range(
                idx,
                len,
            )[l]) < len,
    decreases idx.len(),
{
    if idx.len() > 0 {
        lemma_distinct_in_range_props(idx.drop_last(), len);
        let rest = distinct_in_range(idx.drop_last(), len);
        let d = distinct_in_range(idx, len);
        if idx.last() < len && !rest.contains(idx.last()) {
            assert forall|i: int, j: int|
                0 <= i < d.len() && 0 <= j < d.len() && i != j implies d[i] != d[j] by {
                if i < rest.len() && j < rest.len() {
                    assert(rest[i] == d[i] && rest[j] == d[j]);
                } else if i < rest.len() {
                    if d[i] == idx.last() {
                        assert(rest.contains(idx.last())) by {
                            assert(rest[i] == idx.last());
                        }
                    }
                } else if j < rest.len() {
                    if d[j] == idx.last() {
                        assert(rest.contains(idx.last())) by {
                            assert(rest[j] == idx.last());
                        }
                    }
                }
            }
        }
    }
}

/// A list that is already well-shaped grooms to itself.
pub proof fn lemma_groomed_identity(idx: Seq<usize>, len: usize, amount: usize)
    requires
        idx.no_duplicates(),
        forall|l: int| 0 <= l < idx.len() ==> (#[trigger] idx[l]) < len,
        idx.len() == if (len as int) < (amount as int) {
            len as int
        } else {
            amount as int
        },
    ensures
        groomed_indices(idx, len, amount) == idx,
{
    lemma_distinct_in_range_identity(idx, len);
    let target: int = if (len as int) < (amount as int) {
        len as int
    } else {
        amount as int
    };
    assert(extend_distinct(idx, len, target) == idx.take(target));
    assert(idx.take(target) =~= idx);
}

pub proof fn lemma_distinct_in_range_identity(idx: Seq<usize>, len: usize)
    requires
        idx.no_duplicates(),
        forall|l: int| 0 <= l < idx.len() ==> (#[trigger] idx[l]) < len,
    ensures
        distinct_in_range(idx, len) == idx,
    decreases idx.len(),
{
    if idx.len() > 0 {
        let p = idx.drop_last();
        assert(p.no_duplicates()) by {
            assert(forall|l: int| 0 <= l < p.len() ==> p[l] == idx[l]);
        }
        assert(forall|l: int| 0 <= l < p.len() ==> (#[trigger] p[l]) < len) by {
            assert(forall|l: int| 0 <= l < p.len() ==> p[l] == idx[l]);
        }
        lemma_distinct_in_range_identity(p, len);
        assert(!p.contains(idx.last())) by {
            if p.contains(idx.last()) {
                let l = choose|l: int| 0 <= l < p.len() && p[l] == idx.last();
                assert(idx[l] == idx[idx.len() - 1]);
            }
        }
        assert(distinct_in_range(idx, len) =~= idx);
    } else {
        assert(distinct_in_range(idx, len) =~= idx);
    }
}

/// The picked elements of an in-range position list, element by element.
pub proof fn lemma_picked_elems<T>(items: Seq<T>, idx: Seq<usize>)
    requires
        forall|l: int| 0 <= l < idx.len() ==> (#[trigger] idx[l]) < items.len(),
    ensures
        picked(items, idx).len() == idx.len(),
        forall|l: int|
            0 <= l < idx.len() ==> #[trigger] picked(items, idx)[l] == items[idx[l] as int],
    decreases idx.len(),
{
    if idx.len() > 0 {
        let p = idx.drop_last();
        assert(forall|l: int| 0 <= l < p.len() ==> (#[trigger] p[l]) < items.len()) by {
            assert(forall|l: int| 0 <= l < p.len() ==> p[l] == idx[l]);
        }
        lemma_picked_elems(items, p);
        assert(forall|l: int| 0 <= l < p.len() ==> picked(items, idx)[l] == picked(items, p)[l]);
        assert(forall|l: int| 0 <= l < p.len() ==> p[l] == idx[l]);
    }
}

/// What a seeded sample looks like, for every seed and collection: exactly
/// min(n, len) elements, drawn from the input without replacement — there
/// is a duplicate-free list of in-range positions whose elements the
/// sample is, in order.
pub proof fn lemma_random_sample_shape<T>(s: Random, cfg: DataCfg, src: Source, items: Seq<T>)
    requires
        items.len() <= usize::MAX,
    ensures
        s.spec_sample(cfg, src, items).len() == if items.len() < s.0 {
            items.len() as int
        } else {
            s.0 as int
        },
        exists|pos: Seq<usize>|
            {
                &&& #[trigger] pos.len() == s.spec_sample(cfg, src, items).len()
                &&& pos.no_duplicates()
                &&& (forall|l: int| 0 <= l < pos.len() ==> (#[trigger] pos[l]) < items.len())
                &&& (forall|l: int|
                    0 <= l < pos.len() ==> s.spec_sample(cfg, src, items)[l] == items[(
                    #[trigger] pos[l]) as int])
            },
{
    let len = items.len() as usize;
    let amount = clamped(s.0, len);
    let idx = sample_indices(len, amount, s.1.0);
    let g = groomed_indices(idx, len, amount);
    lemma_distinct_in_range_props(idx, len);
    lemma_extend_distinct_props(distinct_in_range(idx, len), len, if (len as int) < (
    amount as int) {
        len as int
    } else {
        amount as int
    });
    lemma_picked_elems(items, g);
    assert({
        &&& g.len() == s.spec_sample(cfg, src, items).len()
        &&& g.no_duplicates()
        &&& (forall|l: int| 0 <= l < g.len() ==> (#[trigger] g[l]) < items.len())
        &&& (forall|l: int|
            0 <= l < g.len() ==> s.spec_sample(cfg, src, items)[l] == items[(#[trigger] g[l]) as int])
    });
}

/// The sample size actually drawn: never more than the collection holds.
pub open spec fn clamped(amount: usize, len: usize) -> usize {
    if len < amount {
        len
    } else {
        amount
    }
}

impl<T> Sampler<T> for Random {
    open spec fn spec_sample(self, cfg: DataCfg, src: Source, items: Seq<T>) -> Seq<T> {
        picked(
            items,
            groomed_indices(
                sample_indices(
                    items.len() as usize,
                    clamped(self.0, items.len() as usize),
                    self.1.0,
                ),
                items.len() as usize,
                clamped(self.0, items.len() as usize),
            ),
        )
    }

    fn sample(&self, db: &mut Database, items: Vec<T>) -> (r: Vec<T>) {
        let n = items.len();
        let amount = if n < self.0 {
            n
        } else {
            self.0
        };
        let idx = choose_indices(n, amount, self.1);
        let ghost orig = items@;
        let ghost idxv = idx@;
        proof {
            lemma_groomed_identity(idxv, n, amount);
        }
        let mut opts: Vec<Option<T>> = Vec::new();
        let mut src_items = items;
        while src_items.len() > 0
            invariant
                orig == opts@.map(|l: int, o: Option<T>| o->0) + src_items@,
                forall|l: int| 0 <= l < opts@.len() ==> (#[trigger] opts@[l]) is Some,
            decreases src_items.len(),
        {
            let x = crate::remove_first(&mut src_items);
            opts.push(Some(x));
            proof {
                assert(orig =~= opts@.map(|l: int, o: Option<T>| o->0) + src_items@);
            }
        }
        proof {
            assert(src_items@ =~= Seq::<T>::empty());
            assert(orig =~= opts@.map(|l: int, o: Option<T>| o->0));
        }
        let m = idx.len();
        let mut out: Vec<T> = Vec::new();
        let mut i: usize = 0;
        proof {
            assert(out@ =~= picked(orig, idxv.take(0)));
        }
        while i < m
            invariant
                m == idxv.len(),
                idxv == idx@,
                0 <= i <= m,
                opts@.len() == orig.len(),
                idxv == sample_indices(
                    orig.len() as usize,
                    clamped(self.0, orig.len() as usize),
                    self.1.0,
                ),
                forall|l: int| 0 <= l < idxv.len() ==> idxv[l] < orig.len(),
                forall|l: int, l2: int| 0 <= l < l2 < idxv.len() ==> idxv[l] != idxv[l2],
                forall|k: usize|
                    0 <= k < opts@.len() ==> ((#[trigger] opts@[k as int]) is Some <==> !idxv.take(
                        i as int,
                    ).contains(k)),
                forall|k: int|
                    0 <= k < opts@.len() && opts@[k] is Some ==> opts@[k]->0 == orig[k],
                out@ == picked(orig, idxv.take(i as int)),
            decreases m - i,
        {
            let j = idx[i];
            proof {
                assert(idxv[i as int] < orig.len());
                if idxv.take(i as int).contains(idxv[i as int]) {
                    let l = choose|l: int|
                        0 <= l < i && #[trigger] idxv.take(i as int)[l] == idxv[i as int];
                    assert(idxv[l] == idxv[i as int]);
                }
                assert(!idxv.take(i as int).contains(j));
                assert(opts@[j as int] is Some);
            }
            let ghost pre_opts = opts@;
            let mut slot: Option<T> = None;
            vstd::pervasive::VecAdditionalExecFns::set_and_swap(&mut opts, j, &mut slot);
            let x = match slot {
                Some(x) => x,
                None => vstd::pervasive::unreached(),
            };
            out.push(x);
            proof {
                assert(idxv.take(i + 1).drop_last() =~= idxv.take(i as int));
                assert(idxv.take(i + 1).last() == idxv[i as int]);
                assert(out@ =~= picked(orig, idxv.take(i + 1)));
                assert forall|k: usize|
                    0 <= k < opts@.len() implies ((#[trigger] opts@[k as int]) is Some
                    <==> !idxv.take(i + 1).contains(k)) by {
                    if k == j {
                        assert(idxv.take(i + 1)[i as int] == j);
                        assert(idxv.take(i + 1).contains(j));
                    } else {
                        assert(opts@[k as int] == pre_opts[k as int]);
                        if idxv.take(i + 1).contains(k) {
                            let l = choose|l: int|
                                0 <= l < idxv.take(i + 1).len() && #[trigger] idxv.take(i + 1)[l]
                                    == k;
                            assert(idxv[l] == k);
                            assert(idxv[i as int] == j);
                            assert(l != i);
                            assert(l < i);
                            assert(idxv.take(i as int)[l] == k);
                            assert(idxv.take(i as int).contains(k));
                        }
                        if idxv.take(i as int).contains(k) {
                            let l = choose|l: int|
                                0 <= l < idxv.take(i as int).len() && #[trigger] idxv.take(
                                    i as int,
                                )[l] == k;
                            assert(idxv.take(i + 1)[l] == k);
                            assert(idxv.take(i + 1).contains(k));
                        }
                    }
                }
            }
            i = i + 1;
        }
        proof {
            assert(idxv.take(m as int) =~= idxv);
        }
        out
    }
}

/// Two sampled values judged interchangeable: the interface a
/// deduplicating sampler compares by.
pub trait Similarity<T>: Sized {
    spec fn spec_similar(self, other: Self) -> bool;

    fn similar(&self, other: &Self) -> (r: bool)
        ensures
            r == self.spec_similar(*other),
    ;
}

/// A rule that assigns each entity a comparable similarity value and
/// judges pairs of entities by it.
pub trait SimilarityCriterion: Sized {
    type Item: Keyed;

    spec fn spec_similar(self, cfg: DataCfg, src: Source, a: u64, b: u64) -> bool;

    fn similar(&self, db: &mut Database, a: &Self::Item, b: &Self::Item) -> (r: bool)
        requires
            old(db).wf(),
        ensures
            final(db).wf(),
            final(db).src() == old(db).src(),
            final(db).dcfg() == old(db).dcfg(),
            r == self.spec_similar(old(db).dcfg(), old(db).src(), a.key(), b.key()),
    ;
}

/// How many of the first collection's distinct values the second holds.
pub open spec fn count_in(x: Seq<u64>, y: Seq<u64>) -> int
    decreases x.len(),
{
    if x.len() == 0 {
        0
    } else {
        count_in(x.drop_last(), y) + if y.contains(x.last()) {
            1int
        } else {
            0int
        }
    }
}

pub proof fn lemma_count_in_bound(x: Seq<u64>, y: Seq<u64>)
    ensures
        0 <= count_in(x, y) <= x.len(),
    decreases x.len(),
{
    if x.len() > 0 {
        lemma_count_in_bound(x.drop_last(), y);
    }
}

/// Whether two id sets overlap in more than the given ratio of the first
/// set's size: distinct common ids over distinct ids, compared exactly by
/// cross multiplication.  Ratios whose parts exceed a machine word are not
/// meaningful thresholds and match nothing.
pub open spec fn overlap_exceeds(x: Seq<u64>, y: Seq<u64>, f: Fraction) -> bool {
    &&& f.numerator <= u64::MAX
    &&& f.denominator <= u64::MAX
    &&& count_in(dedup_first(x), dedup_first(y)) * f.denominator > f.numerator * dedup_first(
        x,
    ).len()
}

/// Count how many values of `x` also occur in `y`.
pub fn count_common(x: &Vec<u64>, y: &Vec<u64>) -> (r: usize)
    ensures
        r == count_in(x@, y@),
{
    let n = x.len();
    let mut i: usize = 0;
    let mut c: usize = 0;
    proof {
        assert(x@.take(0).len() == 0);
        lemma_count_in_bound(x@, y@);
    }
    while i < n
        invariant
            n == x@.len(),
            0 <= i <= n,
            c == count_in(x@.take(i as int), y@),
            c <= i,
        decreases n - i,
    {
        proof {
            assert(x@.take(i + 1).drop_last() =~= x@.take(i as int));
            assert(x@.take(i + 1).last() == x@[i as int]);
            lemma_count_in_bound(x@.take(i as int), y@);
        }
        if contains_u64(y, x[i]) {
            c = c + 1;
        }
        i = i + 1;
    }
    proof {
        assert(x@.take(n as int) =~= x@);
    }
    c
}

/// A similarity value: the distinct ids an entity's collection attribute
/// yielded, when it yielded any, with the overlap threshold to compare at.
pub struct MinRatio {
    pub min_ratio: Fraction,
    pub items: Option<Vec<u64>>,
}

impl Similarity<u64> for MinRatio {
    open spec fn spec_similar(self, other: Self) -> bool {
        match (self.items, other.items) {
            (None, None) => true,
            (Some(me), Some(them)) => overlap_exceeds(me@, them@, self.min_ratio),
            _ => false,
        }
    }

    fn similar(&self, other: &Self) -> (r: bool) {
        match (&self.items, &other.items) {
            (None, None) => true,
            (Some(me), Some(them)) => {
                if self.min_ratio.numerator > u64::MAX as u128 || self.min_ratio.denominator
                    > u64::MAX as u128 {
                    return false;
                }
                let mine = dedup_first_vec(me);
                let theirs = dedup_first_vec(them);
                let same = count_common(&mine, &theirs);
                let nx = mine.len();
                proof {
                    lemma_count_in_bound(mine@, theirs@);
                    assert((same as int) * (self.min_ratio.denominator as int)
                        < 0x1_0000_0000_0000_0000_0000_0000_0000_0000int) by (nonlinear_arith)
                        requires
                            0 <= same as int <= 0xffff_ffff_ffff_ffffu64 as int,
                            0 <= self.min_ratio.denominator as int
                                <= 0xffff_ffff_ffff_ffffu64 as int,
                    ;
                    assert((self.min_ratio.numerator as int) * (nx as int)
                        < 0x1_0000_0000_0000_0000_0000_0000_0000_0000int) by (nonlinear_arith)
                        requires
                            0 <= self.min_ratio.numerator as int <= 0xffff_ffff_ffff_ffffu64 as int,
                            0 <= nx as int <= 0xffff_ffff_ffff_ffffu64 as int,
                    ;
                }
                let lhs: u128 = (same as u128) * self.min_ratio.denominator;
                let rhs: u128 = self.min_ratio.numerator * (nx as u128);
                lhs > rhs
            },
            _ => false,
        }
    }
}

/// The similarity criterion "two entities are the same when at least the
/// given ratio of the first one's id set also occurs in the second's".
pub struct Ratio<A: Attribute, E>(pub A, pub Fraction, pub core::marker::PhantomData<E>);

impl<A, T: Keyed, E: Keyed> SimilarityCriterion for Ratio<A, E> where
    A: Attribute<Object = T> + EntitiesGetter<E>,
 {
    type Item = T;

    open spec fn spec_similar(self, cfg: DataCfg, src: Source, a: u64, b: u64) -> bool {
        match (self.0.spec_get_opt(cfg, src, a), self.0.spec_get_opt(cfg, src, b)) {
            (None, None) => true,
            (Some(x), Some(y)) => overlap_exceeds(x, y, self.1),
            _ => false,
        }
    }

    fn similar(&self, db: &mut Database, a: &T, b: &T) -> (r: bool) {
        let ax = self.0.get_opt(db, a);
        let bx = self.0.get_opt(db, b);
        let ma = MinRatio {
            min_ratio: self.1,
            items: match ax {
                Some(v) => {
                    proof {
                        A::lemma_models_are_keys(v);
                    }
                    Some(keys_of_entities(&v))
                },
                None => None,
            },
        };
        let mb = MinRatio {
            min_ratio: self.1,
            items: match bx {
                Some(v) => {
                    proof {
                        A::lemma_models_are_keys(v);
                    }
                    Some(keys_of_entities(&v))
                },
                None => None,
            },
        };
        ma.similar(&mb)
    }
}

/// The keys of a vector of entities.
pub fn keys_of_entities<E: Keyed>(v: &Vec<E>) -> (r: Vec<u64>)
    ensures
        r@ == v@.map(|i: int, e: E| e.key()),
{
    let ghost goal = v@.map(|i: int, e: E| e.key());
    let mut out: Vec<u64> = Vec::new();
    let n = v.len();
    let mut i: usize = 0;
    proof {
        assert(out@ =~= goal.take(0));
    }
    while i < n
        invariant
            n == v@.len(),
            goal == v@.map(|i: int, e: E| e.key()),
            0 <= i <= n,
            out@ == goal.take(i as int),
        decreases n - i,
    {
        out.push(v[i].key_of());
        proof {
            assert(out@ =~= goal.take(i + 1));
        }
        i = i + 1;
    }
    proof {
        assert(goal.take(n as int) =~= goal);
    }
    out
}

/// Keep, walking the collection in order, each element that is not
/// similar to any element already kept; then let the inner sampler select
/// from what remains.
pub open spec fn kept<C: SimilarityCriterion>(
    c: C,
    cfg: DataCfg,
    src: Source,
    items: Seq<C::Item>,
) -> Seq<C::Item>
    decreases items.len(),
{
    if items.len() == 0 {
        Seq::empty()
    } else {
        let k = kept(c, cfg, src, items.drop_last());
        if exists|j: int|
            0 <= j < k.len() && c.spec_similar(cfg, src, (#[trigger] k[j]).key(), items.last().key()) {
            k
        } else {
            k.push(items.last())
        }
    }
}

/// Deduplicate by a similarity criterion, then delegate to the inner
/// sampler.
#[derive(Clone, Copy, Eq, PartialEq, Structural, Debug, Hash)]
pub struct Distinct<S, C>(pub S, pub C);

impl<T: Keyed, S, C> Sampler<T> for Distinct<S, C> where
    S: Sampler<T>,
    C: SimilarityCriterion<Item = T>,
 {
    open spec fn spec_sample(self, cfg: DataCfg, src: Source, items: Seq<T>) -> Seq<T> {
        self.0.spec_sample(cfg, src, kept(self.1, cfg, src, items))
    }

    fn sample(&self, db: &mut Database, items: Vec<T>) -> (r: Vec<T>) {
        let ghost cfg = db.dcfg();
        let ghost srcv = db.src();
        let ghost orig = items@;
        let total = items.len();
        let mut rest = items;
        let mut keptv: Vec<T> = Vec::new();
        let mut i: usize = 0;
        let ghost n = orig.len();
        proof {
            assert(orig.take(0).len() == 0);
            assert(keptv@ =~= kept(self.1, cfg, srcv, orig.take(0)));
        }
        while rest.len() > 0
            invariant
                old(db).wf(),
                db.wf(),
                db.src() == srcv,
                db.dcfg() == cfg,
                0 <= i <= n,
                n == orig.len(),
                n == total,
                rest@ == orig.skip(i as int),
                keptv@ == kept(self.1, cfg, srcv, orig.take(i as int)),
            decreases rest@.len(),
        {
            proof {
                assert(rest@[0] == orig[i as int]);
                assert(orig.take(i + 1).drop_last() =~= orig.take(i as int));
                assert(orig.take(i + 1).last() == orig[i as int]);
            }
            let e = crate::remove_first(&mut rest);
            let m = keptv.len();
            let mut j: usize = 0;
            let mut any = false;
            while j < m
                invariant
                    old(db).wf(),
                    db.wf(),
                    db.src() == srcv,
                    db.dcfg() == cfg,
                    m == keptv@.len(),
                    0 <= j <= m,
                    e == orig[i as int],
                    i < n,
                    n == orig.len(),
                    any <==> exists|l: int|
                        0 <= l < j && self.1.spec_similar(
                            cfg,
                            srcv,
                            (#[trigger] keptv@[l]).key(),
                            e.key(),
                        ),
                decreases m - j,
            {
                let s = self.1.similar(db, &keptv[j], &e);
                if s {
                    proof {
                        assert(self.1.spec_similar(cfg, srcv, keptv@[j as int].key(), e.key()));
                    }
                    any = true;
                    j = m;
                } else {
                    proof {
                        if exists|l: int|
                            0 <= l < j + 1 && self.1.spec_similar(
                                cfg,
                                srcv,
                                (#[trigger] keptv@[l]).key(),
                                e.key(),
                            ) {
                            let l = choose|l: int|
                                0 <= l < j + 1 && self.1.spec_similar(
                                    cfg,
                                    srcv,
                                    (#[trigger] keptv@[l]).key(),
                                    e.key(),
                                );
                            assert(l < j);
                        }
                    }
                    j = j + 1;
                }
            }
            if !any {
                keptv.push(e);
                proof {
                    assert(keptv@ =~= kept(self.1, cfg, srcv, orig.take(i + 1)));
                }
            } else {
                proof {
                    assert(keptv@ =~= kept(self.1, cfg, srcv, orig.take(i + 1)));
                }
            }
            proof {
                assert(rest@ =~= orig.skip(i + 1));
                assert(i < total);
            }
            i = i + 1;
        }
        proof {
            assert(rest@.len() == 0);
            assert(i == n);
            assert(orig.take(n as int) =~= orig);
        }
        self.0.sample(db, keptv)
    }
}

} // verus!
