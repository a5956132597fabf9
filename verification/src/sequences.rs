//! Verified helpers over integer sequences: order predicates, duplicate
//! removal that keeps first occurrences, and sorting.

use vstd::prelude::*;
use vstd::multiset::Multiset;
use vstd::relations::{sorted_by, total_ordering};
use vstd::seq_lib::lemma_sorted_unique;

verus! {

/// Keys strictly increase from left to right.
pub open spec fn strictly_increasing(s: Seq<u64>) -> bool {
    forall|i: int, j: int| 0 <= i < j < s.len() ==> s[i] < s[j]
}

/// Values never decrease from left to right.
pub open spec fn sorted_ascending(s: Seq<u64>) -> bool {
    forall|i: int, j: int| 0 <= i <= j < s.len() ==> s[i] <= s[j]
}

/// The sequence with later duplicates dropped: each value keeps its first
/// occurrence only, in the original order.
pub open spec fn dedup_first(s: Seq<u64>) -> Seq<u64>
    decreases s.len(),
{
    if s.len() == 0 {
        Seq::empty()
    } else {
        let rest = dedup_first(s.drop_last());
        if s.drop_last().contains(s.last()) {
            rest
        } else {
            rest.push(s.last())
        }
    }
}

/// What keeping first occurrences achieves: the result holds exactly the
/// values of the input, each exactly once.
pub proof fn lemma_dedup_first_props(s: Seq<u64>)
    ensures
        forall|x: u64| dedup_first(s).contains(x) <==> s.contains(x),
        forall|i: int, j: int|
            0 <= i < j < dedup_first(s).len() ==> dedup_first(s)[i] != dedup_first(s)[j],
    decreases s.len(),
{
    if s.len() > 0 {
        lemma_dedup_first_props(s.drop_last());
        let d = dedup_first(s);
        let dr = dedup_first(s.drop_last());
        assert forall|x: u64| d.contains(x) implies s.contains(x) by {
            let di = choose|di: int| 0 <= di < d.len() && d[di] == x;
            if s.drop_last().contains(s.last()) {
                assert(dr[di] == x);
                assert(dr.contains(x));
                assert(s.drop_last().contains(x));
                let k = choose|k: int| 0 <= k < s.drop_last().len() && s.drop_last()[k] == x;
                assert(s.drop_last()[k] == s[k]);
                assert(s.contains(x)) by {
                    assert(s[k] == x);
                }
            } else if di < d.len() - 1 {
                assert(d[di] == dr[di]);
                assert(dr.contains(x)) by {
                    assert(dr[di] == x);
                }
                assert(s.drop_last().contains(x));
                let k = choose|k: int| 0 <= k < s.drop_last().len() && s.drop_last()[k] == x;
                assert(s.drop_last()[k] == s[k]);
                assert(s.contains(x)) by {
                    assert(s[k] == x);
                }
            } else {
                assert(x == s.last());
                assert(s.contains(x)) by {
                    assert(s[s.len() - 1] == x);
                }
            }
        }
        assert forall|x: u64| s.contains(x) implies d.contains(x) by {
            let k = choose|k: int| 0 <= k < s.len() && s[k] == x;
            if k < s.len() - 1 {
                assert(s.drop_last()[k] == x);
                assert(s.drop_last().contains(x)) by {
                    assert(s.drop_last()[k] == x);
                }
                assert(dr.contains(x));
                let m = choose|m: int| 0 <= m < dr.len() && dr[m] == x;
                if s.drop_last().contains(s.last()) {
                    assert(d == dr);
                    assert(d.contains(x)) by {
                        assert(d[m] == x);
                    }
                } else {
                    assert(d[m] == x);
                    assert(d.contains(x));
                }
            } else {
                assert(x == s.last());
                if s.drop_last().contains(s.last()) {
                    assert(dr.contains(x));
                    let m = choose|m: int| 0 <= m < dr.len() && dr[m] == x;
                    assert(d[m] == x);
                    assert(d.contains(x));
                } else {
                    assert(d.last() == x);
                    assert(d.contains(x)) by {
                        assert(d[d.len() - 1] == x);
                    }
                }
            }
        }
        assert forall|i: int, j: int| 0 <= i < j < d.len() implies d[i] != d[j] by {
            if !s.drop_last().contains(s.last()) {
                if j < d.len() - 1 {
                    assert(d[i] == dr[i] && d[j] == dr[j]);
                } else {
                    assert(d[j] == s.last());
                    assert(d[i] == dr[i]);
                    assert(dr.contains(dr[i])) by {
                        assert(dr[i] == d[i]);
                    }
                    assert(s.drop_last().contains(dr[i]));
                }
            } else {
                assert(d[i] == dr[i] && d[j] == dr[j]);
            }
        }
    }
}

/// Whether a prefix of the vector holds a value.
pub fn contains_prefix(v: &Vec<u64>, upto: usize, x: u64) -> (r: bool)
    requires
        upto <= v.len(),
    ensures
        r == v@.take(upto as int).contains(x),
{
    let mut i: usize = 0;
    while i < upto
        invariant
            upto <= v@.len(),
            0 <= i <= upto,
            forall|j: int| 0 <= j < i ==> v@[j] != x,
        decreases upto - i,
    {
        if v[i] == x {
            proof {
                assert(v@.take(upto as int)[i as int] == x);
            }
            return true;
        }
        i = i + 1;
    }
    proof {
        if v@.take(upto as int).contains(x) {
            let j = choose|j: int| 0 <= j < upto && v@.take(upto as int)[j] == x;
            assert(v@[j] == x);
        }
    }
    false
}

/// Whether the vector holds a value.
pub fn contains_u64(v: &Vec<u64>, x: u64) -> (r: bool)
    ensures
        r == v@.contains(x),
{
    proof {
        assert(v@.take(v@.len() as int) =~= v@);
    }
    contains_prefix(v, v.len(), x)
}

/// Drop every later duplicate, keeping first occurrences in order.
pub fn dedup_first_vec(v: &Vec<u64>) -> (r: Vec<u64>)
    ensures
        r@ == dedup_first(v@),
{
    let mut out: Vec<u64> = Vec::new();
    let n = v.len();
    let mut i: usize = 0;
    proof {
        assert(v@.take(0) =~= Seq::<u64>::empty());
    }
    while i < n
        invariant
            n == v@.len(),
            0 <= i <= n,
            out@ == dedup_first(v@.take(i as int)),
        decreases n - i,
    {
        let x = v[i];
        let seen = contains_prefix(v, i, x);
        proof {
            assert(v@.take(i + 1).drop_last() =~= v@.take(i as int));
            assert(v@.take(i + 1).last() == x);
        }
        if !seen {
            out.push(x);
        }
        i = i + 1;
    }
    proof {
        assert(v@.take(n as int) =~= v@);
    }
    out
}

/// The ascending ordering of machine words.
pub open spec fn u64_leq() -> spec_fn(u64, u64) -> bool {
    |a: u64, b: u64| a <= b
}

/// The ascending sort of a sequence.
pub open spec fn sort_ascending(s: Seq<u64>) -> Seq<u64> {
    s.sort_by(u64_leq())
}

pub proof fn lemma_u64_leq_total()
    ensures
        total_ordering(u64_leq()),
{
}

pub proof fn lemma_sort_ascending_ensures(s: Seq<u64>)
    ensures
        sort_ascending(s).to_multiset() == s.to_multiset(),
        sorted_by(sort_ascending(s), u64_leq()),
        sorted_ascending(sort_ascending(s)),
        sort_ascending(s).len() == s.len(),
{
    lemma_u64_leq_total();
    s.lemma_sort_by_ensures(u64_leq());
    let r = sort_ascending(s);
    assert forall|i: int, j: int| 0 <= i <= j < r.len() implies r[i] <= r[j] by {
        if i < j {
            assert(u64_leq()(r[i], r[j]));
        }
    }
    broadcast use vstd::seq_lib::group_to_multiset_ensures;

    assert(r.len() == r.to_multiset().len());
    assert(s.len() == s.to_multiset().len());
}

/// Sort words ascending.  The result is exactly the mathematical sort of
/// the input: the same multiset of values, in non-decreasing order.
pub fn sort_u64(v: Vec<u64>) -> (r: Vec<u64>)
    ensures
        r@ == sort_ascending(v@),
{
    broadcast use vstd::seq_lib::group_to_multiset_ensures;

    let mut src = v;
    let mut out: Vec<u64> = Vec::new();
    proof {
        assert(out@.to_multiset().add(src@.to_multiset()) =~= v@.to_multiset());
    }
    while src.len() > 0
        invariant
            out@.to_multiset().add(src@.to_multiset()) == v@.to_multiset(),
            sorted_ascending(out@),
            forall|i: int|
                0 <= i < src@.len() && out@.len() > 0 ==> out@.last() <= #[trigger] src@[i],
        decreases src.len(),
    {
        let ghost old_src = src@;
        let ghost old_out = out@;
        let mut j: usize = 0;
        let mut k: usize = 1;
        while k < src.len()
            invariant
                src@.len() > 0,
                0 <= j < k <= src@.len(),
                forall|i: int| 0 <= i < k ==> src@[j as int] <= #[trigger] src@[i],
            decreases src.len() - k,
        {
            if src[k] < src[j] {
                j = k;
            }
            k = k + 1;
        }
        let x = src.remove(j);
        out.push(x);
        proof {
            broadcast use vstd::seq_lib::group_to_multiset_ensures;
            broadcast use vstd::multiset::group_multiset_axioms;

            assert(old_src.remove(j as int).to_multiset() =~= old_src.to_multiset().remove(x));
            assert(old_out.push(x).to_multiset() =~= old_out.to_multiset().insert(x));
            assert(out@.to_multiset().add(src@.to_multiset()) =~= v@.to_multiset());
            assert(forall|i: int|
                0 <= i < src@.len() ==> x <= #[trigger] src@[i]) by {
                assert(forall|i: int|
                    0 <= i < src@.len() ==> src@[i] == old_src.remove(j as int)[i]);
                assert(forall|i: int|
                    0 <= i < src@.len() ==> (i < j ==> old_src.remove(j as int)[i] == old_src[i]));
                assert(forall|i: int|
                    0 <= i < src@.len() ==> (i >= j ==> old_src.remove(j as int)[i] == old_src[i
                        + 1]));
            }
            assert(sorted_ascending(out@)) by {
                assert(forall|i: int| 0 <= i < old_out.len() ==> out@[i] == old_out[i]);
                assert(out@.last() == x);
                if old_out.len() > 0 {
                    assert(old_out.last() <= old_src[j as int]);
                }
            }
        }
    }
    proof {
        broadcast use vstd::seq_lib::group_to_multiset_ensures;
        broadcast use vstd::multiset::group_multiset_axioms;

        lemma_sort_ascending_ensures(v@);
        assert(src@.to_multiset() =~= Multiset::<u64>::empty());
        assert(out@.to_multiset() =~= v@.to_multiset());
        lemma_u64_leq_total();
        assert(sorted_by(out@, u64_leq())) by {
            assert(forall|i: int, j: int|
                0 <= i < j < out@.len() ==> u64_leq()(#[trigger] out@[i], #[trigger] out@[j]));
        }
        lemma_sorted_unique(out@, sort_ascending(v@), u64_leq());
    }
    out
}

/// The least element of a non-empty sequence of timestamps.
pub open spec fn seq_min_i64(s: Seq<i64>) -> i64
    decreases s.len(),
{
    if s.len() <= 1 {
        s[0]
    } else {
        let m = seq_min_i64(s.drop_last());
        if s.last() < m {
            s.last()
        } else {
            m
        }
    }
}

/// The greatest element of a non-empty sequence of timestamps.
pub open spec fn seq_max_i64(s: Seq<i64>) -> i64
    decreases s.len(),
{
    if s.len() <= 1 {
        s[0]
    } else {
        let m = seq_max_i64(s.drop_last());
        if s.last() > m {
            s.last()
        } else {
            m
        }
    }
}

/// Insert a new value into a strictly-increasing vector, keeping it
/// strictly increasing.
pub fn sorted_insert(v: &mut Vec<u64>, x: u64)
    requires
        strictly_increasing(old(v)@),
        !old(v)@.contains(x),
    ensures
        strictly_increasing(final(v)@),
        final(v)@.len() == old(v)@.len() + 1,
        forall|y: u64| final(v)@.contains(y) <==> (old(v)@.contains(y) || y == x),
        final(v)@.to_set() == old(v)@.to_set().insert(x),
{
    let n = v.len();
    let mut j: usize = 0;
    while j < n && v[j] < x
        invariant
            n == v@.len(),
            0 <= j <= n,
            forall|l: int| 0 <= l < j ==> v@[l] < x,
        decreases n - j,
    {
        j = j + 1;
    }
    proof {
        if j < v@.len() {
            assert(v@[j as int] != x) by {
                if v@[j as int] == x {
                    assert(v@.contains(x)) by {
                        assert(v@[j as int] == x);
                    }
                }
            }
            assert(v@[j as int] > x);
        }
    }
    let ghost oldv = v@;
    v.insert(j, x);
    proof {
        assert(v@ =~= oldv.take(j as int) + seq![x] + oldv.skip(j as int));
        assert forall|a: int, b: int| 0 <= a < b < v@.len() implies v@[a] < v@[b] by {
            assert(forall|l: int| 0 <= l < j ==> v@[l] == oldv[l]);
            assert(v@[j as int] == x);
            assert(forall|l: int| j < l < v@.len() ==> v@[l] == oldv[l - 1]);
            assert(forall|l: int| j <= l < oldv.len() ==> oldv[l] > x) by {
                assert forall|l: int| j <= l < oldv.len() implies oldv[l] > x by {
                    assert(oldv[j as int] > x);
                }
            }
        }
        assert forall|y: u64| v@.contains(y) <==> (oldv.contains(y) || y == x) by {
            if v@.contains(y) {
                let l = choose|l: int| 0 <= l < v@.len() && v@[l] == y;
                if l < j {
                    assert(oldv[l] == y);
                    assert(oldv.contains(y));
                } else if l == j {
                } else {
                    assert(oldv[l - 1] == y);
                    assert(oldv.contains(y));
                }
            }
            if oldv.contains(y) {
                let l = choose|l: int| 0 <= l < oldv.len() && oldv[l] == y;
                if l < j {
                    assert(v@[l] == y);
                    assert(v@.contains(y));
                } else {
                    assert(v@[l + 1] == y);
                    assert(v@.contains(y));
                }
            }
            if y == x {
                assert(v@[j as int] == y);
                assert(v@.contains(y));
            }
        }
        assert(v@.to_set() =~= oldv.to_set().insert(x));
    }
}

/// Two strictly-increasing sequences with the same members are equal.
pub proof fn lemma_increasing_unique(a: Seq<u64>, b: Seq<u64>)
    requires
        strictly_increasing(a),
        strictly_increasing(b),
        forall|x: u64| a.contains(x) <==> b.contains(x),
    ensures
        a == b,
    decreases a.len(),
{
    if a.len() == 0 {
        if b.len() > 0 {
            assert(b.contains(b[0]));
            assert(a.contains(b[0]));
            let j = choose|j: int| 0 <= j < a.len() && a[j] == b[0];
            assert(false);
        }
        assert(a =~= b);
    } else if b.len() == 0 {
        assert(a.contains(a[0]));
        assert(b.contains(a[0]));
        let j = choose|j: int| 0 <= j < b.len() && b[j] == a[0];
        assert(false);
    } else {
        assert(a.contains(a[0]));
        assert(b.contains(b[0]));
        assert(b.contains(a[0]));
        assert(a.contains(b[0]));
        let ja = choose|j: int| 0 <= j < a.len() && a[j] == b[0];
        let jb = choose|j: int| 0 <= j < b.len() && b[j] == a[0];
        assert(a[0] <= a[ja]);
        assert(b[0] <= b[jb]);
        assert(a[0] == b[0]);
        let at = a.skip(1);
        let bt = b.skip(1);
        assert(strictly_increasing(at)) by {
            assert(forall|i: int, j: int|
                0 <= i < j < at.len() ==> at[i] == a[i + 1] && at[j] == a[j + 1]);
        }
        assert(strictly_increasing(bt)) by {
            assert(forall|i: int, j: int|
                0 <= i < j < bt.len() ==> bt[i] == b[i + 1] && bt[j] == b[j + 1]);
        }
        assert forall|x: u64| at.contains(x) <==> bt.contains(x) by {
            if at.contains(x) {
                let j = choose|j: int| 0 <= j < at.len() && at[j] == x;
                assert(a[j + 1] == x);
                assert(a.contains(x));
                assert(x > a[0]);
                assert(b.contains(x));
                let l = choose|l: int| 0 <= l < b.len() && b[l] == x;
                assert(l != 0);
                assert(bt[l - 1] == x);
                assert(bt.contains(x));
            }
            if bt.contains(x) {
                let j = choose|j: int| 0 <= j < bt.len() && bt[j] == x;
                assert(b[j + 1] == x);
                assert(b.contains(x));
                assert(x > b[0]);
                assert(a.contains(x));
                let l = choose|l: int| 0 <= l < a.len() && a[l] == x;
                assert(l != 0);
                assert(at[l - 1] == x);
                assert(at.contains(x));
            }
        }
        lemma_increasing_unique(at, bt);
        assert forall|i: int| 0 <= i < a.len() implies a[i] == b[i] by {
            if i > 0 {
                assert(at[i - 1] == a[i]);
                assert(bt[i - 1] == b[i]);
            }
        }
        assert(a =~= b);
    }
}

/// The bounds of every element of a non-empty timestamp sequence.
pub proof fn lemma_minmax_bounds(s: Seq<i64>)
    requires
        s.len() > 0,
    ensures
        forall|i: int| 0 <= i < s.len() ==> seq_min_i64(s) <= #[trigger] s[i] <= seq_max_i64(s),
        seq_min_i64(s) <= seq_max_i64(s),
    decreases s.len(),
{
    if s.len() > 1 {
        lemma_minmax_bounds(s.drop_last());
        assert forall|i: int| 0 <= i < s.len() implies seq_min_i64(s) <= #[trigger] s[i]
            <= seq_max_i64(s) by {
            if i < s.len() - 1 {
                assert(s.drop_last()[i] == s[i]);
            }
        }
    }
}

/// The least and greatest element of a non-empty timestamp vector.
pub fn min_max_i64(v: &Vec<i64>) -> (r: (i64, i64))
    requires
        v@.len() > 0,
    ensures
        r.0 == seq_min_i64(v@),
        r.1 == seq_max_i64(v@),
{
    let mut mn = v[0];
    let mut mx = v[0];
    let n = v.len();
    let mut i: usize = 1;
    proof {
        assert(v@.take(1).len() == 1);
        assert(v@.take(1)[0] == v@[0]);
    }
    while i < n
        invariant
            n == v@.len(),
            1 <= i <= n,
            mn == seq_min_i64(v@.take(i as int)),
            mx == seq_max_i64(v@.take(i as int)),
        decreases n - i,
    {
        proof {
            assert(v@.take(i + 1).drop_last() =~= v@.take(i as int));
            assert(v@.take(i + 1).last() == v@[i as int]);
            assert(v@.take(i + 1).len() == i + 1);
        }
        if v[i] < mn {
            mn = v[i];
        }
        if v[i] > mx {
            mx = v[i];
        }
        i = i + 1;
    }
    proof {
        assert(v@.take(n as int) =~= v@);
    }
    (mn, mx)
}

/// Copy a word vector.
pub fn copy_vec_u64(v: &Vec<u64>) -> (r: Vec<u64>)
    ensures
        r@ == v@,
{
    let mut out: Vec<u64> = Vec::new();
    let n = v.len();
    let mut i: usize = 0;
    while i < n
        invariant
            n == v@.len(),
            0 <= i <= n,
            out@ == v@.take(i as int),
        decreases n - i,
    {
        out.push(v[i]);
        proof {
            assert(out@ =~= v@.take(i + 1));
        }
        i = i + 1;
    }
    proof {
        assert(v@.take(n as int) =~= v@);
    }
    out
}

} // verus!
