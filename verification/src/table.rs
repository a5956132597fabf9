//! Derived tables: sorted key/value enumerations with an exact codec.
//!
//! A table maps 64-bit entity ids to record values; its entries are kept
//! strictly sorted by key.  `encode` serializes the enumeration as a word
//! stream and `decode` accepts exactly the streams that encode a
//! well-formed table, so a persisted table reloads identical to the one
//! that was computed.

use vstd::prelude::*;
use crate::codec::Record;

verus! {

/// A derived table: a strictly-sorted enumeration of `(key, value)` records.
pub struct Table<V> {
    entries: Vec<(u64, V)>,
}

/// Every value of the enumeration is a valid record view.
pub open spec fn tvalid<V: Record>(tv: Seq<(u64, V::RV)>) -> bool {
    forall|i: int| 0 <= i < tv.len() ==> V::rvalid(#[trigger] tv[i].1)
}

/// A well-formed table view: strictly increasing keys, valid values.
pub open spec fn twf<V: Record>(tv: Seq<(u64, V::RV)>) -> bool {
    &&& forall|i: int, j: int| 0 <= i < j < tv.len() ==> tv[i].0 < tv[j].0
    &&& tvalid::<V>(tv)
}

/// The words that encode a table view: each record's key and value in turn.
pub open spec fn tenc<V: Record>(tv: Seq<(u64, V::RV)>) -> Seq<u64>
    decreases tv.len(),
{
    if tv.len() == 0 {
        Seq::empty()
    } else {
        seq![tv[0].0] + V::renc(tv[0].1) + tenc::<V>(tv.skip(1))
    }
}

/// The value a table view associates with a key.
pub open spec fn tlookup<V: Record>(tv: Seq<(u64, V::RV)>, k: u64) -> Option<V::RV>
    decreases tv.len(),
{
    if tv.len() == 0 {
        None
    } else if tv[0].0 == k {
        Some(tv[0].1)
    } else {
        tlookup::<V>(tv.skip(1), k)
    }
}

/// What a word stream decodes to: the unique well-formed table view that
/// encodes it, if one exists.
pub open spec fn spec_decode<V: Record>(words: Seq<u64>) -> Option<Seq<(u64, V::RV)>> {
    if exists|tv: Seq<(u64, V::RV)>| twf::<V>(tv) && tenc::<V>(tv) == words {
        Some(choose|tv: Seq<(u64, V::RV)>| twf::<V>(tv) && tenc::<V>(tv) == words)
    } else {
        None
    }
}

pub proof fn lemma_tenc_push<V: Record>(tv: Seq<(u64, V::RV)>, k: u64, v: V::RV)
    ensures
        tenc::<V>(tv.push((k, v))) == tenc::<V>(tv) + seq![k] + V::renc(v),
    decreases tv.len(),
{
    if tv.len() == 0 {
        assert(tv.push((k, v))[0] == (k, v));
        assert(tv.push((k, v)).skip(1) =~= Seq::<(u64, V::RV)>::empty());
        assert(tenc::<V>(tv.push((k, v))) == seq![k] + V::renc(v) + tenc::<V>(
            Seq::<(u64, V::RV)>::empty(),
        ));
        assert(tenc::<V>(tv.push((k, v))) =~= tenc::<V>(tv) + seq![k] + V::renc(v));
    } else {
        assert(tv.push((k, v))[0] == tv[0]);
        assert(tv.push((k, v)).skip(1) =~= tv.skip(1).push((k, v)));
        lemma_tenc_push::<V>(tv.skip(1), k, v);
        assert(tenc::<V>(tv.push((k, v))) == seq![tv[0].0] + V::renc(tv[0].1) + tenc::<V>(
            tv.skip(1).push((k, v)),
        ));
        assert(tenc::<V>(tv) == seq![tv[0].0] + V::renc(tv[0].1) + tenc::<V>(tv.skip(1)));
        assert(tenc::<V>(tv.push((k, v))) =~= tenc::<V>(tv) + seq![k] + V::renc(v));
    }
}

pub proof fn lemma_tenc_nonempty<V: Record>(tv: Seq<(u64, V::RV)>)
    requires
        tvalid::<V>(tv),
        tv.len() > 0,
    ensures
        tenc::<V>(tv).len() >= 2,
{
    V::lemma_renc_nonempty(tv[0].1);
}

/// A word stream determines the table it encodes: the encoding of valid
/// views is injective.
pub proof fn lemma_tenc_injective<V: Record>(a: Seq<(u64, V::RV)>, b: Seq<(u64, V::RV)>)
    requires
        tvalid::<V>(a),
        tvalid::<V>(b),
        tenc::<V>(a) == tenc::<V>(b),
    ensures
        a == b,
    decreases a.len(),
{
    if a.len() == 0 || b.len() == 0 {
        if a.len() > 0 {
            lemma_tenc_nonempty::<V>(a);
            assert(tenc::<V>(b).len() == 0);
            assert(false);
        }
        if b.len() > 0 {
            lemma_tenc_nonempty::<V>(b);
            assert(false);
        }
        assert(a =~= b);
    } else {
        let ea = tenc::<V>(a);
        let eb = tenc::<V>(b);
        assert(ea == seq![a[0].0] + V::renc(a[0].1) + tenc::<V>(a.skip(1)));
        assert(eb == seq![b[0].0] + V::renc(b[0].1) + tenc::<V>(b.skip(1)));
        assert(ea[0] == a[0].0 && eb[0] == b[0].0);
        assert(a[0].0 == b[0].0);
        assert(V::renc(a[0].1) + tenc::<V>(a.skip(1)) =~= ea.skip(1));
        assert(V::renc(b[0].1) + tenc::<V>(b.skip(1)) =~= eb.skip(1));
        V::lemma_renc_prefix_free(a[0].1, b[0].1, tenc::<V>(a.skip(1)), tenc::<V>(b.skip(1)));
        assert(tvalid::<V>(a.skip(1)));
        assert(tvalid::<V>(b.skip(1)));
        lemma_tenc_injective::<V>(a.skip(1), b.skip(1));
        assert forall|i: int| 0 <= i < a.len() implies a[i] == b[i] by {
            if i > 0 {
                assert(a.skip(1)[i - 1] == a[i]);
                assert(b.skip(1)[i - 1] == b[i]);
            }
        }
        assert(a =~= b);
    }
}

/// Persisting a table and reloading it yields exactly the same key set and
/// values: decoding is a left inverse of encoding on well-formed tables.
pub proof fn lemma_cache_round_trip<V: Record>(tv: Seq<(u64, V::RV)>)
    requires
        twf::<V>(tv),
    ensures
        spec_decode::<V>(tenc::<V>(tv)) == Some(tv),
{
    let words = tenc::<V>(tv);
    assert(twf::<V>(tv) && tenc::<V>(tv) == words);
    let tv2 = choose|t: Seq<(u64, V::RV)>| twf::<V>(t) && tenc::<V>(t) == words;
    lemma_tenc_injective::<V>(tv2, tv);
}

impl<V: Record> Table<V> {
    /// The mathematical content of the table: its records, in order, at
    /// the record-view level.
    pub closed spec fn tview(self) -> Seq<(u64, V::RV)> {
        Seq::new(self.entries@.len(), |i: int| (self.entries@[i].0, self.entries@[i].1.rv()))
    }

    pub open spec fn wf(self) -> bool {
        twf::<V>(self.tview())
    }

    pub fn new() -> (r: Table<V>)
        ensures
            r.tview() =~= Seq::<(u64, V::RV)>::empty(),
            r.wf(),
    {
        let t = Table { entries: Vec::new() };
        proof {
            assert(t.tview() =~= Seq::<(u64, V::RV)>::empty());
        }
        t
    }

    pub fn len(&self) -> (n: usize)
        ensures
            n == self.tview().len(),
    {
        self.entries.len()
    }

    pub fn key_at(&self, i: usize) -> (k: u64)
        requires
            i < self.tview().len(),
        ensures
            k == self.tview()[i as int].0,
    {
        self.entries[i].0
    }

    pub fn value_at(&self, i: usize) -> (v: &V)
        requires
            i < self.tview().len(),
        ensures
            v.rv() == self.tview()[i as int].1,
    {
        &self.entries[i].1
    }

    /// Append a record under a key larger than every key present.
    pub fn append(&mut self, k: u64, v: V)
        requires
            old(self).wf(),
            old(self).tview().len() == 0 || old(self).tview().last().0 < k,
        ensures
            final(self).tview() == old(self).tview().push((k, v.rv())),
            final(self).wf(),
    {
        v.witness_valid();
        self.entries.push((k, v));
        proof {
            assert(self.tview() =~= old(self).tview().push((k, v.rv())));
            let tv = self.tview();
            assert forall|i: int, j: int| 0 <= i < j < tv.len() implies tv[i].0 < tv[j].0 by {
                if j < tv.len() - 1 {
                } else {
                    assert(tv[j] == (k, v.rv()));
                    if i < tv.len() - 1 {
                        assert(old(self).tview()[i] == tv[i]);
                        assert(old(self).tview().last().0 < k);
                    }
                }
            }
        }
    }

    /// Look a key up; absent keys yield no value, never an error.
    pub fn get(&self, k: u64) -> (r: Option<&V>)
        ensures
            r matches Some(v) ==> tlookup::<V>(self.tview(), k) == Some(v.rv()),
            r is None ==> tlookup::<V>(self.tview(), k) is None,
    {
        let n = self.entries.len();
        let mut i: usize = 0;
        proof {
            assert(self.tview().skip(0) =~= self.tview());
        }
        while i < n
            invariant
                n == self.tview().len(),
                0 <= i <= n,
                tlookup::<V>(self.tview(), k) == tlookup::<V>(self.tview().skip(i as int), k),
                forall|j: int| 0 <= j < i ==> self.tview()[j].0 != k,
            decreases n - i,
        {
            proof {
                assert(self.tview().skip(i as int)[0] == self.tview()[i as int]);
                assert(self.tview().skip(i as int).skip(1) =~= self.tview().skip(i + 1));
            }
            if self.entries[i].0 == k {
                return Some(&self.entries[i].1);
            }
            i = i + 1;
        }
        proof {
            assert(self.tview().skip(n as int) =~= Seq::<(u64, V::RV)>::empty());
        }
        None
    }

    /// Serialize the enumeration to its word stream.
    pub fn encode(&self) -> (r: Vec<u64>)
        ensures
            r@ == tenc::<V>(self.tview()),
    {
        let mut out: Vec<u64> = Vec::new();
        let n = self.entries.len();
        let mut i: usize = 0;
        proof {
            assert(self.tview().take(0) =~= Seq::<(u64, V::RV)>::empty());
        }
        while i < n
            invariant
                n == self.tview().len(),
                0 <= i <= n,
                out@ == tenc::<V>(self.tview().take(i as int)),
            decreases n - i,
        {
            let ghost pre = out@;
            out.push(self.entries[i].0);
            let e: &V = &self.entries[i].1;
            e.write(&mut out);
            proof {
                let tv = self.tview();
                assert(tv.take(i + 1) =~= tv.take(i as int).push(tv[i as int]));
                lemma_tenc_push::<V>(tv.take(i as int), tv[i as int].0, tv[i as int].1);
                assert(out@ =~= tenc::<V>(tv.take(i as int)) + seq![tv[i as int].0] + V::renc(
                    tv[i as int].1,
                ));
            }
            i = i + 1;
        }
        proof {
            assert(self.tview().take(n as int) =~= self.tview());
        }
        out
    }

    /// Parse a word stream.  Returns the table whose encoding the stream
    /// is, exactly when the stream is such an encoding; a malformed stream
    /// yields no table (the caller treats it as a cache miss).
    pub fn decode(data: &Vec<u64>) -> (r: Option<Table<V>>)
        ensures
            r matches Some(t) ==> t.wf() && tenc::<V>(t.tview()) == data@ && spec_decode::<V>(data@)
                == Some(t.tview()),
            r is None ==> spec_decode::<V>(data@) is None,
    {
        let mut t: Table<V> = Table::new();
        let mut pos: usize = 0;
        let mut have_last: bool = false;
        let mut last: u64 = 0;
        proof {
            assert(data@.take(0) =~= Seq::<u64>::empty());
            assert(tenc::<V>(t.tview()) =~= Seq::<u64>::empty());
            assert forall|tv: Seq<(u64, V::RV)>|
                twf::<V>(tv) && tenc::<V>(tv) == data@ implies t.tview().len() <= tv.len()
                && tv.take(t.tview().len() as int) == t.tview() && data@.skip(0)
                == tenc::<V>(tv.skip(t.tview().len() as int)) by {
                assert(tv.take(0) =~= t.tview());
                assert(tv.skip(0) =~= tv);
            }
        }
        while pos < data.len()
            invariant
                pos <= data.len(),
                t.wf(),
                tenc::<V>(t.tview()) == data@.take(pos as int),
                have_last <==> t.tview().len() > 0,
                have_last ==> t.tview().last().0 == last,
                forall|tv: Seq<(u64, V::RV)>|
                    twf::<V>(tv) && tenc::<V>(tv) == data@ ==> t.tview().len() <= tv.len()
                        && tv.take(t.tview().len() as int) == t.tview() && data@.skip(pos as int)
                        == tenc::<V>(tv.skip(t.tview().len() as int)),
            decreases data.len() - pos,
        {
            let ghost m = t.tview().len() as int;
            let k = data[pos];
            proof {
                assert forall|tv: Seq<(u64, V::RV)>|
                    twf::<V>(tv) && tenc::<V>(tv) == data@ implies tv.len() > m && tv[m].0 == k
                    && data@.skip(pos + 1) == V::renc(tv[m].1) + tenc::<V>(tv.skip(m + 1)) by {
                    if tv.len() == m {
                        assert(tv.skip(m) =~= Seq::<(u64, V::RV)>::empty());
                        assert(data@.skip(pos as int).len() == 0);
                    }
                    assert(tv.skip(m)[0] == tv[m]);
                    assert(tv.skip(m).skip(1) =~= tv.skip(m + 1));
                    assert(tenc::<V>(tv.skip(m)) == seq![tv[m].0] + V::renc(tv[m].1) + tenc::<V>(
                        tv.skip(m + 1),
                    ));
                    assert(data@.skip(pos as int)[0] == data@[pos as int]);
                    assert(data@.skip(pos + 1) =~= data@.skip(pos as int).skip(1));
                    assert(data@.skip(pos + 1) =~= V::renc(tv[m].1) + tenc::<V>(tv.skip(m + 1)));
                }
            }
            if have_last && k <= last {
                proof {
                    assert forall|tv: Seq<(u64, V::RV)>| twf::<V>(tv) implies tenc::<V>(tv)
                        != data@ by {
                        if tenc::<V>(tv) == data@ {
                            assert(tv[m].0 == k);
                            assert(tv[m - 1] == tv.take(m)[m - 1]);
                            assert(tv[m - 1].0 == last);
                            assert(tv[m - 1].0 < tv[m].0);
                        }
                    }
                }
                return None;
            }
            match V::read(data, pos + 1) {
                Some((v, newpos)) => {
                    proof {
                        assert(data@.skip(pos + 1) =~= data@.subrange(pos + 1, newpos as int)
                            + data@.skip(newpos as int));
                    }
                    let ghost old_t = t;
                    t.append(k, v);
                    have_last = true;
                    last = k;
                    proof {
                        lemma_tenc_push::<V>(old_t.tview(), k, v.rv());
                        assert(data@.take(newpos as int) =~= data@.take(pos as int) + seq![k]
                            + data@.subrange(pos + 1, newpos as int));
                        assert(tenc::<V>(t.tview()) == data@.take(newpos as int));
                        assert forall|tv: Seq<(u64, V::RV)>|
                            twf::<V>(tv) && tenc::<V>(tv) == data@ implies t.tview().len()
                            <= tv.len() && tv.take(t.tview().len() as int) == t.tview()
                            && data@.skip(newpos as int) == tenc::<V>(
                            tv.skip(t.tview().len() as int),
                        ) by {
                            assert(tv.len() > m && tv[m].0 == k && data@.skip(pos + 1) == V::renc(
                                tv[m].1,
                            ) + tenc::<V>(tv.skip(m + 1)));
                            assert(V::renc(v.rv()) + data@.skip(newpos as int) =~= V::renc(tv[m].1)
                                + tenc::<V>(tv.skip(m + 1)));
                            assert(V::rvalid(tv[m].1));
                            V::lemma_renc_prefix_free(
                                v.rv(),
                                tv[m].1,
                                data@.skip(newpos as int),
                                tenc::<V>(tv.skip(m + 1)),
                            );
                            assert(tv.take(m + 1) =~= tv.take(m).push(tv[m]));
                            assert(t.tview() =~= tv.take(m + 1));
                        }
                    }
                    pos = newpos;
                },
                None => {
                    proof {
                        assert forall|tv: Seq<(u64, V::RV)>| twf::<V>(tv) implies tenc::<V>(tv)
                            != data@ by {
                            if tenc::<V>(tv) == data@ {
                                assert(data@.skip(pos + 1) == V::renc(tv[m].1) + tenc::<V>(
                                    tv.skip(m + 1),
                                ));
                                assert(V::rvalid(tv[m].1));
                            }
                        }
                    }
                    return None;
                },
            }
        }
        proof {
            assert(data@.take(pos as int) =~= data@);
            lemma_cache_round_trip::<V>(t.tview());
        }
        Some(t)
    }
}

} // verus!
