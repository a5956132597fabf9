//! The word-level cache codec.
//!
//! A derived table is persisted as a stream of 64-bit words: each record is
//! encoded by a prefix-free scheme, so the stream determines the records
//! exactly and a persisted table reloads byte-for-byte identical to the
//! table that was computed.

use vstd::prelude::*;
use vstd::string::StrSliceExecFns;

verus! {

/// Relies on char::from_u32 of std: it returns the character with the
/// given code point exactly when the value is a Unicode scalar (not a
/// surrogate and at most 0x10FFFF).
pub assume_specification[ char::from_u32 ](v: u32) -> (r: Option<char>)
    ensures
        r is Some <==> vstd::utf8::is_scalar(v),
        r matches Some(c) ==> c as u32 == v,
;

/// Relies on String::push of std: it appends the given character to the
/// end of the string.
pub assume_specification[ String::push ](s: &mut String, c: char)
    ensures
        final(s)@ == old(s)@.push(c),
;

/// A value that can live in a persisted derived table.
///
/// `RV` is the mathematical value the codec stores (plain integers and
/// sequences); `renc` gives its word encoding.  Encodings of valid values
/// are non-empty and prefix-free, which makes decoding unambiguous.
pub trait Record: Sized {
    /// The mathematical value that the cache format stores for this type.
    type RV;

    /// The view of this value that the encoding determines.
    spec fn rv(self) -> Self::RV;

    /// The views that can be encoded at all (sequence lengths must fit the
    /// machine's word size).
    spec fn rvalid(v: Self::RV) -> bool;

    /// The words that encode one value.
    spec fn renc(v: Self::RV) -> Seq<u64>;

    /// An encoding is never empty.
    proof fn lemma_renc_nonempty(v: Self::RV)
        requires
            Self::rvalid(v),
        ensures
            Self::renc(v).len() >= 1,
    ;

    /// Encodings are prefix-free: a word stream determines the value and
    /// the remainder of the stream.
    proof fn lemma_renc_prefix_free(v1: Self::RV, v2: Self::RV, r1: Seq<u64>, r2: Seq<u64>)
        requires
            Self::rvalid(v1),
            Self::rvalid(v2),
            Self::renc(v1) + r1 == Self::renc(v2) + r2,
        ensures
            v1 == v2,
            r1 == r2,
    ;

    /// Every value an executable program holds has a valid view; this
    /// establishes that fact (for strings and vectors it measures the
    /// length, which always fits the machine).
    fn witness_valid(&self)
        ensures
            Self::rvalid(self.rv()),
    ;

    /// Append this value's encoding to `out`.
    fn write(&self, out: &mut Vec<u64>)
        ensures
            final(out)@ == old(out)@ + Self::renc(self.rv()),
    ;

    /// Read one value from `data` starting at `pos`.  Succeeds exactly when
    /// the stream at `pos` starts with the encoding of some valid value.
    fn read(data: &Vec<u64>, pos: usize) -> (r: Option<(Self, usize)>)
        requires
            pos <= data.len(),
        ensures
            r matches Some(vp) ==> {
                &&& pos < vp.1 <= data.len()
                &&& Self::rvalid(vp.0.rv())
                &&& data@.subrange(pos as int, vp.1 as int) == Self::renc(vp.0.rv())
            },
            r is None ==> (forall|v: Self::RV, rest: Seq<u64>|
                Self::rvalid(v) ==> data@.skip(pos as int) != Self::renc(v) + rest),
    ;
}

impl Record for u64 {
    type RV = u64;

    open spec fn rv(self) -> u64 {
        self
    }

    open spec fn rvalid(v: u64) -> bool {
        true
    }

    open spec fn renc(v: u64) -> Seq<u64> {
        seq![v]
    }

    proof fn lemma_renc_nonempty(v: u64) {
    }

    proof fn lemma_renc_prefix_free(v1: u64, v2: u64, r1: Seq<u64>, r2: Seq<u64>) {
        assert((seq![v1] + r1)[0] == v1);
        assert((seq![v2] + r2)[0] == v2);
        assert(r1 =~= (seq![v1] + r1).skip(1));
        assert(r2 =~= (seq![v2] + r2).skip(1));
    }

    fn witness_valid(&self) {
    }

    fn write(&self, out: &mut Vec<u64>) {
        out.push(*self);
        proof {
            assert(out@ =~= old(out)@ + seq![*self]);
        }
    }

    fn read(data: &Vec<u64>, pos: usize) -> (r: Option<(Self, usize)>) {
        if pos < data.len() {
            let v = data[pos];
            proof {
                assert(data@.subrange(pos as int, pos + 1) =~= seq![v]);
            }
            Some((v, pos + 1))
        } else {
            proof {
                assert forall|v: u64, rest: Seq<u64>| data@.skip(pos as int) != Self::renc(v)
                    + rest by {
                    assert((Self::renc(v) + rest).len() >= 1);
                    assert(data@.skip(pos as int).len() == 0);
                }
            }
            None
        }
    }
}

/// The word that encodes a timestamp's sign.
pub open spec fn ts_sign(v: i64) -> u64 {
    if v >= 0 {
        0
    } else {
        1
    }
}

/// The word that encodes a timestamp's magnitude: the value itself when it
/// is non-negative, otherwise `-1 - v`, so that every `i64` fits.
pub open spec fn ts_mag(v: i64) -> u64 {
    if v >= 0 {
        v as u64
    } else {
        (-1 - v) as u64
    }
}

impl Record for i64 {
    type RV = i64;

    open spec fn rv(self) -> i64 {
        self
    }

    open spec fn rvalid(v: i64) -> bool {
        true
    }

    open spec fn renc(v: i64) -> Seq<u64> {
        seq![ts_sign(v), ts_mag(v)]
    }

    proof fn lemma_renc_nonempty(v: i64) {
    }

    proof fn lemma_renc_prefix_free(v1: i64, v2: i64, r1: Seq<u64>, r2: Seq<u64>) {
        let e1 = Self::renc(v1) + r1;
        let e2 = Self::renc(v2) + r2;
        assert(e1[0] == ts_sign(v1) && e1[1] == ts_mag(v1));
        assert(e2[0] == ts_sign(v2) && e2[1] == ts_mag(v2));
        assert(v1 == v2);
        assert(r1 =~= e1.skip(2));
        assert(r2 =~= e2.skip(2));
    }

    fn witness_valid(&self) {
    }

    fn write(&self, out: &mut Vec<u64>) {
        let s: u64 = if *self >= 0 {
            0
        } else {
            1
        };
        let m: u64 = if *self >= 0 {
            *self as u64
        } else {
            (-1i64 - *self) as u64
        };
        out.push(s);
        out.push(m);
        proof {
            assert(out@ =~= old(out)@ + seq![ts_sign(*self), ts_mag(*self)]);
        }
    }

    fn read(data: &Vec<u64>, pos: usize) -> (r: Option<(Self, usize)>) {
        if pos < data.len() && pos + 1 < data.len() {
            let s = data[pos];
            let m = data[pos + 1];
            if s == 0 && m <= 0x7fff_ffff_ffff_ffffu64 {
                let v = m as i64;
                proof {
                    assert(data@.subrange(pos as int, pos + 2) =~= seq![
                        ts_sign(v),
                        ts_mag(v),
                    ]);
                }
                Some((v, pos + 2))
            } else if s == 1 && m <= 0x7fff_ffff_ffff_ffffu64 {
                let v = -1i64 - (m as i64);
                proof {
                    assert(data@.subrange(pos as int, pos + 2) =~= seq![
                        ts_sign(v),
                        ts_mag(v),
                    ]);
                }
                Some((v, pos + 2))
            } else {
                proof {
                    assert forall|v: i64, rest: Seq<u64>| data@.skip(pos as int) != Self::renc(v)
                        + rest by {
                        let e = Self::renc(v) + rest;
                        if data@.skip(pos as int) == e {
                            assert(data@[pos as int] == e[0] && data@[pos + 1] == e[1]);
                            assert(s == ts_sign(v) && m == ts_mag(v));
                        }
                    }
                }
                None
            }
        } else {
            proof {
                assert forall|v: i64, rest: Seq<u64>| data@.skip(pos as int) != Self::renc(v)
                    + rest by {
                    assert((Self::renc(v) + rest).len() >= 2);
                    assert(data@.skip(pos as int).len() < 2);
                }
            }
            None
        }
    }
}

/// The character words of a string's encoding: each character's Unicode
/// scalar value as one word.
pub open spec fn char_words(s: Seq<char>) -> Seq<u64> {
    s.map(|i: int, c: char| (c as u32) as u64)
}

impl Record for String {
    type RV = Seq<char>;

    open spec fn rv(self) -> Seq<char> {
        self@
    }

    open spec fn rvalid(v: Seq<char>) -> bool {
        v.len() <= usize::MAX
    }

    open spec fn renc(v: Seq<char>) -> Seq<u64> {
        seq![v.len() as u64] + char_words(v)
    }

    proof fn lemma_renc_nonempty(v: Seq<char>) {
    }

    proof fn lemma_renc_prefix_free(v1: Seq<char>, v2: Seq<char>, r1: Seq<u64>, r2: Seq<u64>) {
        let e1 = Self::renc(v1) + r1;
        let e2 = Self::renc(v2) + r2;
        assert(e1[0] == v1.len() as u64);
        assert(e2[0] == v2.len() as u64);
        assert(v1.len() == v2.len());
        let n = v1.len() as int;
        assert forall|i: int| 0 <= i < n implies v1[i] == v2[i] by {
            assert(Self::renc(v1)[1 + i] == char_words(v1)[i]);
            assert(Self::renc(v2)[1 + i] == char_words(v2)[i]);
            assert(e1[1 + i] == Self::renc(v1)[1 + i]);
            assert(e2[1 + i] == Self::renc(v2)[1 + i]);
            assert((v1[i] as u32) as u64 == (v2[i] as u32) as u64);
            assert(v1[i] as u32 == v2[i] as u32);
            vstd::utf8::char_u32_cast(v1[i], v1[i] as u32);
            vstd::utf8::char_u32_cast(v2[i], v2[i] as u32);
        }
        assert(v1 =~= v2);
        assert(r1 =~= e1.skip(1 + n));
        assert(r2 =~= e2.skip(1 + n));
    }

    fn witness_valid(&self) {
        let n = self.as_str().unicode_len();
    }

    fn write(&self, out: &mut Vec<u64>) {
        let n = self.as_str().unicode_len();
        out.push(n as u64);
        let mut i: usize = 0;
        while i < n
            invariant
                n == self@.len(),
                0 <= i <= n,
                out@ == old(out)@ + seq![n as u64] + char_words(self@.take(i as int)),
            decreases n - i,
        {
            let c = self.as_str().get_char(i);
            out.push((c as u32) as u64);
            proof {
                assert(char_words(self@.take(i + 1)) =~= char_words(self@.take(i as int)).push(
                    (c as u32) as u64,
                ));
                assert(out@ =~= old(out)@ + seq![n as u64] + char_words(self@.take(i + 1)));
            }
            i = i + 1;
        }
        proof {
            assert(self@.take(n as int) =~= self@);
            assert(out@ =~= old(out)@ + Self::renc(self@));
        }
    }

    fn read(data: &Vec<u64>, pos: usize) -> (r: Option<(Self, usize)>) {
        if pos >= data.len() {
            proof {
                assert forall|v: Seq<char>, rest: Seq<u64>| Self::rvalid(v) implies data@.skip(
                    pos as int,
                ) != Self::renc(v) + rest by {
                    assert((Self::renc(v) + rest).len() >= 1);
                }
            }
            return None;
        }
        let nw = data[pos];
        if nw > usize::MAX as u64 || nw > (data.len() - pos - 1) as u64 {
            proof {
                assert forall|v: Seq<char>, rest: Seq<u64>| Self::rvalid(v) implies data@.skip(
                    pos as int,
                ) != Self::renc(v) + rest by {
                    if data@.skip(pos as int) == Self::renc(v) + rest {
                        assert(data@.skip(pos as int)[0] == (Self::renc(v) + rest)[0]);
                        assert(data@[pos as int] == v.len() as u64);
                        assert(nw == v.len() as u64);
                        assert(v.len() <= usize::MAX);
                        assert(nw == v.len());
                        assert((Self::renc(v) + rest).len() >= 1 + v.len());
                        assert(data@.skip(pos as int).len() == data@.len() - pos);
                    }
                }
            }
            return None;
        }
        let n = nw as usize;
        let mut s = String::new();
        let mut i: usize = 0;
        proof {
            assert forall|v: Seq<char>, rest: Seq<u64>|
                Self::rvalid(v) && data@.skip(pos as int) == Self::renc(v) + rest implies v.len()
                == n && s@ == v.take(0) by {
                assert(data@.skip(pos as int)[0] == (Self::renc(v) + rest)[0]);
                assert(data@[pos as int] == v.len() as u64);
                assert(v.len() == n);
                assert(s@ =~= v.take(0));
            }
        }
        while i < n
            invariant
                pos < data.len(),
                n <= data.len() - pos - 1,
                0 <= i <= n,
                s@.len() == i,
                nw == n as u64,
                data@[pos as int] == nw,
                char_words(s@) == data@.subrange(pos + 1, pos + 1 + i as int),
                forall|v: Seq<char>, rest: Seq<u64>|
                    Self::rvalid(v) && data@.skip(pos as int) == Self::renc(v) + rest ==> v.len()
                        == n && s@ == v.take(i as int),
            decreases n - i,
        {
            let w = data[pos + 1 + i];
            if w > 0x10_ffffu64 {
                proof {
                    assert forall|v: Seq<char>, rest: Seq<u64>| Self::rvalid(v) implies data@.skip(
                        pos as int,
                    ) != Self::renc(v) + rest by {
                        if data@.skip(pos as int) == Self::renc(v) + rest {
                            assert(data@.skip(pos as int)[1 + i] == (Self::renc(v) + rest)[1 + i]);
                            assert((Self::renc(v) + rest)[1 + i] == Self::renc(v)[1 + i]);
                            assert(Self::renc(v)[1 + i] == char_words(v)[i as int]);
                            assert(data@[pos + 1 + i] == (v[i as int] as u32) as u64);
                            vstd::utf8::char_is_scalar(v[i as int]);
                            assert(w == (v[i as int] as u32) as u64);
                        }
                    }
                }
                return None;
            }
            match char::from_u32(w as u32) {
                Some(c) => {
                    s.push(c);
                    proof {
                        assert(w <= 0x10_ffffu64);
                        assert((w as u32) as u64 == w);
                        assert((c as u32) as u64 == w);
                        assert(char_words(s@) =~= data@.subrange(pos + 1, pos + 1 + (i + 1)));
                        assert forall|v: Seq<char>, rest: Seq<u64>|
                            Self::rvalid(v) && data@.skip(pos as int) == Self::renc(v)
                                + rest implies v.len() == n && s@ == v.take(i + 1) by {
                            assert(data@.skip(pos as int)[1 + i] == (Self::renc(v) + rest)[1 + i]);
                            assert((Self::renc(v) + rest)[1 + i] == Self::renc(v)[1 + i]);
                            assert(Self::renc(v)[1 + i] == char_words(v)[i as int]);
                            assert(w == (v[i as int] as u32) as u64);
                            assert(c as u32 == v[i as int] as u32);
                            vstd::utf8::char_u32_cast(c, c as u32);
                            vstd::utf8::char_u32_cast(v[i as int], v[i as int] as u32);
                            assert(c == v[i as int]);
                            assert(s@ =~= v.take(i + 1));
                        }
                    }
                    i = i + 1;
                },
                None => {
                    proof {
                        assert forall|v: Seq<char>, rest: Seq<u64>| Self::rvalid(
                            v,
                        ) implies data@.skip(pos as int) != Self::renc(v) + rest by {
                            if data@.skip(pos as int) == Self::renc(v) + rest {
                                assert(data@.skip(pos as int)[1 + i] == (Self::renc(v) + rest)[1
                                    + i]);
                                assert((Self::renc(v) + rest)[1 + i] == Self::renc(v)[1 + i]);
                                assert(Self::renc(v)[1 + i] == char_words(v)[i as int]);
                                assert(data@[pos + 1 + i] == (v[i as int] as u32) as u64);
                                vstd::utf8::char_is_scalar(v[i as int]);
                                assert(w == (v[i as int] as u32) as u64);
                                assert(w as u32 == v[i as int] as u32);
                                assert(vstd::utf8::is_scalar(w as u32));
                            }
                        }
                    }
                    return None;
                },
            }
        }
        proof {
            assert(data@.subrange(pos as int, pos + 1 + n as int) =~= seq![nw] + char_words(s@));
            assert(Self::renc(s@) == seq![s@.len() as u64] + char_words(s@));
            assert(data@.subrange(pos as int, pos + 1 + n as int) =~= Self::renc(s@));
        }
        Some((s, pos + 1 + n))
    }
}

/// The concatenated encodings of a sequence of record views.
pub open spec fn renc_seq<R: Record>(s: Seq<R::RV>) -> Seq<u64>
    decreases s.len(),
{
    if s.len() == 0 {
        Seq::empty()
    } else {
        R::renc(s[0]) + renc_seq::<R>(s.skip(1))
    }
}

/// Every element of the sequence is a valid record view.
pub open spec fn rvalid_seq<R: Record>(s: Seq<R::RV>) -> bool {
    forall|i: int| 0 <= i < s.len() ==> R::rvalid(s[i])
}

pub proof fn lemma_renc_seq_push<R: Record>(s: Seq<R::RV>, v: R::RV)
    ensures
        renc_seq::<R>(s.push(v)) == renc_seq::<R>(s) + R::renc(v),
    decreases s.len(),
{
    if s.len() == 0 {
        assert(s.push(v)[0] == v);
        assert(s.push(v).skip(1) =~= Seq::<R::RV>::empty());
        assert(renc_seq::<R>(s.push(v)) == R::renc(v) + renc_seq::<R>(Seq::<R::RV>::empty()));
        assert(renc_seq::<R>(Seq::<R::RV>::empty()) =~= Seq::<u64>::empty());
        assert(s =~= Seq::<R::RV>::empty());
        assert(renc_seq::<R>(s.push(v)) =~= renc_seq::<R>(s) + R::renc(v));
    } else {
        assert(s.push(v)[0] == s[0]);
        assert(s.push(v).skip(1) =~= s.skip(1).push(v));
        lemma_renc_seq_push::<R>(s.skip(1), v);
        assert(renc_seq::<R>(s.push(v)) == R::renc(s[0]) + renc_seq::<R>(s.skip(1).push(v)));
        assert(renc_seq::<R>(s.skip(1).push(v)) == renc_seq::<R>(s.skip(1)) + R::renc(v));
        assert(renc_seq::<R>(s) == R::renc(s[0]) + renc_seq::<R>(s.skip(1)));
        assert(renc_seq::<R>(s.push(v)) =~= renc_seq::<R>(s) + R::renc(v));
    }
}

pub proof fn lemma_renc_seq_len<R: Record>(s: Seq<R::RV>)
    requires
        rvalid_seq::<R>(s),
    ensures
        renc_seq::<R>(s).len() >= s.len(),
    decreases s.len(),
{
    if s.len() > 0 {
        R::lemma_renc_nonempty(s[0]);
        assert(rvalid_seq::<R>(s.skip(1)));
        lemma_renc_seq_len::<R>(s.skip(1));
    }
}

pub proof fn lemma_renc_seq_prefix_free<R: Record>(
    s1: Seq<R::RV>,
    s2: Seq<R::RV>,
    r1: Seq<u64>,
    r2: Seq<u64>,
)
    requires
        rvalid_seq::<R>(s1),
        rvalid_seq::<R>(s2),
        s1.len() == s2.len(),
        renc_seq::<R>(s1) + r1 == renc_seq::<R>(s2) + r2,
    ensures
        s1 == s2,
        r1 == r2,
    decreases s1.len(),
{
    if s1.len() == 0 {
        assert(renc_seq::<R>(s1) + r1 =~= r1);
        assert(renc_seq::<R>(s2) + r2 =~= r2);
        assert(s1 =~= s2);
    } else {
        assert(R::renc(s1[0]) + (renc_seq::<R>(s1.skip(1)) + r1) =~= renc_seq::<R>(s1) + r1);
        assert(R::renc(s2[0]) + (renc_seq::<R>(s2.skip(1)) + r2) =~= renc_seq::<R>(s2) + r2);
        R::lemma_renc_prefix_free(
            s1[0],
            s2[0],
            renc_seq::<R>(s1.skip(1)) + r1,
            renc_seq::<R>(s2.skip(1)) + r2,
        );
        assert(rvalid_seq::<R>(s1.skip(1)));
        assert(rvalid_seq::<R>(s2.skip(1)));
        lemma_renc_seq_prefix_free::<R>(s1.skip(1), s2.skip(1), r1, r2);
        assert forall|i: int| 0 <= i < s1.len() implies s1[i] == s2[i] by {
            if i > 0 {
                assert(s1.skip(1)[i - 1] == s1[i]);
                assert(s2.skip(1)[i - 1] == s2[i]);
            }
        }
        assert(s1 =~= s2);
    }
}

impl<R: Record> Record for Vec<R> {
    type RV = Seq<R::RV>;

    open spec fn rv(self) -> Seq<R::RV> {
        Seq::new(self@.len(), |i: int| self@[i].rv())
    }

    open spec fn rvalid(v: Seq<R::RV>) -> bool {
        v.len() <= usize::MAX && rvalid_seq::<R>(v)
    }

    open spec fn renc(v: Seq<R::RV>) -> Seq<u64> {
        seq![v.len() as u64] + renc_seq::<R>(v)
    }

    proof fn lemma_renc_nonempty(v: Seq<R::RV>) {
    }

    proof fn lemma_renc_prefix_free(v1: Seq<R::RV>, v2: Seq<R::RV>, r1: Seq<u64>, r2: Seq<u64>) {
        let e1 = Self::renc(v1) + r1;
        let e2 = Self::renc(v2) + r2;
        assert(e1[0] == v1.len() as u64);
        assert(e2[0] == v2.len() as u64);
        assert(v1.len() == v2.len());
        assert(renc_seq::<R>(v1) + r1 =~= e1.skip(1));
        assert(renc_seq::<R>(v2) + r2 =~= e2.skip(1));
        assert(e1.skip(1) =~= e2.skip(1));
        lemma_renc_seq_prefix_free::<R>(v1, v2, r1, r2);
    }

    fn witness_valid(&self) {
        let n = self.len();
        let mut i: usize = 0;
        while i < n
            invariant
                n == self@.len(),
                0 <= i <= n,
                forall|j: int| 0 <= j < i ==> R::rvalid(self.rv()[j]),
            decreases n - i,
        {
            let e: &R = &self[i];
            e.witness_valid();
            i = i + 1;
        }
        proof {
            assert(rvalid_seq::<R>(self.rv()));
        }
    }

    fn write(&self, out: &mut Vec<u64>) {
        let n = self.len();
        out.push(n as u64);
        let mut i: usize = 0;
        while i < n
            invariant
                n == self@.len(),
                0 <= i <= n,
                out@ == old(out)@ + seq![n as u64] + renc_seq::<R>(self.rv().take(i as int)),
            decreases n - i,
        {
            let e: &R = &self[i];
            e.write(out);
            proof {
                assert(self.rv().take(i + 1) =~= self.rv().take(i as int).push(self.rv()[i as int]));
                lemma_renc_seq_push::<R>(self.rv().take(i as int), self.rv()[i as int]);
                assert(self.rv()[i as int] == self@[i as int].rv());
                assert(out@ =~= old(out)@ + seq![n as u64] + renc_seq::<R>(self.rv().take(i + 1)));
            }
            i = i + 1;
        }
        proof {
            assert(self.rv().take(n as int) =~= self.rv());
            assert(out@ =~= old(out)@ + Self::renc(self.rv()));
        }
    }

    fn read(data: &Vec<u64>, pos: usize) -> (r: Option<(Self, usize)>) {
        if pos >= data.len() {
            proof {
                assert forall|v: Seq<R::RV>, rest: Seq<u64>| Self::rvalid(v) implies data@.skip(
                    pos as int,
                ) != Self::renc(v) + rest by {
                    assert((Self::renc(v) + rest).len() >= 1);
                }
            }
            return None;
        }
        let nw = data[pos];
        if nw > usize::MAX as u64 || nw > (data.len() - pos - 1) as u64 {
            proof {
                assert forall|v: Seq<R::RV>, rest: Seq<u64>| Self::rvalid(v) implies data@.skip(
                    pos as int,
                ) != Self::renc(v) + rest by {
                    if data@.skip(pos as int) == Self::renc(v) + rest {
                        assert(data@.skip(pos as int)[0] == (Self::renc(v) + rest)[0]);
                        assert(data@[pos as int] == v.len() as u64);
                        assert(nw == v.len() as u64);
                        assert(v.len() <= usize::MAX);
                        assert(nw == v.len());
                        lemma_renc_seq_len::<R>(v);
                        assert((Self::renc(v) + rest).len() >= 1 + v.len());
                        assert(data@.skip(pos as int).len() == data@.len() - pos);
                    }
                }
            }
            return None;
        }
        let n = nw as usize;
        let mut res: Vec<R> = Vec::new();
        let mut i: usize = 0;
        let mut cur: usize = pos + 1;
        proof {
            assert(res.rv() =~= Seq::<R::RV>::empty());
            assert(data@.subrange(pos + 1, pos + 1) =~= renc_seq::<R>(res.rv()));
            assert forall|v: Seq<R::RV>, rest: Seq<u64>|
                Self::rvalid(v) && data@.skip(pos as int) == Self::renc(v) + rest implies v.len()
                == n && res.rv() == v.take(0) && data@.skip(pos + 1) == renc_seq::<R>(v.skip(0))
                + rest by {
                assert(data@.skip(pos as int)[0] == (Self::renc(v) + rest)[0]);
                assert(data@[pos as int] == v.len() as u64);
                assert(v.len() == n);
                assert(res.rv() =~= v.take(0));
                assert(v.skip(0) =~= v);
                assert(data@.skip(pos as int) =~= seq![nw] + (renc_seq::<R>(v) + rest));
                assert(data@.skip(pos + 1) =~= data@.skip(pos as int).skip(1));
                assert(data@.skip(pos + 1) =~= renc_seq::<R>(v) + rest);
            }
        }
        while i < n
            invariant
                pos < data.len(),
                n <= data.len() - pos - 1,
                0 <= i <= n,
                pos + 1 <= cur <= data.len(),
                res@.len() == i,
                nw == n as u64,
                data@[pos as int] == nw,
                rvalid_seq::<R>(res.rv()),
                data@.subrange(pos + 1, cur as int) == renc_seq::<R>(res.rv()),
                forall|v: Seq<R::RV>, rest: Seq<u64>|
                    Self::rvalid(v) && data@.skip(pos as int) == Self::renc(v) + rest ==> v.len()
                        == n && res.rv() == v.take(i as int) && data@.skip(cur as int)
                        == renc_seq::<R>(v.skip(i as int)) + rest,
            decreases n - i,
        {
            let ghost old_res = res;
            let ghost old_cur = cur as int;
            match R::read(data, cur) {
                Some((e, newcur)) => {
                    proof {
                        assert(data@.skip(old_cur) =~= data@.subrange(old_cur, newcur as int)
                            + data@.skip(newcur as int));
                    }
                    let ghost erv = e.rv();
                    res.push(e);
                    proof {
                        assert(res.rv() =~= old_res.rv().push(erv));
                        lemma_renc_seq_push::<R>(old_res.rv(), erv);
                        assert(data@.subrange(pos + 1, newcur as int) =~= data@.subrange(
                            pos + 1,
                            old_cur,
                        ) + data@.subrange(old_cur, newcur as int));
                        assert(data@.subrange(pos + 1, newcur as int) == renc_seq::<R>(res.rv()));
                        assert(rvalid_seq::<R>(res.rv()));
                        assert forall|v: Seq<R::RV>, rest: Seq<u64>|
                            Self::rvalid(v) && data@.skip(pos as int) == Self::renc(v)
                                + rest implies v.len() == n && res.rv() == v.take(i + 1)
                            && data@.skip(newcur as int) == renc_seq::<R>(v.skip(i + 1)) + rest by {
                            assert(v.len() == n && old_res.rv() == v.take(i as int) && data@.skip(
                                old_cur,
                            ) == renc_seq::<R>(v.skip(i as int)) + rest);
                            assert(v.skip(i as int)[0] == v[i as int]);
                            assert(v.skip(i as int).skip(1) =~= v.skip(i + 1));
                            assert(renc_seq::<R>(v.skip(i as int)) == R::renc(v[i as int])
                                + renc_seq::<R>(v.skip(i + 1)));
                            assert(R::renc(erv) + data@.skip(newcur as int) =~= R::renc(
                                v[i as int],
                            ) + (renc_seq::<R>(v.skip(i + 1)) + rest));
                            assert(R::rvalid(v[i as int]));
                            R::lemma_renc_prefix_free(
                                erv,
                                v[i as int],
                                data@.skip(newcur as int),
                                renc_seq::<R>(v.skip(i + 1)) + rest,
                            );
                            assert(res.rv() =~= v.take(i + 1));
                        }
                    }
                    cur = newcur;
                    i = i + 1;
                },
                None => {
                    proof {
                        assert forall|v: Seq<R::RV>, rest: Seq<u64>| Self::rvalid(
                            v,
                        ) implies data@.skip(pos as int) != Self::renc(v) + rest by {
                            if data@.skip(pos as int) == Self::renc(v) + rest {
                                assert(v.len() == n && data@.skip(cur as int) == renc_seq::<R>(
                                    v.skip(i as int),
                                ) + rest);
                                assert(v.skip(i as int).len() > 0);
                                assert(v.skip(i as int)[0] == v[i as int]);
                                assert(v.skip(i as int).skip(1) =~= v.skip(i + 1));
                                assert(renc_seq::<R>(v.skip(i as int)) == R::renc(v[i as int])
                                    + renc_seq::<R>(v.skip(i + 1)));
                                assert(R::rvalid(v[i as int]));
                                assert(data@.skip(cur as int) =~= R::renc(v[i as int])
                                    + (renc_seq::<R>(v.skip(i + 1)) + rest));
                            }
                        }
                    }
                    return None;
                },
            }
        }
        proof {
            assert(data@.subrange(pos as int, cur as int) =~= seq![nw] + data@.subrange(
                pos + 1,
                cur as int,
            ));
            assert(res.rv().len() == n);
            assert(Self::renc(res.rv()) == seq![res.rv().len() as u64] + renc_seq::<R>(res.rv()));
            assert(data@.subrange(pos as int, cur as int) =~= Self::renc(res.rv()));
        }
        Some((res, cur))
    }
}

impl Record for crate::objects::Head {
    type RV = crate::objects::HeadV;

    open spec fn rv(self) -> crate::objects::HeadV {
        self.hv()
    }

    open spec fn rvalid(v: crate::objects::HeadV) -> bool {
        v.name.len() <= usize::MAX
    }

    open spec fn renc(v: crate::objects::HeadV) -> Seq<u64> {
        <String as Record>::renc(v.name) + seq![v.commit]
    }

    proof fn lemma_renc_nonempty(v: crate::objects::HeadV) {
        <String as Record>::lemma_renc_nonempty(v.name);
    }

    proof fn lemma_renc_prefix_free(
        v1: crate::objects::HeadV,
        v2: crate::objects::HeadV,
        r1: Seq<u64>,
        r2: Seq<u64>,
    ) {
        let t1 = seq![v1.commit] + r1;
        let t2 = seq![v2.commit] + r2;
        assert(<String as Record>::renc(v1.name) + t1 =~= Self::renc(v1) + r1);
        assert(<String as Record>::renc(v2.name) + t2 =~= Self::renc(v2) + r2);
        <String as Record>::lemma_renc_prefix_free(v1.name, v2.name, t1, t2);
        assert(t1[0] == v1.commit && t2[0] == v2.commit);
        assert(r1 =~= t1.skip(1));
        assert(r2 =~= t2.skip(1));
    }

    fn witness_valid(&self) {
        self.name.witness_valid();
    }

    fn write(&self, out: &mut Vec<u64>) {
        self.name.write(out);
        out.push(self.commit.0);
        proof {
            assert(out@ =~= old(out)@ + Self::renc(self.hv()));
        }
    }

    fn read(data: &Vec<u64>, pos: usize) -> (r: Option<(Self, usize)>) {
        match <String as Record>::read(data, pos) {
            Some((name, p2)) => {
                if p2 < data.len() {
                    let c = data[p2];
                    let h = crate::objects::Head::new(name, crate::ids::CommitId(c));
                    proof {
                        assert(data@.subrange(pos as int, p2 + 1) =~= data@.subrange(
                            pos as int,
                            p2 as int,
                        ) + seq![c]);
                        assert(data@.subrange(pos as int, p2 + 1) =~= Self::renc(h.hv()));
                    }
                    Some((h, p2 + 1))
                } else {
                    proof {
                        assert forall|v: crate::objects::HeadV, rest: Seq<u64>| Self::rvalid(
                            v,
                        ) implies data@.skip(pos as int) != Self::renc(v) + rest by {
                            if data@.skip(pos as int) == Self::renc(v) + rest {
                                assert(data@.skip(pos as int) =~= <String as Record>::renc(v.name)
                                    + (seq![v.commit] + rest));
                                assert(data@.skip(pos as int) =~= data@.subrange(
                                    pos as int,
                                    p2 as int,
                                ) + data@.skip(p2 as int));
                                <String as Record>::lemma_renc_prefix_free(
                                    name@,
                                    v.name,
                                    data@.skip(p2 as int),
                                    seq![v.commit] + rest,
                                );
                                assert(data@.skip(p2 as int).len() >= 1);
                            }
                        }
                    }
                    None
                }
            },
            None => {
                proof {
                    assert forall|v: crate::objects::HeadV, rest: Seq<u64>| Self::rvalid(
                        v,
                    ) implies data@.skip(pos as int) != Self::renc(v) + rest by {
                        if data@.skip(pos as int) == Self::renc(v) + rest {
                            assert(data@.skip(pos as int) =~= <String as Record>::renc(v.name) + (
                            seq![v.commit] + rest));
                        }
                    }
                }
                None
            },
        }
    }
}

/// The parent-id words of a commit's encoding.
pub open spec fn parent_words(s: Seq<u64>) -> Seq<u64> {
    s
}

impl Record for crate::objects::Commit {
    type RV = crate::objects::CommitV;

    open spec fn rv(self) -> crate::objects::CommitV {
        self.cv()
    }

    open spec fn rvalid(v: crate::objects::CommitV) -> bool {
        v.parents.len() <= usize::MAX
    }

    open spec fn renc(v: crate::objects::CommitV) -> Seq<u64> {
        seq![v.id, v.committer, v.author, v.parents.len() as u64] + v.parents
    }

    proof fn lemma_renc_nonempty(v: crate::objects::CommitV) {
    }

    proof fn lemma_renc_prefix_free(
        v1: crate::objects::CommitV,
        v2: crate::objects::CommitV,
        r1: Seq<u64>,
        r2: Seq<u64>,
    ) {
        let e1 = Self::renc(v1) + r1;
        let e2 = Self::renc(v2) + r2;
        assert(e1[0] == v1.id && e1[1] == v1.committer && e1[2] == v1.author && e1[3]
            == v1.parents.len() as u64);
        assert(e2[0] == v2.id && e2[1] == v2.committer && e2[2] == v2.author && e2[3]
            == v2.parents.len() as u64);
        assert(v1.parents.len() == v2.parents.len());
        let n = v1.parents.len() as int;
        assert forall|i: int| 0 <= i < n implies v1.parents[i] == v2.parents[i] by {
            assert(e1[4 + i] == v1.parents[i]);
            assert(e2[4 + i] == v2.parents[i]);
        }
        assert(v1.parents =~= v2.parents);
        assert(r1 =~= e1.skip(4 + n));
        assert(r2 =~= e2.skip(4 + n));
    }

    fn witness_valid(&self) {
        let n = self.parents.len();
    }

    fn write(&self, out: &mut Vec<u64>) {
        let n = self.parents.len();
        out.push(self.id.0);
        out.push(self.committer.0);
        out.push(self.author.0);
        out.push(n as u64);
        let mut i: usize = 0;
        while i < n
            invariant
                n == self.parents@.len(),
                0 <= i <= n,
                out@ == old(out)@ + seq![self.cv().id, self.cv().committer, self.cv().author, n as u64]
                    + self.cv().parents.take(i as int),
            decreases n - i,
        {
            out.push(self.parents[i].0);
            proof {
                assert(self.cv().parents.take(i + 1) =~= self.cv().parents.take(i as int).push(
                    self.parents@[i as int].0,
                ));
                assert(out@ =~= old(out)@ + seq![
                    self.cv().id,
                    self.cv().committer,
                    self.cv().author,
                    n as u64,
                ] + self.cv().parents.take(i + 1));
            }
            i = i + 1;
        }
        proof {
            assert(self.cv().parents.take(n as int) =~= self.cv().parents);
            assert(out@ =~= old(out)@ + Self::renc(self.cv()));
        }
    }

    fn read(data: &Vec<u64>, pos: usize) -> (r: Option<(Self, usize)>) {
        if pos >= data.len() || data.len() - pos < 4 {
            proof {
                assert forall|v: crate::objects::CommitV, rest: Seq<u64>| Self::rvalid(
                    v,
                ) implies data@.skip(pos as int) != Self::renc(v) + rest by {
                    assert((Self::renc(v) + rest).len() >= 4);
                    assert(data@.skip(pos as int).len() < 4);
                }
            }
            return None;
        }
        let idw = data[pos];
        let cw = data[pos + 1];
        let aw = data[pos + 2];
        let nw = data[pos + 3];
        if nw > usize::MAX as u64 || nw > (data.len() - pos - 4) as u64 {
            proof {
                assert forall|v: crate::objects::CommitV, rest: Seq<u64>| Self::rvalid(
                    v,
                ) implies data@.skip(pos as int) != Self::renc(v) + rest by {
                    if data@.skip(pos as int) == Self::renc(v) + rest {
                        assert(data@.skip(pos as int)[3] == (Self::renc(v) + rest)[3]);
                        assert(data@[pos + 3] == v.parents.len() as u64);
                        assert(nw == v.parents.len() as u64);
                        assert(v.parents.len() <= usize::MAX);
                        assert(nw == v.parents.len());
                        assert((Self::renc(v) + rest).len() >= 4 + v.parents.len());
                        assert(data@.skip(pos as int).len() == data@.len() - pos);
                    }
                }
            }
            return None;
        }
        let n = nw as usize;
        let mut parents: Vec<crate::ids::CommitId> = Vec::new();
        let mut i: usize = 0;
        while i < n
            invariant
                pos < data.len(),
                n <= data.len() - pos - 4,
                0 <= i <= n,
                parents@.len() == i,
                forall|j: int|
                    0 <= j < i ==> parents@[j].0 == data@[pos + 4 + j],
            decreases n - i,
        {
            let w = data[pos + 4 + i];
            parents.push(crate::ids::CommitId(w));
            i = i + 1;
        }
        let c = crate::objects::Commit::new(
            crate::ids::CommitId(idw),
            crate::ids::UserId(cw),
            crate::ids::UserId(aw),
            parents,
        );
        proof {
            assert(c.cv().parents =~= data@.subrange(pos + 4, pos + 4 + n as int));
            assert(data@.subrange(pos as int, pos + 4 + n as int) =~= seq![idw, cw, aw, nw]
                + data@.subrange(pos + 4, pos + 4 + n as int));
            assert(data@.subrange(pos as int, pos + 4 + n as int) =~= Self::renc(c.cv()));
        }
        Some((c, pos + 4 + n))
    }
}

impl Record for crate::objects::Change {
    type RV = (u64, Option<u64>);

    open spec fn rv(self) -> (u64, Option<u64>) {
        (
            self.path.0,
            match self.snapshot {
                Some(s) => Some(s.0),
                None => None,
            },
        )
    }

    open spec fn rvalid(v: (u64, Option<u64>)) -> bool {
        true
    }

    open spec fn renc(v: (u64, Option<u64>)) -> Seq<u64> {
        match v.1 {
            Some(s) => seq![v.0, 1, s],
            None => seq![v.0, 0, 0],
        }
    }

    proof fn lemma_renc_nonempty(v: (u64, Option<u64>)) {
    }

    proof fn lemma_renc_prefix_free(
        v1: (u64, Option<u64>),
        v2: (u64, Option<u64>),
        r1: Seq<u64>,
        r2: Seq<u64>,
    ) {
        let e1 = Self::renc(v1) + r1;
        let e2 = Self::renc(v2) + r2;
        assert(e1[0] == v1.0 && e2[0] == v2.0);
        assert(e1[1] == (match v1.1 {
            Some(_) => 1u64,
            None => 0u64,
        }));
        assert(e2[1] == (match v2.1 {
            Some(_) => 1u64,
            None => 0u64,
        }));
        assert(e1[2] == (match v1.1 {
            Some(s) => s,
            None => 0u64,
        }));
        assert(e2[2] == (match v2.1 {
            Some(s) => s,
            None => 0u64,
        }));
        assert(v1 == v2);
        assert(r1 =~= e1.skip(3));
        assert(r2 =~= e2.skip(3));
    }

    fn witness_valid(&self) {
    }

    fn write(&self, out: &mut Vec<u64>) {
        out.push(self.path.0);
        match self.snapshot {
            Some(s) => {
                out.push(1);
                out.push(s.0);
            },
            None => {
                out.push(0);
                out.push(0);
            },
        }
        proof {
            assert(out@ =~= old(out)@ + Self::renc(self.rv()));
        }
    }

    fn read(data: &Vec<u64>, pos: usize) -> (r: Option<(Self, usize)>) {
        if pos < data.len() && data.len() - pos >= 3 {
            let p = data[pos];
            let flag = data[pos + 1];
            let w = data[pos + 2];
            if flag == 1 {
                let c = crate::objects::Change::new(
                    crate::ids::PathId(p),
                    Some(crate::ids::SnapshotId(w)),
                );
                proof {
                    assert(data@.subrange(pos as int, pos + 3) =~= Self::renc(c.rv()));
                }
                Some((c, pos + 3))
            } else if flag == 0 && w == 0 {
                let c = crate::objects::Change::new(crate::ids::PathId(p), None);
                proof {
                    assert(data@.subrange(pos as int, pos + 3) =~= Self::renc(c.rv()));
                }
                Some((c, pos + 3))
            } else {
                proof {
                    assert forall|v: (u64, Option<u64>), rest: Seq<u64>| data@.skip(pos as int)
                        != Self::renc(v) + rest by {
                        if data@.skip(pos as int) == Self::renc(v) + rest {
                            assert(data@[pos + 1] == (Self::renc(v) + rest)[1]);
                            assert(data@[pos + 2] == (Self::renc(v) + rest)[2]);
                        }
                    }
                }
                None
            }
        } else {
            proof {
                assert forall|v: (u64, Option<u64>), rest: Seq<u64>| data@.skip(pos as int)
                    != Self::renc(v) + rest by {
                    assert((Self::renc(v) + rest).len() >= 3);
                    assert(data@.skip(pos as int).len() < 3);
                }
            }
            None
        }
    }
}

} // verus!
