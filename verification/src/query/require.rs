//! Filters: comparisons against a literal with the documented policy for
//! absent values, boolean combinators, presence tests, and string
//! comparison by equality, substring or pattern.

use vstd::prelude::*;
use vstd::string::StrSliceExecFns;
use crate::attrib::{Attribute, Filter, Keyed, OptionGetter};
use crate::data::{Database, DataCfg};
use crate::{NumberGetter, TextGetter};
use crate::source::Source;

verus! {

/// Accept entities whose attribute is present and below the limit; an
/// absent value is rejected.
pub struct LessThan<A>(pub A, pub u64);

impl<A, T: Keyed> Filter for LessThan<A> where
    A: Attribute<Object = T> + NumberGetter,
 {
    type Item = T;

    open spec fn spec_accept(self, cfg: DataCfg, src: Source, key: u64) -> bool {
        match self.0.spec_get_opt(cfg, src, key) {
            Some(n) => n < self.1,
            None => false,
        }
    }

    fn accept(&self, db: &mut Database, item: &T) -> (r: bool) {
        match self.0.get_opt(db, item) {
            Some(n) => {
                proof {
                    A::lemma_model_is_value(n);
                }
                n < self.1
            },
            None => false,
        }
    }
}

/// Accept entities whose attribute is present and at most the limit; an
/// absent value is rejected.
pub struct AtMost<A>(pub A, pub u64);

impl<A, T: Keyed> Filter for AtMost<A> where
    A: Attribute<Object = T> + NumberGetter,
 {
    type Item = T;

    open spec fn spec_accept(self, cfg: DataCfg, src: Source, key: u64) -> bool {
        match self.0.spec_get_opt(cfg, src, key) {
            Some(n) => n <= self.1,
            None => false,
        }
    }

    fn accept(&self, db: &mut Database, item: &T) -> (r: bool) {
        match self.0.get_opt(db, item) {
            Some(n) => {
                proof {
                    A::lemma_model_is_value(n);
                }
                n <= self.1
            },
            None => false,
        }
    }
}

/// Accept entities whose attribute is present and equal to the literal; an
/// absent value is rejected.
pub struct Equal<A>(pub A, pub u64);

impl<A, T: Keyed> Filter for Equal<A> where
    A: Attribute<Object = T> + NumberGetter,
 {
    type Item = T;

    open spec fn spec_accept(self, cfg: DataCfg, src: Source, key: u64) -> bool {
        match self.0.spec_get_opt(cfg, src, key) {
            Some(n) => n == self.1,
            None => false,
        }
    }

    fn accept(&self, db: &mut Database, item: &T) -> (r: bool) {
        match self.0.get_opt(db, item) {
            Some(n) => {
                proof {
                    A::lemma_model_is_value(n);
                }
                n == self.1
            },
            None => false,
        }
    }
}

/// Accept entities whose attribute is at least the limit — or absent: a
/// missing value is treated as infinitely large, an explicit, documented
/// policy.
pub struct AtLeast<A>(pub A, pub u64);

impl<A, T: Keyed> Filter for AtLeast<A> where
    A: Attribute<Object = T> + NumberGetter,
 {
    type Item = T;

    open spec fn spec_accept(self, cfg: DataCfg, src: Source, key: u64) -> bool {
        match self.0.spec_get_opt(cfg, src, key) {
            Some(n) => n >= self.1,
            None => true,
        }
    }

    fn accept(&self, db: &mut Database, item: &T) -> (r: bool) {
        match self.0.get_opt(db, item) {
            Some(n) => {
                proof {
                    A::lemma_model_is_value(n);
                }
                n >= self.1
            },
            None => true,
        }
    }
}

/// Accept entities whose attribute is above the limit — or absent, by the
/// same missing-is-infinite policy as `AtLeast`.
pub struct MoreThan<A>(pub A, pub u64);

impl<A, T: Keyed> Filter for MoreThan<A> where
    A: Attribute<Object = T> + NumberGetter,
 {
    type Item = T;

    open spec fn spec_accept(self, cfg: DataCfg, src: Source, key: u64) -> bool {
        match self.0.spec_get_opt(cfg, src, key) {
            Some(n) => n > self.1,
            None => true,
        }
    }

    fn accept(&self, db: &mut Database, item: &T) -> (r: bool) {
        match self.0.get_opt(db, item) {
            Some(n) => {
                proof {
                    A::lemma_model_is_value(n);
                }
                n > self.1
            },
            None => true,
        }
    }
}

/// The comparison filters' policy on an absent attribute, stated once for
/// every attribute, dataset and entity: a missing value is rejected by the
/// downward comparisons and accepted by the upward ones.
pub proof fn lemma_missing_comparison_policy<A, T: Keyed>(
    a: A,
    limit: u64,
    cfg: DataCfg,
    src: Source,
    key: u64,
) where A: Attribute<Object = T> + NumberGetter
    requires
        a.spec_get_opt(cfg, src, key) is None,
    ensures
        !(LessThan(a, limit)).spec_accept(cfg, src, key),
        !(AtMost(a, limit)).spec_accept(cfg, src, key),
        !(Equal(a, limit)).spec_accept(cfg, src, key),
        (AtLeast(a, limit)).spec_accept(cfg, src, key),
        (MoreThan(a, limit)).spec_accept(cfg, src, key),
{
}

/// Accept exactly when both filters accept.
pub struct And<A, B>(pub A, pub B);

impl<A, B, T: Keyed> Filter for And<A, B> where A: Filter<Item = T>, B: Filter<Item = T> {
    type Item = T;

    open spec fn spec_accept(self, cfg: DataCfg, src: Source, key: u64) -> bool {
        self.0.spec_accept(cfg, src, key) && self.1.spec_accept(cfg, src, key)
    }

    fn accept(&self, db: &mut Database, item: &T) -> (r: bool) {
        let a = self.0.accept(db, item);
        let b = self.1.accept(db, item);
        a && b
    }
}

/// Accept exactly when either filter accepts.
pub struct Or<A, B>(pub A, pub B);

impl<A, B, T: Keyed> Filter for Or<A, B> where A: Filter<Item = T>, B: Filter<Item = T> {
    type Item = T;

    open spec fn spec_accept(self, cfg: DataCfg, src: Source, key: u64) -> bool {
        self.0.spec_accept(cfg, src, key) || self.1.spec_accept(cfg, src, key)
    }

    fn accept(&self, db: &mut Database, item: &T) -> (r: bool) {
        let a = self.0.accept(db, item);
        let b = self.1.accept(db, item);
        a || b
    }
}

/// Accept exactly when the inner filter rejects.
pub struct Not<A>(pub A);

impl<A, T: Keyed> Filter for Not<A> where A: Filter<Item = T> {
    type Item = T;

    open spec fn spec_accept(self, cfg: DataCfg, src: Source, key: u64) -> bool {
        !self.0.spec_accept(cfg, src, key)
    }

    fn accept(&self, db: &mut Database, item: &T) -> (r: bool) {
        !self.0.accept(db, item)
    }
}

/// Accept entities whose attribute is present.
pub struct Exists<A>(pub A);

impl<A, T: Keyed> Filter for Exists<A> where A: Attribute<Object = T> + OptionGetter {
    type Item = T;

    open spec fn spec_accept(self, cfg: DataCfg, src: Source, key: u64) -> bool {
        self.0.spec_get_opt(cfg, src, key) is Some
    }

    fn accept(&self, db: &mut Database, item: &T) -> (r: bool) {
        self.0.get_opt(db, item).is_some()
    }
}

/// Accept entities whose attribute is absent.
pub struct Missing<A>(pub A);

impl<A, T: Keyed> Filter for Missing<A> where A: Attribute<Object = T> + OptionGetter {
    type Item = T;

    open spec fn spec_accept(self, cfg: DataCfg, src: Source, key: u64) -> bool {
        self.0.spec_get_opt(cfg, src, key) is None
    }

    fn accept(&self, db: &mut Database, item: &T) -> (r: bool) {
        self.0.get_opt(db, item).is_none()
    }
}

/// Accept string attributes equal to the literal; absent is rejected.
pub struct Same<A>(pub A, pub String);

impl<A, T: Keyed> Filter for Same<A> where A: Attribute<Object = T> + TextGetter {
    type Item = T;

    open spec fn spec_accept(self, cfg: DataCfg, src: Source, key: u64) -> bool {
        match self.0.spec_get_opt(cfg, src, key) {
            Some(s) => s == self.1@,
            None => false,
        }
    }

    fn accept(&self, db: &mut Database, item: &T) -> (r: bool) {
        match self.0.get_opt(db, item) {
            Some(s) => {
                proof {
                    A::lemma_model_is_view(s);
                }
                s == self.1
            },
            None => false,
        }
    }
}

/// One position where the needle occurs in the haystack.
pub open spec fn has_substring_at(hay: Seq<char>, needle: Seq<char>, i: int) -> bool {
    0 <= i && i + needle.len() <= hay.len() && hay.subrange(i, i + needle.len()) == needle
}

/// Whether the needle occurs anywhere in the haystack.
pub open spec fn contains_substring(hay: Seq<char>, needle: Seq<char>) -> bool {
    exists|i: int| has_substring_at(hay, needle, i)
}

/// Whether one string holds another as a contiguous substring.
pub fn str_has_substring(hay: &str, needle: &str) -> (r: bool)
    ensures
        r == contains_substring(hay@, needle@),
{
    let n = hay.unicode_len();
    let m = needle.unicode_len();
    if m > n {
        proof {
            if contains_substring(hay@, needle@) {
                let i = choose|i: int| has_substring_at(hay@, needle@, i);
            }
        }
        return false;
    }
    let mut i: usize = 0;
    while i <= n - m
        invariant
            n == hay@.len(),
            m == needle@.len(),
            m <= n,
            0 <= i <= n - m + 1,
            forall|l: int| 0 <= l < i ==> !has_substring_at(hay@, needle@, l),
        decreases n - m + 1 - i,
    {
        let mut j: usize = 0;
        let mut matched = true;
        while j < m
            invariant
                n == hay@.len(),
                m == needle@.len(),
                0 <= i <= n - m,
                0 <= j <= m,
                matched <==> (forall|l: int| 0 <= l < j ==> hay@[i + l] == needle@[l]),
            decreases m - j,
        {
            let hc = hay.get_char(i + j);
            let nc = needle.get_char(j);
            if hc != nc {
                matched = false;
                proof {
                    assert(hay@[i + j] != needle@[j as int]);
                }
                j = m;
            } else {
                proof {
                    if matched {
                        assert(hay@[i + j] == needle@[j as int]);
                        assert forall|l: int| 0 <= l < j + 1 implies hay@[i + l] == needle@[l] by {
                            if l < j {
                                assert(hay@[i + l] == needle@[l]);
                            }
                        }
                    }
                }
                j = j + 1;
            }
        }
        if matched {
            proof {
                assert(hay@.subrange(i as int, i + m) =~= needle@);
                assert(has_substring_at(hay@, needle@, i as int));
            }
            return true;
        }
        proof {
            if has_substring_at(hay@, needle@, i as int) {
                assert forall|l: int| 0 <= l < m implies hay@[i + l] == needle@[l] by {
                    assert(hay@.subrange(i as int, i + m)[l] == needle@[l]);
                }
            }
        }
        i = i + 1;
    }
    proof {
        if contains_substring(hay@, needle@) {
            let l = choose|l: int| has_substring_at(hay@, needle@, l);
            assert(l < i);
        }
    }
    false
}

/// Accept string attributes that hold the literal as a substring; absent
/// is rejected.
pub struct Contains<A>(pub A, pub String);

impl<A, T: Keyed> Filter for Contains<A> where A: Attribute<Object = T> + TextGetter {
    type Item = T;

    open spec fn spec_accept(self, cfg: DataCfg, src: Source, key: u64) -> bool {
        match self.0.spec_get_opt(cfg, src, key) {
            Some(s) => contains_substring(s, self.1@),
            None => false,
        }
    }

    fn accept(&self, db: &mut Database, item: &T) -> (r: bool) {
        match self.0.get_opt(db, item) {
            Some(s) => {
                proof {
                    A::lemma_model_is_view(s);
                }
                str_has_substring(s.as_str(), self.1.as_str())
            },
            None => false,
        }
    }
}

/// Whether a pattern is a valid regular expression.
pub uninterp spec fn regex_valid(pattern: Seq<char>) -> bool;

/// Whether a valid pattern matches somewhere in a text; the answer is a
/// function of the pattern and the text alone.
pub uninterp spec fn regex_accepts(pattern: Seq<char>, text: Seq<char>) -> bool;

/// Relies on regex::Regex::new, which accepts exactly the valid patterns
/// and always compiles a given pattern to an equivalent matcher, and on
/// regex::Regex::is_match, whose answer depends on the pattern and the
/// haystack alone.
#[verifier::external_body]
fn regex_match(pattern: &str, text: &str) -> (r: Option<bool>)
    ensures
        r is Some <==> regex_valid(pattern@),
        r matches Some(b) ==> b == regex_accepts(pattern@, text@),
{
    match regex::Regex::new(pattern) {
        Ok(re) => Some(re.is_match(text)),
        Err(_) => None,
    }
}

/// Accept string attributes that a regular expression matches; an absent
/// value, like a pattern that does not compile, is rejected.
pub struct Matches<A>(pub A, pub String);

impl<A, T: Keyed> Filter for Matches<A> where A: Attribute<Object = T> + TextGetter {
    type Item = T;

    open spec fn spec_accept(self, cfg: DataCfg, src: Source, key: u64) -> bool {
        match self.0.spec_get_opt(cfg, src, key) {
            Some(s) => regex_valid(self.1@) && regex_accepts(self.1@, s),
            None => false,
        }
    }

    fn accept(&self, db: &mut Database, item: &T) -> (r: bool) {
        match self.0.get_opt(db, item) {
            Some(s) => {
                proof {
                    A::lemma_model_is_view(s);
                }
                match regex_match(self.1.as_str(), s.as_str()) {
                    Some(b) => b,
                    None => false,
                }
            },
            None => false,
        }
    }
}

} // verus!
