//! The persistent derived-table cache.
//!
//! One `PersistentMap` instance exists per derived table.  It is created
//! unloaded, bound to a cache file path `directory/name`, and holding the
//! words that were read from that file, if any.  Loading first tries to
//! decode those words; a malformed stream is a cache miss and the table is
//! recomputed from its prerequisites.  `grab_collection` before loading is
//! a programming error and fails fast.

use vstd::prelude::*;
use vstd::string::StringExecFns;
use crate::codec::Record;
use crate::table::{spec_decode, Table};

verus! {

/// A derived table bound to its cache file: unloaded at first, then
/// resident in memory, either decoded from the cache words or computed.
pub struct PersistentMap<V> {
    name: String,
    path: String,
    cache_enabled: bool,
    cache_words: Option<Vec<u64>>,
    contents: Option<Table<V>>,
}

impl<V: Record> PersistentMap<V> {
    /// The table's stable name.
    pub closed spec fn spec_name(self) -> Seq<char> {
        self.name@
    }

    /// The cache file path the table is bound to.
    pub closed spec fn spec_path(self) -> Seq<char> {
        self.path@
    }

    /// The cache words this table was created with, when disk caching is
    /// enabled for it.
    pub closed spec fn cview(self) -> Option<Seq<u64>> {
        if self.cache_enabled {
            match self.cache_words {
                Some(w) => Some(w@),
                None => None,
            }
        } else {
            None
        }
    }

    pub closed spec fn spec_enabled(self) -> bool {
        self.cache_enabled
    }

    /// The resident table's content, once loaded.
    pub closed spec fn lview(self) -> Option<Seq<(u64, V::RV)>> {
        match self.contents {
            Some(t) => Some(t.tview()),
            None => None,
        }
    }

    pub closed spec fn spec_loaded(self) -> bool {
        self.contents is Some
    }

    /// A resident table is always well-formed.
    pub closed spec fn inv(self) -> bool {
        match self.contents {
            Some(t) => t.wf(),
            None => true,
        }
    }

    /// What this table's content will be, given the table computed from
    /// prerequisites: the decoded cache words when they are present and
    /// valid — their presence and validity is the sole signal — and the
    /// computed fallback otherwise.
    pub open spec fn cached_or(self, fallback: Seq<(u64, V::RV)>) -> Seq<(u64, V::RV)> {
        match self.cview() {
            Some(w) => match spec_decode::<V>(w) {
                Some(tv) => tv,
                None => fallback,
            },
            None => fallback,
        }
    }

    /// A fresh, unloaded table named `name`, bound to `dir/name`, with the
    /// words read from that file, if it existed.
    pub fn new(name: &str, dir: &str, cache_words: Option<Vec<u64>>) -> (r: Self)
        ensures
            r.spec_name() == name@,
            r.spec_path() == dir@ + "/"@ + name@,
            r.spec_enabled(),
            r.cview() == match cache_words {
                Some(w) => Some(w@),
                None => None::<Seq<u64>>,
            },
            !r.spec_loaded(),
            r.inv(),
    {
        let mut path = dir.to_owned();
        path.append("/");
        path.append(name);
        PersistentMap {
            name: name.to_owned(),
            path,
            cache_enabled: true,
            cache_words,
            contents: None,
        }
    }

    /// Disable disk persistence: the table becomes memory-only and is
    /// recomputed every run.
    pub fn without_cache(self) -> (r: Self)
        ensures
            r.spec_name() == self.spec_name(),
            r.spec_path() == self.spec_path(),
            !r.spec_enabled(),
            r.cview() is None,
            r.lview() == self.lview(),
            r.spec_loaded() == self.spec_loaded(),
            self.inv() ==> r.inv(),
    {
        PersistentMap {
            name: self.name,
            path: self.path,
            cache_enabled: false,
            cache_words: None,
            contents: self.contents,
        }
    }

    /// Whether the table is resident in memory.
    pub fn is_loaded(&self) -> (r: bool)
        ensures
            r == self.spec_loaded(),
    {
        self.contents.is_some()
    }

    /// The cache file path, for the caller that reads and writes the file.
    pub fn cache_path(&self) -> (r: &String)
        ensures
            r@ == self.spec_path(),
    {
        &self.path
    }

    /// Try to populate the table from its cache words.  Succeeds exactly
    /// when the words decode; a corrupt or absent cache is a miss, never an
    /// error, and leaves the table unloaded.
    pub fn try_load_cache(&mut self) -> (done: bool)
        requires
            old(self).inv(),
            !old(self).spec_loaded(),
        ensures
            final(self).inv(),
            final(self).spec_name() == old(self).spec_name(),
            final(self).spec_path() == old(self).spec_path(),
            final(self).spec_enabled() == old(self).spec_enabled(),
            final(self).cview() == old(self).cview(),
            done <==> (old(self).cview() matches Some(w) && spec_decode::<V>(w) is Some),
            done ==> final(self).spec_loaded() && final(self).lview() == Some(
                spec_decode::<V>(old(self).cview()->0)->0,
            ),
            !done ==> *final(self) == *old(self),
    {
        if !self.cache_enabled {
            return false;
        }
        let decoded = match &self.cache_words {
            Some(words) => Table::<V>::decode(words),
            None => None,
        };
        match decoded {
            Some(t) => {
                self.contents = Some(t);
                true
            },
            None => false,
        }
    }

    /// Populate the table with a freshly computed collection.
    pub fn load_computed(&mut self, t: Table<V>)
        requires
            t.wf(),
        ensures
            final(self).inv(),
            final(self).spec_name() == old(self).spec_name(),
            final(self).spec_path() == old(self).spec_path(),
            final(self).spec_enabled() == old(self).spec_enabled(),
            final(self).cview() == old(self).cview(),
            final(self).spec_loaded(),
            final(self).lview() == Some(t.tview()),
    {
        self.contents = Some(t);
    }

    /// The resident collection.  Reading an unloaded table is a
    /// programming defect, not a runtime condition: the loader always
    /// loads before grabbing, and an unverified caller that breaks the
    /// rule fails loudly.
    pub fn grab_collection(&self) -> (r: &Table<V>)
        requires
            self.spec_loaded(),
        ensures
            Some(r.tview()) == self.lview(),
            self.inv() ==> r.wf(),
    {
        match &self.contents {
            Some(t) => t,
            None => vstd::pervasive::unreached(),
        }
    }

    /// The word stream to persist for this table: present exactly when the
    /// table is resident and disk caching is enabled.
    pub fn encode_for_cache(&self) -> (r: Option<Vec<u64>>)
        requires
            self.inv(),
        ensures
            r is Some <==> self.spec_loaded() && self.spec_enabled(),
            r matches Some(w) ==> w@ == crate::table::tenc::<V>(self.lview()->0),
    {
        if !self.cache_enabled {
            return None;
        }
        match &self.contents {
            Some(t) => Some(t.encode()),
            None => None,
        }
    }
}

} // verus!
