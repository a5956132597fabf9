//! Collection projection: get an attribute from each element of a
//! collection-valued attribute.

use vstd::prelude::*;
use crate::attrib::{Attribute, Keyed, OptionGetter};
use crate::data::{Database, DataCfg};
use crate::gathered;
use crate::source::Source;
use crate::EntitiesGetter;

verus! {

/// Get an attribute from each element of a collection-valued attribute,
/// dropping elements where the inner attribute is absent.
pub struct FromEach<O: Attribute, A: Attribute>(pub O, pub A);

impl<T: Keyed, O, A> Attribute for FromEach<O, A> where O: Attribute<Object = T>, A: Attribute {
    type Object = T;
}

impl<T: Keyed, I: Keyed, O, A> OptionGetter for FromEach<O, A> where
    O: Attribute<Object = T> + EntitiesGetter<I>,
    A: Attribute<Object = I> + OptionGetter,
 {
    type IntoItem = Vec<A::IntoItem>;

    type ItemModel = Seq<A::ItemModel>;

    open spec fn model(it: Vec<A::IntoItem>) -> Seq<A::ItemModel> {
        it@.map(|i: int, e: A::IntoItem| A::model(e))
    }

    open spec fn spec_get_opt(self, cfg: DataCfg, src: Source, key: u64) -> Option<
        Seq<A::ItemModel>,
    > {
        match self.0.spec_get_opt(cfg, src, key) {
            Some(ks) => Some(gathered(self.1, cfg, src, ks)),
            None => None,
        }
    }

    fn get_opt(&self, db: &mut Database, object: &T) -> (r: Option<Vec<A::IntoItem>>) {
        match self.0.get_opt(db, object) {
            Some(es) => {
                let ghost cfg = db.dcfg();
                let ghost src = db.src();
                let ghost ks = O::model(es);
                proof {
                    O::lemma_models_are_keys(es);
                }
                let mut out: Vec<A::IntoItem> = Vec::new();
                let n = es.len();
                let mut i: usize = 0;
                proof {
                    assert(Self::model(out) =~= gathered(self.1, cfg, src, ks.take(0)));
                }
                while i < n
                    invariant
                        old(db).wf(),
                        db.wf(),
                        db.src() == src,
                        db.dcfg() == cfg,
                        n == es@.len(),
                        0 <= i <= n,
                        ks == es@.map(|l: int, e: I| e.key()),
                        Self::model(out) == gathered(self.1, cfg, src, ks.take(i as int)),
                    decreases n - i,
                {
                    proof {
                        assert(ks.take(i + 1).drop_last() =~= ks.take(i as int));
                        assert(ks.take(i + 1).last() == es@[i as int].key());
                    }
                    let ghost pre = Self::model(out);
                    match self.1.get_opt(db, &es[i]) {
                        Some(v) => {
                            out.push(v);
                            proof {
                                assert(Self::model(out) =~= pre + seq![A::model(v)]);
                                assert(Self::model(out) =~= gathered(
                                    self.1,
                                    cfg,
                                    src,
                                    ks.take(i + 1),
                                ));
                            }
                        },
                        None => {
                            proof {
                                assert(Self::model(out) =~= gathered(
                                    self.1,
                                    cfg,
                                    src,
                                    ks.take(i + 1),
                                ));
                            }
                        },
                    }
                    i = i + 1;
                }
                proof {
                    assert(ks.take(n as int) =~= ks);
                }
                Some(out)
            },
            None => None,
        }
    }
}

} // verus!
