//! Tuple projections: bundle several attributes of one entity kind into a
//! single attribute yielding a tuple of their values.

use vstd::prelude::*;
use crate::attrib::{Attribute, Keyed, OptionGetter};
use crate::data::{Database, DataCfg};
use crate::source::Source;

verus! {

/// Project 1 attribute of one entity at once.
pub struct Select1<Ta: Attribute>(pub Ta);

impl<T: Keyed, Ta> Attribute for Select1<Ta> where
    Ta: Attribute<Object = T>,
 {
    type Object = T;
}

impl<T: Keyed, Ta> OptionGetter for Select1<Ta> where
    Ta: Attribute<Object = T> + OptionGetter,
 {
    type IntoItem = (Option<Ta::IntoItem>,);

    type ItemModel = (Option<Ta::ItemModel>,);

    open spec fn model(it: Self::IntoItem) -> Self::ItemModel {
        (
            match it.0 { Some(v) => Some(Ta::model(v)), None => None },
        )
    }

    open spec fn spec_get_opt(self, cfg: DataCfg, src: Source, key: u64) -> Option<Self::ItemModel> {
        Some((
            self.0.spec_get_opt(cfg, src, key),
        ))
    }

    fn get_opt(&self, db: &mut Database, object: &T) -> (r: Option<Self::IntoItem>) {
        let v0 = self.0.get_opt(db, object);
        Some((v0,))
    }
}

/// Project 2 attributes of one entity at once.
pub struct Select2<Ta: Attribute, Tb: Attribute>(pub Ta, pub Tb);

impl<T: Keyed, Ta, Tb> Attribute for Select2<Ta, Tb> where
    Ta: Attribute<Object = T>, Tb: Attribute<Object = T>,
 {
    type Object = T;
}

impl<T: Keyed, Ta, Tb> OptionGetter for Select2<Ta, Tb> where
    Ta: Attribute<Object = T> + OptionGetter, Tb: Attribute<Object = T> + OptionGetter,
 {
    type IntoItem = (Option<Ta::IntoItem>, Option<Tb::IntoItem>,);

    type ItemModel = (Option<Ta::ItemModel>, Option<Tb::ItemModel>,);

    open spec fn model(it: Self::IntoItem) -> Self::ItemModel {
        (
            match it.0 { Some(v) => Some(Ta::model(v)), None => None }, match it.1 { Some(v) => Some(Tb::model(v)), None => None },
        )
    }

    open spec fn spec_get_opt(self, cfg: DataCfg, src: Source, key: u64) -> Option<Self::ItemModel> {
        Some((
            self.0.spec_get_opt(cfg, src, key), self.1.spec_get_opt(cfg, src, key),
        ))
    }

    fn get_opt(&self, db: &mut Database, object: &T) -> (r: Option<Self::IntoItem>) {
        let v0 = self.0.get_opt(db, object);
        let v1 = self.1.get_opt(db, object);
        Some((v0, v1,))
    }
}

/// Project 3 attributes of one entity at once.
pub struct Select3<Ta: Attribute, Tb: Attribute, Tc: Attribute>(pub Ta, pub Tb, pub Tc);

impl<T: Keyed, Ta, Tb, Tc> Attribute for Select3<Ta, Tb, Tc> where
    Ta: Attribute<Object = T>, Tb: Attribute<Object = T>, Tc: Attribute<Object = T>,
 {
    type Object = T;
}

impl<T: Keyed, Ta, Tb, Tc> OptionGetter for Select3<Ta, Tb, Tc> where
    Ta: Attribute<Object = T> + OptionGetter, Tb: Attribute<Object = T> + OptionGetter, Tc: Attribute<Object = T> + OptionGetter,
 {
    type IntoItem = (Option<Ta::IntoItem>, Option<Tb::IntoItem>, Option<Tc::IntoItem>,);

    type ItemModel = (Option<Ta::ItemModel>, Option<Tb::ItemModel>, Option<Tc::ItemModel>,);

    open spec fn model(it: Self::IntoItem) -> Self::ItemModel {
        (
            match it.0 { Some(v) => Some(Ta::model(v)), None => None }, match it.1 { Some(v) => Some(Tb::model(v)), None => None }, match it.2 { Some(v) => Some(Tc::model(v)), None => None },
        )
    }

    open spec fn spec_get_opt(self, cfg: DataCfg, src: Source, key: u64) -> Option<Self::ItemModel> {
        Some((
            self.0.spec_get_opt(cfg, src, key), self.1.spec_get_opt(cfg, src, key), self.2.spec_get_opt(cfg, src, key),
        ))
    }

    fn get_opt(&self, db: &mut Database, object: &T) -> (r: Option<Self::IntoItem>) {
        let v0 = self.0.get_opt(db, object);
        let v1 = self.1.get_opt(db, object);
        let v2 = self.2.get_opt(db, object);
        Some((v0, v1, v2,))
    }
}

/// Project 4 attributes of one entity at once.
pub struct Select4<Ta: Attribute, Tb: Attribute, Tc: Attribute, Td: Attribute>(pub Ta, pub Tb, pub Tc, pub Td);

impl<T: Keyed, Ta, Tb, Tc, Td> Attribute for Select4<Ta, Tb, Tc, Td> where
    Ta: Attribute<Object = T>, Tb: Attribute<Object = T>, Tc: Attribute<Object = T>, Td: Attribute<Object = T>,
 {
    type Object = T;
}

impl<T: Keyed, Ta, Tb, Tc, Td> OptionGetter for Select4<Ta, Tb, Tc, Td> where
    Ta: Attribute<Object = T> + OptionGetter, Tb: Attribute<Object = T> + OptionGetter, Tc: Attribute<Object = T> + OptionGetter, Td: Attribute<Object = T> + OptionGetter,
 {
    type IntoItem = (Option<Ta::IntoItem>, Option<Tb::IntoItem>, Option<Tc::IntoItem>, Option<Td::IntoItem>,);

    type ItemModel = (Option<Ta::ItemModel>, Option<Tb::ItemModel>, Option<Tc::ItemModel>, Option<Td::ItemModel>,);

    open spec fn model(it: Self::IntoItem) -> Self::ItemModel {
        (
            match it.0 { Some(v) => Some(Ta::model(v)), None => None }, match it.1 { Some(v) => Some(Tb::model(v)), None => None }, match it.2 { Some(v) => Some(Tc::model(v)), None => None }, match it.3 { Some(v) => Some(Td::model(v)), None => None },
        )
    }

    open spec fn spec_get_opt(self, cfg: DataCfg, src: Source, key: u64) -> Option<Self::ItemModel> {
        Some((
            self.0.spec_get_opt(cfg, src, key), self.1.spec_get_opt(cfg, src, key), self.2.spec_get_opt(cfg, src, key), self.3.spec_get_opt(cfg, src, key),
        ))
    }

    fn get_opt(&self, db: &mut Database, object: &T) -> (r: Option<Self::IntoItem>) {
        let v0 = self.0.get_opt(db, object);
        let v1 = self.1.get_opt(db, object);
        let v2 = self.2.get_opt(db, object);
        let v3 = self.3.get_opt(db, object);
        Some((v0, v1, v2, v3,))
    }
}

/// Project 5 attributes of one entity at once.
pub struct Select5<Ta: Attribute, Tb: Attribute, Tc: Attribute, Td: Attribute, Te: Attribute>(pub Ta, pub Tb, pub Tc, pub Td, pub Te);

impl<T: Keyed, Ta, Tb, Tc, Td, Te> Attribute for Select5<Ta, Tb, Tc, Td, Te> where
    Ta: Attribute<Object = T>, Tb: Attribute<Object = T>, Tc: Attribute<Object = T>, Td: Attribute<Object = T>, Te: Attribute<Object = T>,
 {
    type Object = T;
}

impl<T: Keyed, Ta, Tb, Tc, Td, Te> OptionGetter for Select5<Ta, Tb, Tc, Td, Te> where
    Ta: Attribute<Object = T> + OptionGetter, Tb: Attribute<Object = T> + OptionGetter, Tc: Attribute<Object = T> + OptionGetter, Td: Attribute<Object = T> + OptionGetter, Te: Attribute<Object = T> + OptionGetter,
 {
    type IntoItem = (Option<Ta::IntoItem>, Option<Tb::IntoItem>, Option<Tc::IntoItem>, Option<Td::IntoItem>, Option<Te::IntoItem>,);

    type ItemModel = (Option<Ta::ItemModel>, Option<Tb::ItemModel>, Option<Tc::ItemModel>, Option<Td::ItemModel>, Option<Te::ItemModel>,);

    open spec fn model(it: Self::IntoItem) -> Self::ItemModel {
        (
            match it.0 { Some(v) => Some(Ta::model(v)), None => None }, match it.1 { Some(v) => Some(Tb::model(v)), None => None }, match it.2 { Some(v) => Some(Tc::model(v)), None => None }, match it.3 { Some(v) => Some(Td::model(v)), None => None }, match it.4 { Some(v) => Some(Te::model(v)), None => None },
        )
    }

    open spec fn spec_get_opt(self, cfg: DataCfg, src: Source, key: u64) -> Option<Self::ItemModel> {
        Some((
            self.0.spec_get_opt(cfg, src, key), self.1.spec_get_opt(cfg, src, key), self.2.spec_get_opt(cfg, src, key), self.3.spec_get_opt(cfg, src, key), self.4.spec_get_opt(cfg, src, key),
        ))
    }

    fn get_opt(&self, db: &mut Database, object: &T) -> (r: Option<Self::IntoItem>) {
        let v0 = self.0.get_opt(db, object);
        let v1 = self.1.get_opt(db, object);
        let v2 = self.2.get_opt(db, object);
        let v3 = self.3.get_opt(db, object);
        let v4 = self.4.get_opt(db, object);
        Some((v0, v1, v2, v3, v4,))
    }
}

/// Project 6 attributes of one entity at once.
pub struct Select6<Ta: Attribute, Tb: Attribute, Tc: Attribute, Td: Attribute, Te: Attribute, Tf: Attribute>(pub Ta, pub Tb, pub Tc, pub Td, pub Te, pub Tf);

impl<T: Keyed, Ta, Tb, Tc, Td, Te, Tf> Attribute for Select6<Ta, Tb, Tc, Td, Te, Tf> where
    Ta: Attribute<Object = T>, Tb: Attribute<Object = T>, Tc: Attribute<Object = T>, Td: Attribute<Object = T>, Te: Attribute<Object = T>, Tf: Attribute<Object = T>,
 {
    type Object = T;
}

impl<T: Keyed, Ta, Tb, Tc, Td, Te, Tf> OptionGetter for Select6<Ta, Tb, Tc, Td, Te, Tf> where
    Ta: Attribute<Object = T> + OptionGetter, Tb: Attribute<Object = T> + OptionGetter, Tc: Attribute<Object = T> + OptionGetter, Td: Attribute<Object = T> + OptionGetter, Te: Attribute<Object = T> + OptionGetter, Tf: Attribute<Object = T> + OptionGetter,
 {
    type IntoItem = (Option<Ta::IntoItem>, Option<Tb::IntoItem>, Option<Tc::IntoItem>, Option<Td::IntoItem>, Option<Te::IntoItem>, Option<Tf::IntoItem>,);

    type ItemModel = (Option<Ta::ItemModel>, Option<Tb::ItemModel>, Option<Tc::ItemModel>, Option<Td::ItemModel>, Option<Te::ItemModel>, Option<Tf::ItemModel>,);

    open spec fn model(it: Self::IntoItem) -> Self::ItemModel {
        (
            match it.0 { Some(v) => Some(Ta::model(v)), None => None }, match it.1 { Some(v) => Some(Tb::model(v)), None => None }, match it.2 { Some(v) => Some(Tc::model(v)), None => None }, match it.3 { Some(v) => Some(Td::model(v)), None => None }, match it.4 { Some(v) => Some(Te::model(v)), None => None }, match it.5 { Some(v) => Some(Tf::model(v)), None => None },
        )
    }

    open spec fn spec_get_opt(self, cfg: DataCfg, src: Source, key: u64) -> Option<Self::ItemModel> {
        Some((
            self.0.spec_get_opt(cfg, src, key), self.1.spec_get_opt(cfg, src, key), self.2.spec_get_opt(cfg, src, key), self.3.spec_get_opt(cfg, src, key), self.4.spec_get_opt(cfg, src, key), self.5.spec_get_opt(cfg, src, key),
        ))
    }

    fn get_opt(&self, db: &mut Database, object: &T) -> (r: Option<Self::IntoItem>) {
        let v0 = self.0.get_opt(db, object);
        let v1 = self.1.get_opt(db, object);
        let v2 = self.2.get_opt(db, object);
        let v3 = self.3.get_opt(db, object);
        let v4 = self.4.get_opt(db, object);
        let v5 = self.5.get_opt(db, object);
        Some((v0, v1, v2, v3, v4, v5,))
    }
}

/// Project 7 attributes of one entity at once.
pub struct Select7<Ta: Attribute, Tb: Attribute, Tc: Attribute, Td: Attribute, Te: Attribute, Tf: Attribute, Tg: Attribute>(pub Ta, pub Tb, pub Tc, pub Td, pub Te, pub Tf, pub Tg);

impl<T: Keyed, Ta, Tb, Tc, Td, Te, Tf, Tg> Attribute for Select7<Ta, Tb, Tc, Td, Te, Tf, Tg> where
    Ta: Attribute<Object = T>, Tb: Attribute<Object = T>, Tc: Attribute<Object = T>, Td: Attribute<Object = T>, Te: Attribute<Object = T>, Tf: Attribute<Object = T>, Tg: Attribute<Object = T>,
 {
    type Object = T;
}

impl<T: Keyed, Ta, Tb, Tc, Td, Te, Tf, Tg> OptionGetter for Select7<Ta, Tb, Tc, Td, Te, Tf, Tg> where
    Ta: Attribute<Object = T> + OptionGetter, Tb: Attribute<Object = T> + OptionGetter, Tc: Attribute<Object = T> + OptionGetter, Td: Attribute<Object = T> + OptionGetter, Te: Attribute<Object = T> + OptionGetter, Tf: Attribute<Object = T> + OptionGetter, Tg: Attribute<Object = T> + OptionGetter,
 {
    type IntoItem = (Option<Ta::IntoItem>, Option<Tb::IntoItem>, Option<Tc::IntoItem>, Option<Td::IntoItem>, Option<Te::IntoItem>, Option<Tf::IntoItem>, Option<Tg::IntoItem>,);

    type ItemModel = (Option<Ta::ItemModel>, Option<Tb::ItemModel>, Option<Tc::ItemModel>, Option<Td::ItemModel>, Option<Te::ItemModel>, Option<Tf::ItemModel>, Option<Tg::ItemModel>,);

    open spec fn model(it: Self::IntoItem) -> Self::ItemModel {
        (
            match it.0 { Some(v) => Some(Ta::model(v)), None => None }, match it.1 { Some(v) => Some(Tb::model(v)), None => None }, match it.2 { Some(v) => Some(Tc::model(v)), None => None }, match it.3 { Some(v) => Some(Td::model(v)), None => None }, match it.4 { Some(v) => Some(Te::model(v)), None => None }, match it.5 { Some(v) => Some(Tf::model(v)), None => None }, match it.6 { Some(v) => Some(Tg::model(v)), None => None },
        )
    }

    open spec fn spec_get_opt(self, cfg: DataCfg, src: Source, key: u64) -> Option<Self::ItemModel> {
        Some((
            self.0.spec_get_opt(cfg, src, key), self.1.spec_get_opt(cfg, src, key), self.2.spec_get_opt(cfg, src, key), self.3.spec_get_opt(cfg, src, key), self.4.spec_get_opt(cfg, src, key), self.5.spec_get_opt(cfg, src, key), self.6.spec_get_opt(cfg, src, key),
        ))
    }

    fn get_opt(&self, db: &mut Database, object: &T) -> (r: Option<Self::IntoItem>) {
        let v0 = self.0.get_opt(db, object);
        let v1 = self.1.get_opt(db, object);
        let v2 = self.2.get_opt(db, object);
        let v3 = self.3.get_opt(db, object);
        let v4 = self.4.get_opt(db, object);
        let v5 = self.5.get_opt(db, object);
        let v6 = self.6.get_opt(db, object);
        Some((v0, v1, v2, v3, v4, v5, v6,))
    }
}

/// Project 8 attributes of one entity at once.
pub struct Select8<Ta: Attribute, Tb: Attribute, Tc: Attribute, Td: Attribute, Te: Attribute, Tf: Attribute, Tg: Attribute, Th: Attribute>(pub Ta, pub Tb, pub Tc, pub Td, pub Te, pub Tf, pub Tg, pub Th);

impl<T: Keyed, Ta, Tb, Tc, Td, Te, Tf, Tg, Th> Attribute for Select8<Ta, Tb, Tc, Td, Te, Tf, Tg, Th> where
    Ta: Attribute<Object = T>, Tb: Attribute<Object = T>, Tc: Attribute<Object = T>, Td: Attribute<Object = T>, Te: Attribute<Object = T>, Tf: Attribute<Object = T>, Tg: Attribute<Object = T>, Th: Attribute<Object = T>,
 {
    type Object = T;
}

impl<T: Keyed, Ta, Tb, Tc, Td, Te, Tf, Tg, Th> OptionGetter for Select8<Ta, Tb, Tc, Td, Te, Tf, Tg, Th> where
    Ta: Attribute<Object = T> + OptionGetter, Tb: Attribute<Object = T> + OptionGetter, Tc: Attribute<Object = T> + OptionGetter, Td: Attribute<Object = T> + OptionGetter, Te: Attribute<Object = T> + OptionGetter, Tf: Attribute<Object = T> + OptionGetter, Tg: Attribute<Object = T> + OptionGetter, Th: Attribute<Object = T> + OptionGetter,
 {
    type IntoItem = (Option<Ta::IntoItem>, Option<Tb::IntoItem>, Option<Tc::IntoItem>, Option<Td::IntoItem>, Option<Te::IntoItem>, Option<Tf::IntoItem>, Option<Tg::IntoItem>, Option<Th::IntoItem>,);

    type ItemModel = (Option<Ta::ItemModel>, Option<Tb::ItemModel>, Option<Tc::ItemModel>, Option<Td::ItemModel>, Option<Te::ItemModel>, Option<Tf::ItemModel>, Option<Tg::ItemModel>, Option<Th::ItemModel>,);

    open spec fn model(it: Self::IntoItem) -> Self::ItemModel {
        (
            match it.0 { Some(v) => Some(Ta::model(v)), None => None }, match it.1 { Some(v) => Some(Tb::model(v)), None => None }, match it.2 { Some(v) => Some(Tc::model(v)), None => None }, match it.3 { Some(v) => Some(Td::model(v)), None => None }, match it.4 { Some(v) => Some(Te::model(v)), None => None }, match it.5 { Some(v) => Some(Tf::model(v)), None => None }, match it.6 { Some(v) => Some(Tg::model(v)), None => None }, match it.7 { Some(v) => Some(Th::model(v)), None => None },
        )
    }

    open spec fn spec_get_opt(self, cfg: DataCfg, src: Source, key: u64) -> Option<Self::ItemModel> {
        Some((
            self.0.spec_get_opt(cfg, src, key), self.1.spec_get_opt(cfg, src, key), self.2.spec_get_opt(cfg, src, key), self.3.spec_get_opt(cfg, src, key), self.4.spec_get_opt(cfg, src, key), self.5.spec_get_opt(cfg, src, key), self.6.spec_get_opt(cfg, src, key), self.7.spec_get_opt(cfg, src, key),
        ))
    }

    fn get_opt(&self, db: &mut Database, object: &T) -> (r: Option<Self::IntoItem>) {
        let v0 = self.0.get_opt(db, object);
        let v1 = self.1.get_opt(db, object);
        let v2 = self.2.get_opt(db, object);
        let v3 = self.3.get_opt(db, object);
        let v4 = self.4.get_opt(db, object);
        let v5 = self.5.get_opt(db, object);
        let v6 = self.6.get_opt(db, object);
        let v7 = self.7.get_opt(db, object);
        Some((v0, v1, v2, v3, v4, v5, v6, v7,))
    }
}

/// Project 9 attributes of one entity at once.
pub struct Select9<Ta: Attribute, Tb: Attribute, Tc: Attribute, Td: Attribute, Te: Attribute, Tf: Attribute, Tg: Attribute, Th: Attribute, Ti: Attribute>(pub Ta, pub Tb, pub Tc, pub Td, pub Te, pub Tf, pub Tg, pub Th, pub Ti);

impl<T: Keyed, Ta, Tb, Tc, Td, Te, Tf, Tg, Th, Ti> Attribute for Select9<Ta, Tb, Tc, Td, Te, Tf, Tg, Th, Ti> where
    Ta: Attribute<Object = T>, Tb: Attribute<Object = T>, Tc: Attribute<Object = T>, Td: Attribute<Object = T>, Te: Attribute<Object = T>, Tf: Attribute<Object = T>, Tg: Attribute<Object = T>, Th: Attribute<Object = T>, Ti: Attribute<Object = T>,
 {
    type Object = T;
}

impl<T: Keyed, Ta, Tb, Tc, Td, Te, Tf, Tg, Th, Ti> OptionGetter for Select9<Ta, Tb, Tc, Td, Te, Tf, Tg, Th, Ti> where
    Ta: Attribute<Object = T> + OptionGetter, Tb: Attribute<Object = T> + OptionGetter, Tc: Attribute<Object = T> + OptionGetter, Td: Attribute<Object = T> + OptionGetter, Te: Attribute<Object = T> + OptionGetter, Tf: Attribute<Object = T> + OptionGetter, Tg: Attribute<Object = T> + OptionGetter, Th: Attribute<Object = T> + OptionGetter, Ti: Attribute<Object = T> + OptionGetter,
 {
    type IntoItem = (Option<Ta::IntoItem>, Option<Tb::IntoItem>, Option<Tc::IntoItem>, Option<Td::IntoItem>, Option<Te::IntoItem>, Option<Tf::IntoItem>, Option<Tg::IntoItem>, Option<Th::IntoItem>, Option<Ti::IntoItem>,);

    type ItemModel = (Option<Ta::ItemModel>, Option<Tb::ItemModel>, Option<Tc::ItemModel>, Option<Td::ItemModel>, Option<Te::ItemModel>, Option<Tf::ItemModel>, Option<Tg::ItemModel>, Option<Th::ItemModel>, Option<Ti::ItemModel>,);

    open spec fn model(it: Self::IntoItem) -> Self::ItemModel {
        (
            match it.0 { Some(v) => Some(Ta::model(v)), None => None }, match it.1 { Some(v) => Some(Tb::model(v)), None => None }, match it.2 { Some(v) => Some(Tc::model(v)), None => None }, match it.3 { Some(v) => Some(Td::model(v)), None => None }, match it.4 { Some(v) => Some(Te::model(v)), None => None }, match it.5 { Some(v) => Some(Tf::model(v)), None => None }, match it.6 { Some(v) => Some(Tg::model(v)), None => None }, match it.7 { Some(v) => Some(Th::model(v)), None => None }, match it.8 { Some(v) => Some(Ti::model(v)), None => None },
        )
    }

    open spec fn spec_get_opt(self, cfg: DataCfg, src: Source, key: u64) -> Option<Self::ItemModel> {
        Some((
            self.0.spec_get_opt(cfg, src, key), self.1.spec_get_opt(cfg, src, key), self.2.spec_get_opt(cfg, src, key), self.3.spec_get_opt(cfg, src, key), self.4.spec_get_opt(cfg, src, key), self.5.spec_get_opt(cfg, src, key), self.6.spec_get_opt(cfg, src, key), self.7.spec_get_opt(cfg, src, key), self.8.spec_get_opt(cfg, src, key),
        ))
    }

    fn get_opt(&self, db: &mut Database, object: &T) -> (r: Option<Self::IntoItem>) {
        let v0 = self.0.get_opt(db, object);
        let v1 = self.1.get_opt(db, object);
        let v2 = self.2.get_opt(db, object);
        let v3 = self.3.get_opt(db, object);
        let v4 = self.4.get_opt(db, object);
        let v5 = self.5.get_opt(db, object);
        let v6 = self.6.get_opt(db, object);
        let v7 = self.7.get_opt(db, object);
        let v8 = self.8.get_opt(db, object);
        Some((v0, v1, v2, v3, v4, v5, v6, v7, v8,))
    }
}

/// Project 10 attributes of one entity at once.
pub struct Select10<Ta: Attribute, Tb: Attribute, Tc: Attribute, Td: Attribute, Te: Attribute, Tf: Attribute, Tg: Attribute, Th: Attribute, Ti: Attribute, Tj: Attribute>(pub Ta, pub Tb, pub Tc, pub Td, pub Te, pub Tf, pub Tg, pub Th, pub Ti, pub Tj);

impl<T: Keyed, Ta, Tb, Tc, Td, Te, Tf, Tg, Th, Ti, Tj> Attribute for Select10<Ta, Tb, Tc, Td, Te, Tf, Tg, Th, Ti, Tj> where
    Ta: Attribute<Object = T>, Tb: Attribute<Object = T>, Tc: Attribute<Object = T>, Td: Attribute<Object = T>, Te: Attribute<Object = T>, Tf: Attribute<Object = T>, Tg: Attribute<Object = T>, Th: Attribute<Object = T>, Ti: Attribute<Object = T>, Tj: Attribute<Object = T>,
 {
    type Object = T;
}

impl<T: Keyed, Ta, Tb, Tc, Td, Te, Tf, Tg, Th, Ti, Tj> OptionGetter for Select10<Ta, Tb, Tc, Td, Te, Tf, Tg, Th, Ti, Tj> where
    Ta: Attribute<Object = T> + OptionGetter, Tb: Attribute<Object = T> + OptionGetter, Tc: Attribute<Object = T> + OptionGetter, Td: Attribute<Object = T> + OptionGetter, Te: Attribute<Object = T> + OptionGetter, Tf: Attribute<Object = T> + OptionGetter, Tg: Attribute<Object = T> + OptionGetter, Th: Attribute<Object = T> + OptionGetter, Ti: Attribute<Object = T> + OptionGetter, Tj: Attribute<Object = T> + OptionGetter,
 {
    type IntoItem = (Option<Ta::IntoItem>, Option<Tb::IntoItem>, Option<Tc::IntoItem>, Option<Td::IntoItem>, Option<Te::IntoItem>, Option<Tf::IntoItem>, Option<Tg::IntoItem>, Option<Th::IntoItem>, Option<Ti::IntoItem>, Option<Tj::IntoItem>,);

    type ItemModel = (Option<Ta::ItemModel>, Option<Tb::ItemModel>, Option<Tc::ItemModel>, Option<Td::ItemModel>, Option<Te::ItemModel>, Option<Tf::ItemModel>, Option<Tg::ItemModel>, Option<Th::ItemModel>, Option<Ti::ItemModel>, Option<Tj::ItemModel>,);

    open spec fn model(it: Self::IntoItem) -> Self::ItemModel {
        (
            match it.0 { Some(v) => Some(Ta::model(v)), None => None }, match it.1 { Some(v) => Some(Tb::model(v)), None => None }, match it.2 { Some(v) => Some(Tc::model(v)), None => None }, match it.3 { Some(v) => Some(Td::model(v)), None => None }, match it.4 { Some(v) => Some(Te::model(v)), None => None }, match it.5 { Some(v) => Some(Tf::model(v)), None => None }, match it.6 { Some(v) => Some(Tg::model(v)), None => None }, match it.7 { Some(v) => Some(Th::model(v)), None => None }, match it.8 { Some(v) => Some(Ti::model(v)), None => None }, match it.9 { Some(v) => Some(Tj::model(v)), None => None },
        )
    }

    open spec fn spec_get_opt(self, cfg: DataCfg, src: Source, key: u64) -> Option<Self::ItemModel> {
        Some((
            self.0.spec_get_opt(cfg, src, key), self.1.spec_get_opt(cfg, src, key), self.2.spec_get_opt(cfg, src, key), self.3.spec_get_opt(cfg, src, key), self.4.spec_get_opt(cfg, src, key), self.5.spec_get_opt(cfg, src, key), self.6.spec_get_opt(cfg, src, key), self.7.spec_get_opt(cfg, src, key), self.8.spec_get_opt(cfg, src, key), self.9.spec_get_opt(cfg, src, key),
        ))
    }

    fn get_opt(&self, db: &mut Database, object: &T) -> (r: Option<Self::IntoItem>) {
        let v0 = self.0.get_opt(db, object);
        let v1 = self.1.get_opt(db, object);
        let v2 = self.2.get_opt(db, object);
        let v3 = self.3.get_opt(db, object);
        let v4 = self.4.get_opt(db, object);
        let v5 = self.5.get_opt(db, object);
        let v6 = self.6.get_opt(db, object);
        let v7 = self.7.get_opt(db, object);
        let v8 = self.8.get_opt(db, object);
        let v9 = self.9.get_opt(db, object);
        Some((v0, v1, v2, v3, v4, v5, v6, v7, v8, v9,))
    }
}

} // verus!
