use vstd::prelude::*;
use crate::attrib::{Attribute, Getter, Keyed, OptionGetter};
use crate::data::{Database, DataCfg};
use crate::ids::PathId;
use crate::objects::Path;
use crate::source::Source;
use crate::table::tlookup;
use crate::TextGetter;

verus! {

/// A path's own id.
pub struct Id;

impl Attribute for Id {
    type Object = Path;
}

impl Getter for Id {
    type IntoItem = PathId;

    type ItemModel = u64;

    open spec fn model_total(it: PathId) -> u64 {
        it.0
    }

    open spec fn spec_get(self, cfg: DataCfg, src: Source, key: u64) -> u64 {
        key
    }

    fn get(&self, db: &mut Database, object: &Path) -> (r: PathId) {
        object.id()
    }
}

/// A path's string location, as the store records it.
pub struct Location;

impl Attribute for Location {
    type Object = Path;
}

impl OptionGetter for Location {
    type IntoItem = String;

    type ItemModel = Seq<char>;

    open spec fn model(it: String) -> Seq<char> {
        it@
    }

    open spec fn spec_get_opt(self, cfg: DataCfg, src: Source, key: u64) -> Option<Seq<char>> {
        tlookup::<String>(crate::data::eff_paths(cfg, src), key)
    }

    fn get_opt(&self, db: &mut Database, object: &Path) -> (r: Option<String>) {
        db.path_location(object.id)
    }
}

impl TextGetter for Location {
    proof fn lemma_model_is_view(it: String) {
    }
}

} // verus!
