use vstd::prelude::*;

verus! {

/// A stored edge between a post (`object_id`) and a term taxonomy.
#[derive(Clone, Copy, Debug, PartialEq, Eq)]
pub struct Model {
    pub object_id: u64,
    pub term_taxonomy_id: u64,
    pub term_order: i32,
}

} // verus!
