use vstd::prelude::*;

verus! {

/// A stored assignment of a term to a taxonomy kind such as "category".
/// `parent` refers to another term taxonomy; 0 marks a root.
#[derive(Clone, Debug, PartialEq)]
pub struct Model {
    pub term_taxonomy_id: u64,
    pub term_id: u64,
    pub taxonomy: String,
    pub description: String,
    pub parent: u64,
    pub count: i32,
}

impl Model {
    /// A field-by-field copy of the row.
    pub fn duplicate(&self) -> (r: Model)
        ensures
            r == *self,
    {
        Model {
            term_taxonomy_id: self.term_taxonomy_id,
            term_id: self.term_id,
            taxonomy: self.taxonomy.clone(),
            description: self.description.clone(),
            parent: self.parent,
            count: self.count,
        }
    }
}

} // verus!
