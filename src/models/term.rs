use vstd::prelude::*;

verus! {

/// A stored classification value, independent of any taxonomy.
#[derive(Clone, Debug, PartialEq)]
pub struct Model {
    pub term_id: u64,
    pub name: String,
    pub slug: String,
    pub term_group: i32,
}

impl Model {
    /// A field-by-field copy of the row.
    pub fn duplicate(&self) -> (r: Model)
        ensures
            r == *self,
    {
        Model {
            term_id: self.term_id,
            name: self.name.clone(),
            slug: self.slug.clone(),
            term_group: self.term_group,
        }
    }
}

} // verus!
