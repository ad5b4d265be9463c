use vstd::prelude::*;

verus! {

/// A stored key/value entry attached to a post. Keys need not be unique per post.
#[derive(Clone, Debug, PartialEq)]
pub struct Model {
    pub meta_id: u64,
    pub post_id: u64,
    pub meta_key: String,
    pub meta_value: String,
}

impl Model {
    /// A field-by-field copy of the row.
    pub fn duplicate(&self) -> (r: Model)
        ensures
            r == *self,
    {
        Model {
            meta_id: self.meta_id,
            post_id: self.post_id,
            meta_key: self.meta_key.clone(),
            meta_value: self.meta_value.clone(),
        }
    }
}

} // verus!
