use vstd::prelude::*;

verus! {

/// A stored post row.
///
/// Timestamps are whole seconds since the Unix epoch (UTC); a missing
/// timestamp is `None` and is never replaced by a default.
/// `comment_count` is passed through as stored, negative values included.
#[derive(Clone, Debug, PartialEq)]
pub struct Model {
    pub id: u64,
    pub post_author: u64,
    pub post_date: Option<i64>,
    pub post_date_gmt: Option<i64>,
    pub post_content: String,
    pub post_title: String,
    pub post_excerpt: String,
    pub post_status: String,
    pub comment_status: String,
    pub ping_status: String,
    pub post_password: String,
    pub post_name: String,
    pub to_ping: String,
    pub pinged: String,
    pub post_modified: Option<i64>,
    pub post_modified_gmt: Option<i64>,
    pub post_content_filtered: String,
    pub post_parent: u64,
    pub guid: String,
    pub menu_order: i32,
    pub post_type: String,
    pub post_mime_type: String,
    pub comment_count: i64,
}

impl Model {
    /// A field-by-field copy of the row.
    pub fn duplicate(&self) -> (r: Model)
        ensures
            r == *self,
    {
        Model {
            id: self.id,
            post_author: self.post_author,
            post_date: self.post_date,
            post_date_gmt: self.post_date_gmt,
            post_content: self.post_content.clone(),
            post_title: self.post_title.clone(),
            post_excerpt: self.post_excerpt.clone(),
            post_status: self.post_status.clone(),
            comment_status: self.comment_status.clone(),
            ping_status: self.ping_status.clone(),
            post_password: self.post_password.clone(),
            post_name: self.post_name.clone(),
            to_ping: self.to_ping.clone(),
            pinged: self.pinged.clone(),
            post_modified: self.post_modified,
            post_modified_gmt: self.post_modified_gmt,
            post_content_filtered: self.post_content_filtered.clone(),
            post_parent: self.post_parent,
            guid: self.guid.clone(),
            menu_order: self.menu_order,
            post_type: self.post_type.clone(),
            post_mime_type: self.post_mime_type.clone(),
            comment_count: self.comment_count,
        }
    }
}

} // verus!
