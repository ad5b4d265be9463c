use vstd::prelude::*;
use crate::models::post;
use crate::text::{contains_text, spec_contains};

verus! {

/// The status of a post that readers may see.
pub const PUBLISHED_STATUS: &'static str = "publish";

/// The status of a post that readers may see.
pub open spec fn published_status() -> Seq<char> {
    PUBLISHED_STATUS@
}

/// A conjunction of optional constraints on posts.
///
/// Each present field contributes one constraint; an absent field contributes
/// none. `search` is a disjunction: the text occurs in the title or in the
/// content. `ids` restricts posts to a set of identifiers.
#[derive(Debug, Clone)]
pub struct PostFilter {
    pub post_type: Option<String>,
    pub post_status: Option<String>,
    pub author_id: Option<u64>,
    pub search: Option<String>,
    pub ids: Option<Vec<u64>>,
}

/// The constraints of a filter as plain values.
pub struct FilterView {
    pub post_type: Option<Seq<char>>,
    pub post_status: Option<Seq<char>>,
    pub author_id: Option<u64>,
    pub search: Option<Seq<char>>,
    pub ids: Option<Seq<u64>>,
}

/// The view of an optional string.
pub open spec fn opt_text(o: Option<String>) -> Option<Seq<char>> {
    match o {
        Some(s) => Some(s@),
        None => None,
    }
}

/// An optional exact-match constraint on a text column.
pub open spec fn text_constraint(c: Option<Seq<char>>, value: Seq<char>) -> bool {
    match c {
        Some(t) => value == t,
        None => true,
    }
}

/// The free-text constraint: the text occurs in the title or in the content.
pub open spec fn search_constraint(c: Option<Seq<char>>, p: post::Model) -> bool {
    match c {
        Some(t) => spec_contains(p.post_title@, t) || spec_contains(p.post_content@, t),
        None => true,
    }
}

impl FilterView {
    /// The post satisfies every constraint.
    pub open spec fn admits(self, p: post::Model) -> bool {
        &&& text_constraint(self.post_type, p.post_type@)
        &&& text_constraint(self.post_status, p.post_status@)
        &&& match self.author_id {
            Some(a) => p.post_author == a,
            None => true,
        }
        &&& search_constraint(self.search, p)
        &&& match self.ids {
            Some(v) => v.contains(p.id),
            None => true,
        }
    }
}

impl View for PostFilter {
    type V = FilterView;

    open spec fn view(&self) -> FilterView {
        FilterView {
            post_type: opt_text(self.post_type),
            post_status: opt_text(self.post_status),
            author_id: self.author_id,
            search: opt_text(self.search),
            ids: match self.ids {
                Some(v) => Some(v@),
                None => None,
            },
        }
    }
}

/// The filter of the category listing: published posts among `ids`,
/// optionally narrowed by a search text.
pub open spec fn category_filter(ids: Seq<u64>, search: Option<Seq<char>>) -> FilterView {
    FilterView {
        post_type: None,
        post_status: Some(published_status()),
        author_id: None,
        search,
        ids: Some(ids),
    }
}

impl PostFilter {
    /// Builds the conjunction of the given constraints; absent ones add nothing.
    pub fn new(
        post_type: Option<String>,
        post_status: Option<String>,
        author_id: Option<u64>,
        search: Option<String>,
    ) -> (r: PostFilter)
        ensures
            r@ == (FilterView {
                post_type: opt_text(post_type),
                post_status: opt_text(post_status),
                author_id,
                search: opt_text(search),
                ids: None,
            }),
    {
        PostFilter { post_type, post_status, author_id, search, ids: None }
    }

    /// Published posts whose identifier is one of `ids` and, when `search`
    /// is given, whose title or content holds it.
    pub fn published_among(ids: Vec<u64>, search: Option<String>) -> (r: PostFilter)
        ensures
            r@ == category_filter(ids@, opt_text(search)),
    {
        PostFilter {
            post_type: None,
            post_status: Some(PUBLISHED_STATUS.to_owned()),
            author_id: None,
            search,
            ids: Some(ids),
        }
    }

    /// The published posts of type `post_type`.
    pub fn published_of_type(post_type: String) -> (r: PostFilter)
        ensures
            r@ == (FilterView {
                post_type: Some(post_type@),
                post_status: Some(published_status()),
                author_id: None,
                search: None,
                ids: None,
            }),
    {
        PostFilter {
            post_type: Some(post_type),
            post_status: Some(PUBLISHED_STATUS.to_owned()),
            author_id: None,
            search: None,
            ids: None,
        }
    }

    /// Whether the post satisfies every constraint of the filter.
    pub fn matches(&self, p: &post::Model) -> (r: bool)
        ensures
            r == self@.admits(*p),
    {
        if let Some(t) = &self.post_type {
            if p.post_type != *t {
                return false;
            }
        }
        if let Some(s) = &self.post_status {
            if p.post_status != *s {
                return false;
            }
        }
        if let Some(a) = self.author_id {
            if p.post_author != a {
                return false;
            }
        }
        if let Some(s) = &self.search {
            if !contains_text(&p.post_title, s) && !contains_text(&p.post_content, s) {
                return false;
            }
        }
        if let Some(v) = &self.ids {
            return id_listed(v, p.id);
        }
        true
    }
}

/// Whether `id` is one of `ids`.
pub fn id_listed(ids: &Vec<u64>, id: u64) -> (r: bool)
    ensures
        r == ids@.contains(id),
{
    let mut i: usize = 0;
    while i < ids.len()
        invariant
            i <= ids.len(),
            forall|k: int| 0 <= k < i ==> ids@[k] != id,
        decreases ids.len() - i,
    {
        if ids[i] == id {
            assert(ids@[i as int] == id);
            return true;
        }
        i = i + 1;
    }
    false
}

} // verus!
