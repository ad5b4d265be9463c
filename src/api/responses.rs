use vstd::prelude::*;
use crate::models::{post, term, term_taxonomy};
use crate::query::pagination::{page_count, pages_for};

verus! {

/// Name, version and description of the service.
#[derive(Debug, Clone)]
pub struct RootResponse {
    pub title: String,
    pub version: String,
    pub description: String,
}

/// The fields of a post that callers see. Timestamps are seconds since the
/// Unix epoch; a missing timestamp stays missing.
#[derive(Debug, Clone, PartialEq)]
pub struct Post {
    pub id: u64,
    pub post_title: String,
    pub post_content: String,
    pub post_excerpt: String,
    pub post_status: String,
    pub post_type: String,
    pub post_author: u64,
    pub post_date: Option<i64>,
    pub post_modified: Option<i64>,
    pub guid: String,
    pub post_name: String,
    pub comment_count: i64,
}

impl From<post::Model> for Post {
    fn from(model: post::Model) -> (r: Post) {
        Post {
            id: model.id,
            post_title: model.post_title,
            post_content: model.post_content,
            post_excerpt: model.post_excerpt,
            post_status: model.post_status,
            post_type: model.post_type,
            post_author: model.post_author,
            post_date: model.post_date,
            post_modified: model.post_modified,
            guid: model.guid,
            post_name: model.post_name,
            comment_count: model.comment_count,
        }
    }
}

/// The caller-facing fields of a stored post.
pub open spec fn to_post(model: post::Model) -> Post {
    Post {
        id: model.id,
        post_title: model.post_title,
        post_content: model.post_content,
        post_excerpt: model.post_excerpt,
        post_status: model.post_status,
        post_type: model.post_type,
        post_author: model.post_author,
        post_date: model.post_date,
        post_modified: model.post_modified,
        guid: model.guid,
        post_name: model.post_name,
        comment_count: model.comment_count,
    }
}

/// The caller-facing posts of a sequence of stored posts.
pub open spec fn to_posts(models: Seq<post::Model>) -> Seq<Post> {
    models.map_values(|m: post::Model| to_post(m))
}

impl vstd::std_specs::convert::FromSpecImpl<post::Model> for Post {
    open spec fn obeys_from_spec() -> bool {
        true
    }

    open spec fn from_spec(model: post::Model) -> Post {
        to_post(model)
    }
}

impl Post {
    /// The caller-facing posts of the stored posts, in the same order.
    pub fn from_models(models: Vec<post::Model>) -> (r: Vec<Post>)
        ensures
            r@ == to_posts(models@),
    {
        let mut r: Vec<Post> = Vec::new();
        let mut i: usize = 0;
        while i < models.len()
            invariant
                i <= models.len(),
                r@ == to_posts(models@.subrange(0, i as int)),
            decreases models.len() - i,
        {
            let p = Post::from(models[i].duplicate());
            r.push(p);
            assert(r@ =~= to_posts(models@.subrange(0, i + 1)));
            i = i + 1;
        }
        assert(models@.subrange(0, i as int) =~= models@);
        r
    }
}

/// One page of a listing with its page metadata.
#[derive(Debug, Clone)]
pub struct PaginatedResponse<T> {
    pub items: Vec<T>,
    pub total: u64,
    pub page: u64,
    pub size: u64,
    pub pages: u64,
    pub has_next: bool,
    pub has_prev: bool,
}

impl<T> PaginatedResponse<T> {
    /// Wraps one page of `total` items with its metadata: `pages` is
    /// `ceil(total / size)` (zero when `size` is zero), `has_next` tells whether
    /// `page < pages` and `has_prev` whether `page > 1`.
    pub fn new(items: Vec<T>, total: u64, page: u64, size: u64) -> (r: Self)
        ensures
            r.items == items,
            r.total == total,
            r.page == page,
            r.size == size,
            r.pages == page_count(total as int, size as int),
            r.has_next == (page < r.pages),
            r.has_prev == (page > 1),
    {
        let pages = pages_for(total, size);
        PaginatedResponse { items, total, page, size, pages, has_next: page < pages, has_prev: page > 1 }
    }
}

/// A post type with its number of posts and of published posts.
#[derive(Debug, Clone, PartialEq)]
pub struct PostType {
    pub name: String,
    pub count: u64,
    pub published_count: u64,
}

/// The metadata of one post as key/value pairs with distinct keys.
#[derive(Debug, Clone, PartialEq)]
pub struct PostMeta {
    pub meta: Vec<(String, String)>,
}

/// A category: a term joined with its "category" taxonomy row.
#[derive(Debug, Clone, PartialEq)]
pub struct Category {
    pub term_id: u64,
    pub name: String,
    pub slug: String,
    pub description: String,
    pub parent: u64,
    pub count: i32,
}

impl From<(term_taxonomy::Model, term::Model)> for Category {
    fn from(data: (term_taxonomy::Model, term::Model)) -> (r: Category) {
        let (taxonomy, term) = data;
        Category {
            term_id: term.term_id,
            name: term.name,
            slug: term.slug,
            description: taxonomy.description,
            parent: taxonomy.parent,
            count: taxonomy.count,
        }
    }
}

/// The category of a taxonomy row joined with its term.
pub open spec fn to_category(data: (term_taxonomy::Model, term::Model)) -> Category {
    Category {
        term_id: data.1.term_id,
        name: data.1.name,
        slug: data.1.slug,
        description: data.0.description,
        parent: data.0.parent,
        count: data.0.count,
    }
}

/// The categories of a sequence of joined rows.
pub open spec fn to_categories(entries: Seq<(term_taxonomy::Model, term::Model)>) -> Seq<Category> {
    entries.map_values(|e: (term_taxonomy::Model, term::Model)| to_category(e))
}

impl vstd::std_specs::convert::FromSpecImpl<(term_taxonomy::Model, term::Model)> for Category {
    open spec fn obeys_from_spec() -> bool {
        true
    }

    open spec fn from_spec(data: (term_taxonomy::Model, term::Model)) -> Category {
        to_category(data)
    }
}

impl Category {
    /// The categories of the joined rows, in the same order.
    pub fn from_entries(entries: Vec<(term_taxonomy::Model, term::Model)>) -> (r: Vec<Category>)
        ensures
            r@ == to_categories(entries@),
    {
        let mut r: Vec<Category> = Vec::new();
        let mut i: usize = 0;
        while i < entries.len()
            invariant
                i <= entries.len(),
                r@ == to_categories(entries@.subrange(0, i as int)),
            decreases entries.len() - i,
        {
            let c = Category::from((entries[i].0.duplicate(), entries[i].1.duplicate()));
            r.push(c);
            assert(r@ =~= to_categories(entries@.subrange(0, i + 1)));
            i = i + 1;
        }
        assert(entries@.subrange(0, i as int) =~= entries@);
        r
    }
}

} // verus!
