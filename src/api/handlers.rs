use vstd::prelude::*;
use crate::api::responses::{
    to_categories, to_posts, Category, PaginatedResponse, Post, PostMeta, PostType, to_post,
};
use crate::db::queries::{self, valid_search, visible};
use crate::db::store::{
    category_entries, category_result, collapse, meta_rows, pairs_view, post_with_id, result_page,
    result_total, Store,
};
use crate::error::ApiError;
use crate::query::aggregate::{post_type_counts, rows_of};
use crate::query::filter::{opt_text, published_status, FilterView, PUBLISHED_STATUS};
use crate::query::pagination::{page_count, page_of, valid_page_request, MAX_PAGE_SIZE};
use crate::text::{char_count, same_text};

verus! {

/// Page size of post listings when the caller gives none.
pub const DEFAULT_PAGE_SIZE: u64 = 10;

/// Page size of the category listing when the caller gives none.
pub const DEFAULT_CATEGORY_PAGE_SIZE: u64 = 20;

/// Parameters of the general post listing, as the caller sent them.
#[derive(Debug, Clone)]
pub struct GetPostsQuery {
    pub post_type: Option<String>,
    pub post_status: Option<String>,
    pub page: Option<u64>,
    pub page_size: Option<u64>,
    pub search: Option<String>,
    pub author_id: Option<i64>,
}

/// Parameters of the listing of one post type.
#[derive(Debug, Clone)]
pub struct GetPostsTypeQuery {
    pub post_status: Option<String>,
    pub page: Option<u64>,
    pub page_size: Option<u64>,
}

/// Parameters of the category listing.
#[derive(Debug, Clone, Copy)]
pub struct GetCategoriesQuery {
    pub page: Option<u64>,
    pub page_size: Option<u64>,
}

/// Parameters of the listing of one category's posts.
#[derive(Debug, Clone, Copy)]
pub struct GetPostsCategoryQuery {
    pub page: Option<u64>,
    pub page_size: Option<u64>,
}

/// A validated general post listing with every default applied.
#[derive(Debug, Clone)]
pub struct PostsRequest {
    pub post_type: Option<String>,
    pub post_status: Option<String>,
    pub page: u64,
    pub page_size: u64,
    pub search: Option<String>,
    pub author_id: Option<u64>,
}

/// The post statuses a caller may ask for.
pub open spec fn recognized_status(s: Seq<char>) -> bool {
    s == "publish"@ || s == "draft"@ || s == "private"@ || s == "pending"@ || s == "future"@ || s
        == "trash"@ || s == "auto-draft"@
}

/// Optional paging parameters are acceptable: no page 0, and a page size,
/// when given, in `[1, MAX_PAGE_SIZE]`.
pub open spec fn valid_page_params(page: Option<u64>, size: Option<u64>) -> bool {
    &&& page != Some(0u64)
    &&& match size {
        Some(s) => 1 <= s <= MAX_PAGE_SIZE,
        None => true,
    }
}

/// `o`'s value, or `d` when absent.
pub open spec fn or_default(o: Option<u64>, d: u64) -> u64 {
    match o {
        Some(v) => v,
        None => d,
    }
}

/// The general listing's parameters are acceptable.
pub open spec fn valid_posts_query(q: GetPostsQuery) -> bool {
    &&& valid_page_params(q.page, q.page_size)
    &&& (q.post_type matches Some(t) ==> t@.len() > 0)
    &&& (q.post_status matches Some(s) ==> recognized_status(s@))
    &&& (q.author_id matches Some(a) ==> a > 0)
    &&& valid_search(q.search)
}

/// The status the general listing filters on: the one asked for, else "publish".
pub open spec fn requested_status(q: GetPostsQuery) -> Seq<char> {
    match q.post_status {
        Some(s) => s@,
        None => published_status(),
    }
}

/// The filter of a valid general listing.
pub open spec fn posts_query_filter(q: GetPostsQuery) -> FilterView {
    FilterView {
        post_type: opt_text(q.post_type),
        post_status: Some(requested_status(q)),
        author_id: match q.author_id {
            Some(a) => Some(a as u64),
            None => None,
        },
        search: opt_text(q.search),
        ids: None,
    }
}

/// `resp` is the page `items` of `total` results at `page` of `size`, with
/// its page metadata.
pub open spec fn is_page_response<T>(
    resp: PaginatedResponse<T>,
    items: Seq<T>,
    total: int,
    page: int,
    size: int,
) -> bool {
    &&& resp.items@ == items
    &&& resp.total == total
    &&& resp.page == page
    &&& resp.size == size
    &&& resp.pages == page_count(total, size)
    &&& resp.has_next == (page < resp.pages)
    &&& resp.has_prev == (page > 1)
}

/// The status filter of the listing of one type: only when asked for.
pub open spec fn type_query_valid(post_type: Seq<char>, q: GetPostsTypeQuery) -> bool {
    &&& post_type.len() > 0
    &&& valid_page_params(q.page, q.page_size)
    &&& (q.post_status matches Some(s) ==> recognized_status(s@))
}

/// Whether `s` is one of the post statuses a caller may ask for.
pub fn is_recognized_status(s: &String) -> (r: bool)
    ensures
        r == recognized_status(s@),
{
    same_text(s, "publish") || same_text(s, "draft") || same_text(s, "private") || same_text(
        s,
        "pending",
    ) || same_text(s, "future") || same_text(s, "trash") || same_text(s, "auto-draft")
}

/// Checks optional paging parameters and applies the defaults: page 1 and
/// `default_size`.
pub fn resolve_page(page: Option<u64>, page_size: Option<u64>, default_size: u64) -> (r: Result<
    (u64, u64),
    ApiError,
>)
    requires
        1 <= default_size <= MAX_PAGE_SIZE,
    ensures
        r is Ok <==> valid_page_params(page, page_size),
        r matches Err(e) ==> e.is_bad_request(),
        r matches Ok(v) ==> v.0 == or_default(page, 1) && v.1 == or_default(
            page_size,
            default_size,
        ) && valid_page_request(v.0 as int, v.1 as int),
{
    if let Some(p) = page {
        if p == 0 {
            return Err(ApiError::BadRequest("Page number must be greater than 0".to_owned()));
        }
    }
    if let Some(s) = page_size {
        if s == 0 {
            return Err(ApiError::BadRequest("Page size must be greater than 0".to_owned()));
        }
        if s > MAX_PAGE_SIZE {
            return Err(ApiError::BadRequest("Maximum page size is 100".to_owned()));
        }
    }
    let p = match page {
        Some(p) => p,
        None => 1,
    };
    let s = match page_size {
        Some(s) => s,
        None => default_size,
    };
    Ok((p, s))
}

/// Accepts a positive identifier as sent by a caller.
pub fn positive_id(raw: i64) -> (r: Result<u64, ApiError>)
    ensures
        r is Ok <==> raw > 0,
        r matches Ok(v) ==> v == raw,
        r matches Err(e) ==> e.is_bad_request(),
{
    if raw <= 0 {
        Err(ApiError::BadRequest("ID must be a positive integer".to_owned()))
    } else {
        Ok(raw as u64)
    }
}

fn copy_text(o: &Option<String>) -> (r: Option<String>)
    ensures
        r == *o,
{
    match o {
        Some(s) => Some(s.clone()),
        None => None,
    }
}

fn check_status(status: &Option<String>) -> (r: Result<(), ApiError>)
    ensures
        r is Ok <==> (*status matches Some(s) ==> recognized_status(s@)),
        r matches Err(e) ==> e.is_bad_request(),
{
    if let Some(s) = status {
        if !is_recognized_status(s) {
            return Err(
                ApiError::BadRequest(
                    "Invalid post status. Valid statuses are: publish, draft, private, pending, future, trash, auto-draft".to_owned(),
                ),
            );
        }
    }
    Ok(())
}

impl GetPostsQuery {
    /// Validates the parameters and applies the defaults: status "publish",
    /// page 1 and page size `DEFAULT_PAGE_SIZE`.
    pub fn to_request(&self) -> (r: Result<PostsRequest, ApiError>)
        ensures
            r is Ok <==> valid_posts_query(*self),
            r matches Err(e) ==> e.is_bad_request(),
            r matches Ok(req) ==> ({
                &&& req.post_type == self.post_type
                &&& (req.post_status matches Some(s) && s@ == requested_status(*self))
                &&& req.page == or_default(self.page, 1)
                &&& req.page_size == or_default(self.page_size, DEFAULT_PAGE_SIZE)
                &&& valid_page_request(req.page as int, req.page_size as int)
                &&& req.search == self.search
                &&& req.author_id == match self.author_id {
                    Some(a) => Some(a as u64),
                    None => None::<u64>,
                }
            }),
    {
        let (page, page_size) = resolve_page(self.page, self.page_size, DEFAULT_PAGE_SIZE)?;
        if let Some(t) = &self.post_type {
            if char_count(t) == 0 {
                return Err(ApiError::BadRequest("Post type cannot be empty".to_owned()));
            }
        }
        check_status(&self.post_status)?;
        let author_id = match self.author_id {
            Some(a) => Some(positive_id(a)?),
            None => None,
        };
        queries::check_search(&self.search)?;
        let post_status = match &self.post_status {
            Some(s) => s.clone(),
            None => PUBLISHED_STATUS.to_owned(),
        };
        Ok(
            PostsRequest {
                post_type: copy_text(&self.post_type),
                post_status: Some(post_status),
                page,
                page_size,
                search: copy_text(&self.search),
                author_id,
            },
        )
    }
}

impl GetPostsTypeQuery {
    /// Validates the listing of type `post_type` and applies the defaults:
    /// page 1 and page size `DEFAULT_PAGE_SIZE`.
    pub fn to_page(&self, post_type: &String) -> (r: Result<(u64, u64), ApiError>)
        ensures
            r is Ok <==> type_query_valid(post_type@, *self),
            r matches Err(e) ==> e.is_bad_request(),
            r matches Ok(v) ==> v.0 == or_default(self.page, 1) && v.1 == or_default(
                self.page_size,
                DEFAULT_PAGE_SIZE,
            ) && valid_page_request(v.0 as int, v.1 as int),
    {
        if char_count(post_type) == 0 {
            return Err(ApiError::BadRequest("Post type cannot be empty".to_owned()));
        }
        let page = resolve_page(self.page, self.page_size, DEFAULT_PAGE_SIZE)?;
        check_status(&self.post_status)?;
        Ok(page)
    }
}

/// The general post listing over a snapshot.
pub fn get_posts(query: &GetPostsQuery, db: &Store) -> (r: Result<PaginatedResponse<Post>, ApiError>)
    ensures
        r is Ok <==> valid_posts_query(*query),
        r matches Err(e) ==> e.is_bad_request(),
        r matches Ok(resp) ==> ({
            let f = posts_query_filter(*query);
            let page = or_default(query.page, 1) as int;
            let size = or_default(query.page_size, DEFAULT_PAGE_SIZE) as int;
            is_page_response(
                resp,
                to_posts(result_page(db.posts@, f, page, size)),
                result_total(db.posts@, f) as int,
                page,
                size,
            )
        }),
{
    let req = query.to_request()?;
    let (posts, total) = match queries::get_posts(
        db,
        req.post_type,
        req.post_status,
        req.page,
        req.page_size,
        req.search,
        req.author_id,
    ) {
        Ok(v) => v,
        Err(e) => {
            return Err(e);
        },
    };
    Ok(PaginatedResponse::new(Post::from_models(posts), total, req.page, req.page_size))
}

/// One published post by identifier over a snapshot. A missing post and an
/// unpublished one both give `NotFound`.
pub fn get_post(post_id: i64, db: &Store) -> (r: Result<Post, ApiError>)
    ensures
        post_id <= 0 ==> (r matches Err(e) && e.is_bad_request()),
        post_id > 0 ==> match post_with_id(db.posts@, post_id as u64) {
            None => r matches Err(e) && e.is_not_found(),
            Some(p) => if visible(p, true) {
                r == Ok::<Post, ApiError>(to_post(p))
            } else {
                r matches Err(e) && e.is_not_found()
            },
        },
{
    let id = positive_id(post_id)?;
    let post = queries::get_post_by_id(db, id, true)?;
    Ok(Post::from(post))
}

/// The metadata of one published post over a snapshot.
pub fn get_post_meta(post_id: i64, db: &Store) -> (r: Result<PostMeta, ApiError>)
    ensures
        post_id <= 0 ==> (r matches Err(e) && e.is_bad_request()),
        post_id > 0 ==> match post_with_id(db.posts@, post_id as u64) {
            None => r matches Err(e) && e.is_not_found(),
            Some(p) => if visible(p, true) {
                r matches Ok(m) && pairs_view(m.meta@) == collapse(meta_rows(db.postmeta@, p.id))
            } else {
                r matches Err(e) && e.is_not_found()
            },
        },
{
    let id = positive_id(post_id)?;
    let meta = queries::get_post_meta(db, id)?;
    Ok(PostMeta { meta })
}

/// Every post type with its counts over a snapshot.
pub fn get_post_types(db: &Store) -> (r: Vec<PostType>)
    ensures
        rows_of(r@) == post_type_counts(db.posts@),
{
    queries::get_post_types(db)
}

/// The listing of one post type over a snapshot; no status filter unless
/// one is asked for.
pub fn get_posts_by_type(post_type: &String, query: &GetPostsTypeQuery, db: &Store) -> (r: Result<
    PaginatedResponse<Post>,
    ApiError,
>)
    ensures
        r is Ok <==> type_query_valid(post_type@, *query),
        r matches Err(e) ==> e.is_bad_request(),
        r matches Ok(resp) ==> ({
            let f = FilterView {
                post_type: Some(post_type@),
                post_status: opt_text(query.post_status),
                author_id: None,
                search: None,
                ids: None,
            };
            let page = or_default(query.page, 1) as int;
            let size = or_default(query.page_size, DEFAULT_PAGE_SIZE) as int;
            is_page_response(
                resp,
                to_posts(result_page(db.posts@, f, page, size)),
                result_total(db.posts@, f) as int,
                page,
                size,
            )
        }),
{
    let (page, page_size) = query.to_page(post_type)?;
    let (posts, total) = match queries::get_posts_by_type(
        db,
        post_type,
        copy_text(&query.post_status),
        page,
        page_size,
    ) {
        Ok(v) => v,
        Err(e) => {
            return Err(e);
        },
    };
    Ok(PaginatedResponse::new(Post::from_models(posts), total, page, page_size))
}

/// The category listing over a snapshot.
pub fn get_categories(query: &GetCategoriesQuery, db: &Store) -> (r: Result<
    PaginatedResponse<Category>,
    ApiError,
>)
    ensures
        r is Ok <==> valid_page_params(query.page, query.page_size),
        r matches Err(e) ==> e.is_bad_request(),
        r matches Ok(resp) ==> ({
            let entries = category_entries(db.term_taxonomies@, db.terms@);
            let page = or_default(query.page, 1) as int;
            let size = or_default(query.page_size, DEFAULT_CATEGORY_PAGE_SIZE) as int;
            is_page_response(
                resp,
                to_categories(page_of(entries, page, size)),
                entries.len() as int,
                page,
                size,
            )
        }),
{
    let (page, page_size) = resolve_page(query.page, query.page_size, DEFAULT_CATEGORY_PAGE_SIZE)?;
    let (entries, total) = match queries::get_categories(db, page, page_size) {
        Ok(v) => v,
        Err(e) => {
            return Err(e);
        },
    };
    Ok(PaginatedResponse::new(Category::from_entries(entries), total, page, page_size))
}

/// The listing of one category's published posts over a snapshot.
pub fn get_posts_by_category(category_id: i64, query: &GetPostsCategoryQuery, db: &Store) -> (r:
    Result<PaginatedResponse<Post>, ApiError>)
    ensures
        r is Ok <==> category_id > 0 && valid_page_params(query.page, query.page_size),
        r matches Err(e) ==> e.is_bad_request(),
        r matches Ok(resp) ==> ({
            let page = or_default(query.page, 1) as int;
            let size = or_default(query.page_size, DEFAULT_PAGE_SIZE) as int;
            let res = category_result(*db, category_id as u64, None, page, size);
            is_page_response(resp, to_posts(res.0), res.1 as int, page, size)
        }),
{
    let id = positive_id(category_id)?;
    let (page, page_size) = resolve_page(query.page, query.page_size, DEFAULT_PAGE_SIZE)?;
    let (posts, total) = match queries::get_posts_by_category(db, id, page, page_size) {
        Ok(v) => v,
        Err(e) => {
            return Err(e);
        },
    };
    Ok(PaginatedResponse::new(Post::from_models(posts), total, page, page_size))
}

} // verus!
