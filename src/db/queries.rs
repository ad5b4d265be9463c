use vstd::prelude::*;
use crate::api::responses::PostType;
use crate::db::store::{
    category_entries, category_result, collapse, listing_filter, meta_rows, pairs_view,
    post_with_id, result_page, result_total, Store,
};
use crate::error::ApiError;
use crate::models::{post, term, term_taxonomy};
use crate::query::aggregate::{post_type_counts, rows_of};
use crate::query::filter::{published_status, PUBLISHED_STATUS};
use crate::query::pagination::{check_page_request, page_of, valid_page_request};
use crate::text::{char_count, same_text};

verus! {

/// Fewest characters a search text may have.
pub const MIN_SEARCH_CHARS: usize = 3;

/// A search text, when given, has at least `MIN_SEARCH_CHARS` characters.
pub open spec fn valid_search(search: Option<String>) -> bool {
    match search {
        Some(s) => s@.len() >= MIN_SEARCH_CHARS,
        None => true,
    }
}

/// Whether a caller may see the post: any post when publication is not
/// required, else only a published one.
pub open spec fn visible(p: post::Model, ensure_published: bool) -> bool {
    !ensure_published || p.post_status@ == published_status()
}

/// Accepts an absent search text or one of at least three characters.
pub fn check_search(search: &Option<String>) -> (r: Result<(), ApiError>)
    ensures
        r is Ok <==> valid_search(*search),
        r matches Err(e) ==> e.is_bad_request(),
{
    if let Some(s) = search {
        if char_count(s) < MIN_SEARCH_CHARS {
            return Err(
                ApiError::BadRequest("Search term must be at least 3 characters long".to_owned()),
            );
        }
    }
    Ok(())
}

/// Decides what a lookup of post `post_id` answers once the stored row (if
/// any) is known: a missing post and a hidden one are both `NotFound`.
pub fn visible_post(found: Option<post::Model>, ensure_published: bool) -> (r: Result<
    post::Model,
    ApiError,
>)
    ensures
        found is None ==> (r matches Err(e) && e.is_not_found()),
        found matches Some(p) ==> if visible(p, ensure_published) {
            r == Ok::<post::Model, ApiError>(p)
        } else {
            r matches Err(e) && e.is_not_found()
        },
{
    match found {
        Some(p) => {
            if ensure_published && !same_text(&p.post_status, PUBLISHED_STATUS) {
                Err(ApiError::NotFound("Published post not found".to_owned()))
            } else {
                Ok(p)
            }
        },
        None => Err(ApiError::NotFound("Post not found".to_owned())),
    }
}

/// Lists posts by optional type, status, author and search text: one page in
/// canonical order and the total. Fails with `BadRequest` on a page below 1,
/// a page size outside `[1, 100]` or a search text under three characters.
pub fn get_posts(
    db: &Store,
    post_type: Option<String>,
    post_status: Option<String>,
    page: u64,
    page_size: u64,
    search: Option<String>,
    author_id: Option<u64>,
) -> (r: Result<(Vec<post::Model>, u64), ApiError>)
    ensures
        r is Ok <==> valid_page_request(page as int, page_size as int) && valid_search(search),
        r matches Err(e) ==> e.is_bad_request(),
        r matches Ok(res) ==> ({
            let f = listing_filter(post_type, post_status, author_id, search);
            res.0@ == result_page(db.posts@, f, page as int, page_size as int) && res.1
                == result_total(db.posts@, f)
        }),
{
    check_page_request(page, page_size)?;
    check_search(&search)?;
    Ok(db.find_posts(post_type, post_status, page, page_size, search, author_id))
}

/// Fetches one post. Fails with `BadRequest` on identifier 0, and with
/// `NotFound` when no post has the identifier or when `ensure_published`
/// holds and the post is not published: the two cases look the same.
pub fn get_post_by_id(db: &Store, post_id: u64, ensure_published: bool) -> (r: Result<
    post::Model,
    ApiError,
>)
    ensures
        post_id == 0 ==> (r matches Err(e) && e.is_bad_request()),
        post_id > 0 ==> match post_with_id(db.posts@, post_id) {
            None => r matches Err(e) && e.is_not_found(),
            Some(p) => if visible(p, ensure_published) {
                r == Ok::<post::Model, ApiError>(p)
            } else {
                r matches Err(e) && e.is_not_found()
            },
        },
{
    if post_id == 0 {
        return Err(ApiError::BadRequest("Post ID must be a positive integer".to_owned()));
    }
    visible_post(db.find_by_id(post_id), ensure_published)
}

/// Lists the posts of one type, optionally of one status: one page and the
/// total. Fails with `BadRequest` on an empty type or a bad page request.
pub fn get_posts_by_type(
    db: &Store,
    post_type: &String,
    post_status: Option<String>,
    page: u64,
    page_size: u64,
) -> (r: Result<(Vec<post::Model>, u64), ApiError>)
    ensures
        r is Ok <==> post_type@.len() > 0 && valid_page_request(page as int, page_size as int),
        r matches Err(e) ==> e.is_bad_request(),
        r matches Ok(res) ==> ({
            let f = listing_filter(Some(*post_type), post_status, None, None);
            res.0@ == result_page(db.posts@, f, page as int, page_size as int) && res.1
                == result_total(db.posts@, f)
        }),
{
    if char_count(post_type) == 0 {
        return Err(ApiError::BadRequest("Post type cannot be empty".to_owned()));
    }
    check_page_request(page, page_size)?;
    Ok(db.find_by_type(post_type, post_status, page, page_size, None))
}

/// Every distinct post type with its total and published counts, by total
/// descending, equal totals in ascending order of name.
pub fn get_post_types(db: &Store) -> (r: Vec<PostType>)
    ensures
        rows_of(r@) == post_type_counts(db.posts@),
{
    db.get_post_types()
}

/// Lists the published posts of a category: one page and the total; a
/// category without taxonomy row or without posts gives an empty page and 0.
/// Fails with `BadRequest` on identifier 0 or a bad page request.
pub fn get_posts_by_category(db: &Store, category_id: u64, page: u64, page_size: u64) -> (r: Result<
    (Vec<post::Model>, u64),
    ApiError,
>)
    ensures
        r is Ok <==> category_id > 0 && valid_page_request(page as int, page_size as int),
        r matches Err(e) ==> e.is_bad_request(),
        r matches Ok(res) ==> res.0@ == category_result(
            *db,
            category_id,
            None,
            page as int,
            page_size as int,
        ).0 && res.1 == category_result(*db, category_id, None, page as int, page_size as int).1,
{
    if category_id == 0 {
        return Err(ApiError::BadRequest("Category ID must be a positive integer".to_owned()));
    }
    check_page_request(page, page_size)?;
    Ok(db.find_by_category(category_id, page, page_size, None))
}

/// The metadata of a visible (published) post as a single-valued key/value
/// list. Fails as `get_post_by_id` does with publication required.
pub fn get_post_meta(db: &Store, post_id: u64) -> (r: Result<Vec<(String, String)>, ApiError>)
    ensures
        post_id == 0 ==> (r matches Err(e) && e.is_bad_request()),
        post_id > 0 ==> match post_with_id(db.posts@, post_id) {
            None => r matches Err(e) && e.is_not_found(),
            Some(p) => if visible(p, true) {
                r matches Ok(m) && pairs_view(m@) == collapse(meta_rows(db.postmeta@, p.id))
            } else {
                r matches Err(e) && e.is_not_found()
            },
        },
{
    let post = get_post_by_id(db, post_id, true)?;
    Ok(db.find_metadata_map(post.id))
}

/// Lists the categories: one page of taxonomy rows joined with their terms
/// and their number. Fails with `BadRequest` on a bad page request.
pub fn get_categories(db: &Store, page: u64, page_size: u64) -> (r: Result<
    (Vec<(term_taxonomy::Model, term::Model)>, u64),
    ApiError,
>)
    ensures
        r is Ok <==> valid_page_request(page as int, page_size as int),
        r matches Err(e) ==> e.is_bad_request(),
        r matches Ok(res) ==> res.0@ == page_of(
            category_entries(db.term_taxonomies@, db.terms@),
            page as int,
            page_size as int,
        ) && res.1 == category_entries(db.term_taxonomies@, db.terms@).len(),
{
    check_page_request(page, page_size)?;
    Ok(db.find_categories(page, page_size))
}

} // verus!
