use wordpress_api::api::handlers::{
    get_categories, get_post, get_post_meta, get_post_types, get_posts, get_posts_by_category,
    get_posts_by_type, is_recognized_status, positive_id, resolve_page, GetCategoriesQuery,
    GetPostsCategoryQuery, GetPostsQuery, GetPostsTypeQuery,
};
use wordpress_api::api::responses::{Category, Post};
use wordpress_api::db::store::Store;
use wordpress_api::error::ApiError;
use wordpress_api::models::{post, postmeta, term, term_relationship, term_taxonomy};

fn post(id: u64, date: Option<i64>, post_type: &str, status: &str) -> post::Model {
    post::Model {
        id,
        post_author: id % 2 + 1,
        post_date: date,
        post_date_gmt: date,
        post_content: format!("content of {}", id),
        post_title: format!("title {}", id),
        post_excerpt: format!("excerpt {}", id),
        post_status: status.to_string(),
        comment_status: "open".to_string(),
        ping_status: "open".to_string(),
        post_password: String::new(),
        post_name: format!("slug-{}", id),
        to_ping: String::new(),
        pinged: String::new(),
        post_modified: date.map(|d| d + 1),
        post_modified_gmt: date,
        post_content_filtered: String::new(),
        post_parent: 0,
        guid: format!("guid-{}", id),
        menu_order: 0,
        post_type: post_type.to_string(),
        post_mime_type: String::new(),
        comment_count: id as i64,
    }
}

fn query() -> GetPostsQuery {
    GetPostsQuery { post_type: None, post_status: None, page: None, page_size: None, search: None, author_id: None }
}

fn store() -> Store {
    let mut db = Store::new();
    for id in 1..=25u64 {
        let status = if id % 5 == 0 { "draft" } else { "publish" };
        let kind = if id % 4 == 0 { "page" } else { "post" };
        db.posts.push(post(id, Some(id as i64 * 60), kind, status));
    }
    db.terms.push(term::Model { term_id: 3, name: "Rust".to_string(), slug: "rust".to_string(), term_group: 0 });
    db.term_taxonomies.push(term_taxonomy::Model {
        term_taxonomy_id: 30,
        term_id: 3,
        taxonomy: "category".to_string(),
        description: "all about rust".to_string(),
        parent: 0,
        count: 3,
    });
    for object_id in [2u64, 5, 9] {
        db.term_relationships.push(term_relationship::Model { object_id, term_taxonomy_id: 30, term_order: 0 });
    }
    db.postmeta.push(postmeta::Model { meta_id: 1, post_id: 1, meta_key: "k".to_string(), meta_value: "v".to_string() });
    db
}

#[test]
fn listing_defaults_to_published_first_page_of_ten() {
    let db = store();
    let resp = get_posts(&query(), &db).unwrap();
    assert_eq!(resp.total, 20);
    assert_eq!(resp.page, 1);
    assert_eq!(resp.size, 10);
    assert_eq!(resp.pages, 2);
    assert!(resp.has_next);
    assert!(!resp.has_prev);
    let ids: Vec<u64> = resp.items.iter().map(|p| p.id).collect();
    assert_eq!(ids, vec![24, 23, 22, 21, 19, 18, 17, 16, 14, 13]);
    assert_eq!(resp.items[0].post_modified, Some(24 * 60 + 1));
    assert_eq!(resp.items[0].comment_count, 24);
}

#[test]
fn listing_request_applies_defaults() {
    let req = query().to_request().unwrap();
    assert_eq!(req.post_status, Some("publish".to_string()));
    assert_eq!((req.page, req.page_size), (1, 10));
    assert_eq!(req.author_id, None);
    let q = GetPostsQuery { author_id: Some(7), post_status: Some("draft".to_string()), page: Some(3), ..query() };
    let req = q.to_request().unwrap();
    assert_eq!(req.author_id, Some(7));
    assert_eq!(req.post_status, Some("draft".to_string()));
    assert_eq!(req.page, 3);
}

#[test]
fn listing_rejects_bad_parameters() {
    let db = store();
    let cases = vec![
        GetPostsQuery { page: Some(0), ..query() },
        GetPostsQuery { page_size: Some(0), ..query() },
        GetPostsQuery { page_size: Some(101), ..query() },
        GetPostsQuery { post_type: Some(String::new()), ..query() },
        GetPostsQuery { post_status: Some("published".to_string()), ..query() },
        GetPostsQuery { author_id: Some(0), ..query() },
        GetPostsQuery { author_id: Some(-4), ..query() },
        GetPostsQuery { search: Some("ab".to_string()), ..query() },
    ];
    for q in cases {
        assert!(matches!(get_posts(&q, &db), Err(ApiError::BadRequest(_))));
    }
}

#[test]
fn listing_filters_by_status_author_and_search() {
    let db = store();
    let q = GetPostsQuery { post_status: Some("draft".to_string()), page_size: Some(100), ..query() };
    let resp = get_posts(&q, &db).unwrap();
    let ids: Vec<u64> = resp.items.iter().map(|p| p.id).collect();
    assert_eq!(ids, vec![25, 20, 15, 10, 5]);
    assert_eq!(resp.pages, 1);
    let q = GetPostsQuery { author_id: Some(1), post_type: Some("page".to_string()), ..query() };
    let resp = get_posts(&q, &db).unwrap();
    let ids: Vec<u64> = resp.items.iter().map(|p| p.id).collect();
    assert_eq!(ids, vec![24, 16, 12, 8, 4]);
    let q = GetPostsQuery { search: Some("title 1".to_string()), ..query() };
    let resp = get_posts(&q, &db).unwrap();
    assert_eq!(resp.total, 9);
    let q = GetPostsQuery { search: Some("zzz".to_string()), ..query() };
    let resp = get_posts(&q, &db).unwrap();
    assert_eq!((resp.items.len(), resp.total, resp.pages, resp.has_next), (0, 0, 0, false));
}

#[test]
fn single_post_hides_drafts() {
    let db = store();
    let p: Post = get_post(3, &db).unwrap();
    assert_eq!(p.post_title, "title 3");
    assert_eq!(p.post_name, "slug-3");
    assert_eq!(p.guid, "guid-3");
    assert_eq!(p.post_excerpt, "excerpt 3");
    assert!(matches!(get_post(5, &db), Err(ApiError::NotFound(_))));
    assert!(matches!(get_post(500, &db), Err(ApiError::NotFound(_))));
    assert!(matches!(get_post(0, &db), Err(ApiError::BadRequest(_))));
    assert!(matches!(get_post(-1, &db), Err(ApiError::BadRequest(_))));
}

#[test]
fn metadata_of_published_post() {
    let db = store();
    let m = get_post_meta(1, &db).unwrap();
    assert_eq!(m.meta, vec![("k".to_string(), "v".to_string())]);
    assert!(get_post_meta(2, &db).unwrap().meta.is_empty());
    assert!(matches!(get_post_meta(5, &db), Err(ApiError::NotFound(_))));
    assert!(matches!(get_post_meta(-2, &db), Err(ApiError::BadRequest(_))));
}

#[test]
fn type_listing_has_no_default_status() {
    let db = store();
    let q = GetPostsTypeQuery { post_status: None, page: None, page_size: None };
    let resp = get_posts_by_type(&"page".to_string(), &q, &db).unwrap();
    assert_eq!(resp.total, 6);
    let ids: Vec<u64> = resp.items.iter().map(|p| p.id).collect();
    assert_eq!(ids, vec![24, 20, 16, 12, 8, 4]);
    let q = GetPostsTypeQuery { post_status: Some("publish".to_string()), page: Some(2), page_size: Some(2) };
    let resp = get_posts_by_type(&"page".to_string(), &q, &db).unwrap();
    let ids: Vec<u64> = resp.items.iter().map(|p| p.id).collect();
    assert_eq!(ids, vec![12, 8]);
    assert_eq!((resp.total, resp.pages, resp.has_next, resp.has_prev), (5, 3, true, true));
    let bad = GetPostsTypeQuery { post_status: Some("gone".to_string()), page: None, page_size: None };
    assert!(matches!(get_posts_by_type(&"page".to_string(), &bad, &db), Err(ApiError::BadRequest(_))));
    let q = GetPostsTypeQuery { post_status: None, page: None, page_size: None };
    assert!(matches!(get_posts_by_type(&String::new(), &q, &db), Err(ApiError::BadRequest(_))));
}

#[test]
fn type_summary_handler() {
    let db = store();
    let types = get_post_types(&db);
    assert_eq!(types.len(), 2);
    assert_eq!((types[0].name.as_str(), types[0].count, types[0].published_count), ("post", 19, 15));
    assert_eq!((types[1].name.as_str(), types[1].count, types[1].published_count), ("page", 6, 5));
}

#[test]
fn category_listing_uses_its_own_default_size() {
    let db = store();
    let resp = get_categories(&GetCategoriesQuery { page: None, page_size: None }, &db).unwrap();
    assert_eq!(resp.size, 20);
    assert_eq!(resp.total, 1);
    let c: &Category = &resp.items[0];
    assert_eq!((c.term_id, c.name.as_str(), c.slug.as_str(), c.description.as_str(), c.parent, c.count), (3, "Rust", "rust", "all about rust", 0, 3));
    assert!(matches!(
        get_categories(&GetCategoriesQuery { page: Some(0), page_size: None }, &db),
        Err(ApiError::BadRequest(_))
    ));
}

#[test]
fn category_posts_handler() {
    let db = store();
    let q = GetPostsCategoryQuery { page: None, page_size: None };
    let resp = get_posts_by_category(3, &q, &db).unwrap();
    let ids: Vec<u64> = resp.items.iter().map(|p| p.id).collect();
    assert_eq!(ids, vec![9, 2]);
    assert_eq!((resp.total, resp.size, resp.pages), (2, 10, 1));
    let resp = get_posts_by_category(4, &q, &db).unwrap();
    assert_eq!((resp.items.len(), resp.total), (0, 0));
    assert!(matches!(get_posts_by_category(-3, &q, &db), Err(ApiError::BadRequest(_))));
    let bad = GetPostsCategoryQuery { page: None, page_size: Some(500) };
    assert!(matches!(get_posts_by_category(3, &bad, &db), Err(ApiError::BadRequest(_))));
}

#[test]
fn request_helpers() {
    for s in ["publish", "draft", "private", "pending", "future", "trash", "auto-draft"] {
        assert!(is_recognized_status(&s.to_string()));
    }
    assert!(!is_recognized_status(&"Publish".to_string()));
    assert!(!is_recognized_status(&"inherit".to_string()));
    assert_eq!(positive_id(9).unwrap(), 9);
    assert!(matches!(positive_id(0), Err(ApiError::BadRequest(_))));
    assert_eq!(resolve_page(None, None, 20).unwrap(), (1, 20));
    assert_eq!(resolve_page(Some(4), Some(100), 20).unwrap(), (4, 100));
    assert!(resolve_page(Some(4), Some(101), 20).is_err());
}
