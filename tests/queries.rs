use wordpress_api::api::responses::PostType;
use wordpress_api::db::queries::{
    check_search, get_categories, get_post_by_id, get_post_meta, get_post_types, get_posts,
    get_posts_by_category, get_posts_by_type, visible_post,
};
use wordpress_api::db::store::Store;
use wordpress_api::error::ApiError;
use wordpress_api::models::{post, postmeta, term, term_relationship, term_taxonomy};

fn post(id: u64, date: Option<i64>, post_type: &str, status: &str, title: &str, content: &str) -> post::Model {
    post::Model {
        id,
        post_author: 1,
        post_date: date,
        post_date_gmt: date,
        post_content: content.to_string(),
        post_title: title.to_string(),
        post_excerpt: String::new(),
        post_status: status.to_string(),
        comment_status: "open".to_string(),
        ping_status: "open".to_string(),
        post_password: String::new(),
        post_name: format!("post-{}", id),
        to_ping: String::new(),
        pinged: String::new(),
        post_modified: date,
        post_modified_gmt: date,
        post_content_filtered: String::new(),
        post_parent: 0,
        guid: format!("http://example.com/?p={}", id),
        menu_order: 0,
        post_type: post_type.to_string(),
        post_mime_type: String::new(),
        comment_count: 0,
    }
}

fn ids(rows: &[post::Model]) -> Vec<u64> {
    rows.iter().map(|p| p.id).collect()
}

fn taxonomy(term_taxonomy_id: u64, term_id: u64, kind: &str) -> term_taxonomy::Model {
    term_taxonomy::Model {
        term_taxonomy_id,
        term_id,
        taxonomy: kind.to_string(),
        description: format!("about {}", term_id),
        parent: 0,
        count: 0,
    }
}

fn term(term_id: u64, name: &str) -> term::Model {
    term::Model { term_id, name: name.to_string(), slug: name.to_lowercase(), term_group: 0 }
}

fn edge(object_id: u64, term_taxonomy_id: u64) -> term_relationship::Model {
    term_relationship::Model { object_id, term_taxonomy_id, term_order: 0 }
}

fn meta(meta_id: u64, post_id: u64, key: &str, value: &str) -> postmeta::Model {
    postmeta::Model { meta_id, post_id, meta_key: key.to_string(), meta_value: value.to_string() }
}

/// Twelve published posts dated 1..=12, so that the canonical order is 12, 11, ..., 1.
fn dated_store() -> Store {
    let mut db = Store::new();
    for id in 1..=12u64 {
        db.posts.push(post(id, Some(id as i64 * 100), "post", "publish", "Title", "Body"));
    }
    db
}

fn mixed_store() -> Store {
    let mut db = Store::new();
    db.posts.push(post(1, Some(10), "post", "publish", "Hello world", "first"));
    db.posts.push(post(2, Some(30), "post", "draft", "Draft notes", "second"));
    db.posts.push(post(3, None, "post", "publish", "Undated", "third"));
    db.posts.push(post(4, Some(20), "page", "publish", "About", "who we are"));
    db.posts.push(post(5, Some(40), "post", "publish", "Rust news", "hello again"));
    db.posts.push(post(6, Some(5), "post", "future", "Soon", "later"));
    db.posts.push(post(7, Some(50), "attachment", "inherit", "Image", "img"));
    db
}

#[test]
fn consecutive_pages_are_disjoint_and_ordered() {
    let db = dated_store();
    let (first, total) = get_posts(&db, None, Some("publish".to_string()), 1, 5, None, None).unwrap();
    let (second, total2) = get_posts(&db, None, Some("publish".to_string()), 2, 5, None, None).unwrap();
    let (third, _) = get_posts(&db, None, Some("publish".to_string()), 3, 5, None, None).unwrap();
    assert_eq!(total, 12);
    assert_eq!(total2, 12);
    assert_eq!(ids(&first), vec![12, 11, 10, 9, 8]);
    assert_eq!(ids(&second), vec![7, 6, 5, 4, 3]);
    assert_eq!(ids(&third), vec![2, 1]);
    let mut joined = ids(&first);
    joined.extend(ids(&second));
    assert_eq!(joined, vec![12, 11, 10, 9, 8, 7, 6, 5, 4, 3]);
}

#[test]
fn page_past_the_end_is_empty_with_total() {
    let db = dated_store();
    let (rows, total) = get_posts(&db, None, None, 4, 5, None, None).unwrap();
    assert!(rows.is_empty());
    assert_eq!(total, 12);
    let (rows, total) = get_posts(&db, None, None, u64::MAX, 100, None, None).unwrap();
    assert!(rows.is_empty());
    assert_eq!(total, 12);
}

#[test]
fn missing_dates_sort_last() {
    let db = mixed_store();
    let (rows, total) = get_posts(&db, Some("post".to_string()), Some("publish".to_string()), 1, 10, None, None).unwrap();
    assert_eq!(total, 3);
    assert_eq!(ids(&rows), vec![5, 1, 3]);
}

#[test]
fn equal_dates_keep_stored_order() {
    let mut db = Store::new();
    db.posts.push(post(8, Some(7), "post", "publish", "a", "a"));
    db.posts.push(post(3, None, "post", "publish", "b", "b"));
    db.posts.push(post(5, Some(7), "post", "publish", "c", "c"));
    db.posts.push(post(9, Some(9), "post", "publish", "d", "d"));
    let (rows, _) = get_posts(&db, None, None, 1, 10, None, None).unwrap();
    assert_eq!(ids(&rows), vec![9, 8, 5, 3]);
}

#[test]
fn filters_combine() {
    let db = mixed_store();
    let (rows, total) = get_posts(&db, None, None, 1, 10, None, None).unwrap();
    assert_eq!(total, 7);
    assert_eq!(ids(&rows), vec![7, 5, 2, 4, 1, 6, 3]);
    let (rows, total) = get_posts(&db, Some("page".to_string()), None, 1, 10, None, None).unwrap();
    assert_eq!((ids(&rows), total), (vec![4], 1));
    let (rows, total) = get_posts(&db, None, None, 1, 10, None, Some(2)).unwrap();
    assert_eq!((ids(&rows), total), (vec![], 0));
    let (rows, total) = get_posts(&db, None, None, 1, 10, None, Some(1)).unwrap();
    assert_eq!(total, 7);
    assert_eq!(rows.len(), 7);
}

#[test]
fn search_matches_title_or_content() {
    let db = mixed_store();
    let (rows, total) = get_posts(&db, None, Some("publish".to_string()), 1, 10, Some("ello".to_string()), None).unwrap();
    assert_eq!(total, 2);
    assert_eq!(ids(&rows), vec![5, 1]);
    let (rows, total) = get_posts(&db, None, None, 1, 10, Some("Rust".to_string()), None).unwrap();
    assert_eq!((ids(&rows), total), (vec![5], 1));
}

#[test]
fn short_search_is_rejected() {
    let db = mixed_store();
    let r = get_posts(&db, None, None, 1, 10, Some("ab".to_string()), None);
    assert!(matches!(r, Err(ApiError::BadRequest(_))));
    assert!(matches!(check_search(&Some("ab".to_string())), Err(ApiError::BadRequest(_))));
    assert!(check_search(&Some("abc".to_string())).is_ok());
    assert!(check_search(&None).is_ok());
    // three characters, counted as characters rather than bytes
    assert!(check_search(&Some("äöü".to_string())).is_ok());
    assert!(matches!(check_search(&Some("éé".to_string())), Err(ApiError::BadRequest(_))));
}

#[test]
fn search_of_three_characters_without_match_is_empty() {
    let db = mixed_store();
    let (rows, total) = get_posts(&db, None, None, 1, 10, Some("xyz".to_string()), None).unwrap();
    assert!(rows.is_empty());
    assert_eq!(total, 0);
}

#[test]
fn bad_page_requests_are_rejected() {
    let db = mixed_store();
    assert!(matches!(get_posts(&db, None, None, 0, 10, None, None), Err(ApiError::BadRequest(_))));
    assert!(matches!(get_posts(&db, None, None, 1, 0, None, None), Err(ApiError::BadRequest(_))));
    assert!(matches!(get_posts(&db, None, None, 1, 101, None, None), Err(ApiError::BadRequest(_))));
    assert!(get_posts(&db, None, None, 1, 100, None, None).is_ok());
}

#[test]
fn draft_post_is_not_found_when_published_required() {
    let db = mixed_store();
    let hidden = get_post_by_id(&db, 2, true);
    let missing = get_post_by_id(&db, 99, true);
    assert!(matches!(hidden, Err(ApiError::NotFound(_))));
    assert!(matches!(missing, Err(ApiError::NotFound(_))));
    assert_eq!(hidden.unwrap_err().status_code(), missing.unwrap_err().status_code());
    assert_eq!(get_post_by_id(&db, 2, false).unwrap().id, 2);
    assert_eq!(get_post_by_id(&db, 1, true).unwrap().post_title, "Hello world");
    assert!(matches!(get_post_by_id(&db, 0, true), Err(ApiError::BadRequest(_))));
}

#[test]
fn visible_post_decides_on_status() {
    let draft = post(2, None, "post", "draft", "t", "c");
    assert!(matches!(visible_post(Some(draft.clone()), true), Err(ApiError::NotFound(_))));
    assert_eq!(visible_post(Some(draft), false).unwrap().id, 2);
    assert!(matches!(visible_post(None, false), Err(ApiError::NotFound(_))));
}

#[test]
fn posts_by_type() {
    let db = mixed_store();
    let (rows, total) = get_posts_by_type(&db, &"post".to_string(), None, 1, 10).unwrap();
    assert_eq!(total, 5);
    assert_eq!(ids(&rows), vec![5, 2, 1, 6, 3]);
    let (rows, total) = get_posts_by_type(&db, &"post".to_string(), Some("draft".to_string()), 1, 10).unwrap();
    assert_eq!((ids(&rows), total), (vec![2], 1));
    assert!(matches!(get_posts_by_type(&db, &String::new(), None, 1, 10), Err(ApiError::BadRequest(_))));
    assert!(matches!(get_posts_by_type(&db, &"post".to_string(), None, 1, 0), Err(ApiError::BadRequest(_))));
}

#[test]
fn post_types_are_ranked_by_total() {
    let mut db = Store::new();
    let mut id = 1;
    for status in ["publish", "draft", "publish", "pending", "publish"] {
        db.posts.push(post(id, Some(id as i64), "post", status, "t", "c"));
        id += 1;
    }
    for _ in 0..2 {
        db.posts.push(post(id, Some(id as i64), "page", "publish", "t", "c"));
        id += 1;
    }
    let types = get_post_types(&db);
    assert_eq!(
        types,
        vec![
            PostType { name: "post".to_string(), count: 5, published_count: 3 },
            PostType { name: "page".to_string(), count: 2, published_count: 2 },
        ]
    );
}

#[test]
fn post_type_ties_follow_name_order() {
    let mut db = Store::new();
    db.posts.push(post(1, None, "zeta", "publish", "t", "c"));
    db.posts.push(post(2, None, "alpha", "draft", "t", "c"));
    db.posts.push(post(3, None, "post", "publish", "t", "c"));
    db.posts.push(post(4, None, "post", "publish", "t", "c"));
    db.posts.push(post(5, None, "mid", "publish", "t", "c"));
    let types = get_post_types(&db);
    let names: Vec<&str> = types.iter().map(|t| t.name.as_str()).collect();
    assert_eq!(names, vec!["post", "alpha", "mid", "zeta"]);
    assert_eq!(types[1].published_count, 0);
    assert!(get_post_types(&Store::new()).is_empty());
}

fn category_store() -> Store {
    let mut db = mixed_store();
    db.terms.push(term(10, "News"));
    db.terms.push(term(11, "Empty"));
    db.terms.push(term(12, "Tags"));
    db.term_taxonomies.push(taxonomy(100, 10, "category"));
    db.term_taxonomies.push(taxonomy(101, 11, "category"));
    db.term_taxonomies.push(taxonomy(102, 12, "post_tag"));
    db.term_taxonomies.push(taxonomy(103, 13, "category"));
    db.term_relationships.push(edge(1, 100));
    db.term_relationships.push(edge(2, 100));
    db.term_relationships.push(edge(5, 100));
    db.term_relationships.push(edge(3, 102));
    db
}

#[test]
fn category_without_taxonomy_is_empty() {
    let db = category_store();
    assert_eq!(get_posts_by_category(&db, 77, 1, 10).unwrap(), (vec![], 0));
    // a tag is not a category
    assert_eq!(get_posts_by_category(&db, 12, 1, 10).unwrap(), (vec![], 0));
}

#[test]
fn category_without_relationships_is_empty() {
    let db = category_store();
    assert_eq!(get_posts_by_category(&db, 11, 1, 10).unwrap(), (vec![], 0));
}

#[test]
fn category_lists_published_posts_only() {
    let db = category_store();
    let (rows, total) = get_posts_by_category(&db, 10, 1, 10).unwrap();
    assert_eq!(total, 2);
    assert_eq!(ids(&rows), vec![5, 1]);
    let (rows, total) = get_posts_by_category(&db, 10, 2, 1).unwrap();
    assert_eq!((ids(&rows), total), (vec![1], 2));
    assert!(matches!(get_posts_by_category(&db, 0, 1, 10), Err(ApiError::BadRequest(_))));
    assert!(matches!(get_posts_by_category(&db, 10, 0, 10), Err(ApiError::BadRequest(_))));
}

#[test]
fn categories_join_terms() {
    let db = category_store();
    let (rows, total) = get_categories(&db, 1, 20).unwrap();
    // taxonomy 103 names term 13, which does not exist
    assert_eq!(total, 2);
    assert_eq!(rows.len(), 2);
    assert_eq!(rows[0].1.name, "News");
    assert_eq!(rows[1].0.term_taxonomy_id, 101);
    let (rows, total) = get_categories(&db, 2, 1).unwrap();
    assert_eq!((rows.len(), total), (1, 2));
    assert_eq!(rows[0].1.name, "Empty");
    let (rows, total) = get_categories(&db, 3, 1).unwrap();
    assert_eq!((rows.len(), total), (0, 2));
    assert!(matches!(get_categories(&db, 1, 101), Err(ApiError::BadRequest(_))));
}

#[test]
fn metadata_last_value_wins() {
    let mut db = mixed_store();
    db.postmeta.push(meta(1, 1, "color", "red"));
    db.postmeta.push(meta(2, 1, "size", "big"));
    db.postmeta.push(meta(3, 4, "color", "blue"));
    db.postmeta.push(meta(4, 1, "color", "green"));
    db.postmeta.push(meta(5, 2, "secret", "yes"));
    let m = get_post_meta(&db, 1).unwrap();
    assert_eq!(
        m,
        vec![("color".to_string(), "green".to_string()), ("size".to_string(), "big".to_string())]
    );
    assert_eq!(db.find_by_post_id(1).len(), 3);
    assert!(get_post_meta(&db, 3).unwrap().is_empty());
    assert!(matches!(get_post_meta(&db, 2), Err(ApiError::NotFound(_))));
    assert!(matches!(get_post_meta(&db, 99), Err(ApiError::NotFound(_))));
    assert!(matches!(get_post_meta(&db, 0), Err(ApiError::BadRequest(_))));
}

#[test]
fn negative_comment_count_passes_through() {
    let mut db = Store::new();
    let mut p = post(1, None, "post", "publish", "t", "c");
    p.comment_count = -3;
    db.posts.push(p);
    assert_eq!(get_post_by_id(&db, 1, true).unwrap().comment_count, -3);
}
