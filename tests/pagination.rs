use wordpress_api::api::responses::PaginatedResponse;
use wordpress_api::error::ApiError;
use wordpress_api::query::pagination::{check_page_request, pages_for, paginate};

#[test]
fn page_metadata_of_last_page() {
    let r = PaginatedResponse::new(vec![21u64, 22, 23, 24, 25], 25, 3, 10);
    assert_eq!(r.pages, 3);
    assert!(!r.has_next);
    assert!(r.has_prev);
    assert_eq!(r.total, 25);
    assert_eq!(r.page, 3);
    assert_eq!(r.size, 10);
    assert_eq!(r.items, vec![21, 22, 23, 24, 25]);
}

#[test]
fn page_metadata_of_first_page() {
    let r = PaginatedResponse::new(Vec::<u64>::new(), 25, 1, 10);
    assert_eq!(r.pages, 3);
    assert!(r.has_next);
    assert!(!r.has_prev);
}

#[test]
fn page_count_rounds_up() {
    assert_eq!(pages_for(25, 10), 3);
    assert_eq!(pages_for(30, 10), 3);
    assert_eq!(pages_for(31, 10), 4);
    assert_eq!(pages_for(0, 10), 0);
    assert_eq!(pages_for(7, 0), 0);
    assert_eq!(pages_for(u64::MAX, 1), u64::MAX);
    assert_eq!(pages_for(u64::MAX, 100), u64::MAX / 100 + 1);
    let empty = PaginatedResponse::new(Vec::<u64>::new(), 0, 1, 10);
    assert_eq!(empty.pages, 0);
    assert!(!empty.has_next);
}

#[test]
fn windows_cut_the_sequence() {
    let items: Vec<u32> = (1..=12).collect();
    assert_eq!(paginate(items.clone(), 1, 5), vec![1, 2, 3, 4, 5]);
    assert_eq!(paginate(items.clone(), 2, 5), vec![6, 7, 8, 9, 10]);
    assert_eq!(paginate(items.clone(), 3, 5), vec![11, 12]);
    assert_eq!(paginate(items.clone(), 4, 5), Vec::<u32>::new());
    assert_eq!(paginate(items.clone(), u64::MAX, 100), Vec::<u32>::new());
    assert_eq!(paginate(items.clone(), 1, 100), items);
    assert_eq!(paginate(Vec::<u32>::new(), 1, 10), Vec::<u32>::new());
}

#[test]
fn consecutive_windows_do_not_overlap() {
    let items: Vec<u32> = (1..=23).collect();
    for size in 1..=7u64 {
        for page in 1..=6u64 {
            let a = paginate(items.clone(), page, size);
            let b = paginate(items.clone(), page + 1, size);
            assert!(a.iter().all(|x| !b.contains(x)));
            let mut joined = a.clone();
            joined.extend(b);
            let lo = (((page - 1) * size) as usize).min(items.len());
            let hi = (((page + 1) * size) as usize).min(items.len());
            assert_eq!(joined, items[lo..hi].to_vec());
        }
    }
}

#[test]
fn page_requests_are_checked() {
    assert!(check_page_request(1, 1).is_ok());
    assert!(check_page_request(7, 100).is_ok());
    assert!(matches!(check_page_request(0, 10), Err(ApiError::BadRequest(_))));
    assert!(matches!(check_page_request(1, 0), Err(ApiError::BadRequest(_))));
    assert!(matches!(check_page_request(1, 101), Err(ApiError::BadRequest(_))));
}
