use vstd::prelude::*;
use crate::error::ApiError;

verus! {

/// Largest page size a caller may ask for.
pub const MAX_PAGE_SIZE: u64 = 100;

/// Number of pages of `size` items needed for `total` items: `ceil(total / size)`,
/// and zero when `size` is zero.
pub open spec fn page_count(total: int, size: int) -> int {
    if size > 0 {
        (total + size - 1) / size
    } else {
        0
    }
}

/// Whether a page follows `page` among `pages` pages.
pub open spec fn spec_has_next(total: int, page: int, size: int) -> bool {
    page < page_count(total, size)
}

/// Whether a page precedes the 1-based `page`.
pub open spec fn spec_has_prev(page: int) -> bool {
    page > 1
}

/// A 1-based page number and a page size are acceptable.
pub open spec fn valid_page_request(page: int, size: int) -> bool {
    page >= 1 && 1 <= size <= MAX_PAGE_SIZE
}

/// Index of the first item of the 1-based `page`.
pub open spec fn window_start(page: int, size: int) -> int {
    (page - 1) * size
}

/// The page window: the items of `items` at indices
/// `[(page - 1) * size, page * size)`, cut to the length of `items`.
pub open spec fn page_of<T>(items: Seq<T>, page: int, size: int) -> Seq<T> {
    let len = items.len() as int;
    let start = window_start(page, size);
    let end = start + size;
    let lo = if start < len { start } else { len };
    let hi = if end < len { end } else { len };
    items.subrange(lo, hi)
}

/// Computes `ceil(total / size)`, or zero when `size` is zero.
pub fn pages_for(total: u64, size: u64) -> (r: u64)
    ensures
        r == page_count(total as int, size as int),
{
    if size == 0 {
        0
    } else {
        let q = total / size;
        let rem = total % size;
        proof {
            assert(total as int == q as int * size as int + rem as int) by (nonlinear_arith)
                requires
                    size > 0,
                    q as int == total as int / size as int,
                    rem as int == total as int % size as int,
            ;
            assert((total as int + size as int - 1) / (size as int) == q as int + if rem > 0 { 1int } else { 0int }) by (nonlinear_arith)
                requires
                    size > 0,
                    rem < size,
                    total as int == q as int * size as int + rem as int,
            ;
            if rem > 0 {
                assert(q as int * 2 <= total as int) by (nonlinear_arith)
                    requires
                        size > rem,
                        rem > 0,
                        total as int == q as int * size as int + rem as int,
                ;
            }
        }
        if rem > 0 {
            q + 1
        } else {
            q
        }
    }
}

/// The items of the 1-based `page` when `items` is cut into pages of `size`.
pub fn paginate<T>(items: Vec<T>, page: u64, size: u64) -> (r: Vec<T>)
    requires
        page >= 1,
    ensures
        r@ == page_of(items@, page as int, size as int),
{
    let mut items = items;
    let ghost s = items@;
    let index: u128 = (page - 1) as u128;
    let width: u128 = size as u128;
    assert(index * width <= 0xffff_ffff_ffff_ffff * 0xffff_ffff_ffff_ffffu128) by (nonlinear_arith)
        requires
            index <= 0xffff_ffff_ffff_ffff,
            width <= 0xffff_ffff_ffff_ffff,
    ;
    let start: u128 = index * width;
    if start >= items.len() as u128 {
        let r: Vec<T> = Vec::new();
        assert(r@ =~= page_of(s, page as int, size as int));
        return r;
    }
    let mut tail = items.split_off(start as usize);
    if (size as u128) < tail.len() as u128 {
        tail.truncate(size as usize);
    }
    assert(tail@ =~= page_of(s, page as int, size as int));
    tail
}

/// Accepts a 1-based page number and a page size in `[1, MAX_PAGE_SIZE]`.
pub fn check_page_request(page: u64, size: u64) -> (r: Result<(), ApiError>)
    ensures
        r is Ok <==> valid_page_request(page as int, size as int),
        r matches Err(e) ==> e.is_bad_request(),
{
    if page == 0 {
        return Err(ApiError::BadRequest("Page number must be greater than zero".to_owned()));
    }
    if size == 0 {
        return Err(ApiError::BadRequest("Page size must be greater than zero".to_owned()));
    }
    if size > MAX_PAGE_SIZE {
        return Err(ApiError::BadRequest("Page size exceeds maximum limit of 100".to_owned()));
    }
    Ok(())
}

/// Consecutive pages of one sequence: the two windows, one after the other,
/// are the contiguous run of the sequence that starts at the first window,
/// and when the sequence repeats no item, no item lies in both pages.
pub proof fn lemma_consecutive_pages<T>(items: Seq<T>, page: int, size: int)
    requires
        valid_page_request(page, size),
    ensures
        ({
            let len = items.len() as int;
            let lo = if window_start(page, size) < len { window_start(page, size) } else { len };
            let hi = if window_start(page + 2, size) < len { window_start(page + 2, size) } else { len };
            page_of(items, page, size) + page_of(items, page + 1, size) == items.subrange(lo, hi)
        }),
        items.no_duplicates() ==> forall|x: T|
            !(page_of(items, page, size).contains(x) && page_of(items, page + 1, size).contains(x)),
{
    let len = items.len() as int;
    assert(window_start(page + 1, size) == window_start(page, size) + size) by (nonlinear_arith);
    assert(window_start(page + 2, size) == window_start(page + 1, size) + size) by (nonlinear_arith);
    assert(window_start(page, size) >= 0) by (nonlinear_arith)
        requires
            page >= 1,
            size >= 1,
    ;
    let a = page_of(items, page, size);
    let b = page_of(items, page + 1, size);
    let lo = if window_start(page, size) < len { window_start(page, size) } else { len };
    let mid = if window_start(page + 1, size) < len { window_start(page + 1, size) } else { len };
    let hi = if window_start(page + 2, size) < len { window_start(page + 2, size) } else { len };
    assert(a =~= items.subrange(lo, mid));
    assert(b =~= items.subrange(mid, hi));
    assert(a + b =~= items.subrange(lo, hi));
    if items.no_duplicates() {
        assert forall|x: T| !(a.contains(x) && b.contains(x)) by {
            if a.contains(x) && b.contains(x) {
                let i = choose|i: int| 0 <= i < a.len() && a[i] == x;
                let j = choose|j: int| 0 <= j < b.len() && b[j] == x;
                assert(items[lo + i] == items[mid + j]);
            }
        }
    }
}

} // verus!
