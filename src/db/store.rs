use vstd::prelude::*;
use crate::api::responses::PostType;
use crate::models::{post, postmeta, term, term_relationship, term_taxonomy};
use crate::query::aggregate::{post_type_counts, rows_of, summarize_post_types};
use crate::query::category::{
    after_relationships, after_taxonomy_lookup, category_kind, category_taxonomy,
    find_category_taxonomy, find_related_posts, related_posts, CategoryStep, CATEGORY_KIND,
};
use crate::query::filter::{category_filter, opt_text, FilterView, PostFilter};
use crate::query::order::{
    lemma_order_len, lemma_ordered_no_duplicates, matching, ordered_matches, select_ordered,
};
use crate::query::pagination::{
    lemma_consecutive_pages, page_of, paginate, valid_page_request, window_start,
};
use crate::text::same_text;

verus! {

/// A snapshot of the five tables of the schema, held in memory.
///
/// Every query of the library has its exact meaning over a snapshot: the
/// methods below evaluate them, and their contracts state the result.
#[derive(Debug, Clone)]
pub struct Store {
    pub posts: Vec<post::Model>,
    pub postmeta: Vec<postmeta::Model>,
    pub terms: Vec<term::Model>,
    pub term_taxonomies: Vec<term_taxonomy::Model>,
    pub term_relationships: Vec<term_relationship::Model>,
}

/// The first post of `posts` with identifier `id`, if any.
pub open spec fn post_with_id(posts: Seq<post::Model>, id: u64) -> Option<post::Model>
    decreases posts.len(),
{
    if posts.len() == 0 {
        None
    } else if posts[0].id == id {
        Some(posts[0])
    } else {
        post_with_id(posts.drop_first(), id)
    }
}

/// The page of canonical results of `f`: the rows of the 1-based `page`.
pub open spec fn result_page(posts: Seq<post::Model>, f: FilterView, page: int, size: int) -> Seq<
    post::Model,
> {
    page_of(ordered_matches(posts, f), page, size)
}

/// The number of rows that `f` admits, independent of pagination.
pub open spec fn result_total(posts: Seq<post::Model>, f: FilterView) -> nat {
    matching(posts, f).len()
}

/// The filter of the general post listing.
pub open spec fn listing_filter(
    post_type: Option<String>,
    post_status: Option<String>,
    author_id: Option<u64>,
    search: Option<String>,
) -> FilterView {
    FilterView {
        post_type: opt_text(post_type),
        post_status: opt_text(post_status),
        author_id,
        search: opt_text(search),
        ids: None,
    }
}

/// The answer of the category listing: empty with total 0 when the category
/// has no taxonomy row or no related post, else the page and total of the
/// published related posts.
pub open spec fn category_result(
    store: Store,
    category_id: u64,
    search: Option<String>,
    page: int,
    size: int,
) -> (Seq<post::Model>, nat) {
    match category_taxonomy(store.term_taxonomies@, category_id) {
        None => (Seq::empty(), 0),
        Some(t) => {
            let ids = related_posts(store.term_relationships@, t);
            if ids.len() == 0 {
                (Seq::empty(), 0)
            } else {
                let f = category_filter(ids, opt_text(search));
                (result_page(store.posts@, f, page, size), result_total(store.posts@, f))
            }
        },
    }
}

/// The first term of `terms` with identifier `id`, if any.
pub open spec fn term_with_id(terms: Seq<term::Model>, id: u64) -> Option<term::Model>
    decreases terms.len(),
{
    if terms.len() == 0 {
        None
    } else if terms[0].term_id == id {
        Some(terms[0])
    } else {
        term_with_id(terms.drop_first(), id)
    }
}

/// The categories: each "category" taxonomy row, in stored order, joined with
/// its term; a row whose term is missing is left out.
pub open spec fn category_entries(
    taxonomies: Seq<term_taxonomy::Model>,
    terms: Seq<term::Model>,
) -> Seq<(term_taxonomy::Model, term::Model)>
    decreases taxonomies.len(),
{
    if taxonomies.len() == 0 {
        Seq::empty()
    } else {
        let rest = category_entries(taxonomies.drop_last(), terms);
        let t = taxonomies.last();
        if t.taxonomy@ == category_kind() {
            match term_with_id(terms, t.term_id) {
                Some(x) => rest.push((t, x)),
                None => rest,
            }
        } else {
            rest
        }
    }
}

/// The metadata rows of post `post_id`, in stored order.
pub open spec fn meta_rows(rows: Seq<postmeta::Model>, post_id: u64) -> Seq<postmeta::Model> {
    rows.filter(|m: postmeta::Model| m.post_id == post_id)
}

/// Sets key `k` to `v` in the key/value list `m`: an existing entry for `k`
/// takes the new value in place, a new key goes last.
pub open spec fn put_entry(m: Seq<(Seq<char>, Seq<char>)>, k: Seq<char>, v: Seq<char>) -> Seq<
    (Seq<char>, Seq<char>),
>
    decreases m.len(),
{
    if m.len() == 0 {
        seq![(k, v)]
    } else if m[0].0 == k {
        m.update(0, (k, v))
    } else {
        seq![m[0]] + put_entry(m.drop_first(), k, v)
    }
}

/// Collapses metadata rows into a single-valued key/value list: keys in order
/// of first appearance, each with the value of its last row.
pub open spec fn collapse(rows: Seq<postmeta::Model>) -> Seq<(Seq<char>, Seq<char>)>
    decreases rows.len(),
{
    if rows.len() == 0 {
        Seq::empty()
    } else {
        put_entry(collapse(rows.drop_last()), rows.last().meta_key@, rows.last().meta_value@)
    }
}

/// The keys of a key/value list, in order.
pub open spec fn keys_of(m: Seq<(Seq<char>, Seq<char>)>) -> Seq<Seq<char>> {
    m.map_values(|e: (Seq<char>, Seq<char>)| e.0)
}

/// Setting a key keeps the keys and adds the new key last when it is new.
pub proof fn lemma_put_entry_keys(m: Seq<(Seq<char>, Seq<char>)>, k: Seq<char>, v: Seq<char>)
    ensures
        keys_of(put_entry(m, k, v)) == if keys_of(m).contains(k) {
            keys_of(m)
        } else {
            keys_of(m).push(k)
        },
    decreases m.len(),
{
    let km = keys_of(m);
    if m.len() == 0 {
        assert(keys_of(put_entry(m, k, v)) =~= km.push(k));
    } else if m[0].0 == k {
        assert(km[0] == k);
        assert(keys_of(put_entry(m, k, v)) =~= km);
    } else {
        let rest = m.drop_first();
        lemma_put_entry_keys(rest, k, v);
        let kr = keys_of(rest);
        assert(km =~= seq![m[0].0] + kr);
        assert(keys_of(put_entry(m, k, v)) =~= seq![m[0].0] + keys_of(put_entry(rest, k, v)));
        if kr.contains(k) {
            let j = choose|j: int| 0 <= j < kr.len() && kr[j] == k;
            assert(km[j + 1] == k);
        } else {
            assert forall|j: int| 0 <= j < km.len() implies km[j] != k by {
                if j > 0 {
                    assert(km[j] == kr[j - 1]);
                }
            }
            assert(seq![m[0].0] + kr.push(k) =~= km.push(k));
        }
    }
}

/// The collapsed metadata is single-valued: no key occurs twice.
pub proof fn lemma_collapse_keys_distinct(rows: Seq<postmeta::Model>)
    ensures
        keys_of(collapse(rows)).no_duplicates(),
    decreases rows.len(),
{
    if rows.len() > 0 {
        let prev = collapse(rows.drop_last());
        let k = rows.last().meta_key@;
        lemma_collapse_keys_distinct(rows.drop_last());
        lemma_put_entry_keys(prev, k, rows.last().meta_value@);
        let kp = keys_of(prev);
        if !kp.contains(k) {
            assert forall|i: int, j: int|
                0 <= i < kp.len() + 1 && 0 <= j < kp.len() + 1 && i != j implies #[trigger] kp.push(
                k,
            )[i] != #[trigger] kp.push(k)[j] by {
                if i < kp.len() && j < kp.len() {
                } else if i < kp.len() {
                    assert(kp.contains(kp[i]));
                } else {
                    assert(kp.contains(kp[j]));
                }
            }
        }
    }
}

/// The views of a list of string pairs.
pub open spec fn pairs_view(v: Seq<(String, String)>) -> Seq<(Seq<char>, Seq<char>)> {
    v.map_values(|e: (String, String)| (e.0@, e.1@))
}

/// The first term of `terms` with identifier `id`.
pub fn find_term(terms: &Vec<term::Model>, id: u64) -> (r: Option<term::Model>)
    ensures
        r == term_with_id(terms@, id),
{
    let mut i: usize = 0;
    assert(terms@.subrange(0, terms@.len() as int) =~= terms@);
    while i < terms.len()
        invariant
            i <= terms.len(),
            term_with_id(terms@, id) == term_with_id(terms@.subrange(i as int, terms@.len() as int), id),
        decreases terms.len() - i,
    {
        let ghost rest = terms@.subrange(i as int, terms@.len() as int);
        assert(rest[0] == terms@[i as int]);
        if terms[i].term_id == id {
            return Some(terms[i].duplicate());
        }
        assert(rest.drop_first() =~= terms@.subrange(i + 1, terms@.len() as int));
        i = i + 1;
    }
    None
}

/// Sets key `k` to `v` in the key/value list `m`.
pub fn put_meta(m: &mut Vec<(String, String)>, k: String, v: String)
    ensures
        pairs_view(final(m)@) == put_entry(pairs_view(old(m)@), k@, v@),
{
    let ghost s = pairs_view(m@);
    let mut i: usize = 0;
    assert(s.subrange(i as int, s.len() as int) =~= s);
    while i < m.len()
        invariant
            s == pairs_view(m@),
            s == pairs_view(old(m)@),
            i <= m.len(),
            put_entry(s, k@, v@) == s.subrange(0, i as int) + put_entry(
                s.subrange(i as int, s.len() as int),
                k@,
                v@,
            ),
        decreases m.len() - i,
    {
        let ghost rest = s.subrange(i as int, s.len() as int);
        assert(rest[0] == s[i as int]);
        assert(s[i as int] == (m@[i as int].0@, m@[i as int].1@));
        if m[i].0 == k {
            m.set(i, (k, v));
            proof {
                assert(put_entry(rest, k@, v@) == rest.update(0, (k@, v@)));
                assert(pairs_view(m@) =~= s.subrange(0, i as int) + rest.update(0, (k@, v@)));
            }
            return;
        }
        proof {
            assert(put_entry(rest, k@, v@) == seq![rest[0]] + put_entry(rest.drop_first(), k@, v@));
            assert(rest.drop_first() =~= s.subrange(i + 1, s.len() as int));
            assert(s.subrange(0, i as int) + (seq![rest[0]] + put_entry(rest.drop_first(), k@, v@))
                =~= s.subrange(0, i + 1) + put_entry(s.subrange(i + 1, s.len() as int), k@, v@));
        }
        i = i + 1;
    }
    m.push((k, v));
    assert(s.subrange(i as int, s.len() as int) =~= Seq::<(Seq<char>, Seq<char>)>::empty());
    assert(s.subrange(0, i as int) =~= s);
    assert(pairs_view(m@) =~= s.push((k@, v@)));
}

/// No two stored posts share an identifier.
pub open spec fn unique_post_ids(posts: Seq<post::Model>) -> bool {
    forall|i: int, j: int| 0 <= i < posts.len() && 0 <= j < posts.len() && i != j ==> posts[i].id != posts[j].id
}

/// Fetching page `page` and then page `page + 1` of one listing over an
/// unchanged snapshot: the two pages, one after the other, are the run of
/// the canonical results that starts at the first page, and when post
/// identifiers are unique no post lies in both pages.
pub proof fn lemma_consecutive_result_pages(
    posts: Seq<post::Model>,
    f: FilterView,
    page: int,
    size: int,
)
    requires
        valid_page_request(page, size),
    ensures
        ({
            let all = ordered_matches(posts, f);
            let len = all.len() as int;
            let lo = if window_start(page, size) < len { window_start(page, size) } else { len };
            let hi = if window_start(page + 2, size) < len { window_start(page + 2, size) } else { len };
            result_page(posts, f, page, size) + result_page(posts, f, page + 1, size)
                == all.subrange(lo, hi)
        }),
        unique_post_ids(posts) ==> forall|x: post::Model|
            !(result_page(posts, f, page, size).contains(x) && result_page(
                posts,
                f,
                page + 1,
                size,
            ).contains(x)),
{
    let all = ordered_matches(posts, f);
    if unique_post_ids(posts) {
        assert(posts.no_duplicates());
        lemma_ordered_no_duplicates(posts, f);
    }
    lemma_consecutive_pages(all, page, size);
}

/// Category resolution fails open: a category without a "category" taxonomy
/// row, or whose row has no relationship, lists no post and a total of 0.
pub proof fn lemma_category_short_circuit(
    store: Store,
    category_id: u64,
    search: Option<String>,
    page: int,
    size: int,
)
    ensures
        category_taxonomy(store.term_taxonomies@, category_id) is None ==> category_result(
            store,
            category_id,
            search,
            page,
            size,
        ) == (Seq::<post::Model>::empty(), 0nat),
        category_taxonomy(store.term_taxonomies@, category_id) matches Some(t) && related_posts(
            store.term_relationships@,
            t,
        ).len() == 0 ==> category_result(store, category_id, search, page, size) == (
            Seq::<post::Model>::empty(),
            0nat,
        ),
{
}

/// A search (or any filter) that admits no post gives an empty page and a
/// total of 0, not an error.
pub proof fn lemma_no_match_empty_page(posts: Seq<post::Model>, f: FilterView, page: int, size: int)
    requires
        valid_page_request(page, size),
        matching(posts, f).len() == 0,
    ensures
        result_page(posts, f, page, size).len() == 0,
        result_total(posts, f) == 0,
{
    lemma_order_len(matching(posts, f));
    assert(window_start(page, size) >= 0) by (nonlinear_arith)
        requires
            page >= 1,
            size >= 1,
    ;
}

/// Collapses metadata rows into a single-valued key/value list: keys in
/// order of first appearance; where a key repeats, its last row wins.
pub fn collapse_meta(rows: &Vec<postmeta::Model>) -> (r: Vec<(String, String)>)
    ensures
        pairs_view(r@) == collapse(rows@),
{
    let mut m: Vec<(String, String)> = Vec::new();
    let mut i: usize = 0;
    assert(rows@.subrange(0, 0) =~= Seq::<postmeta::Model>::empty());
    assert(pairs_view(m@) =~= Seq::<(Seq<char>, Seq<char>)>::empty());
    while i < rows.len()
        invariant
            i <= rows.len(),
            pairs_view(m@) == collapse(rows@.subrange(0, i as int)),
        decreases rows.len() - i,
    {
        let ghost next = rows@.subrange(0, i + 1);
        assert(next.drop_last() =~= rows@.subrange(0, i as int));
        assert(next.last() == rows@[i as int]);
        put_meta(&mut m, rows[i].meta_key.clone(), rows[i].meta_value.clone());
        i = i + 1;
    }
    assert(rows@.subrange(0, i as int) =~= rows@);
    m
}

impl Store {
    /// An empty snapshot.
    pub fn new() -> (r: Store)
        ensures
            r.posts@.len() == 0,
            r.postmeta@.len() == 0,
            r.terms@.len() == 0,
            r.term_taxonomies@.len() == 0,
            r.term_relationships@.len() == 0,
    {
        Store {
            posts: Vec::new(),
            postmeta: Vec::new(),
            terms: Vec::new(),
            term_taxonomies: Vec::new(),
            term_relationships: Vec::new(),
        }
    }

    /// The post with identifier `id`, if one is stored.
    pub fn find_by_id(&self, id: u64) -> (r: Option<post::Model>)
        ensures
            r == post_with_id(self.posts@, id),
    {
        let mut i: usize = 0;
        assert(self.posts@.subrange(0, self.posts@.len() as int) =~= self.posts@);
        while i < self.posts.len()
            invariant
                i <= self.posts.len(),
                post_with_id(self.posts@, id) == post_with_id(
                    self.posts@.subrange(i as int, self.posts@.len() as int),
                    id,
                ),
            decreases self.posts.len() - i,
        {
            let ghost rest = self.posts@.subrange(i as int, self.posts@.len() as int);
            assert(rest[0] == self.posts@[i as int]);
            if self.posts[i].id == id {
                return Some(self.posts[i].duplicate());
            }
            assert(rest.drop_first() =~= self.posts@.subrange(i + 1, self.posts@.len() as int));
            i = i + 1;
        }
        None
    }

    /// One page of the posts that `f` admits, in canonical order, with the
    /// number of all posts that `f` admits.
    pub fn fetch_page(&self, f: &PostFilter, page: u64, page_size: u64) -> (r: (
        Vec<post::Model>,
        u64,
    ))
        requires
            page >= 1,
        ensures
            r.0@ == result_page(self.posts@, f@, page as int, page_size as int),
            r.1 == result_total(self.posts@, f@),
    {
        let ordered = select_ordered(&self.posts, f);
        proof {
            lemma_order_len(matching(self.posts@, f@));
        }
        let total = ordered.len() as u64;
        (paginate(ordered, page, page_size), total)
    }

    /// The posts that match the optional type, status, author and search
    /// constraints: one page in canonical order, and the total.
    pub fn find_posts(
        &self,
        post_type: Option<String>,
        post_status: Option<String>,
        page: u64,
        page_size: u64,
        search: Option<String>,
        author_id: Option<u64>,
    ) -> (r: (Vec<post::Model>, u64))
        requires
            page >= 1,
        ensures
            ({
                let f = listing_filter(post_type, post_status, author_id, search);
                r.0@ == result_page(self.posts@, f, page as int, page_size as int) && r.1
                    == result_total(self.posts@, f)
            }),
    {
        let f = PostFilter::new(post_type, post_status, author_id, search);
        self.fetch_page(&f, page, page_size)
    }

    /// The posts of one type, optionally of one status and holding a search
    /// text: one page in canonical order, and the total.
    pub fn find_by_type(
        &self,
        post_type: &String,
        post_status: Option<String>,
        page: u64,
        page_size: u64,
        search: Option<String>,
    ) -> (r: (Vec<post::Model>, u64))
        requires
            page >= 1,
        ensures
            ({
                let f = listing_filter(Some(*post_type), post_status, None, search);
                r.0@ == result_page(self.posts@, f, page as int, page_size as int) && r.1
                    == result_total(self.posts@, f)
            }),
    {
        let f = PostFilter::new(Some(post_type.clone()), post_status, None, search);
        self.fetch_page(&f, page, page_size)
    }

    /// Every distinct post type with its total and published counts, by total
    /// descending, equal totals in ascending order of name.
    pub fn get_post_types(&self) -> (r: Vec<PostType>)
        ensures
            rows_of(r@) == post_type_counts(self.posts@),
    {
        summarize_post_types(&self.posts)
    }

    /// The published posts of a category, found through its "category"
    /// taxonomy row and that row's relationships: one page and the total.
    pub fn find_by_category(&self, category_id: u64, page: u64, page_size: u64, search: Option<
        String,
    >) -> (r: (Vec<post::Model>, u64))
        requires
            page >= 1,
        ensures
            r.0@ == category_result(*self, category_id, search, page as int, page_size as int).0,
            r.1 == category_result(*self, category_id, search, page as int, page_size as int).1,
    {
        let taxonomy_id = find_category_taxonomy(&self.term_taxonomies, category_id);
        let step = after_taxonomy_lookup(taxonomy_id);
        let taxonomy_id = match step {
            CategoryStep::LoadRelationships(t) => t,
            _ => return (Vec::new(), 0),
        };
        let post_ids = find_related_posts(&self.term_relationships, taxonomy_id);
        let step = after_relationships(post_ids, search);
        match step {
            CategoryStep::FetchPosts(f) => self.fetch_page(&f, page, page_size),
            _ => (Vec::new(), 0),
        }
    }

    /// All "category" taxonomy rows joined with their terms: one page of
    /// them and their number.
    pub fn find_categories(&self, page: u64, page_size: u64) -> (r: (
        Vec<(term_taxonomy::Model, term::Model)>,
        u64,
    ))
        requires
            page >= 1,
        ensures
            r.0@ == page_of(
                category_entries(self.term_taxonomies@, self.terms@),
                page as int,
                page_size as int,
            ),
            r.1 == category_entries(self.term_taxonomies@, self.terms@).len(),
    {
        let ghost terms = self.terms@;
        let mut results: Vec<(term_taxonomy::Model, term::Model)> = Vec::new();
        let mut i: usize = 0;
        assert(self.term_taxonomies@.subrange(0, 0) =~= Seq::<term_taxonomy::Model>::empty());
        while i < self.term_taxonomies.len()
            invariant
                i <= self.term_taxonomies.len(),
                terms == self.terms@,
                results@ == category_entries(self.term_taxonomies@.subrange(0, i as int), terms),
                results@.len() <= i,
            decreases self.term_taxonomies.len() - i,
        {
            let ghost next = self.term_taxonomies@.subrange(0, i + 1);
            assert(next.drop_last() =~= self.term_taxonomies@.subrange(0, i as int));
            assert(next.last() == self.term_taxonomies@[i as int]);
            let row = &self.term_taxonomies[i];
            if same_text(&row.taxonomy, CATEGORY_KIND) {
                if let Some(t) = find_term(&self.terms, row.term_id) {
                    results.push((row.duplicate(), t));
                }
            }
            i = i + 1;
        }
        assert(self.term_taxonomies@.subrange(0, i as int) =~= self.term_taxonomies@);
        let total = results.len() as u64;
        (paginate(results, page, page_size), total)
    }

    /// The metadata rows of post `post_id`, in stored order.
    pub fn find_by_post_id(&self, post_id: u64) -> (r: Vec<postmeta::Model>)
        ensures
            r@ == meta_rows(self.postmeta@, post_id),
    {
        let mut r: Vec<postmeta::Model> = Vec::new();
        let mut i: usize = 0;
        proof {
            reveal(Seq::filter);
            assert(self.postmeta@.subrange(0, 0) =~= Seq::<postmeta::Model>::empty());
        }
        while i < self.postmeta.len()
            invariant
                i <= self.postmeta.len(),
                r@ == meta_rows(self.postmeta@.subrange(0, i as int), post_id),
            decreases self.postmeta.len() - i,
        {
            let ghost pre = self.postmeta@.subrange(0, i as int);
            let ghost next = self.postmeta@.subrange(0, i + 1);
            proof {
                reveal(Seq::filter);
                assert(next.drop_last() =~= pre);
                assert(next.last() == self.postmeta@[i as int]);
            }
            if self.postmeta[i].post_id == post_id {
                r.push(self.postmeta[i].duplicate());
            }
            i = i + 1;
        }
        assert(self.postmeta@.subrange(0, i as int) =~= self.postmeta@);
        r
    }

    /// The metadata of post `post_id` as a single-valued key/value list: keys
    /// in order of first appearance; where a key repeats, its last row wins.
    pub fn find_metadata_map(&self, post_id: u64) -> (r: Vec<(String, String)>)
        ensures
            pairs_view(r@) == collapse(meta_rows(self.postmeta@, post_id)),
    {
        let rows = self.find_by_post_id(post_id);
        collapse_meta(&rows)
    }
}

} // verus!
