use vstd::prelude::*;
use crate::models::{term_relationship, term_taxonomy};
use crate::query::filter::{category_filter, opt_text, PostFilter};
use crate::text::same_text;

verus! {

/// The taxonomy kind that marks a category.
pub const CATEGORY_KIND: &'static str = "category";

/// The taxonomy kind that marks a category.
pub open spec fn category_kind() -> Seq<char> {
    CATEGORY_KIND@
}

/// The taxonomy row describes the category whose term is `category_id`.
pub open spec fn is_category_row(t: term_taxonomy::Model, category_id: u64) -> bool {
    t.term_id == category_id && t.taxonomy@ == category_kind()
}

/// The term-taxonomy identifier of the first row of `rows` that describes
/// category `category_id`, if any row does.
pub open spec fn category_taxonomy(rows: Seq<term_taxonomy::Model>, category_id: u64) -> Option<u64>
    decreases rows.len(),
{
    if rows.len() == 0 {
        None
    } else if is_category_row(rows[0], category_id) {
        Some(rows[0].term_taxonomy_id)
    } else {
        category_taxonomy(rows.drop_first(), category_id)
    }
}

/// The posts that the relationships in `rels` attach to term taxonomy
/// `taxonomy_id`, in the order of `rels`.
pub open spec fn related_posts(rels: Seq<term_relationship::Model>, taxonomy_id: u64) -> Seq<u64> {
    rels.filter(|r: term_relationship::Model| r.term_taxonomy_id == taxonomy_id).map_values(
        |r: term_relationship::Model| r.object_id,
    )
}

/// What a category lookup does next.
#[derive(Debug, Clone)]
pub enum CategoryStep {
    /// Read the relationships of this term taxonomy.
    LoadRelationships(u64),
    /// Count and fetch the posts that this filter admits.
    FetchPosts(PostFilter),
    /// The category holds no post: the answer is an empty page and a total of 0,
    /// and no post query is made.
    Empty,
}

/// The step after looking up the category's taxonomy row: a missing row
/// ends the lookup with an empty answer, not an error.
pub fn after_taxonomy_lookup(taxonomy_id: Option<u64>) -> (r: CategoryStep)
    ensures
        taxonomy_id is None ==> r is Empty,
        taxonomy_id matches Some(t) ==> r == CategoryStep::LoadRelationships(t),
{
    match taxonomy_id {
        Some(t) => CategoryStep::LoadRelationships(t),
        None => CategoryStep::Empty,
    }
}

/// The step after collecting the related post identifiers: none ends the
/// lookup with an empty answer; otherwise the published posts among them
/// (narrowed by `search`, if given) are fetched.
pub fn after_relationships(post_ids: Vec<u64>, search: Option<String>) -> (r: CategoryStep)
    ensures
        post_ids@.len() == 0 ==> r is Empty,
        post_ids@.len() > 0 ==> (r matches CategoryStep::FetchPosts(f) && f@ == category_filter(
            post_ids@,
            opt_text(search),
        )),
{
    if post_ids.len() == 0 {
        CategoryStep::Empty
    } else {
        CategoryStep::FetchPosts(PostFilter::published_among(post_ids, search))
    }
}

/// The term-taxonomy identifier of the first "category" row for `category_id`.
pub fn find_category_taxonomy(rows: &Vec<term_taxonomy::Model>, category_id: u64) -> (r: Option<u64>)
    ensures
        r == category_taxonomy(rows@, category_id),
{
    let mut i: usize = 0;
    assert(rows@.subrange(0, rows@.len() as int) =~= rows@);
    while i < rows.len()
        invariant
            i <= rows.len(),
            category_taxonomy(rows@, category_id) == category_taxonomy(
                rows@.subrange(i as int, rows@.len() as int),
                category_id,
            ),
        decreases rows.len() - i,
    {
        let ghost rest = rows@.subrange(i as int, rows@.len() as int);
        assert(rest[0] == rows@[i as int]);
        if rows[i].term_id == category_id && same_text(&rows[i].taxonomy, CATEGORY_KIND) {
            return Some(rows[i].term_taxonomy_id);
        }
        assert(rest.drop_first() =~= rows@.subrange(i + 1, rows@.len() as int));
        i = i + 1;
    }
    None
}

/// The identifiers of the posts attached to term taxonomy `taxonomy_id`.
pub fn find_related_posts(rels: &Vec<term_relationship::Model>, taxonomy_id: u64) -> (r: Vec<u64>)
    ensures
        r@ == related_posts(rels@, taxonomy_id),
{
    let mut r: Vec<u64> = Vec::new();
    let mut i: usize = 0;
    proof {
        reveal(Seq::filter);
        assert(rels@.subrange(0, 0) =~= Seq::<term_relationship::Model>::empty());
        assert(related_posts(rels@.subrange(0, 0), taxonomy_id) =~= Seq::<u64>::empty());
    }
    while i < rels.len()
        invariant
            i <= rels.len(),
            r@ == related_posts(rels@.subrange(0, i as int), taxonomy_id),
        decreases rels.len() - i,
    {
        let ghost pre = rels@.subrange(0, i as int);
        let ghost next = rels@.subrange(0, i + 1);
        let ghost pred = |r: term_relationship::Model| r.term_taxonomy_id == taxonomy_id;
        proof {
            reveal(Seq::filter);
            assert(next.drop_last() =~= pre);
            assert(next.last() == rels@[i as int]);
        }
        if rels[i].term_taxonomy_id == taxonomy_id {
            r.push(rels[i].object_id);
            proof {
                assert(next.filter(pred) == pre.filter(pred).push(rels@[i as int]));
                assert(r@ =~= related_posts(next, taxonomy_id));
            }
        } else {
            assert(next.filter(pred) == pre.filter(pred));
        }
        i = i + 1;
    }
    assert(rels@.subrange(0, i as int) =~= rels@);
    r
}

} // verus!
