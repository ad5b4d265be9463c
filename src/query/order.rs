use vstd::prelude::*;
use crate::models::post;
use crate::query::filter::{FilterView, PostFilter};

verus! {

/// Creation date `a` sorts strictly before `b` in the canonical order:
/// later dates first, and every present date before a missing one.
pub open spec fn date_precedes(a: Option<i64>, b: Option<i64>) -> bool {
    match (a, b) {
        (Some(x), Some(y)) => x > y,
        (Some(_), None) => true,
        _ => false,
    }
}

/// Places `x` into the ordered rows `s` after every row it does not strictly
/// precede, so that rows with equal dates keep the order in which they came.
pub open spec fn insert_by_date(s: Seq<post::Model>, x: post::Model) -> Seq<post::Model>
    decreases s.len(),
{
    if s.len() == 0 {
        seq![x]
    } else if date_precedes(x.post_date, s.last().post_date) {
        insert_by_date(s.drop_last(), x).push(s.last())
    } else {
        s.push(x)
    }
}

/// The canonical order of rows: creation date descending, missing dates last,
/// ties in the order of `s`.
pub open spec fn order_by_date(s: Seq<post::Model>) -> Seq<post::Model>
    decreases s.len(),
{
    if s.len() == 0 {
        s
    } else {
        insert_by_date(order_by_date(s.drop_last()), s.last())
    }
}

/// The rows of `posts` that `f` admits, in the order of `posts`.
pub open spec fn matching(posts: Seq<post::Model>, f: FilterView) -> Seq<post::Model> {
    posts.filter(|p: post::Model| f.admits(p))
}

/// The rows of `posts` that `f` admits, in canonical order.
pub open spec fn ordered_matches(posts: Seq<post::Model>, f: FilterView) -> Seq<post::Model> {
    order_by_date(matching(posts, f))
}

/// Inserts `x` into the ordered rows `v` at its canonical place.
pub fn insert_ordered(v: &mut Vec<post::Model>, x: post::Model)
    ensures
        final(v)@ == insert_by_date(old(v)@, x),
{
    let ghost s = v@;
    let mut j: usize = v.len();
    assert(s.subrange(0, j as int) =~= s);
    assert(s.subrange(j as int, s.len() as int) =~= Seq::<post::Model>::empty());
    while j > 0 && date_before(&x.post_date, &v[j - 1].post_date)
        invariant
            v@ == s,
            j <= s.len(),
            insert_by_date(s, x) == insert_by_date(s.subrange(0, j as int), x) + s.subrange(
                j as int,
                s.len() as int,
            ),
        decreases j,
    {
        proof {
            let pre = s.subrange(0, j as int);
            assert(pre.drop_last() =~= s.subrange(0, j - 1));
            assert(pre.last() == s[j - 1]);
            assert(insert_by_date(pre, x) == insert_by_date(s.subrange(0, j - 1), x).push(s[j - 1]));
            assert(s.subrange(j - 1, s.len() as int) =~= seq![s[j - 1]] + s.subrange(
                j as int,
                s.len() as int,
            ));
            assert(insert_by_date(s.subrange(0, j - 1), x).push(s[j - 1]) + s.subrange(
                j as int,
                s.len() as int,
            ) =~= insert_by_date(s.subrange(0, j - 1), x) + s.subrange(j - 1, s.len() as int));
        }
        j = j - 1;
    }
    proof {
        let pre = s.subrange(0, j as int);
        if j > 0 {
            assert(pre.last() == s[j - 1]);
        }
        assert(insert_by_date(pre, x) =~= pre.push(x));
    }
    v.insert(j, x);
    assert(v@ =~= s.subrange(0, j as int).push(x) + s.subrange(j as int, s.len() as int));
}

/// Whether creation date `a` sorts strictly before `b` in the canonical order.
pub fn date_before(a: &Option<i64>, b: &Option<i64>) -> (r: bool)
    ensures
        r == date_precedes(*a, *b),
{
    match (a, b) {
        (Some(x), Some(y)) => *x > *y,
        (Some(_), None) => true,
        _ => false,
    }
}

/// Copies of the rows of `posts` that `f` admits, in canonical order.
pub fn select_ordered(posts: &Vec<post::Model>, f: &PostFilter) -> (r: Vec<post::Model>)
    ensures
        r@ == ordered_matches(posts@, f@),
{
    let mut r: Vec<post::Model> = Vec::new();
    let mut i: usize = 0;
    proof {
        reveal(Seq::filter);
        assert(posts@.subrange(0, 0) =~= Seq::<post::Model>::empty());
    }
    while i < posts.len()
        invariant
            i <= posts.len(),
            r@ == ordered_matches(posts@.subrange(0, i as int), f@),
        decreases posts.len() - i,
    {
        let ghost pre = posts@.subrange(0, i as int);
        let ghost next = posts@.subrange(0, i + 1);
        proof {
            reveal(Seq::filter);
            assert(next.drop_last() =~= pre);
            assert(next.last() == posts@[i as int]);
        }
        if f.matches(&posts[i]) {
            let row = posts[i].duplicate();
            proof {
                let m = matching(pre, f@);
                assert(matching(next, f@) == m.push(row));
                assert(m.push(row).drop_last() =~= m);
            }
            insert_ordered(&mut r, row);
        }
        i = i + 1;
    }
    assert(posts@.subrange(0, i as int) =~= posts@);
    r
}

/// Inserting a row lengthens the ordered rows by one.
pub proof fn lemma_insert_len(s: Seq<post::Model>, x: post::Model)
    ensures
        insert_by_date(s, x).len() == s.len() + 1,
    decreases s.len(),
{
    if s.len() > 0 && date_precedes(x.post_date, s.last().post_date) {
        lemma_insert_len(s.drop_last(), x);
    }
}

/// Ordering keeps the number of rows.
pub proof fn lemma_order_len(s: Seq<post::Model>)
    ensures
        order_by_date(s).len() == s.len(),
    decreases s.len(),
{
    if s.len() > 0 {
        lemma_order_len(s.drop_last());
        lemma_insert_len(order_by_date(s.drop_last()), s.last());
    }
}

/// Inserting puts `x` at one position and keeps the other rows in order.
pub proof fn lemma_insert_shape(s: Seq<post::Model>, x: post::Model) -> (k: int)
    ensures
        0 <= k <= s.len(),
        insert_by_date(s, x) == s.insert(k, x),
    decreases s.len(),
{
    if s.len() == 0 {
        assert(seq![x] =~= s.insert(0, x));
        0
    } else if date_precedes(x.post_date, s.last().post_date) {
        let k = lemma_insert_shape(s.drop_last(), x);
        assert(s.drop_last().insert(k, x).push(s.last()) =~= s.insert(k, x));
        k
    } else {
        assert(s.push(x) =~= s.insert(s.len() as int, x));
        s.len() as int
    }
}

/// Ordering rearranges the rows: it keeps each row as often as it occurs.
pub proof fn lemma_order_multiset(s: Seq<post::Model>)
    ensures
        order_by_date(s).to_multiset() == s.to_multiset(),
    decreases s.len(),
{
    broadcast use vstd::seq_lib::to_multiset_insert, vstd::seq_lib::to_multiset_build;

    if s.len() > 0 {
        let rest = s.drop_last();
        lemma_order_multiset(rest);
        lemma_insert_shape(order_by_date(rest), s.last());
        assert(rest.push(s.last()) =~= s);
    }
}

/// Selecting rows keeps a sequence free of repeated rows.
pub proof fn lemma_matching_no_duplicates(posts: Seq<post::Model>, f: FilterView)
    requires
        posts.no_duplicates(),
    ensures
        matching(posts, f).no_duplicates(),
    decreases posts.len(),
{
    reveal(Seq::filter);
    if posts.len() > 0 {
        let rest = posts.drop_last();
        let pred = |p: post::Model| f.admits(p);
        assert(rest.no_duplicates()) by {
            assert forall|i: int, j: int| 0 <= i < rest.len() && 0 <= j < rest.len() && i != j implies rest[i]
                != rest[j] by {
                assert(rest[i] == posts[i] && rest[j] == posts[j]);
            }
        }
        lemma_matching_no_duplicates(rest, f);
        if pred(posts.last()) {
            let m = rest.filter(pred);
            if m.contains(posts.last()) {
                rest.lemma_filter_contains_rev(pred, posts.last());
                let i = choose|i: int| 0 <= i < rest.len() && rest[i] == posts.last();
                assert(posts[i] == posts[posts.len() - 1]);
            }
            assert(m.push(posts.last()).no_duplicates()) by {
                assert forall|i: int, j: int|
                    0 <= i < m.len() + 1 && 0 <= j < m.len() + 1 && i != j implies #[trigger] m.push(
                    posts.last(),
                )[i] != #[trigger] m.push(posts.last())[j] by {
                    if i < m.len() && j < m.len() {
                    } else if i < m.len() {
                        assert(m.contains(m[i]));
                    } else {
                        assert(m.contains(m[j]));
                    }
                }
            }
        }
    }
}

/// When `posts` repeats no row, neither do its canonical results.
pub proof fn lemma_ordered_no_duplicates(posts: Seq<post::Model>, f: FilterView)
    requires
        posts.no_duplicates(),
    ensures
        ordered_matches(posts, f).no_duplicates(),
{
    let m = matching(posts, f);
    lemma_matching_no_duplicates(posts, f);
    m.lemma_multiset_has_no_duplicates();
    lemma_order_multiset(m);
    order_by_date(m).lemma_multiset_has_no_duplicates_conv();
}

/// No row of `s` sorts strictly before a row that precedes it.
pub open spec fn date_sorted(s: Seq<post::Model>) -> bool {
    forall|i: int, j: int|
        0 <= i < j < s.len() ==> !date_precedes(#[trigger] s[j].post_date, #[trigger] s[i].post_date)
}

/// Inserting into sorted rows keeps them sorted.
pub proof fn lemma_insert_sorted(s: Seq<post::Model>, x: post::Model)
    requires
        date_sorted(s),
    ensures
        date_sorted(insert_by_date(s, x)),
    decreases s.len(),
{
    if s.len() == 0 {
        assert(insert_by_date(s, x) =~= seq![x]);
    } else {
        let last = s.last();
        let dl = s.drop_last();
        assert(date_sorted(dl)) by {
            assert forall|i: int, j: int| 0 <= i < j < dl.len() implies !date_precedes(
                #[trigger] dl[j].post_date,
                #[trigger] dl[i].post_date,
            ) by {
                assert(dl[i] == s[i] && dl[j] == s[j]);
            }
        }
        if date_precedes(x.post_date, last.post_date) {
            lemma_insert_sorted(dl, x);
            let r1 = insert_by_date(dl, x);
            let k = lemma_insert_shape(dl, x);
            let r = r1.push(last);
            assert forall|i: int, j: int| 0 <= i < j < r.len() implies !date_precedes(
                #[trigger] r[j].post_date,
                #[trigger] r[i].post_date,
            ) by {
                if j < r1.len() {
                    assert(r[i] == r1[i] && r[j] == r1[j]);
                } else {
                    assert(r[j] == last);
                    if i < k {
                        assert(r[i] == s[i]);
                    } else if i == k {
                        assert(r[i] == x);
                    } else {
                        assert(r[i] == s[i - 1]);
                    }
                }
            }
        } else {
            let r = s.push(x);
            assert forall|i: int, j: int| 0 <= i < j < r.len() implies !date_precedes(
                #[trigger] r[j].post_date,
                #[trigger] r[i].post_date,
            ) by {
                if j < s.len() {
                    assert(r[i] == s[i] && r[j] == s[j]);
                } else if i < s.len() - 1 {
                    assert(r[i] == s[i]);
                    assert(!date_precedes(s[s.len() - 1].post_date, s[i].post_date));
                } else {
                    assert(r[i] == last);
                }
            }
        }
    }
}

/// The canonical order is sorted: creation date descending, missing dates last.
pub proof fn lemma_order_sorted(s: Seq<post::Model>)
    ensures
        date_sorted(order_by_date(s)),
    decreases s.len(),
{
    if s.len() > 0 {
        lemma_order_sorted(s.drop_last());
        lemma_insert_sorted(order_by_date(s.drop_last()), s.last());
    }
}

} // verus!
