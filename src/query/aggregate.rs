use vstd::prelude::*;
use crate::api::responses::PostType;
use crate::models::post;
use crate::query::filter::{published_status, PUBLISHED_STATUS};
use crate::text::{
    lemma_seq_less_irreflexive, lemma_seq_less_total, lemma_seq_less_transitive, same_text,
    seq_less, text_less,
};

verus! {

/// A post type's name, total count and published count, as plain values.
pub open spec fn row_of(p: PostType) -> (Seq<char>, nat, nat) {
    (p.name@, p.count as nat, p.published_count as nat)
}

/// The plain rows of a sequence of post types.
pub open spec fn rows_of(v: Seq<PostType>) -> Seq<(Seq<char>, nat, nat)> {
    v.map_values(|p: PostType| row_of(p))
}

/// The views of a sequence of strings.
pub open spec fn texts(v: Seq<String>) -> Seq<Seq<char>> {
    v.map_values(|s: String| s@)
}

/// Places `x` after every row whose total is at least its own.
pub open spec fn insert_by_count(s: Seq<(Seq<char>, nat, nat)>, x: (Seq<char>, nat, nat)) -> Seq<
    (Seq<char>, nat, nat),
>
    decreases s.len(),
{
    if s.len() == 0 {
        seq![x]
    } else if x.1 > s.last().1 {
        insert_by_count(s.drop_last(), x).push(s.last())
    } else {
        s.push(x)
    }
}

/// The rows ordered by total count descending; rows with equal totals keep
/// the order of `s`.
pub open spec fn rank_by_count(s: Seq<(Seq<char>, nat, nat)>) -> Seq<(Seq<char>, nat, nat)>
    decreases s.len(),
{
    if s.len() == 0 {
        s
    } else {
        insert_by_count(rank_by_count(s.drop_last()), s.last())
    }
}

/// Adds `t` to the ascending list of distinct names `names`, unless present.
pub open spec fn insert_type(names: Seq<Seq<char>>, t: Seq<char>) -> Seq<Seq<char>>
    decreases names.len(),
{
    if names.len() == 0 {
        seq![t]
    } else if names.last() == t {
        names
    } else if seq_less(t, names.last()) {
        insert_type(names.drop_last(), t).push(names.last())
    } else {
        names.push(t)
    }
}

/// The distinct post types of `posts`, in ascending lexicographic order.
pub open spec fn distinct_types(posts: Seq<post::Model>) -> Seq<Seq<char>>
    decreases posts.len(),
{
    if posts.len() == 0 {
        Seq::empty()
    } else {
        insert_type(distinct_types(posts.drop_last()), posts.last().post_type@)
    }
}

/// Number of posts of type `t`.
pub open spec fn count_of_type(posts: Seq<post::Model>, t: Seq<char>) -> nat {
    posts.filter(|p: post::Model| p.post_type@ == t).len()
}

/// Number of published posts of type `t`.
pub open spec fn published_of_type(posts: Seq<post::Model>, t: Seq<char>) -> nat {
    posts.filter(|p: post::Model| p.post_type@ == t && p.post_status@ == published_status()).len()
}

/// The summary of one post type.
pub open spec fn type_summary(posts: Seq<post::Model>, t: Seq<char>) -> (Seq<char>, nat, nat) {
    (t, count_of_type(posts, t), published_of_type(posts, t))
}

/// Every distinct post type with its total and published counts, ordered by
/// total descending; equal totals stay in ascending order of type name.
pub open spec fn post_type_counts(posts: Seq<post::Model>) -> Seq<(Seq<char>, nat, nat)> {
    rank_by_count(distinct_types(posts).map_values(|t: Seq<char>| type_summary(posts, t)))
}

fn copy_post_type(p: &PostType) -> (r: PostType)
    ensures
        r == *p,
{
    PostType { name: p.name.clone(), count: p.count, published_count: p.published_count }
}

/// Inserts `x` into the ranked rows `v` after every row with a total at least its own.
pub fn insert_ranked(v: &mut Vec<PostType>, x: PostType)
    ensures
        rows_of(final(v)@) == insert_by_count(rows_of(old(v)@), row_of(x)),
{
    let ghost s = rows_of(v@);
    let ghost rx = row_of(x);
    let mut j: usize = v.len();
    assert(s.subrange(0, j as int) =~= s);
    assert(s.subrange(j as int, s.len() as int) =~= Seq::<(Seq<char>, nat, nat)>::empty());
    while j > 0 && x.count > v[j - 1].count
        invariant
            s == rows_of(v@),
            rx == row_of(x),
            j <= v.len(),
            insert_by_count(s, rx) == insert_by_count(s.subrange(0, j as int), rx) + s.subrange(
                j as int,
                s.len() as int,
            ),
        decreases j,
    {
        proof {
            let pre = s.subrange(0, j as int);
            assert(pre.drop_last() =~= s.subrange(0, j - 1));
            assert(pre.last() == s[j - 1]);
            assert(s[j - 1] == row_of(v@[j - 1]));
            assert(insert_by_count(pre, rx) == insert_by_count(s.subrange(0, j - 1), rx).push(s[j - 1]));
            assert(s.subrange(j - 1, s.len() as int) =~= seq![s[j - 1]] + s.subrange(
                j as int,
                s.len() as int,
            ));
            assert(insert_by_count(s.subrange(0, j - 1), rx).push(s[j - 1]) + s.subrange(
                j as int,
                s.len() as int,
            ) =~= insert_by_count(s.subrange(0, j - 1), rx) + s.subrange(j - 1, s.len() as int));
        }
        j = j - 1;
    }
    proof {
        let pre = s.subrange(0, j as int);
        if j > 0 {
            assert(pre.last() == s[j - 1]);
        }
        assert(insert_by_count(pre, rx) =~= pre.push(rx));
    }
    v.insert(j, x);
    assert(rows_of(v@) =~= s.subrange(0, j as int).push(rx) + s.subrange(j as int, s.len() as int));
}

/// Orders post types by total count descending; equal totals keep their
/// relative order.
pub fn rank_post_types(types: Vec<PostType>) -> (r: Vec<PostType>)
    ensures
        rows_of(r@) == rank_by_count(rows_of(types@)),
{
    let mut r: Vec<PostType> = Vec::new();
    let mut i: usize = 0;
    assert(rows_of(types@.subrange(0, 0)) =~= Seq::<(Seq<char>, nat, nat)>::empty());
    assert(rows_of(r@) =~= Seq::<(Seq<char>, nat, nat)>::empty());
    while i < types.len()
        invariant
            i <= types.len(),
            rows_of(r@) == rank_by_count(rows_of(types@.subrange(0, i as int))),
        decreases types.len() - i,
    {
        let ghost next = rows_of(types@.subrange(0, i + 1));
        assert(next.drop_last() =~= rows_of(types@.subrange(0, i as int)));
        assert(next.last() == row_of(types@[i as int]));
        let t = copy_post_type(&types[i]);
        insert_ranked(&mut r, t);
        i = i + 1;
    }
    assert(types@.subrange(0, i as int) =~= types@);
    r
}

/// Adds `t` to the ascending list of distinct names `names`, unless present.
pub fn add_type_name(names: &mut Vec<String>, t: String)
    ensures
        texts(final(names)@) == insert_type(texts(old(names)@), t@),
{
    let ghost s = texts(names@);
    let mut j: usize = names.len();
    assert(s.subrange(0, j as int) =~= s);
    assert(s.subrange(j as int, s.len() as int) =~= Seq::<Seq<char>>::empty());
    while j > 0 && !(names[j - 1] == t) && text_less(&t, &names[j - 1])
        invariant
            s == texts(names@),
            j <= names.len(),
            insert_type(s, t@) == insert_type(s.subrange(0, j as int), t@) + s.subrange(
                j as int,
                s.len() as int,
            ),
        decreases j,
    {
        proof {
            let pre = s.subrange(0, j as int);
            assert(pre.drop_last() =~= s.subrange(0, j - 1));
            assert(pre.last() == s[j - 1]);
            assert(s.subrange(j - 1, s.len() as int) =~= seq![s[j - 1]] + s.subrange(
                j as int,
                s.len() as int,
            ));
            assert(insert_type(s.subrange(0, j - 1), t@).push(s[j - 1]) + s.subrange(
                j as int,
                s.len() as int,
            ) =~= insert_type(s.subrange(0, j - 1), t@) + s.subrange(j - 1, s.len() as int));
        }
        j = j - 1;
    }
    let ghost pre = s.subrange(0, j as int);
    if j > 0 && names[j - 1] == t {
        assert(pre.last() == s[j - 1]);
        assert(pre + s.subrange(j as int, s.len() as int) =~= s);
        return;
    }
    proof {
        if j > 0 {
            assert(pre.last() == s[j - 1]);
        }
        assert(insert_type(pre, t@) =~= pre.push(t@));
    }
    names.insert(j, t);
    assert(texts(names@) =~= pre.push(t@) + s.subrange(j as int, s.len() as int));
}

/// The distinct post types of `posts`, in ascending lexicographic order.
pub fn collect_type_names(posts: &Vec<post::Model>) -> (r: Vec<String>)
    ensures
        texts(r@) == distinct_types(posts@),
{
    let mut r: Vec<String> = Vec::new();
    let mut i: usize = 0;
    assert(posts@.subrange(0, 0) =~= Seq::<post::Model>::empty());
    assert(texts(r@) =~= Seq::<Seq<char>>::empty());
    while i < posts.len()
        invariant
            i <= posts.len(),
            texts(r@) == distinct_types(posts@.subrange(0, i as int)),
        decreases posts.len() - i,
    {
        let ghost next = posts@.subrange(0, i + 1);
        assert(next.drop_last() =~= posts@.subrange(0, i as int));
        assert(next.last() == posts@[i as int]);
        add_type_name(&mut r, posts[i].post_type.clone());
        i = i + 1;
    }
    assert(posts@.subrange(0, i as int) =~= posts@);
    r
}

/// The number of posts of type `t` and the number of those that are published.
pub fn count_type(posts: &Vec<post::Model>, t: &String) -> (r: (u64, u64))
    ensures
        r.0 == count_of_type(posts@, t@),
        r.1 == published_of_type(posts@, t@),
{
    let mut total: usize = 0;
    let mut live: usize = 0;
    let mut i: usize = 0;
    proof {
        reveal(Seq::filter);
        assert(posts@.subrange(0, 0) =~= Seq::<post::Model>::empty());
    }
    while i < posts.len()
        invariant
            i <= posts.len(),
            total == count_of_type(posts@.subrange(0, i as int), t@),
            live == published_of_type(posts@.subrange(0, i as int), t@),
            live <= total <= i,
        decreases posts.len() - i,
    {
        let ghost pre = posts@.subrange(0, i as int);
        let ghost next = posts@.subrange(0, i + 1);
        let ghost p = posts@[i as int];
        proof {
            reveal(Seq::filter);
            assert(next.drop_last() =~= pre);
            assert(next.last() == p);
            assert(count_of_type(next, t@) == count_of_type(pre, t@) + if p.post_type@ == t@ {
                1int
            } else {
                0int
            });
            assert(published_of_type(next, t@) == published_of_type(pre, t@) + if p.post_type@
                == t@ && p.post_status@ == published_status() {
                1int
            } else {
                0int
            });
        }
        if posts[i].post_type == *t {
            total = total + 1;
            if same_text(&posts[i].post_status, PUBLISHED_STATUS) {
                live = live + 1;
            }
        }
        i = i + 1;
    }
    assert(posts@.subrange(0, i as int) =~= posts@);
    (total as u64, live as u64)
}

/// Every distinct post type of `posts` with its total and published counts,
/// ordered by total descending, equal totals in ascending order of name.
pub fn summarize_post_types(posts: &Vec<post::Model>) -> (r: Vec<PostType>)
    ensures
        rows_of(r@) == post_type_counts(posts@),
{
    let names = collect_type_names(posts);
    let ghost target = distinct_types(posts@).map_values(|t: Seq<char>| type_summary(posts@, t));
    let mut rows: Vec<PostType> = Vec::new();
    let mut k: usize = 0;
    while k < names.len()
        invariant
            texts(names@) == distinct_types(posts@),
            target == distinct_types(posts@).map_values(|t: Seq<char>| type_summary(posts@, t)),
            k <= names.len(),
            rows_of(rows@) == target.subrange(0, k as int),
        decreases names.len() - k,
    {
        let (count, published_count) = count_type(posts, &names[k]);
        let row = PostType { name: names[k].clone(), count, published_count };
        assert(texts(names@)[k as int] == names@[k as int]@);
        assert(target[k as int] == type_summary(posts@, names@[k as int]@));
        assert(row_of(row) == target[k as int]);
        let ghost old_rows = rows@;
        rows.push(row);
        assert(rows_of(rows@) =~= rows_of(old_rows).push(row_of(row)));
        assert(rows_of(rows@) =~= target.subrange(0, k + 1));
        k = k + 1;
    }
    assert(target.subrange(0, k as int) =~= target);
    rank_post_types(rows)
}

/// Totals never increase along `s`.
pub open spec fn count_sorted(s: Seq<(Seq<char>, nat, nat)>) -> bool {
    forall|i: int, j: int| 0 <= i < j < s.len() ==> #[trigger] s[j].1 <= #[trigger] s[i].1
}

/// Inserting puts `x` at one position and keeps the other rows in order.
pub proof fn lemma_insert_by_count_shape(s: Seq<(Seq<char>, nat, nat)>, x: (Seq<char>, nat, nat)) -> (k: int)
    ensures
        0 <= k <= s.len(),
        insert_by_count(s, x) == s.insert(k, x),
    decreases s.len(),
{
    if s.len() == 0 {
        assert(seq![x] =~= s.insert(0, x));
        0
    } else if x.1 > s.last().1 {
        let k = lemma_insert_by_count_shape(s.drop_last(), x);
        assert(s.drop_last().insert(k, x).push(s.last()) =~= s.insert(k, x));
        k
    } else {
        assert(s.push(x) =~= s.insert(s.len() as int, x));
        s.len() as int
    }
}

/// Inserting into rows sorted by total keeps them sorted.
pub proof fn lemma_insert_by_count_sorted(s: Seq<(Seq<char>, nat, nat)>, x: (Seq<char>, nat, nat))
    requires
        count_sorted(s),
    ensures
        count_sorted(insert_by_count(s, x)),
    decreases s.len(),
{
    if s.len() == 0 {
        assert(insert_by_count(s, x) =~= seq![x]);
    } else {
        let last = s.last();
        let dl = s.drop_last();
        assert(count_sorted(dl)) by {
            assert forall|i: int, j: int| 0 <= i < j < dl.len() implies #[trigger] dl[j].1
                <= #[trigger] dl[i].1 by {
                assert(dl[i] == s[i] && dl[j] == s[j]);
            }
        }
        if x.1 > last.1 {
            lemma_insert_by_count_sorted(dl, x);
            let r1 = insert_by_count(dl, x);
            let k = lemma_insert_by_count_shape(dl, x);
            let r = r1.push(last);
            assert forall|i: int, j: int| 0 <= i < j < r.len() implies #[trigger] r[j].1
                <= #[trigger] r[i].1 by {
                if j < r1.len() {
                    assert(r[i] == r1[i] && r[j] == r1[j]);
                } else {
                    assert(r[j] == last);
                    if i < k {
                        assert(r[i] == s[i]);
                    } else if i == k {
                        assert(r[i] == x);
                    } else {
                        assert(r[i] == s[i - 1]);
                    }
                }
            }
        } else {
            let r = s.push(x);
            assert forall|i: int, j: int| 0 <= i < j < r.len() implies #[trigger] r[j].1
                <= #[trigger] r[i].1 by {
                if j < s.len() {
                    assert(r[i] == s[i] && r[j] == s[j]);
                } else if i < s.len() - 1 {
                    assert(r[i] == s[i]);
                    assert(s[s.len() - 1].1 <= s[i].1);
                } else {
                    assert(r[i] == last);
                }
            }
        }
    }
}

/// The ranking is ordered by total count, descending.
pub proof fn lemma_rank_sorted(s: Seq<(Seq<char>, nat, nat)>)
    ensures
        count_sorted(rank_by_count(s)),
    decreases s.len(),
{
    if s.len() > 0 {
        lemma_rank_sorted(s.drop_last());
        lemma_insert_by_count_sorted(rank_by_count(s.drop_last()), s.last());
    }
}

/// Names strictly ascend along `names`, so none occurs twice.
pub open spec fn names_ascending(names: Seq<Seq<char>>) -> bool {
    forall|i: int, j: int| 0 <= i < j < names.len() ==> seq_less(#[trigger] names[i], #[trigger] names[j])
}

/// Adding a name to ascending names keeps them ascending and adds exactly it.
pub proof fn lemma_insert_type(names: Seq<Seq<char>>, t: Seq<char>)
    requires
        names_ascending(names),
    ensures
        names_ascending(insert_type(names, t)),
        forall|u: Seq<char>| #[trigger] insert_type(names, t).contains(u) <==> (names.contains(u) || u == t),
    decreases names.len(),
{
    let r = insert_type(names, t);
    if names.len() == 0 {
        assert(r =~= seq![t]);
        assert(forall|u: Seq<char>| r.contains(u) <==> u == t) by {
            assert(r[0] == t);
        }
    } else {
        let last = names.last();
        let dl = names.drop_last();
        assert(names =~= dl.push(last));
        assert(names_ascending(dl)) by {
            assert forall|i: int, j: int| 0 <= i < j < dl.len() implies seq_less(
                #[trigger] dl[i],
                #[trigger] dl[j],
            ) by {
                assert(dl[i] == names[i] && dl[j] == names[j]);
            }
        }
        if last == t {
            assert(names.contains(t)) by {
                assert(names[names.len() - 1] == t);
            }
        } else if seq_less(t, last) {
            lemma_insert_type(dl, t);
            let r1 = insert_type(dl, t);
            assert(r == r1.push(last));
            assert forall|i: int| 0 <= i < r1.len() implies seq_less(#[trigger] r1[i], last) by {
                assert(r1.contains(r1[i]));
                if r1[i] != t {
                    let m = choose|m: int| 0 <= m < dl.len() && dl[m] == r1[i];
                    assert(names[m] == dl[m]);
                    assert(names[names.len() - 1] == last);
                }
            }
            assert forall|i: int, j: int| 0 <= i < j < r.len() implies seq_less(
                #[trigger] r[i],
                #[trigger] r[j],
            ) by {
                if j < r1.len() {
                    assert(r[i] == r1[i] && r[j] == r1[j]);
                } else {
                    assert(r[i] == r1[i]);
                }
            }
            assert forall|u: Seq<char>| #[trigger] r.contains(u) <==> (names.contains(u) || u == t) by {
                if r.contains(u) {
                    let i = choose|i: int| 0 <= i < r.len() && r[i] == u;
                    if i < r1.len() {
                        assert(r1.contains(u));
                        if u != t {
                            let m = choose|m: int| 0 <= m < dl.len() && dl[m] == u;
                            assert(names[m] == u);
                        }
                    } else {
                        assert(names[names.len() - 1] == u);
                    }
                }
                if names.contains(u) {
                    let m = choose|m: int| 0 <= m < names.len() && names[m] == u;
                    if m < dl.len() {
                        assert(dl[m] == u);
                        assert(r1.contains(u));
                        let i = choose|i: int| 0 <= i < r1.len() && r1[i] == u;
                        assert(r[i] == u);
                    } else {
                        assert(r[r.len() - 1] == u);
                    }
                }
                if u == t {
                    assert(r1.contains(t));
                    let i = choose|i: int| 0 <= i < r1.len() && r1[i] == t;
                    assert(r[i] == t);
                }
            }
        } else {
            lemma_seq_less_total(t, last);
            assert(r == names.push(t));
            assert forall|i: int, j: int| 0 <= i < j < r.len() implies seq_less(
                #[trigger] r[i],
                #[trigger] r[j],
            ) by {
                if j < names.len() {
                    assert(r[i] == names[i] && r[j] == names[j]);
                } else if i < names.len() - 1 {
                    assert(r[i] == names[i]);
                    assert(seq_less(names[i], names[names.len() - 1]));
                    lemma_seq_less_transitive(names[i], last, t);
                } else {
                    assert(r[i] == last);
                }
            }
            assert forall|u: Seq<char>| #[trigger] r.contains(u) <==> (names.contains(u) || u == t) by {
                if r.contains(u) {
                    let i = choose|i: int| 0 <= i < r.len() && r[i] == u;
                    if i < names.len() {
                        assert(names[i] == u);
                    }
                }
                if names.contains(u) {
                    let m = choose|m: int| 0 <= m < names.len() && names[m] == u;
                    assert(r[m] == u);
                }
                if u == t {
                    assert(r[r.len() - 1] == t);
                }
            }
        }
    }
}

/// The distinct post types are listed in strictly ascending order of name,
/// and a name is listed exactly when some post has that type.
pub proof fn lemma_distinct_types(posts: Seq<post::Model>)
    ensures
        names_ascending(distinct_types(posts)),
        distinct_types(posts).no_duplicates(),
        forall|u: Seq<char>| #[trigger] distinct_types(posts).contains(u) <==> exists|i: int|
            0 <= i < posts.len() && #[trigger] posts[i].post_type@ == u,
    decreases posts.len(),
{
    let names = distinct_types(posts);
    if posts.len() > 0 {
        let dl = posts.drop_last();
        lemma_distinct_types(dl);
        lemma_insert_type(distinct_types(dl), posts.last().post_type@);
        assert forall|u: Seq<char>| #[trigger] names.contains(u) <==> exists|i: int|
            0 <= i < posts.len() && #[trigger] posts[i].post_type@ == u by {
            if names.contains(u) {
                if u == posts.last().post_type@ {
                    assert(posts[posts.len() - 1].post_type@ == u);
                } else {
                    assert(distinct_types(dl).contains(u));
                    let i = choose|i: int| 0 <= i < dl.len() && #[trigger] dl[i].post_type@ == u;
                    assert(posts[i].post_type@ == u);
                }
            }
            if exists|i: int| 0 <= i < posts.len() && #[trigger] posts[i].post_type@ == u {
                let i = choose|i: int| 0 <= i < posts.len() && #[trigger] posts[i].post_type@ == u;
                if i < dl.len() {
                    assert(dl[i].post_type@ == u);
                }
            }
        }
    }
    assert forall|i: int, j: int| 0 <= i < names.len() && 0 <= j < names.len() && i != j implies names[i]
        != names[j] by {
        if i < j {
            assert(seq_less(names[i], names[j]));
        } else {
            assert(seq_less(names[j], names[i]));
        }
        lemma_seq_less_irreflexive(names[i]);
    }
}

} // verus!
