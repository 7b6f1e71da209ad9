//! Ordering of rows for queries: a closed mapping from (sort field, sort
//! direction) to a total preorder on rows, and a verified insertion sort.
//!
//! Rows without a priority sort last regardless of direction when ordering by
//! priority; ties there fall back to the ingestion time.

use vstd::prelude::*;

use crate::models::{Article, ArticleV, SortDirection, SortField};

verus! {

/// The view of each row of `s`.
pub open spec fn views(s: Seq<Article>) -> Seq<ArticleV> {
    s.map_values(|a: Article| a@)
}

/// `x` comes no later than `y` under direction `dir`.
pub open spec fn dir_le(dir: SortDirection, x: int, y: int) -> bool {
    match dir {
        SortDirection::Ascending => x <= y,
        SortDirection::Descending => y <= x,
    }
}

/// Priority ordering: rows with a priority come first regardless of
/// direction; equal (or equally absent) priorities fall back to the
/// ingestion time in the same direction.
pub open spec fn priority_le(dir: SortDirection, a: ArticleV, b: ArticleV) -> bool {
    match (a.priority, b.priority) {
        (Some(pa), Some(pb)) => if pa != pb {
            dir_le(dir, pa, pb)
        } else {
            dir_le(dir, a.fetched_at, b.fetched_at)
        },
        (Some(pa), None) => true,
        (None, Some(pb)) => false,
        (None, None) => dir_le(dir, a.fetched_at, b.fetched_at),
    }
}

/// Row `a` comes no later than row `b` under the given sort criteria.
pub open spec fn article_le(field: SortField, dir: SortDirection, a: ArticleV, b: ArticleV) -> bool {
    match field {
        SortField::Date => dir_le(dir, a.fetched_at, b.fetched_at),
        SortField::Score => dir_le(dir, a.score, b.score),
        SortField::Priority => priority_le(dir, a, b),
    }
}

/// The sequence is ordered under the given sort criteria.
pub open spec fn rows_sorted(field: SortField, dir: SortDirection, s: Seq<ArticleV>) -> bool {
    forall|i: int, j: int| 0 <= i < j < s.len() ==> article_le(field, dir, #[trigger] s[i], #[trigger] s[j])
}

/// The row ordering is total: of any two rows, one comes no later.
pub proof fn lemma_article_le_total(field: SortField, dir: SortDirection, a: ArticleV, b: ArticleV)
    ensures
        article_le(field, dir, a, b) || article_le(field, dir, b, a),
{
}

/// The row ordering is transitive.
pub proof fn lemma_article_le_trans(
    field: SortField,
    dir: SortDirection,
    a: ArticleV,
    b: ArticleV,
    c: ArticleV,
)
    ensures
        article_le(field, dir, a, b) && article_le(field, dir, b, c) ==> article_le(field, dir, a, c),
{
}

fn dir_le_exec(dir: SortDirection, x: i64, y: i64) -> (r: bool)
    ensures
        r == dir_le(dir, x as int, y as int),
{
    match dir {
        SortDirection::Ascending => x <= y,
        SortDirection::Descending => y <= x,
    }
}

/// Decides [`article_le`] on two rows.
pub fn article_le_exec(field: SortField, dir: SortDirection, a: &Article, b: &Article) -> (r: bool)
    ensures
        r == article_le(field, dir, a@, b@),
{
    match field {
        SortField::Date => dir_le_exec(dir, a.fetched_at, b.fetched_at),
        SortField::Score => dir_le_exec(dir, a.score, b.score),
        SortField::Priority => match (a.priority, b.priority) {
            (Some(pa), Some(pb)) => if pa != pb {
                dir_le_exec(dir, pa, pb)
            } else {
                dir_le_exec(dir, a.fetched_at, b.fetched_at)
            },
            (Some(_), None) => true,
            (None, Some(_)) => false,
            (None, None) => dir_le_exec(dir, a.fetched_at, b.fetched_at),
        },
    }
}

/// Mapping the view over a sequence commutes with inserting one element.
proof fn lemma_views_insert(s: Seq<Article>, k: int, a: Article)
    requires
        0 <= k <= s.len(),
    ensures
        views(s.insert(k, a)) =~= views(s).insert(k, a@),
{
}

/// Mapping the view over a sequence commutes with appending one element.
pub proof fn lemma_views_push(s: Seq<Article>, a: Article)
    ensures
        views(s.push(a)) =~= views(s).push(a@),
{
}

/// Mapping the view over a sequence commutes with taking a prefix.
pub proof fn lemma_views_take(s: Seq<Article>, n: int)
    requires
        0 <= n <= s.len(),
    ensures
        views(s.take(n)) =~= views(s).take(n),
{
}

/// Sorts rows under the given criteria: the result is ordered and holds
/// exactly the rows of the input (as a multiset of views).
pub fn sort_articles(v: Vec<Article>, field: SortField, dir: SortDirection) -> (r: Vec<Article>)
    ensures
        rows_sorted(field, dir, views(r@)),
        views(r@).to_multiset() == views(v@).to_multiset(),
        r@.len() == v@.len(),
{
    broadcast use vstd::seq_lib::group_to_multiset_ensures;

    let mut out: Vec<Article> = Vec::new();
    let mut i: usize = 0;
    while i < v.len()
        invariant
            i <= v@.len(),
            rows_sorted(field, dir, views(out@)),
            views(out@).to_multiset() == views(v@.take(i as int)).to_multiset(),
            out@.len() == i,
        decreases v@.len() - i,
    {
        let a = v[i].clone();
        let mut k: usize = 0;
        while k < out.len() && article_le_exec(field, dir, &out[k], &a)
            invariant
                k <= out@.len(),
                forall|m: int| 0 <= m < k ==> article_le(field, dir, #[trigger] views(out@)[m], a@),
            decreases out@.len() - k,
        {
            k += 1;
        }
        let ghost out0 = out@;
        out.insert(k, a);
        proof {
            let ov = views(out0);
            let gk = k as int;
            // everything at or past the insertion point comes after `a`
            assert forall|m: int| gk <= m < ov.len() implies article_le(field, dir, a@, #[trigger] ov[m]) by {
                if gk < ov.len() {
                    lemma_article_le_total(field, dir, ov[gk], a@);
                    lemma_article_le_trans(field, dir, a@, ov[gk], ov[m]);
                }
            }
            lemma_views_insert(out0, gk, a);
            let nv = ov.insert(gk, a@);
            assert(views(out@) =~= nv);
            assert forall|x: int, y: int| 0 <= x < y < nv.len() implies article_le(
                field,
                dir,
                #[trigger] nv[x],
                #[trigger] nv[y],
            ) by {
                assert(forall|m: int| 0 <= m < gk ==> nv[m] == ov[m]);
                assert(nv[gk] == a@);
                assert(forall|m: int| gk < m < nv.len() ==> nv[m] == ov[m - 1]);
            }
            assert(rows_sorted(field, dir, views(out@)));
            // the new element joins the multiset
            vstd::seq_lib::to_multiset_insert(ov, gk, a@);
            assert(views(v@.take(i + 1)) =~= views(v@.take(i as int)).push(v@[i as int]@));
            vstd::seq_lib::to_multiset_build(views(v@.take(i as int)), a@);
            assert(views(out@).to_multiset() == views(v@.take(i + 1)).to_multiset());
        }
        i += 1;
    }
    proof {
        assert(v@.take(v@.len() as int) =~= v@);
    }
    out
}

} // verus!
