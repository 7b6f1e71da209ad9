//! The persistent table of ingested rows, modeled in memory.
//!
//! One table of [`Article`] rows keyed by a surrogate id, with a uniqueness
//! invariant on the external feed identifier. Writes are single-row upserts
//! and updates; reads filter, sort and cap. Every operation's effect is stated
//! against the mathematical view [`StoreV`].

use vstd::prelude::*;

use crate::models::{
    AnalysisResult, AnalysisResultV, Article, ArticleV, CategoryCount, CategoryCountV, HnItem,
    HnItemV, SortDirection, SortField,
};
use crate::sorting::{lemma_views_take, rows_sorted, sort_articles, views};
use crate::text::string_eq;

verus! {

/// The store of rows plus the next free surrogate id.
pub struct Store {
    rows: Vec<Article>,
    next_id: i64,
}

/// Mathematical view of a [`Store`].
#[verifier::ext_equal]
pub struct StoreV {
    pub rows: Seq<ArticleV>,
    pub next_id: int,
}

impl View for Store {
    type V = StoreV;

    closed spec fn view(&self) -> StoreV {
        StoreV { rows: self.rows@.map_values(|a: Article| a@), next_id: self.next_id as int }
    }
}

impl StoreV {
    /// Well-formedness: external identifiers and surrogate ids are unique,
    /// and every surrogate id is below the next free one.
    pub open spec fn wf(self) -> bool {
        &&& forall|i: int, j: int|
            0 <= i < self.rows.len() && 0 <= j < self.rows.len() && i != j
                ==> #[trigger] self.rows[i].hn_id != #[trigger] self.rows[j].hn_id
        &&& forall|i: int, j: int|
            0 <= i < self.rows.len() && 0 <= j < self.rows.len() && i != j
                ==> #[trigger] self.rows[i].id != #[trigger] self.rows[j].id
        &&& forall|i: int| 0 <= i < self.rows.len() ==> #[trigger] self.rows[i].id < self.next_id
    }
}

/// Whether some row carries the external feed identifier `hn_id`.
pub open spec fn has_hn_id(rows: Seq<ArticleV>, hn_id: int) -> bool {
    exists|i: int| 0 <= i < rows.len() && #[trigger] rows[i].hn_id == hn_id
}

/// The index of the row carrying `hn_id` (unique under [`StoreV::wf`]).
pub open spec fn hn_id_index(rows: Seq<ArticleV>, hn_id: int) -> int {
    choose|i: int| 0 <= i < rows.len() && #[trigger] rows[i].hn_id == hn_id
}

/// Whether some row carries the surrogate id `id`.
pub open spec fn has_id(rows: Seq<ArticleV>, id: int) -> bool {
    exists|i: int| 0 <= i < rows.len() && #[trigger] rows[i].id == id
}

/// The index of the row carrying surrogate id `id` (unique under [`StoreV::wf`]).
pub open spec fn id_index(rows: Seq<ArticleV>, id: int) -> int {
    choose|i: int| 0 <= i < rows.len() && #[trigger] rows[i].id == id
}

/// The title an ingested row gets: the feed's title, or empty when absent.
pub open spec fn title_of(item: HnItemV) -> Seq<char> {
    match item.title {
        Some(t) => t,
        None => Seq::empty(),
    }
}

/// The score an ingested row gets: the feed's score, or zero when absent.
pub open spec fn score_of(item: HnItemV) -> int {
    match item.score {
        Some(n) => n,
        None => 0,
    }
}

/// The fresh row created when `item` is first ingested at time `now`.
pub open spec fn new_row(item: HnItemV, now: int, id: int) -> ArticleV {
    ArticleV {
        id: id,
        hn_id: item.id,
        title: title_of(item),
        url: item.url,
        score: score_of(item),
        timestamp: item.time,
        fetched_at: now,
        ai_analysis_done: false,
        is_interesting: false,
        reason: None,
        priority: None,
        category: None,
    }
}

/// Insert-or-update keyed by the external identifier: on conflict only score
/// and title are overwritten; otherwise a fresh unanalyzed row is appended.
pub open spec fn spec_upsert(s: StoreV, item: HnItemV, now: int) -> StoreV {
    if has_hn_id(s.rows, item.id) {
        let i = hn_id_index(s.rows, item.id);
        let updated = ArticleV { title: title_of(item), score: score_of(item), ..s.rows[i] };
        StoreV { rows: s.rows.update(i, updated), next_id: s.next_id }
    } else {
        StoreV { rows: s.rows.push(new_row(item, now, s.next_id)), next_id: s.next_id + 1 }
    }
}

/// Record a judgment on the row with surrogate id `id`: sets the analysis
/// fields and the done flag. A missing or already-analyzed row is left
/// untouched (recording is a no-op there), so a row's analysis-done flag
/// moves from false to true at most once.
pub open spec fn spec_record_analysis(rows: Seq<ArticleV>, id: int, j: AnalysisResultV) -> Seq<
    ArticleV,
> {
    if has_id(rows, id) && !rows[id_index(rows, id)].ai_analysis_done {
        let i = id_index(rows, id);
        let updated = ArticleV {
            ai_analysis_done: true,
            is_interesting: j.relevant,
            reason: Some(j.reason),
            priority: Some(j.priority),
            category: Some(j.category),
            ..rows[i]
        };
        rows.update(i, updated)
    } else {
        rows
    }
}

impl Store {
    /// An empty store; surrogate ids start at 1.
    pub fn new() -> (r: Store)
        ensures
            r@.rows =~= Seq::<ArticleV>::empty(),
            r@.next_id == 1,
            r@.wf(),
    {
        Store { rows: Vec::new(), next_id: 1 }
    }

    /// The index of the row with external identifier `hn_id`, if any.
    fn find_by_hn_id(&self, hn_id: i64) -> (r: Option<usize>)
        ensures
            match r {
                Some(i) => i < self@.rows.len() && self@.rows[i as int].hn_id == hn_id as int,
                None => !has_hn_id(self@.rows, hn_id as int),
            },
    {
        let mut i: usize = 0;
        while i < self.rows.len()
            invariant
                i <= self.rows.len(),
                forall|k: int| 0 <= k < i ==> #[trigger] self@.rows[k].hn_id != hn_id as int,
            decreases self.rows.len() - i,
        {
            if self.rows[i].hn_id == hn_id {
                assert(self@.rows[i as int].hn_id == hn_id as int);
                return Some(i);
            }
            i += 1;
        }
        None
    }

    /// The index of the row with surrogate id `id`, if any.
    fn find_by_id(&self, id: i64) -> (r: Option<usize>)
        ensures
            match r {
                Some(i) => i < self@.rows.len() && self@.rows[i as int].id == id as int,
                None => !has_id(self@.rows, id as int),
            },
    {
        let mut i: usize = 0;
        while i < self.rows.len()
            invariant
                i <= self.rows.len(),
                forall|k: int| 0 <= k < i ==> #[trigger] self@.rows[k].id != id as int,
            decreases self.rows.len() - i,
        {
            if self.rows[i].id == id {
                assert(self@.rows[i as int].id == id as int);
                return Some(i);
            }
            i += 1;
        }
        None
    }

    /// Insert-or-update keyed by the item's external identifier. On conflict
    /// only score and title are overwritten — analysis fields, url and the
    /// ingestion time survive — so repeating the call with the same item
    /// changes nothing further.
    pub fn upsert_article(&mut self, item: &HnItem, now: i64)
        requires
            old(self)@.wf(),
            // id headroom is needed only when a fresh row is inserted
            has_hn_id(old(self)@.rows, item@.id) || old(self)@.next_id < i64::MAX,
        ensures
            final(self)@ == spec_upsert(old(self)@, item@, now as int),
            final(self)@.wf(),
    {
        let ghost s0 = self@;
        let title = match &item.title {
            Some(t) => t.clone(),
            None => String::new(),
        };
        let score = match item.score {
            Some(n) => n,
            None => 0,
        };
        match self.find_by_hn_id(item.id) {
            Some(i) => {
                let row = &mut self.rows[i];
                row.title = title;
                row.score = score;
                proof {
                    let gi = i as int;
                    assert(has_hn_id(s0.rows, item@.id));
                    let j = hn_id_index(s0.rows, item@.id);
                    assert(s0.rows[j].hn_id == item@.id && s0.rows[gi].hn_id == item@.id);
                    assert(j == gi);
                    assert(self@.rows =~= spec_upsert(s0, item@, now as int).rows);
                    assert(self@ =~= spec_upsert(s0, item@, now as int));
                    assert forall|a: int, b: int|
                        0 <= a < self@.rows.len() && 0 <= b < self@.rows.len() && a
                            != b implies #[trigger] self@.rows[a].hn_id != #[trigger] self@.rows[b].hn_id by {
                        assert(s0.rows[a].hn_id != s0.rows[b].hn_id);
                    }
                    assert(self@.wf());
                }
            },
            None => {
                let article = Article {
                    id: self.next_id,
                    hn_id: item.id,
                    title: title,
                    url: crate::models::clone_opt_string(&item.url),
                    score: score,
                    timestamp: item.time,
                    fetched_at: now,
                    ai_analysis_done: false,
                    is_interesting: false,
                    reason: None,
                    priority: None,
                    category: None,
                };
                assert(article@ =~= new_row(item@, now as int, s0.next_id));
                self.rows.push(article);
                self.next_id = self.next_id + 1;
                proof {
                    assert(self@.rows =~= s0.rows.push(new_row(item@, now as int, s0.next_id)));
                    assert(self@ =~= spec_upsert(s0, item@, now as int));
                    assert(self@.wf());
                }
            },
        }
    }

    /// Record a judgment for the row with surrogate id `article_id`. Returns
    /// whether anything was recorded: a missing row or one already analyzed is
    /// left untouched, so analysis completion is monotonic — set at most once.
    pub fn update_analysis(&mut self, article_id: i64, analysis: AnalysisResult) -> (recorded:
        bool)
        requires
            old(self)@.wf(),
        ensures
            final(self)@.rows == spec_record_analysis(old(self)@.rows, article_id as int, analysis@),
            final(self)@.next_id == old(self)@.next_id,
            final(self)@.wf(),
            recorded <==> (has_id(old(self)@.rows, article_id as int) && !old(self)@.rows[id_index(
                old(self)@.rows,
                article_id as int,
            )].ai_analysis_done),
    {
        let ghost s0 = self@;
        match self.find_by_id(article_id) {
            Some(i) => {
                proof {
                    let gi = i as int;
                    assert(has_id(s0.rows, article_id as int));
                    let j = id_index(s0.rows, article_id as int);
                    assert(s0.rows[j].id == article_id as int && s0.rows[gi].id
                        == article_id as int);
                    assert(j == gi);
                }
                if self.rows[i].ai_analysis_done {
                    proof {
                        assert(self@.rows =~= spec_record_analysis(
                            s0.rows,
                            article_id as int,
                            analysis@,
                        ));
                    }
                    false
                } else {
                    let row = &mut self.rows[i];
                    row.ai_analysis_done = true;
                    row.is_interesting = analysis.relevant;
                    row.reason = Some(analysis.reason);
                    row.priority = Some(analysis.priority);
                    row.category = Some(analysis.category);
                    proof {
                        assert(self@.rows =~= spec_record_analysis(
                            s0.rows,
                            article_id as int,
                            analysis@,
                        ));
                        assert forall|a: int, b: int|
                            0 <= a < self@.rows.len() && 0 <= b < self@.rows.len() && a
                                != b implies #[trigger] self@.rows[a].hn_id
                            != #[trigger] self@.rows[b].hn_id by {
                            assert(s0.rows[a].hn_id != s0.rows[b].hn_id);
                        }
                        assert(self@.wf());
                    }
                    true
                }
            },
            None => {
                proof {
                    assert(self@.rows =~= spec_record_analysis(
                        s0.rows,
                        article_id as int,
                        analysis@,
                    ));
                }
                false
            },
        }
    }

    /// The number of rows in the store.
    pub fn len(&self) -> (n: usize)
        ensures
            n == self@.rows.len(),
    {
        self.rows.len()
    }
}

/// At most this many rows come back from a query for interesting rows.
pub const RESULT_CAP: usize = 50;

/// The rows not yet analyzed, in store order.
pub open spec fn unanalyzed_rows(rows: Seq<ArticleV>) -> Seq<ArticleV> {
    rows.filter(|a: ArticleV| !a.ai_analysis_done)
}

/// Whether a row counts as interesting under the category filter `cat`
/// (the empty filter admits every category).
pub open spec fn matches_interesting(cat: Seq<char>, a: ArticleV) -> bool {
    a.is_interesting && (cat.len() == 0 || a.category == Some(cat))
}

/// The interesting rows admitted by the category filter `cat`, in store order.
pub open spec fn interesting_rows(rows: Seq<ArticleV>, cat: Seq<char>) -> Seq<ArticleV> {
    rows.filter(|a: ArticleV| matches_interesting(cat, a))
}

/// The interesting rows whose category is exactly `cat`, in store order.
pub open spec fn category_rows(rows: Seq<ArticleV>, cat: Seq<char>) -> Seq<ArticleV> {
    rows.filter(|a: ArticleV| a.is_interesting && a.category == Some(cat))
}

/// How many interesting rows carry category `cat`.
pub open spec fn cat_count(rows: Seq<ArticleV>, cat: Seq<char>) -> int {
    category_rows(rows, cat).len() as int
}

/// A query result size, capped at [`RESULT_CAP`].
pub open spec fn capped(n: int) -> int {
    if n < RESULT_CAP as int {
        n
    } else {
        RESULT_CAP as int
    }
}

/// The view of each entry of `s`.
pub open spec fn cc_views(s: Seq<CategoryCount>) -> Seq<CategoryCountV> {
    s.map_values(|c: CategoryCount| c@)
}

/// One count per configured category, in the configured order.
pub open spec fn spec_counts(rows: Seq<ArticleV>, cats: Seq<String>) -> Seq<CategoryCountV> {
    cats.map_values(|c: String| CategoryCountV { category: c@, count: cat_count(rows, c@) })
}

/// Counts ordered by count, largest first.
pub open spec fn counts_sorted(s: Seq<CategoryCountV>) -> bool {
    forall|i: int, j: int| 0 <= i < j < s.len() ==> #[trigger] s[i].count >= #[trigger] s[j].count
}

/// Filtering one more row keeps or appends it, by the filter's definition.
proof fn lemma_unanalyzed_take_step(rows: Seq<ArticleV>, i: int)
    requires
        0 <= i < rows.len(),
    ensures
        unanalyzed_rows(rows.take(i + 1)) == (if !rows[i].ai_analysis_done {
            unanalyzed_rows(rows.take(i)).push(rows[i])
        } else {
            unanalyzed_rows(rows.take(i))
        }),
{
    reveal(Seq::filter);
    assert(rows.take(i + 1).drop_last() =~= rows.take(i));
    assert(rows.take(i + 1).last() == rows[i]);
}

/// Filtering one more row keeps or appends it, by the filter's definition.
proof fn lemma_interesting_take_step(rows: Seq<ArticleV>, cat: Seq<char>, i: int)
    requires
        0 <= i < rows.len(),
    ensures
        interesting_rows(rows.take(i + 1), cat) == (if matches_interesting(cat, rows[i]) {
            interesting_rows(rows.take(i), cat).push(rows[i])
        } else {
            interesting_rows(rows.take(i), cat)
        }),
{
    reveal(Seq::filter);
    assert(rows.take(i + 1).drop_last() =~= rows.take(i));
    assert(rows.take(i + 1).last() == rows[i]);
}

/// Counting one more row adds it exactly when it matches.
proof fn lemma_category_take_step(rows: Seq<ArticleV>, cat: Seq<char>, i: int)
    requires
        0 <= i < rows.len(),
    ensures
        category_rows(rows.take(i + 1), cat) == (if rows[i].is_interesting && rows[i].category
            == Some(cat) {
            category_rows(rows.take(i), cat).push(rows[i])
        } else {
            category_rows(rows.take(i), cat)
        }),
{
    reveal(Seq::filter);
    assert(rows.take(i + 1).drop_last() =~= rows.take(i));
    assert(rows.take(i + 1).last() == rows[i]);
}

/// Decides [`matches_interesting`] on a row.
fn matches_interesting_exec(cat: &String, a: &Article) -> (r: bool)
    ensures
        r == matches_interesting(cat@, a@),
{
    if !a.is_interesting {
        return false;
    }
    if cat.as_str().is_empty() {
        return true;
    }
    match &a.category {
        Some(c) => string_eq(c, cat),
        None => false,
    }
}

impl Store {
    /// Every row with analysis still pending, most recently ingested first.
    pub fn get_unanalyzed_articles(&self) -> (r: Vec<Article>)
        ensures
            views(r@).to_multiset() == unanalyzed_rows(self@.rows).to_multiset(),
            rows_sorted(SortField::Date, SortDirection::Descending, views(r@)),
            r@.len() == unanalyzed_rows(self@.rows).len(),
    {
        broadcast use vstd::seq_lib::group_to_multiset_ensures;

        let mut matching: Vec<Article> = Vec::new();
        let mut i: usize = 0;
        while i < self.rows.len()
            invariant
                i <= self.rows@.len(),
                views(matching@) == unanalyzed_rows(self@.rows.take(i as int)),
            decreases self.rows@.len() - i,
        {
            if !self.rows[i].ai_analysis_done {
                let a = self.rows[i].clone();
                let ghost m0 = matching@;
                matching.push(a);
                proof {
                    crate::sorting::lemma_views_push(m0, a);
                }
            }
            proof {
                lemma_unanalyzed_take_step(self@.rows, i as int);
                assert(views(matching@) =~= unanalyzed_rows(self@.rows.take(i as int + 1)));
            }
            i += 1;
        }
        proof {
            assert(self@.rows.take(self@.rows.len() as int) =~= self@.rows);
        }
        let r = sort_articles(matching, SortField::Date, SortDirection::Descending);
        proof {
            assert(views(r@).len() == views(r@).to_multiset().len());
            assert(unanalyzed_rows(self@.rows).len() == unanalyzed_rows(
                self@.rows,
            ).to_multiset().len());
        }
        r
    }

    /// The interesting rows admitted by `category` (empty admits all), ordered
    /// by the given criteria, capped at [`RESULT_CAP`] rows: the result is an
    /// ordered prefix of some ordering of all admitted rows.
    pub fn get_interesting_articles(
        &self,
        sort_field: SortField,
        sort_direction: SortDirection,
        category: &String,
    ) -> (r: Vec<Article>)
        ensures
            r@.len() <= RESULT_CAP,
            r@.len() == capped(interesting_rows(self@.rows, category@).len() as int),
            (exists|s: Seq<ArticleV>|
                {
                    &&& s.to_multiset() == interesting_rows(self@.rows, category@).to_multiset()
                    &&& rows_sorted(sort_field, sort_direction, s)
                    &&& views(r@) == s.take(capped(s.len() as int))
                }),
    {
        broadcast use vstd::seq_lib::group_to_multiset_ensures;

        let mut matching: Vec<Article> = Vec::new();
        let mut i: usize = 0;
        while i < self.rows.len()
            invariant
                i <= self.rows@.len(),
                views(matching@) == interesting_rows(self@.rows.take(i as int), category@),
            decreases self.rows@.len() - i,
        {
            if matches_interesting_exec(category, &self.rows[i]) {
                let a = self.rows[i].clone();
                let ghost m0 = matching@;
                matching.push(a);
                proof {
                    crate::sorting::lemma_views_push(m0, a);
                }
            }
            proof {
                lemma_interesting_take_step(self@.rows, category@, i as int);
                assert(views(matching@) =~= interesting_rows(
                    self@.rows.take(i as int + 1),
                    category@,
                ));
            }
            i += 1;
        }
        proof {
            assert(self@.rows.take(self@.rows.len() as int) =~= self@.rows);
        }
        let mut sorted = sort_articles(matching, sort_field, sort_direction);
        let ghost w = views(sorted@);
        proof {
            assert(w.len() == w.to_multiset().len());
            assert(interesting_rows(self@.rows, category@).len() == interesting_rows(
                self@.rows,
                category@,
            ).to_multiset().len());
        }
        if sorted.len() > RESULT_CAP {
            let ghost pre = sorted@;
            sorted.truncate(RESULT_CAP);
            proof {
                lemma_views_take(pre, RESULT_CAP as int);
                assert(views(sorted@) =~= w.take(capped(w.len() as int)));
            }
        } else {
            proof {
                assert(views(sorted@) =~= w.take(capped(w.len() as int)));
            }
        }
        proof {
            assert({
                &&& w.to_multiset() == interesting_rows(self@.rows, category@).to_multiset()
                &&& rows_sorted(sort_field, sort_direction, w)
                &&& views(sorted@) == w.take(capped(w.len() as int))
            });
        }
        sorted
    }

    /// How many interesting rows carry category `cat`.
    fn count_category(&self, cat: &String) -> (n: usize)
        ensures
            n == cat_count(self@.rows, cat@),
    {
        broadcast use vstd::seq_lib::group_filter_ensures;

        let mut n: usize = 0;
        let mut i: usize = 0;
        while i < self.rows.len()
            invariant
                i <= self.rows@.len(),
                n == cat_count(self@.rows.take(i as int), cat@),
                n <= i,
            decreases self.rows@.len() - i,
        {
            let row = &self.rows[i];
            let matched = if !row.is_interesting {
                false
            } else {
                match &row.category {
                    Some(c) => string_eq(c, cat),
                    None => false,
                }
            };
            proof {
                lemma_category_take_step(self@.rows, cat@, i as int);
            }
            if matched {
                n += 1;
            }
            i += 1;
        }
        proof {
            assert(self@.rows.take(self@.rows.len() as int) =~= self@.rows);
        }
        n
    }

    /// One count of interesting rows per configured category — a category
    /// missing from the data still appears, with count zero — ordered by
    /// count, largest first.
    pub fn category_counts(&self, categories: &Vec<String>) -> (r: Vec<CategoryCount>)
        ensures
            r@.len() == categories@.len(),
            cc_views(r@).to_multiset() == spec_counts(self@.rows, categories@).to_multiset(),
            counts_sorted(cc_views(r@)),
    {
        broadcast use vstd::seq_lib::group_to_multiset_ensures;

        let mut counts: Vec<CategoryCount> = Vec::new();
        let mut i: usize = 0;
        while i < categories.len()
            invariant
                i <= categories@.len(),
                cc_views(counts@) == spec_counts(self@.rows, categories@.take(i as int)),
                counts@.len() == i,
            decreases categories@.len() - i,
        {
            let n = self.count_category(&categories[i]);
            let entry = CategoryCount { category: categories[i].clone(), count: n };
            let ghost c0 = counts@;
            counts.push(entry);
            proof {
                let cs = categories@;
                let gi = i as int;
                assert(entry@ =~= CategoryCountV {
                    category: cs[gi]@,
                    count: cat_count(self@.rows, cs[gi]@),
                });
                assert(cc_views(counts@) =~= cc_views(c0).push(entry@));
                assert(spec_counts(self@.rows, cs.take(gi + 1)) =~= spec_counts(
                    self@.rows,
                    cs.take(gi),
                ).push(spec_counts(self@.rows, cs)[gi]));
                assert(cc_views(counts@) =~= spec_counts(self@.rows, cs.take(gi + 1)));
            }
            i += 1;
        }
        proof {
            assert(categories@.take(categories@.len() as int) =~= categories@);
        }
        let r = sort_counts(counts);
        proof {
            assert(cc_views(r@).len() == cc_views(r@).to_multiset().len());
            assert(spec_counts(self@.rows, categories@).len() == spec_counts(
                self@.rows,
                categories@,
            ).to_multiset().len());
        }
        r
    }
}

/// Mapping the view over count entries commutes with inserting one.
proof fn lemma_cc_views_insert(s: Seq<CategoryCount>, k: int, a: CategoryCount)
    requires
        0 <= k <= s.len(),
    ensures
        cc_views(s.insert(k, a)) =~= cc_views(s).insert(k, a@),
{
}

/// Sorts count entries by count, largest first, keeping exactly the entries
/// of the input (as a multiset of views).
fn sort_counts(v: Vec<CategoryCount>) -> (r: Vec<CategoryCount>)
    ensures
        counts_sorted(cc_views(r@)),
        cc_views(r@).to_multiset() == cc_views(v@).to_multiset(),
        r@.len() == v@.len(),
{
    broadcast use vstd::seq_lib::group_to_multiset_ensures;

    let mut out: Vec<CategoryCount> = Vec::new();
    let mut i: usize = 0;
    while i < v.len()
        invariant
            i <= v@.len(),
            counts_sorted(cc_views(out@)),
            cc_views(out@).to_multiset() == cc_views(v@.take(i as int)).to_multiset(),
            out@.len() == i,
        decreases v@.len() - i,
    {
        let a = v[i].clone();
        let mut k: usize = 0;
        while k < out.len() && out[k].count >= a.count
            invariant
                k <= out@.len(),
                forall|m: int| 0 <= m < k ==> #[trigger] cc_views(out@)[m].count >= a@.count,
            decreases out@.len() - k,
        {
            k += 1;
        }
        let ghost out0 = out@;
        out.insert(k, a);
        proof {
            let ov = cc_views(out0);
            let gk = k as int;
            lemma_cc_views_insert(out0, gk, a);
            let nv = ov.insert(gk, a@);
            assert(cc_views(out@) =~= nv);
            // everything at or past the insertion point counts no more than `a`
            assert forall|m: int| gk <= m < ov.len() implies a@.count >= #[trigger] ov[m].count by {
                assert(ov[gk].count < a@.count);
            }
            assert forall|x: int, y: int| 0 <= x < y < nv.len() implies #[trigger] nv[x].count
                >= #[trigger] nv[y].count by {
                assert(forall|m: int| 0 <= m < gk ==> nv[m] == ov[m]);
                assert(nv[gk] == a@);
                assert(forall|m: int| gk < m < nv.len() ==> nv[m] == ov[m - 1]);
            }
            assert(counts_sorted(cc_views(out@)));
            vstd::seq_lib::to_multiset_insert(ov, gk, a@);
            assert(cc_views(v@.take(i + 1)) =~= cc_views(v@.take(i as int)).push(v@[i as int]@));
            vstd::seq_lib::to_multiset_build(cc_views(v@.take(i as int)), a@);
            assert(cc_views(out@).to_multiset() == cc_views(v@.take(i + 1)).to_multiset());
        }
        i += 1;
    }
    proof {
        assert(v@.take(v@.len() as int) =~= v@);
    }
    out
}

} // verus!
