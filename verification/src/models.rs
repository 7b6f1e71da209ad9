//! Data model: persisted rows, feed items, analysis judgments, sort criteria.

use vstd::prelude::*;

verus! {

/// A persisted row: one ingested feed entry, before or after analysis.
///
/// `id` is the store's surrogate key, `hn_id` the external feed identifier
/// (unique across rows). `fetched_at` is the ingestion timestamp; `timestamp`
/// is the feed's own timestamp for the entry. The analysis fields
/// (`is_interesting`, `reason`, `priority`, `category`) are meaningful only
/// once `ai_analysis_done` is true.
#[derive(Debug)]
pub struct Article {
    pub id: i64,
    pub hn_id: i64,
    pub title: String,
    pub url: Option<String>,
    pub score: i64,
    pub timestamp: i64,
    pub fetched_at: i64,
    pub ai_analysis_done: bool,
    pub is_interesting: bool,
    pub reason: Option<String>,
    pub priority: Option<i64>,
    pub category: Option<String>,
}

/// Mathematical view of an [`Article`]: strings as character sequences,
/// machine integers as unbounded integers.
#[verifier::ext_equal]
pub struct ArticleV {
    pub id: int,
    pub hn_id: int,
    pub title: Seq<char>,
    pub url: Option<Seq<char>>,
    pub score: int,
    pub timestamp: int,
    pub fetched_at: int,
    pub ai_analysis_done: bool,
    pub is_interesting: bool,
    pub reason: Option<Seq<char>>,
    pub priority: Option<int>,
    pub category: Option<Seq<char>>,
}

pub open spec fn view_opt_string(s: Option<String>) -> Option<Seq<char>> {
    match s {
        Some(t) => Some(t@),
        None => None,
    }
}

pub open spec fn view_opt_i64(v: Option<i64>) -> Option<int> {
    match v {
        Some(n) => Some(n as int),
        None => None,
    }
}

impl View for Article {
    type V = ArticleV;

    open spec fn view(&self) -> ArticleV {
        ArticleV {
            id: self.id as int,
            hn_id: self.hn_id as int,
            title: self.title@,
            url: view_opt_string(self.url),
            score: self.score as int,
            timestamp: self.timestamp as int,
            fetched_at: self.fetched_at as int,
            ai_analysis_done: self.ai_analysis_done,
            is_interesting: self.is_interesting,
            reason: view_opt_string(self.reason),
            priority: view_opt_i64(self.priority),
            category: view_opt_string(self.category),
        }
    }
}

pub fn clone_opt_string(s: &Option<String>) -> (r: Option<String>)
    ensures
        view_opt_string(r) == view_opt_string(*s),
{
    match s {
        Some(t) => Some(t.clone()),
        None => None,
    }
}

impl Clone for Article {
    fn clone(&self) -> (r: Self)
        ensures
            r@ == self@,
    {
        let r = Article {
            id: self.id,
            hn_id: self.hn_id,
            title: self.title.clone(),
            url: clone_opt_string(&self.url),
            score: self.score,
            timestamp: self.timestamp,
            fetched_at: self.fetched_at,
            ai_analysis_done: self.ai_analysis_done,
            is_interesting: self.is_interesting,
            reason: clone_opt_string(&self.reason),
            priority: self.priority,
            category: clone_opt_string(&self.category),
        };
        assert(r@ =~= self@);
        r
    }
}

/// One entry as the external feed reports it. Missing title, url or score are
/// tolerated; ingestion defaults them rather than failing.
#[derive(Debug)]
pub struct HnItem {
    pub id: i64,
    pub title: Option<String>,
    pub url: Option<String>,
    pub score: Option<i64>,
    pub time: i64,
}

/// Mathematical view of an [`HnItem`].
#[verifier::ext_equal]
pub struct HnItemV {
    pub id: int,
    pub title: Option<Seq<char>>,
    pub url: Option<Seq<char>>,
    pub score: Option<int>,
    pub time: int,
}

impl Clone for HnItem {
    fn clone(&self) -> (r: Self)
        ensures
            r@ == self@,
    {
        let r = HnItem {
            id: self.id,
            title: clone_opt_string(&self.title),
            url: clone_opt_string(&self.url),
            score: self.score,
            time: self.time,
        };
        assert(r@ =~= self@);
        r
    }
}

impl View for HnItem {
    type V = HnItemV;

    open spec fn view(&self) -> HnItemV {
        HnItemV {
            id: self.id as int,
            title: view_opt_string(self.title),
            url: view_opt_string(self.url),
            score: view_opt_i64(self.score),
            time: self.time as int,
        }
    }
}

/// A relevance judgment for one item, as parsed from the model's reply:
/// relevance flag, free-text reason, priority in 1..=5, category label.
#[derive(Debug)]
pub struct AnalysisResult {
    pub relevant: bool,
    pub reason: String,
    pub priority: i64,
    pub category: String,
}

/// Mathematical view of an [`AnalysisResult`].
#[verifier::ext_equal]
pub struct AnalysisResultV {
    pub relevant: bool,
    pub reason: Seq<char>,
    pub priority: int,
    pub category: Seq<char>,
}

impl Clone for AnalysisResult {
    fn clone(&self) -> (r: Self)
        ensures
            r@ == self@,
    {
        let r = AnalysisResult {
            relevant: self.relevant,
            reason: self.reason.clone(),
            priority: self.priority,
            category: self.category.clone(),
        };
        assert(r@ =~= self@);
        r
    }
}

impl View for AnalysisResult {
    type V = AnalysisResultV;

    open spec fn view(&self) -> AnalysisResultV {
        AnalysisResultV {
            relevant: self.relevant,
            reason: self.reason@,
            priority: self.priority as int,
            category: self.category@,
        }
    }
}

impl AnalysisResultV {
    /// A judgment is valid when its priority lies in the inclusive range 1..=5.
    pub open spec fn valid(self) -> bool {
        1 <= self.priority <= 5
    }
}

/// A category name paired with the number of interesting rows carrying it.
#[derive(Debug)]
pub struct CategoryCount {
    pub category: String,
    pub count: usize,
}

impl Clone for CategoryCount {
    fn clone(&self) -> (r: Self)
        ensures
            r@ == self@,
    {
        let r = CategoryCount { category: self.category.clone(), count: self.count };
        assert(r@ =~= self@);
        r
    }
}

/// Mathematical view of a [`CategoryCount`].
#[verifier::ext_equal]
pub struct CategoryCountV {
    pub category: Seq<char>,
    pub count: int,
}

impl View for CategoryCount {
    type V = CategoryCountV;

    open spec fn view(&self) -> CategoryCountV {
        CategoryCountV { category: self.category@, count: self.count as int }
    }
}

/// Which column orders a query for interesting rows.
#[derive(Debug, Clone, Copy, PartialEq, Eq, Structural)]
pub enum SortField {
    Date,
    Score,
    Priority,
}

/// Whether a query's order is ascending or descending.
#[derive(Debug, Clone, Copy, PartialEq, Eq, Structural)]
pub enum SortDirection {
    Ascending,
    Descending,
}

impl Default for SortField {
    /// The default sort column is the ingestion date.
    fn default() -> (r: Self)
        ensures
            r == SortField::Date,
    {
        SortField::Date
    }
}

impl Default for SortDirection {
    /// The default sort order is descending (newest / highest first).
    fn default() -> (r: Self)
        ensures
            r == SortDirection::Descending,
    {
        SortDirection::Descending
    }
}

} // verus!
