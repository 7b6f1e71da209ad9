//! The read path served to the presentation boundary: validated sort
//! parameters, then a plain pass-through to the store's queries.

use vstd::prelude::*;

use crate::config::Config;
use crate::models::{Article, CategoryCount, SortDirection, SortField};
use crate::repository::{capped, cc_views, counts_sorted, interesting_rows, spec_counts, Store};
use crate::sorting::{rows_sorted, views};

verus! {

/// Resolves the requested sort criteria: an absent (or unrecognized, hence
/// undecoded) field or direction falls back to the defaults, ingestion date
/// descending.
pub fn resolve_sort_params(field: Option<SortField>, direction: Option<SortDirection>) -> (r: (
    SortField,
    SortDirection,
))
    ensures
        r.0 == (match field {
            Some(f) => f,
            None => SortField::Date,
        }),
        r.1 == (match direction {
            Some(d) => d,
            None => SortDirection::Descending,
        }),
{
    let f = match field {
        Some(f) => f,
        None => SortField::default(),
    };
    let d = match direction {
        Some(d) => d,
        None => SortDirection::default(),
    };
    (f, d)
}

/// Serves a read request for interesting rows: resolves the sort criteria,
/// then queries the store — an ordered, capped selection of the rows admitted
/// by the category filter (empty admits all).
pub fn get_interesting_articles(
    store: &Store,
    sort_field: Option<SortField>,
    sort_direction: Option<SortDirection>,
    category: &String,
) -> (r: Vec<Article>)
    ensures
        r@.len() == capped(interesting_rows(store@.rows, category@).len() as int),
        (exists|s: Seq<crate::models::ArticleV>|
            {
                &&& s.to_multiset() == interesting_rows(store@.rows, category@).to_multiset()
                &&& rows_sorted(
                    match sort_field {
                        Some(f) => f,
                        None => SortField::Date,
                    },
                    match sort_direction {
                        Some(d) => d,
                        None => SortDirection::Descending,
                    },
                    s,
                )
                &&& views(r@) == s.take(capped(s.len() as int))
            }),
{
    let (f, d) = resolve_sort_params(sort_field, sort_direction);
    store.get_interesting_articles(f, d, category)
}

/// Serves the category overview: one count per configured category, zero
/// included, ordered by count descending.
pub fn get_categories_with_counts(store: &Store, config: &Config) -> (r: Vec<CategoryCount>)
    ensures
        r@.len() == config.categories@.len(),
        cc_views(r@).to_multiset() == spec_counts(store@.rows, config.categories@).to_multiset(),
        counts_sorted(cc_views(r@)),
{
    store.category_counts(&config.categories)
}

} // verus!
