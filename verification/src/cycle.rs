//! The aggregation cycle's decisions. One cycle fetches the top feed
//! identifiers, upserts each fetched item, selects the unanalyzed rows, and
//! records each successful judgment — isolating every per-item failure.
//!
//! The outside work (network calls, waiting between them) happens elsewhere;
//! each function here takes the outcome of such a call as an argument, so its
//! contract covers every outcome: a failed call never loses or corrupts rows.

use vstd::prelude::*;

use crate::analysis::{cat_views, normalized_category};
use crate::errors::{AnalysisError, FeedError};
use crate::models::{AnalysisResult, AnalysisResultV, HnItem, HnItemV};
use crate::repository::{spec_record_analysis, spec_upsert, Store, StoreV};

verus! {

/// The identifiers a cycle will fetch: a failed ranking call aborts only the
/// fetch phase — the cycle goes on with no new identifiers; a successful one
/// is truncated to the configured count.
pub fn fetch_phase_ids(outcome: Result<Vec<i64>, FeedError>, limit: usize) -> (r: Vec<i64>)
    ensures
        match outcome {
            Ok(ids) => r@ == (if ids@.len() <= limit {
                ids@
            } else {
                ids@.take(limit as int)
            }),
            Err(_) => r@ == Seq::<i64>::empty(),
        },
{
    match outcome {
        Ok(mut ids) => {
            if ids.len() > limit {
                ids.truncate(limit);
            }
            ids
        },
        Err(_) => {
            let r = Vec::new();
            proof {
                assert(r@ =~= Seq::<i64>::empty());
            }
            r
        },
    }
}

/// The view of each per-item fetch outcome: the item for a success, nothing
/// for a failure.
pub open spec fn outcome_views(s: Seq<Result<HnItem, FeedError>>) -> Seq<Option<HnItemV>> {
    s.map_values(
        |r: Result<HnItem, FeedError>|
            match r {
                Ok(it) => Some(it@),
                Err(_) => None,
            },
    )
}

/// The store after ingesting the fetch outcomes in order at time `now`:
/// each fetched item is upserted, each failed fetch is skipped.
pub open spec fn spec_ingest(s: StoreV, fetched: Seq<Option<HnItemV>>, now: int) -> StoreV
    decreases fetched.len(),
{
    if fetched.len() == 0 {
        s
    } else {
        let rest = spec_ingest(s, fetched.drop_last(), now);
        match fetched.last() {
            Some(it) => spec_upsert(rest, it, now),
            None => rest,
        }
    }
}

/// Ingests one cycle's per-item fetch outcomes at time `now`: every fetched
/// item is upserted in order, every failed fetch is skipped — a failure never
/// leaves a partial row and never stops the loop over the remaining items.
pub fn ingest_fetched(store: &mut Store, fetched: Vec<Result<HnItem, FeedError>>, now: i64)
    requires
        old(store)@.wf(),
        old(store)@.next_id + fetched@.len() <= i64::MAX,
    ensures
        final(store)@ == spec_ingest(old(store)@, outcome_views(fetched@), now as int),
        final(store)@.wf(),
        final(store)@.next_id <= old(store)@.next_id + fetched@.len(),
{
    let ghost s0 = store@;
    let ghost all = outcome_views(fetched@);
    let mut i: usize = 0;
    let n = fetched.len();
    while i < n
        invariant
            i <= n == fetched@.len(),
            store@ == spec_ingest(s0, all.take(i as int), now as int),
            store@.wf(),
            store@.next_id <= s0.next_id + i,
            s0.next_id + fetched@.len() <= i64::MAX,
            all == outcome_views(fetched@),
        decreases n - i,
    {
        match &fetched[i] {
            Ok(item) => {
                store.upsert_article(item, now);
            },
            Err(_) => {},
        }
        proof {
            assert(all.take(i as int + 1).drop_last() =~= all.take(i as int));
            assert(all.take(i as int + 1).last() == all[i as int]);
            assert(store@ == spec_ingest(s0, all.take(i as int + 1), now as int));
        }
        i += 1;
    }
    proof {
        assert(all.take(n as int) =~= all);
    }
}

/// The judgment as persisted: its category forced into the configured set.
pub open spec fn normalized_judgment(cats: Seq<Seq<char>>, j: AnalysisResultV) -> AnalysisResultV {
    AnalysisResultV { category: normalized_category(cats, j.category), ..j }
}

/// Applies one item's analysis outcome: a successful judgment has its
/// category normalized against the configured names and is recorded for the
/// row; a failed analysis changes nothing, so the row stays unanalyzed and is
/// retried on a later cycle. Returns whether a judgment was recorded.
pub fn record_judgment(
    store: &mut Store,
    article_id: i64,
    outcome: Result<AnalysisResult, AnalysisError>,
    categories: &Vec<String>,
) -> (recorded: bool)
    requires
        old(store)@.wf(),
    ensures
        final(store)@.wf(),
        final(store)@.next_id == old(store)@.next_id,
        match outcome {
            Ok(j) => final(store)@.rows == spec_record_analysis(
                old(store)@.rows,
                article_id as int,
                normalized_judgment(cat_views(categories@), j@),
            ),
            Err(_) => final(store)@ == old(store)@,
        },
        recorded <==> (outcome is Ok && crate::repository::has_id(
            old(store)@.rows,
            article_id as int,
        ) && !old(store)@.rows[crate::repository::id_index(
            old(store)@.rows,
            article_id as int,
        )].ai_analysis_done),
{
    match outcome {
        Ok(judgment) => {
            let category = crate::analysis::normalize_category(&judgment.category, categories);
            let normalized = AnalysisResult {
                relevant: judgment.relevant,
                reason: judgment.reason,
                priority: judgment.priority,
                category: category,
            };
            assert(normalized@ =~= normalized_judgment(cat_views(categories@), judgment@));
            store.update_analysis(article_id, normalized)
        },
        Err(_) => false,
    }
}

} // verus!
