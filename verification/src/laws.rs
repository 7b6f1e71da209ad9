//! Laws of the store's write operations, proved once and for all: upserting
//! is idempotent, and analysis completion is monotonic and recorded at most
//! once per row.

use vstd::prelude::*;

use crate::models::{AnalysisResultV, ArticleV, HnItemV};
use crate::repository::{
    has_hn_id, has_id, hn_id_index, id_index, new_row, score_of, spec_record_analysis, spec_upsert,
    title_of, StoreV,
};

verus! {

/// Upserting preserves well-formedness: identifiers stay unique and below the
/// next free one.
pub proof fn lemma_upsert_preserves_wf(s: StoreV, item: HnItemV, now: int)
    requires
        s.wf(),
    ensures
        spec_upsert(s, item, now).wf(),
{
    let s1 = spec_upsert(s, item, now);
    if has_hn_id(s.rows, item.id) {
        let i = hn_id_index(s.rows, item.id);
        assert forall|a: int, b: int|
            0 <= a < s1.rows.len() && 0 <= b < s1.rows.len() && a != b implies #[trigger] s1.rows[a].hn_id
            != #[trigger] s1.rows[b].hn_id by {
            assert(s.rows[a].hn_id != s.rows[b].hn_id);
        }
        assert forall|a: int, b: int|
            0 <= a < s1.rows.len() && 0 <= b < s1.rows.len() && a != b implies #[trigger] s1.rows[a].id
            != #[trigger] s1.rows[b].id by {
            assert(s.rows[a].id != s.rows[b].id);
        }
    }
}

/// After an upsert, exactly one row carries the item's external identifier.
pub proof fn lemma_upsert_row_present(s: StoreV, item: HnItemV, now: int)
    requires
        s.wf(),
    ensures
        has_hn_id(spec_upsert(s, item, now).rows, item.id),
{
    let s1 = spec_upsert(s, item, now);
    if has_hn_id(s.rows, item.id) {
        let i = hn_id_index(s.rows, item.id);
        assert(s1.rows[i].hn_id == item.id);
    } else {
        assert(s1.rows[s.rows.len() as int].hn_id == item.id);
    }
}

/// Upserting the same item again changes nothing: the row it created or
/// refreshed is rewritten with the same title and score, every other field —
/// the analysis fields among them — stays, and no second row appears.
pub proof fn lemma_upsert_idempotent(s: StoreV, item: HnItemV, now1: int, now2: int)
    requires
        s.wf(),
    ensures
        spec_upsert(spec_upsert(s, item, now1), item, now2) == spec_upsert(s, item, now1),
{
    let s1 = spec_upsert(s, item, now1);
    let s2 = spec_upsert(s1, item, now2);
    lemma_upsert_preserves_wf(s, item, now1);
    lemma_upsert_row_present(s, item, now1);
    let i1 = hn_id_index(s1.rows, item.id);
    assert(s1.rows[i1].hn_id == item.id);
    if has_hn_id(s.rows, item.id) {
        let i = hn_id_index(s.rows, item.id);
        assert(s.rows[i].hn_id == item.id);
        assert(s1.rows[i].hn_id == item.id);
        assert(i1 == i);
        let again = ArticleV { title: title_of(item), score: score_of(item), ..s1.rows[i] };
        assert(again =~= s1.rows[i]);
        assert(s2.rows =~= s1.rows);
        assert(s2 =~= s1);
    } else {
        let l = s.rows.len() as int;
        assert(s1.rows[l] == new_row(item, now1, s.next_id));
        assert(s1.rows[l].hn_id == item.id);
        assert(i1 == l);
        let again = ArticleV { title: title_of(item), score: score_of(item), ..s1.rows[l] };
        assert(again =~= s1.rows[l]);
        assert(s2.rows =~= s1.rows);
        assert(s2 =~= s1);
    }
}

/// Re-ingesting an already-stored item refreshes its title and score only:
/// no row appears or disappears, no id moves, and every other field of every
/// row — the analysis fields among them — is exactly what it was.
pub proof fn lemma_upsert_refreshes_only_title_and_score(s: StoreV, item: HnItemV, now: int)
    requires
        s.wf(),
        has_hn_id(s.rows, item.id),
    ensures
        spec_upsert(s, item, now).next_id == s.next_id,
        spec_upsert(s, item, now).rows.len() == s.rows.len(),
        ({
            let i = hn_id_index(s.rows, item.id);
            let rows2 = spec_upsert(s, item, now).rows;
            &&& rows2[i] == (ArticleV { title: title_of(item), score: score_of(item), ..s.rows[i] })
            &&& forall|k: int| 0 <= k < s.rows.len() && k != i ==> rows2[k] == s.rows[k]
        }),
{
}

/// Recording a judgment never un-analyzes a row: every row analyzed before is
/// analyzed after, and no other row's fields change at all.
pub proof fn lemma_record_analysis_monotonic(rows: Seq<ArticleV>, id: int, j: AnalysisResultV)
    ensures
        spec_record_analysis(rows, id, j).len() == rows.len(),
        forall|k: int|
            0 <= k < rows.len() && rows[k].ai_analysis_done ==> #[trigger] spec_record_analysis(
                rows,
                id,
                j,
            )[k].ai_analysis_done,
        forall|k: int|
            0 <= k < rows.len() && rows[k].id != id ==> #[trigger] spec_record_analysis(
                rows,
                id,
                j,
            )[k] == rows[k],
{
}

/// Recording a judgment on a row that already carries one is a no-op: a row's
/// analysis is written at most once, however often recording is retried.
pub proof fn lemma_record_analysis_once(
    rows: Seq<ArticleV>,
    id: int,
    j1: AnalysisResultV,
    j2: AnalysisResultV,
)
    requires
        forall|a: int, b: int|
            0 <= a < rows.len() && 0 <= b < rows.len() && a != b ==> #[trigger] rows[a].id
                != #[trigger] rows[b].id,
    ensures
        spec_record_analysis(spec_record_analysis(rows, id, j1), id, j2) == spec_record_analysis(
            rows,
            id,
            j1,
        ),
{
    let r1 = spec_record_analysis(rows, id, j1);
    if has_id(rows, id) && !rows[id_index(rows, id)].ai_analysis_done {
        let i = id_index(rows, id);
        assert(rows[i].id == id);
        assert(r1[i].id == id);
        assert(has_id(r1, id));
        let i2 = id_index(r1, id);
        assert(r1[i2].id == id);
        assert forall|a: int, b: int|
            0 <= a < r1.len() && 0 <= b < r1.len() && a != b implies #[trigger] r1[a].id
            != #[trigger] r1[b].id by {
            assert(rows[a].id != rows[b].id);
        }
        assert(i2 == i);
        assert(r1[i].ai_analysis_done);
    } else {
        assert(r1 == rows);
    }
}

} // verus!
