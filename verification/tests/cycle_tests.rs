use hn_smart_aggregator::config::{ensure_other_category, Config};
use hn_smart_aggregator::cycle::{fetch_phase_ids, ingest_fetched, record_judgment};
use hn_smart_aggregator::errors::{AnalysisError, FeedError};
use hn_smart_aggregator::models::{AnalysisResult, HnItem, SortDirection, SortField};
use hn_smart_aggregator::query::{
    get_categories_with_counts, get_interesting_articles, resolve_sort_params,
};
use hn_smart_aggregator::repository::Store;
use hn_smart_aggregator::sorting::sort_articles;

fn item(id: i64, title: &str) -> HnItem {
    HnItem {
        id,
        title: Some(title.to_string()),
        url: None,
        score: Some(1),
        time: id,
    }
}

fn judgment(relevant: bool, priority: i64, category: &str) -> AnalysisResult {
    AnalysisResult {
        relevant,
        reason: "because".to_string(),
        priority,
        category: category.to_string(),
    }
}

fn config(categories: Vec<String>) -> Config {
    Config {
        database_url: "memory".to_string(),
        ollama_url: "http://localhost:11434".to_string(),
        ollama_model: "model".to_string(),
        persona: "persona".to_string(),
        categories,
        fetch_interval_minutes: 60,
        top_stories_count: 15,
    }
}

#[test]
fn one_failed_fetch_keeps_the_other_item() {
    let mut store = Store::new();
    let fetched = vec![Ok(item(1, "A")), Err(FeedError::NetworkError)];
    ingest_fetched(&mut store, fetched, 100);
    assert_eq!(store.len(), 1);
    let rows = store.get_unanalyzed_articles();
    assert_eq!(rows.len(), 1);
    assert_eq!(rows[0].hn_id, 1);
    assert_eq!(rows[0].title, "A");
}

#[test]
fn a_failed_ranking_fetch_yields_no_identifiers() {
    let ids = fetch_phase_ids(Err(FeedError::DecodeError), 10);
    assert!(ids.is_empty());
}

#[test]
fn ranking_identifiers_are_truncated_to_the_configured_count() {
    let ids = fetch_phase_ids(Ok(vec![5, 4, 3, 2, 1]), 3);
    assert_eq!(ids, vec![5, 4, 3]);
    let ids = fetch_phase_ids(Ok(vec![5, 4]), 3);
    assert_eq!(ids, vec![5, 4]);
    let ids = fetch_phase_ids(Ok(vec![5, 4]), 0);
    assert!(ids.is_empty());
}

#[test]
fn recorded_judgment_with_unknown_category_is_stored_as_other() {
    let mut store = Store::new();
    store.upsert_article(&item(1, "A"), 1);
    let id = store.get_unanalyzed_articles()[0].id;
    let categories = vec!["AI".to_string(), "Other".to_string()];
    let recorded = record_judgment(
        &mut store,
        id,
        Ok(judgment(true, 3, "quantum computing")),
        &categories,
    );
    assert!(recorded);
    let all = String::new();
    let rows = store.get_interesting_articles(SortField::Date, SortDirection::Descending, &all);
    assert_eq!(rows[0].category.as_deref(), Some("Other"));
}

#[test]
fn recorded_judgment_with_configured_category_keeps_it() {
    let mut store = Store::new();
    store.upsert_article(&item(1, "A"), 1);
    let id = store.get_unanalyzed_articles()[0].id;
    let categories = vec!["AI".to_string(), "Other".to_string()];
    assert!(record_judgment(&mut store, id, Ok(judgment(true, 3, "AI")), &categories));
    let all = String::new();
    let rows = store.get_interesting_articles(SortField::Date, SortDirection::Descending, &all);
    assert_eq!(rows[0].category.as_deref(), Some("AI"));
}

#[test]
fn failed_analysis_leaves_the_row_unanalyzed_for_the_next_cycle() {
    let mut store = Store::new();
    store.upsert_article(&item(1, "A"), 1);
    let id = store.get_unanalyzed_articles()[0].id;
    let categories = vec!["Other".to_string()];
    let recorded = record_judgment(
        &mut store,
        id,
        Err(AnalysisError::ServiceUnavailable),
        &categories,
    );
    assert!(!recorded);
    assert_eq!(store.get_unanalyzed_articles().len(), 1);
    // the next cycle can still record it
    assert!(record_judgment(&mut store, id, Ok(judgment(false, 1, "Other")), &categories));
    assert_eq!(store.get_unanalyzed_articles().len(), 0);
}

#[test]
fn sort_puts_missing_priorities_last_in_both_directions() {
    let mut base = Vec::new();
    for (n, priority) in [(1, Some(5)), (2, None), (3, Some(3))] {
        base.push(hn_smart_aggregator::models::Article {
            id: n,
            hn_id: n,
            title: "t".to_string(),
            url: None,
            score: 0,
            timestamp: 0,
            fetched_at: n,
            ai_analysis_done: true,
            is_interesting: true,
            reason: None,
            priority,
            category: None,
        });
    }
    let desc = sort_articles(
        base.clone(),
        SortField::Priority,
        SortDirection::Descending,
    );
    let prios: Vec<Option<i64>> = desc.iter().map(|a| a.priority).collect();
    assert_eq!(prios, vec![Some(5), Some(3), None]);
    let asc = sort_articles(base, SortField::Priority, SortDirection::Ascending);
    let prios: Vec<Option<i64>> = asc.iter().map(|a| a.priority).collect();
    assert_eq!(prios, vec![Some(3), Some(5), None]);
}

#[test]
fn missing_sort_parameters_fall_back_to_date_descending() {
    let (f, d) = resolve_sort_params(None, None);
    assert_eq!(f, SortField::Date);
    assert_eq!(d, SortDirection::Descending);
    let (f, d) = resolve_sort_params(Some(SortField::Score), Some(SortDirection::Ascending));
    assert_eq!(f, SortField::Score);
    assert_eq!(d, SortDirection::Ascending);
    assert_eq!(SortField::default(), SortField::Date);
    assert_eq!(SortDirection::default(), SortDirection::Descending);
}

#[test]
fn query_service_passes_through_to_the_store() {
    let mut store = Store::new();
    store.upsert_article(&item(1, "A"), 1);
    let id = store.get_unanalyzed_articles()[0].id;
    let categories = vec!["AI".to_string(), "Other".to_string()];
    assert!(record_judgment(&mut store, id, Ok(judgment(true, 2, "AI")), &categories));
    let all = String::new();
    let rows = get_interesting_articles(&store, None, None, &all);
    assert_eq!(rows.len(), 1);
    let counts = get_categories_with_counts(&store, &config(categories));
    assert_eq!(counts.len(), 2);
    assert_eq!(counts[0].category, "AI");
    assert_eq!(counts[0].count, 1);
    assert_eq!(counts[1].category, "Other");
    assert_eq!(counts[1].count, 0);
}

#[test]
fn ensure_other_category_appends_the_fallback_only_when_missing() {
    let with = ensure_other_category(vec!["AI".to_string(), "other".to_string()]);
    assert_eq!(with, vec!["AI".to_string(), "other".to_string()]);
    let without = ensure_other_category(vec!["AI".to_string()]);
    assert_eq!(without, vec!["AI".to_string(), "Other".to_string()]);
    let empty = ensure_other_category(Vec::new());
    assert_eq!(empty, vec!["Other".to_string()]);
}
