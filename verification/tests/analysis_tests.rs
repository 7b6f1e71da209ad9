use hn_smart_aggregator::analysis::{
    build_prompt, extract_json, judgment_from_fields, normalize_category, parse_judgment,
};
use hn_smart_aggregator::errors::AnalysisError;
use hn_smart_aggregator::models::Article;

#[test]
fn extract_json_takes_first_brace_through_last_brace() {
    let out = extract_json("Sure! {\"a\":1} and {\"b\":2} bye");
    assert_eq!(out, "{\"a\":1} and {\"b\":2}");
}

#[test]
fn extract_json_without_braces_returns_input() {
    assert_eq!(extract_json("no json here"), "no json here");
    assert_eq!(extract_json(""), "");
}

#[test]
fn extract_json_with_closing_before_opening_returns_input() {
    assert_eq!(extract_json("} backwards {"), "} backwards {");
}

#[test]
fn parse_judgment_reads_embedded_object_and_ignores_chatter() {
    let reply =
        "Sure! {\"relevant\":true,\"reason\":\"x\",\"priority\":3,\"category\":\"AI\"} Hope that helps!";
    let judgment = parse_judgment(reply).unwrap();
    assert!(judgment.relevant);
    assert_eq!(judgment.reason, "x");
    assert_eq!(judgment.priority, 3);
    assert_eq!(judgment.category, "AI");
}

#[test]
fn parse_judgment_reads_a_bare_object() {
    let reply = "{\"relevant\":false,\"reason\":\"meh\",\"priority\":1,\"category\":\"Other\"}";
    let judgment = parse_judgment(reply).unwrap();
    assert!(!judgment.relevant);
    assert_eq!(judgment.reason, "meh");
    assert_eq!(judgment.priority, 1);
    assert_eq!(judgment.category, "Other");
}

#[test]
fn parse_judgment_keeps_raw_reply_on_unparsable_text() {
    let reply = "I could not decide, sorry.";
    match parse_judgment(reply) {
        Err(AnalysisError::MalformedJudgment(raw)) => assert_eq!(raw, reply),
        other => panic!("expected a malformed judgment, got {:?}", other),
    }
}

#[test]
fn parse_judgment_rejects_a_missing_field() {
    let reply = "{\"relevant\":true,\"reason\":\"x\",\"priority\":3}";
    assert!(matches!(
        parse_judgment(reply),
        Err(AnalysisError::MalformedJudgment(_))
    ));
}

#[test]
fn parse_judgment_rejects_a_priority_out_of_range() {
    let reply = "{\"relevant\":true,\"reason\":\"x\",\"priority\":99,\"category\":\"AI\"}";
    assert!(matches!(
        parse_judgment(reply),
        Err(AnalysisError::MalformedJudgment(_))
    ));
    let reply = "{\"relevant\":true,\"reason\":\"x\",\"priority\":0,\"category\":\"AI\"}";
    assert!(matches!(
        parse_judgment(reply),
        Err(AnalysisError::MalformedJudgment(_))
    ));
}

#[test]
fn parse_judgment_rejects_wrongly_typed_fields() {
    let reply = "{\"relevant\":\"yes\",\"reason\":\"x\",\"priority\":3,\"category\":\"AI\"}";
    assert!(matches!(
        parse_judgment(reply),
        Err(AnalysisError::MalformedJudgment(_))
    ));
}

#[test]
fn judgment_from_fields_accepts_the_priority_range_bounds() {
    assert!(judgment_from_fields(true, "r".to_string(), 1, "AI".to_string()).is_some());
    assert!(judgment_from_fields(true, "r".to_string(), 5, "AI".to_string()).is_some());
    assert!(judgment_from_fields(true, "r".to_string(), 0, "AI".to_string()).is_none());
    assert!(judgment_from_fields(true, "r".to_string(), 6, "AI".to_string()).is_none());
}

#[test]
fn unknown_category_is_forced_to_other() {
    let configured = vec!["AI".to_string(), "Other".to_string()];
    let normalized = normalize_category(&"quantum computing".to_string(), &configured);
    assert_eq!(normalized, "Other");
}

#[test]
fn configured_category_is_kept_verbatim_even_in_another_case() {
    let configured = vec!["AI".to_string(), "Other".to_string()];
    assert_eq!(normalize_category(&"ai".to_string(), &configured), "ai");
    assert_eq!(normalize_category(&"AI".to_string(), &configured), "AI");
}

#[test]
fn prompt_embeds_persona_categories_title_and_url() {
    let article = Article {
        id: 1,
        hn_id: 10,
        title: "A title".to_string(),
        url: Some("https://example.test/a".to_string()),
        score: 3,
        timestamp: 7,
        fetched_at: 8,
        ai_analysis_done: false,
        is_interesting: false,
        reason: None,
        priority: None,
        category: None,
    };
    let categories = vec!["AI".to_string(), "Other".to_string()];
    let prompt = build_prompt("You are picky.", &article, &categories);
    let expected = "Analyze this Hacker News article.\nAssign the most specific category from the list below.\nUse 'Other' ONLY for news that does not fit any other category.\n\nOutput Format (JSON):\n{\"relevant\": boolean, \"reason\": \"explanation\", \"priority\": number (1-5), \"category\": \"category_name\"}\n\nPersona: You are picky.\n\nAvailable Categories (Strict): AI, Other\n\nArticle Title: A title\nArticle URL: https://example.test/a";
    assert_eq!(prompt, expected);
}

#[test]
fn prompt_reads_na_for_a_missing_url() {
    let article = Article {
        id: 1,
        hn_id: 10,
        title: "T".to_string(),
        url: None,
        score: 0,
        timestamp: 0,
        fetched_at: 0,
        ai_analysis_done: false,
        is_interesting: false,
        reason: None,
        priority: None,
        category: None,
    };
    let prompt = build_prompt("P", &article, &vec!["Other".to_string()]);
    assert!(prompt.ends_with("\nArticle URL: N/A"));
    assert!(prompt.contains("Available Categories (Strict): Other\n"));
}
