use headless_rss::content::{
    build_missing_summary, cleaned_extraction, extract_article_from_html, extract_with_reader, extract_first_image_url,
    is_extracted_content_preferred, normalize_text, plain_text, strip_html, should_enable_llm_summary_by_heuristic,
};
use headless_rss::llm::{
    extract_bool_from_structured_response, extract_string_from_structured_response,
    openai_chat_completions_url, JsonValue,
};

const ARTICLE_SUMMARY_SCHEMA_NAME: &str = "article_summary";
const SUMMARY_QUALITY_SCHEMA_NAME: &str = "summary_quality";

fn to_json_value(value: serde_json::Value) -> JsonValue {
    match value {
        serde_json::Value::Null => JsonValue::Null,
        serde_json::Value::Bool(b) => JsonValue::Bool(b),
        serde_json::Value::Number(n) => JsonValue::Number(n.to_string()),
        serde_json::Value::String(s) => JsonValue::Str(s),
        serde_json::Value::Array(items) => {
            JsonValue::Array(items.into_iter().map(to_json_value).collect())
        }
        serde_json::Value::Object(members) => JsonValue::Object(
            members
                .into_iter()
                .map(|(key, value)| (key, to_json_value(value)))
                .collect(),
        ),
    }
}

fn parse_llm_json_response(response_text: &str, _response_kind: &str) -> Option<JsonValue> {
    serde_json::from_str::<serde_json::Value>(response_text)
        .ok()
        .map(to_json_value)
}

#[test]
fn extract_article_from_html_returns_main_article_body() {
    let html = r#"
<!DOCTYPE html>
<html>
  <body>
    <nav>Navigation links</nav>
    <article>
      <h1>Example article</h1>
      <p>Main body paragraph one.</p>
      <p>Main body paragraph two.</p>
    </article>
    <footer>Footer text that should be excluded.</footer>
  </body>
</html>
"#;

    let extracted = extract_article_from_html(html, Some("https://example.com/article"))
        .expect("expected extracted article html");

    assert!(extracted.contains("Main body paragraph one."));
    assert!(extracted.contains("Main body paragraph two."));
    assert!(!extracted.contains("Footer text that should be excluded."));
}

#[test]
fn normalize_text_removes_html_and_collapses_whitespace() {
    let normalized = normalize_text(Some("<p>Hello</p>\n\t <strong>World</strong>"));
    assert_eq!(normalized, "hello world");
}

#[test]
fn fulltext_quality_prefers_significantly_longer_content() {
    assert!(is_extracted_content_preferred(
        Some("This extracted article text is much longer than the teaser summary."),
        Some("Short teaser.")
    ));
}

#[test]
fn fulltext_quality_rejects_short_extractions() {
    assert!(!is_extracted_content_preferred(
        Some("Short."),
        Some("This feed summary already contains a reasonable amount of detail.")
    ));
}

#[test]
fn summary_generation_truncates_when_llm_is_disabled() {
    let content = "a".repeat(200);
    let summary = build_missing_summary(&content, false, false, None).expect("expected summary");
    assert_eq!(summary, format!("{}...", "a".repeat(160)));
}

#[test]
fn summary_generation_keeps_llm_suffix() {
    let content = "a".repeat(200);
    let summary = build_missing_summary(
        &content,
        true,
        true,
        Some("Generated summary (AI generated)".to_string()),
    )
    .expect("expected llm summary");

    assert_eq!(summary, "Generated summary (AI generated)");
}

#[test]
fn summary_generation_falls_back_to_truncation_when_llm_returns_none() {
    let content = "a".repeat(200);
    let summary = build_missing_summary(&content, true, true, None).expect("expected summary");
    assert_eq!(summary, format!("{}...", "a".repeat(160)));
}

#[test]
fn structured_summary_response_accepts_top_level_summary() {
    let parsed = parse_llm_json_response(r#"{"summary":"Top-level summary."}"#, "llm summary")
        .expect("expected parsed response");

    assert_eq!(
        extract_string_from_structured_response(&parsed, "summary", &[ARTICLE_SUMMARY_SCHEMA_NAME])
            .as_deref(),
        Some("Top-level summary.")
    );
}

#[test]
fn structured_summary_response_accepts_schema_wrapped_summary() {
    let parsed = parse_llm_json_response(
        r#"{"article_summary":{"summary":"Wrapped summary."}}"#,
        "llm summary",
    )
    .expect("expected parsed response");

    assert_eq!(
        extract_string_from_structured_response(&parsed, "summary", &[ARTICLE_SUMMARY_SCHEMA_NAME])
            .as_deref(),
        Some("Wrapped summary.")
    );
}

#[test]
fn structured_summary_quality_response_accepts_schema_wrapper() {
    let parsed =
        parse_llm_json_response(r#"{"summary_quality":{"is_good":true}}"#, "summary quality")
            .expect("expected parsed response");

    assert_eq!(
        extract_bool_from_structured_response(&parsed, "is_good", &[SUMMARY_QUALITY_SCHEMA_NAME]),
        Some(true)
    );
}

#[test]
fn summary_quality_heuristic_enables_llm_when_summary_is_article_prefix() {
    assert!(should_enable_llm_summary_by_heuristic(
        Some("Lead sentence only."),
        Some("Lead sentence only. More detail follows in the full article body.")
    ));
}

#[test]
fn summary_quality_heuristic_disables_llm_when_summary_is_not_prefix() {
    assert!(!should_enable_llm_summary_by_heuristic(
        Some("Different summary."),
        Some("Lead sentence only. More detail follows in the full article body.")
    ));
}

#[test]
fn summary_quality_heuristic_enables_llm_when_summary_is_missing() {
    assert!(should_enable_llm_summary_by_heuristic(
        None,
        Some("Lead sentence only. More detail follows in the full article body.")
    ));
}

#[test]
fn plain_text_strips_html_and_preserves_word_case() {
    let result = plain_text(Some("<p>Hello</p>\n<strong>World</strong>"));
    assert_eq!(result, "Hello World");
}

#[test]
fn extract_first_image_url_finds_first_image() {
    let html = "<p>Lead</p><img src='https://example.com/1.jpg' /><img src='https://example.com/2.jpg' />";
    assert_eq!(
        extract_first_image_url(Some(html)).as_deref(),
        Some("https://example.com/1.jpg")
    );
}

#[test]
fn content_openai_chat_url_respects_custom_base_url() {
    assert_eq!(
        openai_chat_completions_url("http://127.0.0.1:3000/v1/"),
        "http://127.0.0.1:3000/v1/chat/completions"
    );
}

#[test]
fn cleaned_extraction_trims_and_drops_blank_content() {
    assert_eq!(cleaned_extraction(Some("  <p>Body</p>\n".to_string())).as_deref(), Some("<p>Body</p>"));
    assert_eq!(cleaned_extraction(Some(" \n\t ".to_string())), None);
    assert_eq!(cleaned_extraction(None), None);
}

#[test]
fn tag_stripping_follows_the_tag_pattern() {
    assert_eq!(strip_html("<>a<b<c>d"), "<>a d");
    assert_eq!(strip_html("x < y and y > z"), "x   z");
    assert_eq!(strip_html("no tags here"), "no tags here");
    assert_eq!(strip_html("<p>open <b"), " open <b");
}

#[test]
fn white_space_runs_collapse_to_one_space() {
    assert_eq!(plain_text(Some("a \u{2003}\n\t b\u{3000}c")), "a b c");
    assert_eq!(plain_text(Some("  <p> lead </p>  ")), "lead");
}

#[test]
fn started_reader_extracts_and_trims_the_article() {
    let reader = readability_js::Readability::new().expect("reader starts");
    let html = "<html><body><article><h1>Title</h1><p>Main body paragraph one with enough words to count as content for the extractor.</p><p>Main body paragraph two, also long enough to be kept by the extractor.</p></article></body></html>";
    let extracted = extract_with_reader(&reader, html, Some("https://example.com/article"))
        .expect("article extracted");
    assert!(extracted.contains("Main body paragraph one"));
    assert_eq!(extracted.trim(), extracted);
}

#[test]
fn normalising_ascii_text_twice_changes_nothing() {
    for text in ["<p>Hello \t <b>World</b></p>\n", "  A <> b  >c  ", "x < y and y > z", "<a<b>C>"] {
        let once = normalize_text(Some(text));
        assert_eq!(normalize_text(Some(&once)), once);
        assert_eq!(once.trim(), once);
        assert!(!once.contains("  "));
        assert_eq!(once.to_lowercase(), once);
    }
    assert_eq!(normalize_text(None), "");
}
