use headless_rss::llm::{chat_completion_content, response_body_preview, JsonValue};
use headless_rss::content::{
    evaluate_feed_content_state, needs_quality_check, quality_check_plan, quality_llm_question, QualityPlan, quality_from_llm_response,
    quality_question_texts, select_quality_sample, should_enable_llm_summary,
    summary_from_llm_response, summary_request_text, FeedContentState,
};
use headless_rss::article::FeedEntry;
use headless_rss::schedule::calculate_next_update_time;
use headless_rss::text::{format_i64, trim_str, truncate_chars};

#[test]
fn trims_unicode_white_space() {
    assert_eq!(trim_str("\u{3000}\t hello world \n\u{a0}"), "hello world");
    assert_eq!(trim_str("   "), "");
    assert_eq!(truncate_chars("héllo", 2), "hé");
    assert_eq!(truncate_chars("abc", 10), "abc");
}

#[test]
fn formats_integers() {
    assert_eq!(format_i64(0), "0");
    assert_eq!(format_i64(1234567890), "1234567890");
    assert_eq!(format_i64(-42), "-42");
    assert_eq!(format_i64(i64::MIN), "-9223372036854775808");
}

#[test]
fn short_bodies_are_previewed_whole() {
    assert_eq!(response_body_preview("  error  "), "error");
}

#[test]
fn completion_content_is_trimmed_first_choice() {
    assert_eq!(chat_completion_content(&[Some("  hi ".to_string())]).as_deref(), Some("hi"));
    assert_eq!(
        chat_completion_content(&[Some("first".to_string()), Some("second".to_string())]).as_deref(),
        Some("first")
    );
    assert_eq!(chat_completion_content(&[None, Some("second".to_string())]), None);
    assert_eq!(chat_completion_content(&[Some("   ".to_string())]), None);
    assert_eq!(chat_completion_content(&[None]), None);
    assert_eq!(chat_completion_content(&[]), None);
}

#[test]
fn quality_check_runs_monthly() {
    assert!(needs_quality_check(None, 0));
    assert!(!needs_quality_check(Some(1_000), 1_000 + 30 * 86_400));
    assert!(needs_quality_check(Some(1_000), 1_001 + 30 * 86_400));
}

fn entry(link: Option<&str>, content: Option<&str>, summary: Option<&str>) -> FeedEntry {
    FeedEntry {
        id: "id".to_string(),
        link: link.map(str::to_string),
        title: None,
        content: content.map(str::to_string),
        summary: summary.map(str::to_string),
        author: None,
        updated: None,
        published: None,
    }
}

#[test]
fn quality_sample_needs_link_and_text() {
    let entries = vec![
        entry(None, Some("c"), None),
        entry(Some("l"), None, None),
        entry(Some("l"), None, Some("s")),
    ];
    assert_eq!(select_quality_sample(&entries), Some(2));
    assert_eq!(select_quality_sample(&entries[..2]), None);
}

#[test]
fn quality_evaluation_prefers_longer_extraction() {
    let state = evaluate_feed_content_state(
        Some("This extracted article text is much longer than the teaser summary.".to_string()),
        Some("Short teaser.".to_string()),
        Some("This extracted article text".to_string()),
        false,
        None,
        77,
    );
    assert_eq!(
        state,
        FeedContentState { last_quality_check: Some(77), use_extracted_fulltext: true, use_llm_summary: true }
    );
    let kept = evaluate_feed_content_state(
        Some("Short.".to_string()),
        Some("This feed summary already contains a reasonable amount of detail.".to_string()),
        Some("A different summary.".to_string()),
        false,
        None,
        78,
    );
    assert!(!kept.use_extracted_fulltext);
    assert!(!kept.use_llm_summary);
}

#[test]
fn llm_verdict_overrides_heuristic() {
    let article = Some("Lead sentence only. More detail follows.");
    let summary = Some("Lead sentence only.");
    assert!(should_enable_llm_summary(article, summary, false, None));
    assert!(!should_enable_llm_summary(article, summary, true, Some(true)));
    assert!(should_enable_llm_summary(article, summary, true, Some(false)));
    assert!(should_enable_llm_summary(article, None, true, Some(true)));
    assert_eq!(
        quality_question_texts(Some("<p>Article</p>"), Some("<b>Sum</b>"), true),
        Some(("Article".to_string(), "Sum".to_string()))
    );
    assert_eq!(quality_question_texts(Some("<p>Article</p>"), Some("<b>Sum</b>"), false), None);
}

#[test]
fn llm_replies_are_read_and_marked() {
    let reply = JsonValue::Object(vec![(
        "article_summary".to_string(),
        JsonValue::Object(vec![("summary".to_string(), JsonValue::Str(" Wrapped. ".to_string()))]),
    )]);
    assert_eq!(summary_from_llm_response(&reply).as_deref(), Some("Wrapped. (AI generated)"));
    let verdict = JsonValue::Object(vec![("is_good".to_string(), JsonValue::Bool(false))]);
    assert_eq!(quality_from_llm_response(&verdict), Some(false));
    assert_eq!(quality_from_llm_response(&JsonValue::Null), None);
    assert_eq!(summary_request_text(false, "text"), None);
    assert_eq!(summary_request_text(true, "<p>Some   text</p>").as_deref(), Some("Some text"));
    assert_eq!(summary_request_text(true, "<p> </p>"), None);
}

#[test]
fn sparse_feed_next_update_is_jittered_around_one_day() {
    for _ in 0..100 {
        let next = calculate_next_update_time(1_000_000, 0);
        assert!((1_000_000 + 86_400 - 1_800..=1_000_000 + 86_400 + 1_800).contains(&next));
    }
}

#[test]
fn active_feed_next_update_ignores_jitter() {
    // 70 articles in a week: 10 per day, so every 86400 / 10 / 4 = 2160 seconds.
    for _ in 0..20 {
        assert_eq!(calculate_next_update_time(1_000_000, 70), 1_000_000 + 2_160);
    }
}

#[test]
fn summaries_are_generated_only_with_extracted_full_text() {
    let state = evaluate_feed_content_state(None, Some("Feed text.".to_string()), None, false, None, 5);
    assert_eq!(
        state,
        FeedContentState { last_quality_check: Some(5), use_extracted_fulltext: false, use_llm_summary: false }
    );
}

#[test]
fn quality_check_is_planned_monthly_on_the_first_fit_entry() {
    let entries = vec![
        entry(None, Some("c"), None),
        entry(Some("l"), None, Some("s")),
    ];
    let fresh = FeedContentState { last_quality_check: Some(1_000), use_extracted_fulltext: false, use_llm_summary: false };
    assert_eq!(quality_check_plan(fresh, &entries, 2_000), QualityPlan::Keep);
    let never = FeedContentState { last_quality_check: None, ..fresh };
    assert_eq!(quality_check_plan(never, &entries, 2_000), QualityPlan::Evaluate(1));
    assert_eq!(quality_check_plan(never, &entries[..1], 2_000), QualityPlan::NoSample);
    assert_eq!(quality_check_plan(fresh, &entries, 1_000 + 30 * 86_400 + 1), QualityPlan::Evaluate(1));
}

#[test]
fn the_llm_is_asked_only_about_preferred_full_text() {
    let extracted = Some("<p>Lead sentence only. More detail follows in a much longer body of text here.</p>".to_string());
    let short = Some("Lead.".to_string());
    let summary = Some("Lead sentence only.".to_string());
    assert_eq!(
        quality_llm_question(&extracted, &short, &summary, true),
        Some((
            "Lead sentence only. More detail follows in a much longer body of text here.".to_string(),
            "Lead sentence only.".to_string()
        ))
    );
    assert_eq!(quality_llm_question(&extracted, &short, &summary, false), None);
    assert_eq!(quality_llm_question(&short, &extracted, &summary, true), None);
    assert_eq!(quality_llm_question(&None, &short, &summary, true), None);
}
