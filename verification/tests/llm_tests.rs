use std::error::Error as StdError;
use std::fmt;

use headless_rss::llm::{
    format_error_chain, openai_chat_completions_url, response_body_preview,
    OPENAI_LOG_BODY_PREVIEW_CHARS,
};

#[derive(Debug)]
struct TestError {
    message: &'static str,
    source: Option<Box<dyn StdError + Send + Sync>>,
}

impl fmt::Display for TestError {
    fn fmt(&self, f: &mut fmt::Formatter<'_>) -> fmt::Result {
        f.write_str(self.message)
    }
}

impl StdError for TestError {
    fn source(&self) -> Option<&(dyn StdError + 'static)> {
        self.source
            .as_deref()
            .map(|source| source as &(dyn StdError + 'static))
    }
}

/// The messages of an error and its sources, outermost first.
fn error_messages(error: &dyn StdError) -> Vec<String> {
    let mut chain = vec![error.to_string()];
    let mut source = error.source();
    while let Some(next) = source {
        chain.push(next.to_string());
        source = next.source();
    }
    chain
}

#[test]
fn llm_openai_chat_url_respects_custom_base_url() {
    assert_eq!(
        openai_chat_completions_url("http://127.0.0.1:3000/v1/"),
        "http://127.0.0.1:3000/v1/chat/completions"
    );
}

#[test]
fn format_error_chain_includes_nested_sources() {
    let error = TestError {
        message: "top-level",
        source: Some(Box::new(TestError {
            message: "mid-level",
            source: Some(Box::new(TestError {
                message: "root-cause",
                source: None,
            })),
        })),
    };

    assert_eq!(
        format_error_chain(&error_messages(&error)),
        "top-level: mid-level: root-cause"
    );
}

#[test]
fn response_body_preview_truncates_long_bodies() {
    let preview = response_body_preview(&"x".repeat(OPENAI_LOG_BODY_PREVIEW_CHARS + 5));

    assert_eq!(
        preview,
        format!("{}...", "x".repeat(OPENAI_LOG_BODY_PREVIEW_CHARS))
    );
}
