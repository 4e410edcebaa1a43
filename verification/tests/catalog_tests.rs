use headless_rss::config::{default_db_path, normalize_env_value, parse_u64, Config, EnvVars};
use headless_rss::errors::ApiError;
use headless_rss::feeds::{
    add_feed_step, AddFeedAction, AddFeedEvent,
    duplicate_feed_verdict, feed_exists_verdict, feed_fetch_status_verdict, feed_row_to_out, new_feed_record,
    rename_feed_verdict, FeedRow,
};
use headless_rss::ssrf::{IpAddress, SsrfError};
use headless_rss::folders::{
    create_folder_verdict, explicit_folder_verdict, folder_exists_verdict, folder_ref,
    rename_folder_verdict, FolderRef,
};
use headless_rss::article::ParsedFeed;

#[test]
fn null_and_zero_folder_ids_target_root() {
    assert_eq!(folder_ref(None), FolderRef::Root);
    assert_eq!(folder_ref(Some(0)), FolderRef::Root);
    assert_eq!(folder_ref(Some(7)), FolderRef::Id(7));
    assert_eq!(explicit_folder_verdict(7, true), Ok(7));
    let err = explicit_folder_verdict(7, false).unwrap_err();
    assert_eq!(err.status(), 422);
    assert_eq!(err.detail(), "Folder with ID 7 does not exist");
}

#[test]
fn folder_requests_check_name_then_existence_then_duplicates() {
    assert_eq!(create_folder_verdict("", None), Err(ApiError::FolderNameInvalid));
    assert_eq!(create_folder_verdict("News", Some(3)), Err(ApiError::FolderAlreadyExists));
    assert_eq!(create_folder_verdict("News", None), Ok(()));
    assert_eq!(rename_folder_verdict("", false, true), Err(ApiError::FolderNameInvalid));
    assert_eq!(rename_folder_verdict("News", false, true), Err(ApiError::FolderNotFound));
    assert_eq!(rename_folder_verdict("News", true, true), Err(ApiError::FolderAlreadyExists));
    assert_eq!(rename_folder_verdict("News", true, false), Ok(()));
    assert_eq!(folder_exists_verdict(false), Err(ApiError::FolderNotFound));
    assert_eq!(ApiError::FolderAlreadyExists.status(), 409);
    assert_eq!(ApiError::FolderAlreadyExists.detail(), "Folder already exists");
    assert_eq!(ApiError::FolderNameInvalid.detail(), "Folder name is invalid");
    assert_eq!(ApiError::FolderNotFound.detail(), "Folder not found");
}

fn feed_row(folder_id: i64) -> FeedRow {
    FeedRow {
        id: 4,
        url: "https://example.com/feed".to_string(),
        title: Some("Example".to_string()),
        favicon_link: None,
        added: 10,
        next_update_time: Some(20),
        folder_id,
        ordering: 0,
        link: Some("https://example.com".to_string()),
        pinned: false,
        update_error_count: 0,
        last_update_error: None,
    }
}

#[test]
fn root_folder_is_reported_as_null() {
    assert_eq!(feed_row_to_out(feed_row(0), Some(0)).folder_id, None);
    assert_eq!(feed_row_to_out(feed_row(5), Some(0)).folder_id, Some(5));
    assert_eq!(feed_row_to_out(feed_row(5), None).folder_id, Some(5));
    assert_eq!(feed_row_to_out(feed_row(5), Some(0)).url, "https://example.com/feed");
}

#[test]
fn feed_request_verdicts() {
    assert_eq!(feed_exists_verdict(12, true), Ok(()));
    let err = feed_exists_verdict(12, false).unwrap_err();
    assert_eq!(err.status(), 404);
    assert_eq!(err.detail(), "Feed 12 not found");
    assert_eq!(ApiError::FeedNotFound(-3).detail(), "Feed -3 not found");
    assert_eq!(rename_feed_verdict(12, 0), Err(ApiError::FeedNotFound(12)));
    assert_eq!(rename_feed_verdict(12, 1), Ok(()));
    assert_eq!(duplicate_feed_verdict(Some(1)), Err(ApiError::FeedAlreadyExists));
    assert_eq!(ApiError::FeedAlreadyExists.status(), 409);
    assert_eq!(duplicate_feed_verdict(None), Ok(()));
    assert_eq!(ApiError::ItemNotFound.detail(), "Item not found");
    assert_eq!(ApiError::Internal.status(), 500);
    assert_eq!(ApiError::Ssrf("nope".to_string()).status(), 400);
    assert_eq!(ApiError::FeedParse("bad".to_string()).status(), 422);
}

#[test]
fn new_feed_is_refreshed_a_day_later() {
    let parsed = ParsedFeed {
        title: Some("Fixture".to_string()),
        link: Some("http://example.org/".to_string()),
        entries: vec![],
    };
    let record = new_feed_record("http://example.org/atom.xml".to_string(), &parsed, 0, 1_000);
    assert_eq!(record.added, 1_000);
    assert_eq!(record.next_update_time, 87_400);
    assert_eq!(record.title.as_deref(), Some("Fixture"));
    assert_eq!(record.link.as_deref(), Some("http://example.org/"));
}

#[test]
fn environment_values_are_trimmed() {
    assert_eq!(normalize_env_value(Some("  admin \n".to_string())).as_deref(), Some("admin"));
    assert_eq!(normalize_env_value(Some("   ".to_string())), None);
    assert_eq!(normalize_env_value(None), None);
    assert_eq!(default_db_path(true, true), "data/headless-rss.sqlite3");
    assert_eq!(default_db_path(false, true), "../data/headless-rss.sqlite3");
    assert_eq!(default_db_path(false, false), "data/headless-rss.sqlite3");
}

#[test]
fn unsigned_numbers_parse_like_std() {
    assert_eq!(parse_u64("15"), Some(15));
    assert_eq!(parse_u64("+7"), Some(7));
    assert_eq!(parse_u64("007"), Some(7));
    assert_eq!(parse_u64("18446744073709551615"), Some(u64::MAX));
    assert_eq!(parse_u64("18446744073709551616"), None);
    assert_eq!(parse_u64(""), None);
    assert_eq!(parse_u64("+"), None);
    assert_eq!(parse_u64("-1"), None);
    assert_eq!(parse_u64("1a"), None);
    assert_eq!(parse_u64("99999999999999999999x"), None);
    for text in ["0", "42", "+1", "1_000", " 3", "12345678901234567890", "٣"] {
        assert_eq!(parse_u64(text), text.parse::<u64>().ok(), "{text}");
    }
}

fn no_vars() -> EnvVars {
    EnvVars {
        username: None,
        password: None,
        version: None,
        database_path: None,
        testing_mode: None,
        feed_update_frequency_min: None,
        openai_api_key: None,
        openai_base_url: None,
        openai_model: None,
    }
}

#[test]
fn configuration_defaults() {
    let config = Config::from_env_values(no_vars(), false, false);
    assert_eq!(config.username, None);
    assert_eq!(config.password, None);
    assert_eq!(config.version, "dev");
    assert_eq!(config.db_path, "data/headless-rss.sqlite3");
    assert!(!config.testing_mode);
    assert_eq!(config.feed_update_frequency_min, 15);
    assert_eq!(config.openai_api_key, None);
    assert_eq!(config.openai_base_url, "https://api.openai.com/v1");
    assert_eq!(config.openai_model, "gpt-5-nano");
    assert!(!config.auth_enabled());
    assert!(!config.llm_enabled());
    assert_eq!(Config::from_env_values(no_vars(), false, true).db_path, "../data/headless-rss.sqlite3");
}

#[test]
fn configuration_reads_the_environment() {
    let vars = EnvVars {
        username: Some("  alice ".to_string()),
        password: Some("secret".to_string()),
        version: Some(" 1.2 ".to_string()),
        database_path: Some("/tmp/db.sqlite3".to_string()),
        testing_mode: Some(" true ".to_string()),
        feed_update_frequency_min: Some(" 30 ".to_string()),
        openai_api_key: Some("   ".to_string()),
        openai_base_url: Some("http://llm.local/v1/".to_string()),
        openai_model: Some("small-model".to_string()),
    };
    let config = Config::from_env_values(vars, true, true);
    assert_eq!(config.username.as_deref(), Some("alice"));
    assert_eq!(config.password.as_deref(), Some("secret"));
    assert_eq!(config.version, " 1.2 ");
    assert_eq!(config.db_path, "/tmp/db.sqlite3");
    assert!(config.testing_mode);
    assert_eq!(config.feed_update_frequency_min, 30);
    assert_eq!(config.openai_api_key, None);
    assert_eq!(config.openai_base_url, "http://llm.local/v1/");
    assert_eq!(config.openai_model, "small-model");
    assert!(config.auth_enabled());

    let mut odd = no_vars();
    odd.feed_update_frequency_min = Some("often".to_string());
    odd.testing_mode = Some("yes".to_string());
    let config = Config::from_env_values(odd, false, false);
    assert_eq!(config.feed_update_frequency_min, 15);
    assert!(!config.testing_mode);
}

#[test]
fn feed_fetch_status_is_checked() {
    assert_eq!(feed_fetch_status_verdict("http://example.org/feed", 200, "200 OK"), Ok(()));
    assert_eq!(feed_fetch_status_verdict("http://example.org/feed", 204, "204 No Content"), Ok(()));
    assert_eq!(
        feed_fetch_status_verdict("http://example.org/feed", 404, "404 Not Found"),
        Err(ApiError::FeedParse(
            "Error parsing feed from `http://example.org/feed`: HTTP 404 Not Found".to_string()
        ))
    );
    assert!(feed_fetch_status_verdict("http://example.org/feed", 301, "301 Moved Permanently").is_err());
}

#[test]
fn adding_a_feed_checks_before_fetching() {
    let url = "http://example.org/feed";
    assert_eq!(add_feed_step(url, AddFeedEvent::Started), AddFeedAction::CheckUrl);
    assert_eq!(add_feed_step(url, AddFeedEvent::UrlChecked(Ok(()))), AddFeedAction::ResolveFolder);
    assert_eq!(
        add_feed_step(url, AddFeedEvent::UrlChecked(Err(SsrfError::Private(IpAddress::V4(10, 0, 0, 1))))),
        AddFeedAction::Fail(ApiError::Ssrf("Access to private address 10.0.0.1 is not allowed.".to_string()))
    );
    assert_eq!(add_feed_step(url, AddFeedEvent::FolderResolved(Ok(4))), AddFeedAction::CheckDuplicate(4));
    assert_eq!(
        add_feed_step(url, AddFeedEvent::FolderResolved(Err(ApiError::FolderNotFoundWithId(9)))),
        AddFeedAction::Fail(ApiError::FolderNotFoundWithId(9))
    );
    assert_eq!(
        add_feed_step(url, AddFeedEvent::DuplicateChecked { folder_id: 4, existing_id: Some(2) }),
        AddFeedAction::Fail(ApiError::FeedAlreadyExists)
    );
    assert_eq!(
        add_feed_step(url, AddFeedEvent::DuplicateChecked { folder_id: 4, existing_id: None }),
        AddFeedAction::Fetch(4)
    );
    assert_eq!(
        add_feed_step(url, AddFeedEvent::FetchFailed("connection refused".to_string())),
        AddFeedAction::Fail(ApiError::FeedParse("connection refused".to_string()))
    );
    assert_eq!(
        add_feed_step(
            url,
            AddFeedEvent::FetchAnswered { folder_id: 4, status: 200, status_text: "200 OK".to_string() }
        ),
        AddFeedAction::ReadDocument(4)
    );
    assert_eq!(
        add_feed_step(
            url,
            AddFeedEvent::FetchAnswered { folder_id: 4, status: 500, status_text: "500 Internal Server Error".to_string() }
        ),
        AddFeedAction::Fail(ApiError::FeedParse(
            "Error parsing feed from `http://example.org/feed`: HTTP 500 Internal Server Error".to_string()
        ))
    );
}
