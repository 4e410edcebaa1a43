use headless_rss::errors::ApiError;
use headless_rss::items::{
    build_existing_items_query, build_items_query, build_mark_items_query, check_guid_item_count,
    default_batch_size, default_get_read, default_selection_type, existing_items_verdict,
    item_row_to_out, plan_mark, ItemMutation, ItemRow, MarkPlan, MissingBehavior,
    QueryItemsInput,
};

const SELECT: &str = "SELECT article.id, article.title, article.content, article.author, article.content_hash, article.enclosure_link, article.enclosure_mime, article.feed_id, article.fingerprint, article.guid, article.guid_hash, article.last_modified, article.media_description, article.media_thumbnail, article.pub_date, article.rtl, article.starred, article.unread, article.updated_date, article.url, article.summary FROM article";

#[test]
fn items_query_defaults() {
    assert_eq!(default_batch_size(), -1);
    assert_eq!(default_selection_type(), 1);
    assert!(default_get_read());
}

#[test]
fn items_query_for_feed_with_all_filters() {
    let input = QueryItemsInput::for_items(20, 10, 0, 5, false, true, 0);
    let query = build_items_query(input).unwrap();
    assert_eq!(
        query.text,
        format!("{SELECT} WHERE 1=1 AND article.feed_id = ? AND article.unread = 1 AND article.id <= ? ORDER BY article.id ASC LIMIT ?")
    );
    assert_eq!(query.binds, vec![5, 10, 20]);
}

#[test]
fn items_query_for_folder_joins_feeds() {
    let input = QueryItemsInput::for_items(-1, 0, 1, 3, true, false, 0);
    let query = build_items_query(input).unwrap();
    assert_eq!(
        query.text,
        format!("{SELECT} JOIN feed ON feed.id = article.feed_id WHERE 1=1 AND feed.folder_id = ? ORDER BY article.id DESC")
    );
    assert_eq!(query.binds, vec![3]);
}

#[test]
fn updated_items_query_filters_by_last_modified() {
    let input = QueryItemsInput::for_updated_items(1_700_000_000, 2, 0);
    let query = build_items_query(input).unwrap();
    assert_eq!(
        query.text,
        format!("{SELECT} WHERE 1=1 AND article.starred = 1 AND article.last_modified >= ? ORDER BY article.id DESC")
    );
    assert_eq!(query.binds, vec![1_700_000_000]);
    let all = build_items_query(QueryItemsInput::for_updated_items(0, 3, 0)).unwrap();
    assert_eq!(all.text, format!("{SELECT} WHERE 1=1 ORDER BY article.id DESC"));
    assert!(all.binds.is_empty());
}

#[test]
fn items_query_rejects_unknown_selection_type() {
    let input = QueryItemsInput::for_items(-1, 0, 7, 0, true, false, 0);
    let err = build_items_query(input).unwrap_err();
    assert_eq!(err, ApiError::InvalidSelectionType);
    assert_eq!(err.status(), 400);
    assert_eq!(err.detail(), "Invalid item selection type");
}

#[test]
fn mark_queries_list_one_placeholder_per_item() {
    let query = build_mark_items_query(ItemMutation::starred(true), &[4, 9, 11]);
    assert_eq!(
        query.text,
        "UPDATE article SET starred = ?, last_modified = CAST(strftime('%s','now') AS INTEGER) WHERE id IN (?, ?, ?)"
    );
    assert_eq!(query.binds, vec![1, 4, 9, 11]);
    let read = build_mark_items_query(ItemMutation::unread(false), &[2]);
    assert_eq!(
        read.text,
        "UPDATE article SET unread = ?, last_modified = CAST(strftime('%s','now') AS INTEGER) WHERE id IN (?)"
    );
    assert_eq!(read.binds, vec![0, 2]);
    let check = build_existing_items_query(&[1, 2]);
    assert_eq!(check.text, "SELECT COUNT(*) FROM article WHERE id IN (?, ?)");
    assert_eq!(check.binds, vec![1, 2]);
}

#[test]
fn mark_plans_follow_missing_behavior() {
    assert_eq!(plan_mark(0, MissingBehavior::RequireExisting), MarkPlan::Nothing);
    assert_eq!(plan_mark(2, MissingBehavior::RequireExisting), MarkPlan::CheckThenUpdate);
    assert_eq!(plan_mark(2, MissingBehavior::AllowEmptyInput), MarkPlan::Update);
    assert_eq!(existing_items_verdict(0), Err(ApiError::ItemNotFound));
    assert_eq!(existing_items_verdict(1), Ok(()));
    assert_eq!(ItemMutation::unread(true).column_name(), "unread");
    assert_eq!(check_guid_item_count(10_000), Ok(()));
    assert_eq!(check_guid_item_count(10_001), Err(ApiError::TooManyItems(10_001)));
    let refused = check_guid_item_count(12_345).unwrap_err();
    assert_eq!(refused.status(), 400);
    assert_eq!(refused.detail(), "Too many items in request: 12345 (max 10000)");
}

fn row(summary: Option<&str>, content: Option<&str>) -> ItemRow {
    ItemRow {
        id: 1,
        title: Some("Title".to_string()),
        content: content.map(str::to_string),
        author: None,
        content_hash: None,
        enclosure_link: None,
        enclosure_mime: None,
        feed_id: 2,
        fingerprint: None,
        guid: "guid".to_string(),
        guid_hash: "hash".to_string(),
        last_modified: 3,
        media_description: None,
        media_thumbnail: None,
        pub_date: Some(4),
        rtl: false,
        starred: true,
        unread: false,
        updated_date: Some(5),
        url: Some("https://example.com/a".to_string()),
        summary: summary.map(str::to_string),
    }
}

#[test]
fn item_body_prefers_summary_over_content() {
    let out = item_row_to_out(row(Some("Summary"), Some("Content")));
    assert_eq!(out.body.as_deref(), Some("Summary"));
    assert_eq!(out.feed_id, 2);
    assert!(out.starred);
    let out = item_row_to_out(row(None, Some("Content")));
    assert_eq!(out.body.as_deref(), Some("Content"));
    let out = item_row_to_out(row(None, None));
    assert_eq!(out.body, None);
}
