use headless_rss::article::{
    article_record_from_feed_entry, entries_to_ingest, entries_to_seed, freshest_entries, guid_from_feed_entry, guid_hash,
    insert_outcome, unix_now, unix_time_from, EnrichedArticleContent, FeedEntry,
    InsertArticleOutcome,
};
use headless_rss::errors::ApiError;
use headless_rss::feeds::parse_feed_document;
use headless_rss::content::{article_record_from_raw_entry, enrich_article_content, fulltext_url, llm_summary_source, EnrichInput};

const ATOM: &str = r#"<?xml version="1.0" encoding="utf-8"?>
<feed xmlns="http://www.w3.org/2005/Atom">
  <title>Updater Fixture</title>
  <link href="http://example.org/" />
  <updated>2026-03-06T00:00:00Z</updated>
  <id>tag:example.org,2026:feed</id>
  <entry>
    <title>Update Entry</title>
    <link href="http://example.org/update-entry" />
    <id>tag:example.org,2026:update-entry</id>
    <updated>2026-03-06T00:00:00Z</updated>
    <summary>Update summary</summary>
        <content type="html"><![CDATA[<p>Body</p><img src="https://example.org/thumb.jpg" alt="thumb" />]]></content>
  </entry>
</feed>"#;

fn entry(id: &str, link: Option<&str>, title: Option<&str>) -> FeedEntry {
    FeedEntry {
        id: id.to_string(),
        link: link.map(str::to_string),
        title: title.map(str::to_string),
        content: None,
        summary: None,
        author: None,
        updated: None,
        published: None,
    }
}

#[test]
fn parses_atom_feed() {
    let feed = parse_feed_document("http://example.org/feed", ATOM.as_bytes()).expect("fixture parses");
    assert_eq!(feed.title.as_deref(), Some("Updater Fixture"));
    assert_eq!(feed.link.as_deref(), Some("http://example.org/"));
    assert_eq!(feed.entries.len(), 1);
    let e = &feed.entries[0];
    assert_eq!(e.id, "tag:example.org,2026:update-entry");
    assert_eq!(e.link.as_deref(), Some("http://example.org/update-entry"));
    assert_eq!(e.title.as_deref(), Some("Update Entry"));
    assert_eq!(e.summary.as_deref(), Some("Update summary"));
    assert!(e.content.as_deref().unwrap().contains("thumb.jpg"));
    assert_eq!(e.updated, Some(1_772_755_200));
}

#[test]
fn unparsable_feed_is_refused_with_its_url() {
    match parse_feed_document("http://example.org/feed", b"not a feed") {
        Err(ApiError::FeedParse(detail)) => {
            assert!(detail.starts_with("Error parsing feed from `http://example.org/feed`: "));
            assert!(detail.len() > "Error parsing feed from `http://example.org/feed`: ".len());
        }
        other => panic!("unexpected result: {:?}", other.map(|f| f.title)),
    }
}

#[test]
fn guid_falls_back_to_link_then_title() {
    assert_eq!(guid_from_feed_entry(&entry("id-1", Some("l"), Some("t"))).as_deref(), Some("id-1"));
    assert_eq!(guid_from_feed_entry(&entry("", Some("l"), Some("t"))).as_deref(), Some("l"));
    assert_eq!(guid_from_feed_entry(&entry("", None, Some("t"))).as_deref(), Some("t"));
    assert_eq!(guid_from_feed_entry(&entry("", None, None)), None);
}

#[test]
fn guid_hash_is_md5_hex() {
    assert_eq!(guid_hash("abc"), "900150983cd24fb0d6963f7d28e17f72");
    assert_eq!(guid_hash(""), "d41d8cd98f00b204e9800998ecf8427e");
}

#[test]
fn article_records_are_new_unread_and_dated() {
    let mut e = entry("id-1", Some("https://example.org/a"), Some("Title"));
    e.author = Some("Ann".to_string());
    e.updated = Some(500);
    let enriched = EnrichedArticleContent {
        content: Some("Body".to_string()),
        summary: Some("Sum".to_string()),
        media_thumbnail: None,
        content_hash: Some("h".to_string()),
    };
    let record = article_record_from_feed_entry(9, &e, enriched, 1_000).unwrap();
    assert_eq!(record.guid, "id-1");
    assert_eq!(record.guid_hash, guid_hash("id-1"));
    assert_eq!(record.feed_id, 9);
    assert_eq!(record.updated_date, Some(500));
    assert_eq!(record.pub_date, Some(500));
    assert_eq!(record.last_modified, 1_000);
    assert!(record.unread);
    assert!(!record.starred);
    assert_eq!(record.url.as_deref(), Some("https://example.org/a"));
    assert_eq!(record.author.as_deref(), Some("Ann"));
    let undated = article_record_from_feed_entry(
        9,
        &entry("id-2", None, None),
        EnrichedArticleContent { content: None, summary: None, media_thumbnail: None, content_hash: None },
        1_000,
    )
    .unwrap();
    assert_eq!(undated.updated_date, Some(1_000));
    assert_eq!(undated.pub_date, Some(1_000));
    let none = article_record_from_feed_entry(
        9,
        &entry("", None, None),
        EnrichedArticleContent { content: None, summary: None, media_thumbnail: None, content_hash: None },
        1_000,
    );
    assert!(none.is_none());
}

#[test]
fn duplicates_are_detected_by_guid_hash() {
    assert_eq!(
        insert_outcome("h".to_string(), Some(3)),
        InsertArticleOutcome::Duplicate { guid_hash: "h".to_string() }
    );
    assert_eq!(
        insert_outcome("h".to_string(), None),
        InsertArticleOutcome::Inserted { guid_hash: "h".to_string() }
    );
    assert_eq!(entries_to_ingest(7), 7);
    assert_eq!(entries_to_ingest(80), 50);
    assert_eq!(entries_to_seed(7), 7);
    assert_eq!(entries_to_seed(10), 10);
    assert_eq!(entries_to_seed(11), 10);
}

#[test]
fn clock_readings() {
    assert!(unix_now() > 1_600_000_000);
    assert_eq!(unix_time_from(Some(42)), 42);
    assert_eq!(unix_time_from(None), 0);
}

fn input(content: Option<&str>, summary: Option<&str>) -> EnrichInput {
    EnrichInput {
        url: Some("https://example.org/a".to_string()),
        content: content.map(str::to_string),
        summary: summary.map(str::to_string),
        media_thumbnail: None,
        use_extracted_fulltext: false,
        use_llm_summary: false,
        llm_enabled: false,
    }
}

#[test]
fn enrichment_takes_thumbnail_from_body() {
    let enriched = enrich_article_content(
        &input(Some("<p>Body</p><img src=\"https://example.org/thumb.jpg\" />"), Some("Sum")),
        None,
        None,
    );
    assert_eq!(enriched.media_thumbnail.as_deref(), Some("https://example.org/thumb.jpg"));
    assert_eq!(enriched.summary.as_deref(), Some("Sum"));
    assert_eq!(
        enriched.content_hash,
        Some(guid_hash("<p>Body</p><img src=\"https://example.org/thumb.jpg\" />"))
    );
}

#[test]
fn enrichment_uses_extracted_text_and_truncates_summary() {
    let mut inp = input(Some("teaser"), None);
    inp.use_extracted_fulltext = true;
    assert_eq!(fulltext_url(&inp).as_deref(), Some("https://example.org/a"));
    let long = format!("<img src='x.png'>{}", "b".repeat(300));
    let extracted = Some(long.clone());
    assert_eq!(llm_summary_source(&inp, &extracted), None);
    let enriched = enrich_article_content(&inp, extracted, None);
    assert_eq!(enriched.content.as_deref(), Some(long.as_str()));
    assert_eq!(enriched.media_thumbnail.as_deref(), Some("x.png"));
    let summary = enriched.summary.unwrap();
    assert!(summary.ends_with("..."));
    assert_eq!(summary.chars().count(), 163);
}

#[test]
fn enrichment_uses_llm_summary_when_wanted() {
    let mut inp = input(Some(&"c".repeat(200)), Some("feed summary"));
    inp.use_llm_summary = true;
    inp.llm_enabled = true;
    assert_eq!(llm_summary_source(&inp, &None), Some("c".repeat(200)));
    let enriched =
        enrich_article_content(&inp, None, Some("Generated (AI generated)".to_string()));
    assert_eq!(enriched.summary.as_deref(), Some("Generated (AI generated)"));
    let short = input(Some("short"), None);
    assert_eq!(enrich_article_content(&short, None, None).summary.as_deref(), Some("short"));
}

#[test]
fn refresh_records_keep_the_entry_content() {
    let mut e = entry("id-9", Some("https://example.org/a"), Some("Title"));
    e.content = Some("<p>Body</p><img src=\"https://example.org/pic.png\">".to_string());
    e.summary = Some("Short".to_string());
    e.updated = Some(100);
    let record = article_record_from_raw_entry(3, &e, 500).expect("record");
    assert_eq!(record.content, e.content);
    assert_eq!(record.summary.as_deref(), Some("Short"));
    assert_eq!(record.media_thumbnail.as_deref(), Some("https://example.org/pic.png"));
    assert_eq!(record.content_hash, Some(guid_hash(e.content.as_deref().unwrap())));
    assert_eq!(record.guid_hash, guid_hash("id-9"));
    assert_eq!(record.updated_date, Some(100));
    assert_eq!(record.pub_date, Some(100));
    assert_eq!(record.last_modified, 500);
    assert!(record.unread && !record.starred);

    let mut only_summary = entry("", None, Some("T"));
    only_summary.summary = Some("<img src='s.jpg'> text".to_string());
    let record = article_record_from_raw_entry(3, &only_summary, 7).expect("record");
    assert_eq!(record.guid, "T");
    assert_eq!(record.content, None);
    assert_eq!(record.content_hash, None);
    assert_eq!(record.media_thumbnail.as_deref(), Some("s.jpg"));
    assert!(article_record_from_raw_entry(3, &entry("", None, None), 7).is_none());
}

fn dated(id: &str, published: Option<i64>, updated: Option<i64>) -> FeedEntry {
    let mut e = entry(id, None, None);
    e.published = published;
    e.updated = updated;
    e
}

#[test]
fn new_feeds_seed_the_ten_freshest_entries() {
    let mut entries: Vec<FeedEntry> = (0..12).map(|k| dated(&format!("e{k}"), Some(100 + k), None)).collect();
    entries.push(dated("undated", None, None));
    entries.push(dated("updated-only", None, Some(105)));
    let chosen = freshest_entries(&entries, 1_000);
    assert_eq!(chosen.len(), 10);
    assert_eq!(chosen[0], 12);
    assert_eq!(&chosen[1..], &[11, 10, 9, 8, 7, 6, 5, 13, 4]);
    let few = vec![dated("a", Some(5), None), dated("b", Some(5), None), dated("c", Some(9), None)];
    assert_eq!(freshest_entries(&few, 0), vec![2, 0, 1]);
    assert!(freshest_entries(&[], 0).is_empty());
}

#[test]
fn linked_entries_keep_a_stable_id() {
    let doc = r#"<?xml version="1.0"?><rss version="2.0"><channel><title>T</title>
<item><title>One</title><link>http://example.org/1</link></item>
<item><title>Two</title></item></channel></rss>"#;
    let first = parse_feed_document("http://example.org/feed", doc.as_bytes()).expect("parses");
    let second = parse_feed_document("http://example.org/feed", doc.as_bytes()).expect("parses");
    assert!(!first.entries[0].id.is_empty());
    assert_eq!(first.entries[0].id, second.entries[0].id);
    assert!(!first.entries[1].id.is_empty());
}
