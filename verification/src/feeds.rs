//! Feed rules: the API view of feeds, new feed records and the verdicts of feed requests.

use vstd::prelude::*;

use crate::article::{parse_feed, parsed_feed, ParsedFeed};
use crate::errors::ApiError;
use crate::ssrf::{refusal_text, SsrfError};

verus! {

/// A feed row as stored.
#[derive(Clone, Debug, PartialEq, Eq)]
pub struct FeedRow {
    pub id: i64,
    pub url: String,
    pub title: Option<String>,
    pub favicon_link: Option<String>,
    pub added: i64,
    pub next_update_time: Option<i64>,
    pub folder_id: i64,
    pub ordering: i64,
    pub link: Option<String>,
    pub pinned: bool,
    pub update_error_count: i64,
    pub last_update_error: Option<String>,
}

/// A feed as the API lists it.
#[derive(Clone, Debug, PartialEq, Eq)]
pub struct FeedOut {
    pub id: i64,
    pub url: String,
    pub title: Option<String>,
    pub favicon_link: Option<String>,
    pub added: i64,
    pub next_update_time: Option<i64>,
    /// `None` for feeds in the root folder.
    pub folder_id: Option<i64>,
    pub ordering: i64,
    pub link: Option<String>,
    pub pinned: bool,
    pub update_error_count: i64,
    pub last_update_error: Option<String>,
}

/// The API folder id of a feed: `null` for the root folder.
pub open spec fn api_folder_id(folder_id: i64, root_folder_id: Option<i64>) -> Option<i64> {
    match root_folder_id {
        Some(root) => if root == folder_id {
            None
        } else {
            Some(folder_id)
        },
        None => Some(folder_id),
    }
}

/// Converts a stored feed to its API form, reporting the root folder as `null`.
pub fn feed_row_to_out(feed: FeedRow, root_folder_id: Option<i64>) -> (res: FeedOut)
    ensures
        res == (FeedOut {
            id: feed.id,
            url: feed.url,
            title: feed.title,
            favicon_link: feed.favicon_link,
            added: feed.added,
            next_update_time: feed.next_update_time,
            folder_id: api_folder_id(feed.folder_id, root_folder_id),
            ordering: feed.ordering,
            link: feed.link,
            pinned: feed.pinned,
            update_error_count: feed.update_error_count,
            last_update_error: feed.last_update_error,
        }),
{
    let folder_id = match root_folder_id {
        Some(root) => if root == feed.folder_id {
            None
        } else {
            Some(feed.folder_id)
        },
        None => Some(feed.folder_id),
    };
    FeedOut {
        id: feed.id,
        url: feed.url,
        title: feed.title,
        favicon_link: feed.favicon_link,
        added: feed.added,
        next_update_time: feed.next_update_time,
        folder_id,
        ordering: feed.ordering,
        link: feed.link,
        pinned: feed.pinned,
        update_error_count: feed.update_error_count,
        last_update_error: feed.last_update_error,
    }
}

/// Requests on a feed need the feed: else `404 Feed .. not found`.
pub fn feed_exists_verdict(feed_id: i64, exists: bool) -> (res: Result<(), ApiError>)
    ensures
        exists ==> res is Ok,
        !exists ==> res == Err::<(), ApiError>(ApiError::FeedNotFound(feed_id)),
{
    if exists {
        Ok(())
    } else {
        Err(ApiError::FeedNotFound(feed_id))
    }
}

/// Renaming a feed touched no row exactly when the feed does not exist.
pub fn rename_feed_verdict(feed_id: i64, rows_affected: u64) -> (res: Result<(), ApiError>)
    ensures
        rows_affected == 0 ==> res == Err::<(), ApiError>(ApiError::FeedNotFound(feed_id)),
        rows_affected > 0 ==> res is Ok,
{
    if rows_affected == 0 {
        Err(ApiError::FeedNotFound(feed_id))
    } else {
        Ok(())
    }
}

/// Adding a feed whose URL is already stored is refused with `409 Feed already exists`.
pub fn duplicate_feed_verdict(existing_id: Option<i64>) -> (res: Result<(), ApiError>)
    ensures
        existing_id is Some ==> res == Err::<(), ApiError>(ApiError::FeedAlreadyExists),
        existing_id is None ==> res is Ok,
{
    if existing_id.is_some() {
        Err(ApiError::FeedAlreadyExists)
    } else {
        Ok(())
    }
}

/// The row of a newly added feed.
#[derive(Clone, Debug, PartialEq, Eq)]
pub struct NewFeed {
    pub url: String,
    pub title: Option<String>,
    pub added: i64,
    pub next_update_time: i64,
    pub folder_id: i64,
    pub link: Option<String>,
}

/// A new feed takes its title and link from the parsed document, is stamped with the time it
/// was added, and is first refreshed a day later.
pub fn new_feed_record(url: String, feed: &ParsedFeed, folder_id: i64, now_ts: i64) -> (res: NewFeed)
    requires
        now_ts <= i64::MAX - 86_400,
    ensures
        res.url == url,
        res.title == feed.title,
        res.link == feed.link,
        res.added == now_ts,
        res.next_update_time == now_ts + 86_400,
        res.folder_id == folder_id,
{
    NewFeed {
        url,
        title: feed.title.clone(),
        added: now_ts,
        next_update_time: now_ts + 86_400,
        folder_id,
        link: feed.link.clone(),
    }
}

/// The text of a feed document that could not be parsed: where it came from and why.
pub open spec fn feed_parse_detail(url: Seq<char>, reason: Seq<char>) -> Seq<char> {
    "Error parsing feed from `"@ + url + "`: "@ + reason
}

/// Parses the feed document fetched from `url` with feed-rs; a document it refuses is answered
/// with `422` and the parser's reason.
pub fn parse_feed_document(url: &str, document: &[u8]) -> (res: Result<ParsedFeed, ApiError>)
    ensures
        match parsed_feed(document@) {
            Ok(v) => res matches Ok(feed) && feed.parsed_view() == v && forall|i: int|
                0 <= i < feed.entries@.len() ==> (#[trigger] feed.entries@[i]).id@.len() > 0,
            Err(reason) => res matches Err(ApiError::FeedParse(detail)) && detail@
                == feed_parse_detail(url@, reason),
        },
{
    match parse_feed(document) {
        Ok(feed) => Ok(feed),
        Err(reason) => {
            let mut detail = String::from_str("Error parsing feed from `");
            detail.append(url);
            detail.append("`: ");
            detail.append(reason.as_str());
            Err(ApiError::FeedParse(detail))
        },
    }
}

/// An HTTP status that counts as success: `200` to `299`.
pub open spec fn is_success_status(status: u16) -> bool {
    200 <= status <= 299
}

/// The answer to a feed document fetched with `status` (shown as `status_text`, such as
/// `404 Not Found`): nothing to object for a success status, else `422` naming the URL and the
/// status.
pub fn feed_fetch_status_verdict(url: &str, status: u16, status_text: &str) -> (res: Result<
    (),
    ApiError,
>)
    ensures
        is_success_status(status) ==> res is Ok,
        !is_success_status(status) ==> (res matches Err(ApiError::FeedParse(detail)) && detail@
            == feed_parse_detail(url@, "HTTP "@ + status_text@)),
{
    if 200 <= status && status <= 299 {
        return Ok(());
    }
    let mut reason = String::from_str("HTTP ");
    reason.append(status_text);
    let mut detail = String::from_str("Error parsing feed from `");
    detail.append(url);
    detail.append("`: ");
    detail.append(reason.as_str());
    Err(ApiError::FeedParse(detail))
}

// ---------------------------------------------------------------------------------------------
// Adding a feed, step by step

/// What the service learnt from the last step of adding a feed.
#[derive(Debug, PartialEq, Eq)]
pub enum AddFeedEvent {
    /// The request arrived.
    Started,
    /// The forgery rules judged the URL (with its address lookup).
    UrlChecked(Result<(), SsrfError>),
    /// The target folder was resolved (`null` and `0` mean the root folder).
    FolderResolved(Result<i64, ApiError>),
    /// The store was asked for a feed with the same URL.
    DuplicateChecked { folder_id: i64, existing_id: Option<i64> },
    /// The document request failed before any answer; carries the reason.
    FetchFailed(String),
    /// The document request was answered with this status.
    FetchAnswered { folder_id: i64, status: u16, status_text: String },
}

/// What the service does next when adding a feed.
#[derive(Clone, Debug, PartialEq, Eq)]
pub enum AddFeedAction {
    /// Judge the URL by the forgery rules.
    CheckUrl,
    /// Resolve the requested folder.
    ResolveFolder,
    /// Look for a stored feed with the same URL.
    CheckDuplicate(i64),
    /// Request the feed document.
    Fetch(i64),
    /// Read and parse the answered document, then store the feed in this folder.
    ReadDocument(i64),
    /// Answer the request with this error.
    Fail(ApiError),
}

/// Whether `action` is the next step of adding the feed at `url` after `event`: check the URL,
/// then the folder, then that the URL is new, then fetch; any refusal ends the request with its
/// error, whose detail is the refusal message or names the URL and the answered status.
pub open spec fn add_feed_next(url: Seq<char>, event: AddFeedEvent, action: AddFeedAction) -> bool {
    match event {
        AddFeedEvent::Started => action == AddFeedAction::CheckUrl,
        AddFeedEvent::UrlChecked(verdict) => match verdict {
            Ok(_) => action == AddFeedAction::ResolveFolder,
            Err(e) => action matches AddFeedAction::Fail(ApiError::Ssrf(m)) && m@ == refusal_text(e),
        },
        AddFeedEvent::FolderResolved(r) => match r {
            Ok(folder_id) => action == AddFeedAction::CheckDuplicate(folder_id),
            Err(e) => action == AddFeedAction::Fail(e),
        },
        AddFeedEvent::DuplicateChecked { folder_id, existing_id } => match existing_id {
            Some(_) => action == AddFeedAction::Fail(ApiError::FeedAlreadyExists),
            None => action == AddFeedAction::Fetch(folder_id),
        },
        AddFeedEvent::FetchFailed(reason) => action == AddFeedAction::Fail(
            ApiError::FeedParse(reason),
        ),
        AddFeedEvent::FetchAnswered { folder_id, status, status_text } => if is_success_status(
            status,
        ) {
            action == AddFeedAction::ReadDocument(folder_id)
        } else {
            action matches AddFeedAction::Fail(ApiError::FeedParse(d)) && d@ == feed_parse_detail(
                url,
                "HTTP "@ + status_text@,
            )
        },
    }
}

/// Decides the next step of adding the feed at `url` from what the last step found.
pub fn add_feed_step(url: &str, event: AddFeedEvent) -> (res: AddFeedAction)
    ensures
        add_feed_next(url@, event, res),
{
    match event {
        AddFeedEvent::Started => AddFeedAction::CheckUrl,
        AddFeedEvent::UrlChecked(verdict) => match verdict {
            Ok(_) => AddFeedAction::ResolveFolder,
            Err(e) => {
                AddFeedAction::Fail(ApiError::Ssrf(e.message()))
            },
        },
        AddFeedEvent::FolderResolved(r) => match r {
            Ok(folder_id) => AddFeedAction::CheckDuplicate(folder_id),
            Err(e) => AddFeedAction::Fail(e),
        },
        AddFeedEvent::DuplicateChecked { folder_id, existing_id } => match existing_id {
            Some(_) => AddFeedAction::Fail(ApiError::FeedAlreadyExists),
            None => AddFeedAction::Fetch(folder_id),
        },
        AddFeedEvent::FetchFailed(reason) => AddFeedAction::Fail(ApiError::FeedParse(reason)),
        AddFeedEvent::FetchAnswered { folder_id, status, status_text } => {
            match feed_fetch_status_verdict(url, status, status_text.as_str()) {
                Ok(()) => AddFeedAction::ReadDocument(folder_id),
                Err(e) => AddFeedAction::Fail(e),
            }
        },
    }
}

/// A duplicate URL is never fetched: the document is requested only right after the store
/// reported no feed with that URL, and for the folder that was resolved before.
pub proof fn law_duplicate_url_never_fetched(url: Seq<char>, event: AddFeedEvent, folder_id: i64)
    requires
        add_feed_next(url, event, AddFeedAction::Fetch(folder_id)),
    ensures
        event == (AddFeedEvent::DuplicateChecked { folder_id, existing_id: None }),
{
}

/// Nothing is looked up for a refused URL: the folder is resolved only after the URL passed the
/// forgery rules, and the duplicate check only after the folder was resolved.
pub proof fn law_checks_run_in_order(url: Seq<char>, event: AddFeedEvent, folder_id: i64)
    ensures
        add_feed_next(url, event, AddFeedAction::ResolveFolder) ==> (event matches AddFeedEvent::UrlChecked(Ok(_))),
        add_feed_next(url, event, AddFeedAction::CheckDuplicate(folder_id)) ==> event
            == AddFeedEvent::FolderResolved(Ok(folder_id)),
        add_feed_next(url, event, AddFeedAction::ReadDocument(folder_id)) ==> (
        event matches AddFeedEvent::FetchAnswered { folder_id: f, status, .. } && f == folder_id
            && is_success_status(status)),
{
}

/// A feed in the root folder is listed with `folderId: null`; a feed in any other folder with
/// that folder's id.
pub proof fn law_root_folder_listed_as_null(folder_id: i64, root_folder_id: i64)
    ensures
        api_folder_id(root_folder_id, Some(root_folder_id)) is None,
        folder_id != root_folder_id ==> api_folder_id(folder_id, Some(root_folder_id)) == Some(
            folder_id,
        ),
{
}

} // verus!
