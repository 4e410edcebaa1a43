//! Item (article) queries and state changes of the Nextcloud News API.

use vstd::prelude::*;

use crate::errors::ApiError;

verus! {

/// Maximum number of `{feedId, guidHash}` pairs accepted in one request.
pub const MAX_GUID_ITEMS_PER_REQUEST: usize = 10_000;

/// Default `batchSize` of `GET /items`: no limit.
pub fn default_batch_size() -> (res: i64)
    ensures
        res == -1,
{
    -1
}

/// Default `type` of `GET /items`: folder selection.
pub fn default_selection_type() -> (res: i64)
    ensures
        res == 1,
{
    1
}

/// Default `getRead` of `GET /items`: read items are included.
pub fn default_get_read() -> (res: bool)
    ensures
        res,
{
    true
}

/// The filters of one item query, as `GET /items` and `GET /items/updated` pass them.
#[derive(Clone, Copy, Debug, PartialEq, Eq)]
pub struct QueryItemsInput {
    /// `0` feed, `1` folder, `2` starred, `3` all.
    pub selection_type: i64,
    pub selection_id: i64,
    pub get_read: bool,
    pub oldest_first: bool,
    /// Items modified at or after this time; `0` or less means no bound.
    pub last_modified: i64,
    /// Items with an id up to this one; `0` or less means no bound.
    pub newest_item_id: i64,
    /// At most this many items; `0` or less means no limit.
    pub batch_size: i64,
}

impl QueryItemsInput {
    /// The query of `GET /items`: its `offset` parameter bounds the newest item id.
    pub fn for_items(
        batch_size: i64,
        offset: i64,
        selection_type: i64,
        id: i64,
        get_read: bool,
        oldest_first: bool,
        last_modified: i64,
    ) -> (res: QueryItemsInput)
        ensures
            res == (QueryItemsInput {
                selection_type,
                selection_id: id,
                get_read,
                oldest_first,
                last_modified,
                newest_item_id: offset,
                batch_size,
            }),
    {
        QueryItemsInput {
            selection_type,
            selection_id: id,
            get_read,
            oldest_first,
            last_modified,
            newest_item_id: offset,
            batch_size,
        }
    }

    /// The query of `GET /items/updated`: everything modified since `last_modified`, newest first.
    pub fn for_updated_items(last_modified: i64, selection_type: i64, id: i64) -> (res:
        QueryItemsInput)
        ensures
            res == (QueryItemsInput {
                selection_type,
                selection_id: id,
                get_read: true,
                oldest_first: false,
                last_modified,
                newest_item_id: 0,
                batch_size: -1i64,
            }),
    {
        QueryItemsInput {
            selection_type,
            selection_id: id,
            get_read: true,
            oldest_first: false,
            last_modified,
            newest_item_id: 0,
            batch_size: -1,
        }
    }
}

/// A parameterised SQL statement: its text with `?` placeholders, and the values bound to them
/// in order.
#[derive(Clone, Debug, PartialEq, Eq)]
pub struct SqlQuery {
    pub text: String,
    pub binds: Vec<i64>,
}

/// The selected columns of an item query.
pub open spec fn items_select_sql() -> Seq<char> {
    "SELECT article.id, article.title, article.content, article.author, article.content_hash, article.enclosure_link, article.enclosure_mime, article.feed_id, article.fingerprint, article.guid, article.guid_hash, article.last_modified, article.media_description, article.media_thumbnail, article.pub_date, article.rtl, article.starred, article.unread, article.updated_date, article.url, article.summary FROM article"@
}

/// The selection part of an item query: its text and bound values, or `None` for an unknown
/// selection type.
pub open spec fn selection_sql(selection_type: i64, selection_id: i64) -> Option<(Seq<char>, Seq<i64>)> {
    if selection_type == 0 {
        Some((" WHERE 1=1"@ + " AND article.feed_id = ?"@, seq![selection_id]))
    } else if selection_type == 1 {
        Some((" JOIN feed ON feed.id = article.feed_id"@ + " WHERE 1=1"@ + " AND feed.folder_id = ?"@, seq![selection_id]))
    } else if selection_type == 2 {
        Some((" WHERE 1=1"@ + " AND article.starred = 1"@, Seq::empty()))
    } else if selection_type == 3 {
        Some((" WHERE 1=1"@, Seq::empty()))
    } else {
        None
    }
}

/// The filter, order and limit part of an item query.
pub open spec fn filter_sql(input: QueryItemsInput) -> (Seq<char>, Seq<i64>) {
    let unread = if !input.get_read { " AND article.unread = 1"@ } else { Seq::empty() };
    let newest: (Seq<char>, Seq<i64>) = if input.newest_item_id > 0 {
        (" AND article.id <= ?"@, seq![input.newest_item_id])
    } else {
        (Seq::empty(), Seq::empty())
    };
    let modified: (Seq<char>, Seq<i64>) = if input.last_modified > 0 {
        (" AND article.last_modified >= ?"@, seq![input.last_modified])
    } else {
        (Seq::empty(), Seq::empty())
    };
    let order = " ORDER BY article.id "@ + if input.oldest_first { "ASC"@ } else { "DESC"@ };
    let limit: (Seq<char>, Seq<i64>) = if input.batch_size > 0 {
        (" LIMIT ?"@, seq![input.batch_size])
    } else {
        (Seq::empty(), Seq::empty())
    };
    (unread + newest.0 + modified.0 + order + limit.0, newest.1 + modified.1 + limit.1)
}

/// The SQL of an item query, or `None` for an unknown selection type.
pub open spec fn items_sql(input: QueryItemsInput) -> Option<(Seq<char>, Seq<i64>)> {
    match selection_sql(input.selection_type, input.selection_id) {
        None => None,
        Some((sel, sel_binds)) => {
            let (rest, rest_binds) = filter_sql(input);
            Some((items_select_sql() + sel + rest, sel_binds + rest_binds))
        },
    }
}

fn selection_part(selection_type: i64, selection_id: i64) -> (res: Option<(String, Vec<i64>)>)
    ensures
        match selection_sql(selection_type, selection_id) {
            Some((text, binds)) => res matches Some((t, b)) && t@ == text && b@ == binds,
            None => res is None,
        },
{
    let mut binds: Vec<i64> = Vec::new();
    if selection_type == 0 {
        let mut text = String::from_str(" WHERE 1=1");
        text.append(" AND article.feed_id = ?");
        binds.push(selection_id);
        assert(binds@ =~= seq![selection_id]);
        Some((text, binds))
    } else if selection_type == 1 {
        let mut text = String::from_str(" JOIN feed ON feed.id = article.feed_id");
        text.append(" WHERE 1=1");
        text.append(" AND feed.folder_id = ?");
        binds.push(selection_id);
        assert(binds@ =~= seq![selection_id]);
        Some((text, binds))
    } else if selection_type == 2 {
        let mut text = String::from_str(" WHERE 1=1");
        text.append(" AND article.starred = 1");
        Some((text, binds))
    } else if selection_type == 3 {
        Some((String::from_str(" WHERE 1=1"), binds))
    } else {
        None
    }
}

fn bounded_part(clause: &str, value: i64) -> (res: (String, Vec<i64>))
    ensures
        value > 0 ==> res.0@ == clause@ && res.1@ == seq![value],
        value <= 0 ==> res.0@ == Seq::<char>::empty() && res.1@ == Seq::<i64>::empty(),
{
    let mut binds: Vec<i64> = Vec::new();
    if value > 0 {
        binds.push(value);
        assert(binds@ =~= seq![value]);
        (String::from_str(clause), binds)
    } else {
        (String::new(), binds)
    }
}

fn filter_part(input: QueryItemsInput) -> (res: (String, Vec<i64>))
    ensures
        res.0@ == filter_sql(input).0,
        res.1@ == filter_sql(input).1,
{
    let mut text = if !input.get_read {
        String::from_str(" AND article.unread = 1")
    } else {
        String::new()
    };
    let (newest_text, mut binds) = bounded_part(" AND article.id <= ?", input.newest_item_id);
    let (modified_text, mut modified_binds) = bounded_part(
        " AND article.last_modified >= ?",
        input.last_modified,
    );
    let (limit_text, mut limit_binds) = bounded_part(" LIMIT ?", input.batch_size);
    text.append(newest_text.as_str());
    text.append(modified_text.as_str());
    text.append(" ORDER BY article.id ");
    if input.oldest_first {
        text.append("ASC");
    } else {
        text.append("DESC");
    }
    text.append(limit_text.as_str());
    binds.append(&mut modified_binds);
    binds.append(&mut limit_binds);
    let ghost f = filter_sql(input);
    assert(text@ =~= f.0);
    assert(binds@ =~= f.1);
    (text, binds)
}

/// Builds the SQL that lists items: feed (`0`), folder (`1`), starred (`2`) or all (`3`) items,
/// optionally only unread ones, up to a newest item id, modified since a time, ordered by id and
/// limited in number. Any other selection type is refused with `400 Invalid item selection type`.
pub fn build_items_query(input: QueryItemsInput) -> (res: Result<SqlQuery, ApiError>)
    ensures
        match items_sql(input) {
            Some((text, binds)) => res matches Ok(q) && q.text@ == text && q.binds@ == binds,
            None => res == Err::<SqlQuery, ApiError>(ApiError::InvalidSelectionType),
        },
{
    let (sel_text, mut binds) = match selection_part(input.selection_type, input.selection_id) {
        Some(part) => part,
        None => return Err(ApiError::InvalidSelectionType),
    };
    let (filter_text, mut filter_binds) = filter_part(input);
    let mut text = String::from_str("SELECT article.id, article.title, article.content, article.author, article.content_hash, article.enclosure_link, article.enclosure_mime, article.feed_id, article.fingerprint, article.guid, article.guid_hash, article.last_modified, article.media_description, article.media_thumbnail, article.pub_date, article.rtl, article.starred, article.unread, article.updated_date, article.url, article.summary FROM article");
    text.append(sel_text.as_str());
    text.append(filter_text.as_str());
    binds.append(&mut filter_binds);
    Ok(SqlQuery { text, binds })
}

/// `p` occurs in `s`.
pub open spec fn contains_text(s: Seq<char>, p: Seq<char>) -> bool {
    exists|k: int| 0 <= k && k + p.len() <= s.len() && #[trigger] s.subrange(k, k + p.len()) == p
}

/// With `getRead=false`, every item query of a known selection type (feed, folder, starred or
/// all items) filters on unread items: the filter does not depend on the selection.
pub proof fn law_unread_filter_for_every_selection(input: QueryItemsInput)
    requires
        !input.get_read,
        0 <= input.selection_type <= 3,
    ensures
        items_sql(input) matches Some((text, _)) && contains_text(text, " AND article.unread = 1"@),
{
    let sel = selection_sql(input.selection_type, input.selection_id).unwrap().0;
    let rest = filter_sql(input).0;
    let text = items_select_sql() + sel + rest;
    let p = " AND article.unread = 1"@;
    let k: int = (items_select_sql().len() + sel.len()) as int;
    assert(rest.subrange(0, p.len() as int) =~= p);
    assert(text.subrange(k, k + p.len()) =~= rest.subrange(0, p.len() as int));
    assert(items_sql(input) == Some((text, selection_sql(input.selection_type, input.selection_id).unwrap().1 + filter_sql(input).1)));
}

/// `getRead` only adds or leaves out the unread filter: the query without read items is the
/// query with them, with ` AND article.unread = 1` inserted right after the selection, and with
/// the same bound values.
pub proof fn law_get_read_only_toggles_the_unread_filter(input: QueryItemsInput)
    requires
        0 <= input.selection_type <= 3,
    ensures
        ({
            let all = QueryItemsInput { get_read: true, ..input };
            let unread_only = QueryItemsInput { get_read: false, ..input };
            let at = (items_select_sql() + selection_sql(
                input.selection_type,
                input.selection_id,
            ).unwrap().0).len() as int;
            &&& items_sql(all) is Some
            &&& items_sql(unread_only) is Some
            &&& items_sql(unread_only).unwrap().0 == items_sql(all).unwrap().0.take(at)
                + " AND article.unread = 1"@ + items_sql(all).unwrap().0.skip(at)
            &&& items_sql(unread_only).unwrap().1 == items_sql(all).unwrap().1
        }),
{
    let all = QueryItemsInput { get_read: true, ..input };
    let unread_only = QueryItemsInput { get_read: false, ..input };
    let head = items_select_sql() + selection_sql(input.selection_type, input.selection_id).unwrap().0;
    let ta = items_sql(all).unwrap().0;
    let tu = items_sql(unread_only).unwrap().0;
    assert(ta =~= head + filter_sql(all).0);
    assert(tu =~= head + filter_sql(unread_only).0);
    assert(filter_sql(unread_only).0 =~= " AND article.unread = 1"@ + filter_sql(all).0);
    assert(ta.take(head.len() as int) =~= head);
    assert(ta.skip(head.len() as int) =~= filter_sql(all).0);
    assert(tu =~= ta.take(head.len() as int) + " AND article.unread = 1"@ + ta.skip(
        head.len() as int,
    ));
}

/// An article row as stored.
#[derive(Clone, Debug, PartialEq, Eq)]
pub struct ItemRow {
    pub id: i64,
    pub title: Option<String>,
    pub content: Option<String>,
    pub author: Option<String>,
    pub content_hash: Option<String>,
    pub enclosure_link: Option<String>,
    pub enclosure_mime: Option<String>,
    pub feed_id: i64,
    pub fingerprint: Option<String>,
    pub guid: String,
    pub guid_hash: String,
    pub last_modified: i64,
    pub media_description: Option<String>,
    pub media_thumbnail: Option<String>,
    pub pub_date: Option<i64>,
    pub rtl: bool,
    pub starred: bool,
    pub unread: bool,
    pub updated_date: Option<i64>,
    pub url: Option<String>,
    pub summary: Option<String>,
}

/// An item as the API returns it.
#[derive(Clone, Debug, PartialEq, Eq)]
pub struct ItemOut {
    pub id: i64,
    pub title: Option<String>,
    pub author: Option<String>,
    pub body: Option<String>,
    pub content_hash: Option<String>,
    pub enclosure_link: Option<String>,
    pub enclosure_mime: Option<String>,
    pub feed_id: i64,
    pub fingerprint: Option<String>,
    pub guid: String,
    pub guid_hash: String,
    pub last_modified: i64,
    pub media_description: Option<String>,
    pub media_thumbnail: Option<String>,
    pub pub_date: Option<i64>,
    pub rtl: bool,
    pub starred: bool,
    pub unread: bool,
    pub updated_date: Option<i64>,
    pub url: Option<String>,
}

/// The item `body`: the summary when there is one, else the content.
pub open spec fn item_body(summary: Option<String>, content: Option<String>) -> Option<String> {
    match summary {
        Some(s) => Some(s),
        None => content,
    }
}

/// Converts a stored row to the API item: every field is kept, and `body` prefers the summary
/// over the content.
pub fn item_row_to_out(item: ItemRow) -> (res: ItemOut)
    ensures
        res == (ItemOut {
            id: item.id,
            title: item.title,
            author: item.author,
            body: item_body(item.summary, item.content),
            content_hash: item.content_hash,
            enclosure_link: item.enclosure_link,
            enclosure_mime: item.enclosure_mime,
            feed_id: item.feed_id,
            fingerprint: item.fingerprint,
            guid: item.guid,
            guid_hash: item.guid_hash,
            last_modified: item.last_modified,
            media_description: item.media_description,
            media_thumbnail: item.media_thumbnail,
            pub_date: item.pub_date,
            rtl: item.rtl,
            starred: item.starred,
            unread: item.unread,
            updated_date: item.updated_date,
            url: item.url,
        }),
{
    let body = match item.summary {
        Some(s) => Some(s),
        None => item.content,
    };
    ItemOut {
        id: item.id,
        title: item.title,
        author: item.author,
        body,
        content_hash: item.content_hash,
        enclosure_link: item.enclosure_link,
        enclosure_mime: item.enclosure_mime,
        feed_id: item.feed_id,
        fingerprint: item.fingerprint,
        guid: item.guid,
        guid_hash: item.guid_hash,
        last_modified: item.last_modified,
        media_description: item.media_description,
        media_thumbnail: item.media_thumbnail,
        pub_date: item.pub_date,
        rtl: item.rtl,
        starred: item.starred,
        unread: item.unread,
        updated_date: item.updated_date,
        url: item.url,
    }
}

// ---------------------------------------------------------------------------------------------
// State changes

/// Whether a state change needs at least one of its items to exist.
#[derive(Clone, Copy, Debug, PartialEq, Eq)]
pub enum MissingBehavior {
    /// Single-item routes: `404 Item not found` when none of the ids exists.
    RequireExisting,
    /// Multiple-item routes: ids that do not exist are ignored.
    AllowEmptyInput,
}

/// The item flag a state change sets.
#[derive(Clone, Copy, Debug, PartialEq, Eq)]
pub enum MutationField {
    Unread,
    Starred,
}

/// Setting the unread or starred flag of items to a value.
#[derive(Clone, Copy, Debug, PartialEq, Eq)]
pub struct ItemMutation {
    pub field: MutationField,
    pub value: bool,
}

/// The column a flag is stored in.
pub open spec fn column_of(field: MutationField) -> Seq<char> {
    match field {
        MutationField::Unread => "unread"@,
        MutationField::Starred => "starred"@,
    }
}

impl ItemMutation {
    /// Marks items unread (`true`) or read (`false`).
    pub fn unread(unread: bool) -> (res: Self)
        ensures
            res == (ItemMutation { field: MutationField::Unread, value: unread }),
    {
        Self { field: MutationField::Unread, value: unread }
    }

    /// Stars (`true`) or unstars (`false`) items.
    pub fn starred(starred: bool) -> (res: Self)
        ensures
            res == (ItemMutation { field: MutationField::Starred, value: starred }),
    {
        Self { field: MutationField::Starred, value: starred }
    }

    /// The column this change writes.
    pub fn column_name(&self) -> (res: &'static str)
        ensures
            res@ == column_of(self.field),
    {
        match self.field {
            MutationField::Unread => "unread",
            MutationField::Starred => "starred",
        }
    }
}

/// `?, ?, ..., ?` with `n` placeholders.
pub open spec fn placeholders(n: nat) -> Seq<char>
    decreases n,
{
    if n == 0 {
        Seq::empty()
    } else if n == 1 {
        "?"@
    } else {
        placeholders((n - 1) as nat) + ", ?"@
    }
}

fn placeholder_list(n: usize) -> (res: String)
    ensures
        res@ == placeholders(n as nat),
{
    let mut text = String::new();
    let mut k: usize = 0;
    while k < n
        invariant
            k <= n,
            text@ == placeholders(k as nat),
        decreases n - k,
    {
        if k == 0 {
            text.append("?");
        } else {
            text.append(", ?");
        }
        k = k + 1;
    }
    text
}

/// The SQL that counts how many of the given items exist.
pub open spec fn existing_items_sql(ids: Seq<i64>) -> (Seq<char>, Seq<i64>) {
    ("SELECT COUNT(*) FROM article WHERE id IN ("@ + placeholders(ids.len()) + ")"@, ids)
}

/// The SQL that sets a flag on the given items and stamps their modification time.
pub open spec fn mark_items_sql(mutation: ItemMutation, ids: Seq<i64>) -> (Seq<char>, Seq<i64>) {
    (
        "UPDATE article SET "@ + column_of(mutation.field) + " = ?"@
            + ", last_modified = CAST(strftime('%s','now') AS INTEGER) WHERE id IN ("@
            + placeholders(ids.len()) + ")"@,
        seq![if mutation.value { 1i64 } else { 0i64 }] + ids,
    )
}

/// Builds the SQL that counts how many of `item_ids` exist.
pub fn build_existing_items_query(item_ids: &[i64]) -> (res: SqlQuery)
    ensures
        res.text@ == existing_items_sql(item_ids@).0,
        res.binds@ == existing_items_sql(item_ids@).1,
{
    let mut text = String::from_str("SELECT COUNT(*) FROM article WHERE id IN (");
    text.append(placeholder_list(item_ids.len()).as_str());
    text.append(")");
    let mut binds: Vec<i64> = Vec::new();
    let mut k: usize = 0;
    while k < item_ids.len()
        invariant
            k <= item_ids.len(),
            binds@ == item_ids@.take(k as int),
        decreases item_ids.len() - k,
    {
        binds.push(item_ids[k]);
        k = k + 1;
        assert(binds@ =~= item_ids@.take(k as int));
    }
    assert(item_ids@.take(item_ids.len() as int) =~= item_ids@);
    SqlQuery { text, binds }
}

/// Builds the SQL that applies `mutation` to `item_ids` and bumps their `last_modified`.
pub fn build_mark_items_query(mutation: ItemMutation, item_ids: &[i64]) -> (res: SqlQuery)
    ensures
        res.text@ == mark_items_sql(mutation, item_ids@).0,
        res.binds@ == mark_items_sql(mutation, item_ids@).1,
{
    let mut text = String::from_str("UPDATE article SET ");
    text.append(mutation.column_name());
    text.append(" = ?");
    text.append(", last_modified = CAST(strftime('%s','now') AS INTEGER) WHERE id IN (");
    text.append(placeholder_list(item_ids.len()).as_str());
    text.append(")");
    let mut binds: Vec<i64> = Vec::new();
    binds.push(if mutation.value { 1 } else { 0 });
    let mut k: usize = 0;
    while k < item_ids.len()
        invariant
            k <= item_ids.len(),
            binds@ == seq![if mutation.value { 1i64 } else { 0i64 }] + item_ids@.take(k as int),
        decreases item_ids.len() - k,
    {
        binds.push(item_ids[k]);
        k = k + 1;
        assert(binds@ =~= seq![if mutation.value { 1i64 } else { 0i64 }] + item_ids@.take(k as int));
    }
    assert(item_ids@.take(item_ids.len() as int) =~= item_ids@);
    SqlQuery { text, binds }
}

/// The steps of a state change on a list of items.
#[derive(Clone, Copy, Debug, PartialEq, Eq)]
pub enum MarkPlan {
    /// No ids: succeed without touching the store.
    Nothing,
    /// Count the existing ids first, then update.
    CheckThenUpdate,
    /// Update directly.
    Update,
}

/// Plans a state change: an empty id list succeeds at once; single-item routes first check that
/// some of the ids exist.
pub fn plan_mark(item_count: usize, missing_behavior: MissingBehavior) -> (res: MarkPlan)
    ensures
        item_count == 0 ==> res == MarkPlan::Nothing,
        item_count > 0 && missing_behavior == MissingBehavior::RequireExisting ==> res
            == MarkPlan::CheckThenUpdate,
        item_count > 0 && missing_behavior == MissingBehavior::AllowEmptyInput ==> res
            == MarkPlan::Update,
{
    if item_count == 0 {
        MarkPlan::Nothing
    } else {
        match missing_behavior {
            MissingBehavior::RequireExisting => MarkPlan::CheckThenUpdate,
            MissingBehavior::AllowEmptyInput => MarkPlan::Update,
        }
    }
}

/// The verdict of the existence check: `404 Item not found` exactly when none of the ids exists.
pub fn existing_items_verdict(existing_count: i64) -> (res: Result<(), ApiError>)
    ensures
        existing_count == 0 ==> res == Err::<(), ApiError>(ApiError::ItemNotFound),
        existing_count != 0 ==> res is Ok,
{
    if existing_count == 0 {
        Err(ApiError::ItemNotFound)
    } else {
        Ok(())
    }
}

/// The article found for a `{feedId, guidHash}` pair, or `404 Item not found`.
pub fn article_id_or_not_found(found: Option<i64>) -> (res: Result<i64, ApiError>)
    ensures
        match found {
            Some(id) => res == Ok::<i64, ApiError>(id),
            None => res == Err::<i64, ApiError>(ApiError::ItemNotFound),
        },
{
    match found {
        Some(id) => Ok(id),
        None => Err(ApiError::ItemNotFound),
    }
}

/// Refuses requests naming more `{feedId, guidHash}` pairs than the service handles at once,
/// with `400` and the count, before any article is looked up.
pub fn check_guid_item_count(count: usize) -> (res: Result<(), ApiError>)
    ensures
        count > MAX_GUID_ITEMS_PER_REQUEST ==> res == Err::<(), ApiError>(
            ApiError::TooManyItems(count as u64),
        ),
        count <= MAX_GUID_ITEMS_PER_REQUEST ==> res is Ok,
{
    if count > MAX_GUID_ITEMS_PER_REQUEST {
        Err(ApiError::TooManyItems(count as u64))
    } else {
        Ok(())
    }
}

} // verus!
