//! Feed documents, article records built from their entries, and article identity.

use vstd::prelude::*;

use crate::text::opt_chars;

verus! {

/// One entry of a parsed feed, holding what the service reads from it.
#[derive(Clone, Debug, PartialEq, Eq)]
pub struct FeedEntry {
    pub id: String,
    /// The first link of the entry.
    pub link: Option<String>,
    pub title: Option<String>,
    /// The body of the entry's content element.
    pub content: Option<String>,
    pub summary: Option<String>,
    /// The name of the entry's first author.
    pub author: Option<String>,
    /// Unix timestamps in seconds.
    pub updated: Option<i64>,
    pub published: Option<i64>,
}

/// An entry as plain values: link, title, content, summary, author, updated and published time,
/// and the id of an entry with a link (absent for an entry without one).
pub type EntryView = (
    Option<Seq<char>>,
    Option<Seq<char>>,
    Option<Seq<char>>,
    Option<Seq<char>>,
    Option<Seq<char>>,
    Option<i64>,
    Option<i64>,
    Option<Seq<char>>,
);

/// A feed as plain values: title, first link and entries.
pub type FeedView = (Option<Seq<char>>, Option<Seq<char>>, Seq<EntryView>);

impl FeedEntry {
    /// The entry's fields; its id only when it has a link. The parser keeps an id the document
    /// gives and otherwise hashes the first link and the title, so for an entry with a link the
    /// id depends on the document alone; without a link a missing id becomes a random UUID.
    pub open spec fn parsed_view(self) -> EntryView {
        (
            opt_chars(self.link),
            opt_chars(self.title),
            opt_chars(self.content),
            opt_chars(self.summary),
            opt_chars(self.author),
            self.updated,
            self.published,
            if self.link is Some {
                Some(self.id@)
            } else {
                None
            },
        )
    }
}

/// A parsed feed document.
#[derive(Clone, Debug, PartialEq, Eq)]
pub struct ParsedFeed {
    pub title: Option<String>,
    /// The first link of the feed.
    pub link: Option<String>,
    pub entries: Vec<FeedEntry>,
}

impl ParsedFeed {
    /// The feed's fields, with the entries' views.
    pub open spec fn parsed_view(self) -> FeedView {
        (
            opt_chars(self.title),
            opt_chars(self.link),
            self.entries@.map_values(|e: FeedEntry| e.parsed_view()),
        )
    }
}

/// What `feed_rs::parser::parse` makes of a document, apart from the random ids it invents for
/// entries with neither id nor link: the feed, or the text of the parse error.
pub uninterp spec fn parsed_feed(document: Seq<u8>) -> Result<FeedView, Seq<char>>;

#[verifier::external_type_specification]
#[verifier::external_body]
pub struct ExFeedRsEntry(feed_rs::model::Entry);

/// Reads the fields the service uses from a `feed_rs` entry; a field-by-field conversion.
#[verifier::external_body]
fn entry_record(entry: &feed_rs::model::Entry) -> FeedEntry {
    FeedEntry {
        id: entry.id.clone(),
        link: entry.links.first().map(|l| l.href.clone()),
        title: entry.title.as_ref().map(|t| t.content.clone()),
        content: entry.content.as_ref().and_then(|c| c.body.clone()),
        summary: entry.summary.as_ref().map(|s| s.content.clone()),
        author: entry.authors.first().map(|a| a.name.clone()),
        updated: entry.updated.map(|d| d.timestamp()),
        published: entry.published.map(|d| d.timestamp()),
    }
}

/// Parses an RSS, Atom or JSON feed document with `feed_rs::parser::parse`. The contract names
/// the result, including the id of every entry with a link; every id is non-empty, but an
/// entry with neither id nor link gets a random UUID, which the name leaves out.
#[verifier::external_body]
pub(crate) fn parse_feed(document: &[u8]) -> (res: Result<ParsedFeed, String>)
    ensures
        match res {
            Ok(feed) => {
                &&& parsed_feed(document@) == Ok::<FeedView, Seq<char>>(feed.parsed_view())
                &&& forall|i: int|
                    0 <= i < feed.entries@.len() ==> (#[trigger] feed.entries@[i]).id@.len() > 0
            },
            Err(message) => parsed_feed(document@) == Err::<FeedView, Seq<char>>(message@),
        },
{
    match feed_rs::parser::parse(document) {
        Ok(feed) => Ok(ParsedFeed {
            title: feed.title.map(|t| t.content),
            link: feed.links.first().map(|l| l.href.clone()),
            entries: feed.entries.iter().map(entry_record).collect(),
        }),
        Err(err) => Err(err.to_string()),
    }
}

/// Number of entries ingested from one fetch of a feed.
pub const MAX_ENTRIES_PER_FETCH: usize = 50;

/// How many of `entry_count` entries one fetch ingests: the first fifty.
pub fn entries_to_ingest(entry_count: usize) -> (res: usize)
    ensures
        res == if entry_count < MAX_ENTRIES_PER_FETCH {
            entry_count
        } else {
            MAX_ENTRIES_PER_FETCH
        },
{
    if entry_count < MAX_ENTRIES_PER_FETCH {
        entry_count
    } else {
        MAX_ENTRIES_PER_FETCH
    }
}

/// The number of entries a newly added feed seeds its article list with.
pub const MAX_ENTRIES_ON_CREATE: usize = 10;

/// How many of `entry_count` entries adding a feed imports: the first ten the document lists.
pub fn entries_to_seed(entry_count: usize) -> (res: usize)
    ensures
        res == if entry_count < MAX_ENTRIES_ON_CREATE {
            entry_count
        } else {
            MAX_ENTRIES_ON_CREATE
        },
{
    if entry_count < MAX_ENTRIES_ON_CREATE {
        entry_count
    } else {
        MAX_ENTRIES_ON_CREATE
    }
}

/// The guid of an entry: its id, or when that is empty its first link, or else its title.
pub open spec fn entry_guid(entry: FeedEntry) -> Option<Seq<char>> {
    if entry.id@.len() > 0 {
        Some(entry.id@)
    } else if entry.link is Some {
        opt_chars(entry.link)
    } else {
        opt_chars(entry.title)
    }
}

/// Returns the guid used for a feed entry, falling back to its link or title when it has no id.
pub fn guid_from_feed_entry(entry: &FeedEntry) -> (res: Option<String>)
    ensures
        opt_chars(res) == entry_guid(*entry),
{
    if entry.id.unicode_len() == 0 {
        match &entry.link {
            Some(link) => return Some(link.clone()),
            None => {},
        }
        return match &entry.title {
            Some(title) => Some(title.clone()),
            None => None,
        };
    }
    Some(entry.id.clone())
}

/// The lowercase hexadecimal MD5 digest of the UTF-8 bytes of a text.
pub uninterp spec fn md5_hex(text: Seq<char>) -> Seq<char>;

/// `format!("{:x}", md5::compute(text.as_bytes()))`: the contract names the digest text.
#[verifier::external_body]
pub(crate) fn md5_hex_of(text: &str) -> (res: String)
    ensures
        res@ == md5_hex(text@),
{
    format!("{:x}", md5::compute(text.as_bytes()))
}

/// Computes the MD5 guid hash used as the stable article de-duplication key.
pub fn guid_hash(guid: &str) -> (res: String)
    ensures
        res@ == md5_hex(guid@),
{
    md5_hex_of(guid)
}

/// A reading of the system clock.
#[verifier::external_type_specification]
#[verifier::external_body]
pub struct ExSystemTime(std::time::SystemTime);

/// `SystemTime::now`. The reading depends on the time; nothing is stated of it.
#[verifier::external_body]
fn clock_now() -> std::time::SystemTime {
    std::time::SystemTime::now()
}

/// `SystemTime::duration_since(UNIX_EPOCH)`, `None` for a reading before the epoch. Nothing is
/// stated of the duration, which only the clock determines.
#[verifier::external_body]
fn elapsed_since_epoch(reading: &std::time::SystemTime) -> Option<core::time::Duration> {
    reading.duration_since(std::time::UNIX_EPOCH).ok()
}

/// `Duration::as_secs`: the whole seconds of a duration. The duration is opaque here, so nothing
/// is stated of the result.
#[verifier::external_body]
fn whole_seconds(duration: &core::time::Duration) -> u64 {
    duration.as_secs()
}

/// The Unix time a clock reading stands for: the seconds as `i64`, or `0` without a reading.
pub fn unix_time_from(seconds: Option<u64>) -> (res: i64)
    ensures
        res == match seconds {
            Some(s) => s as i64,
            None => 0i64,
        },
{
    match seconds {
        Some(s) => s as i64,
        None => 0,
    }
}

/// Returns the current unix timestamp in seconds (`0` if the clock is before the epoch).
pub fn unix_now() -> (res: i64) {
    let seconds = match elapsed_since_epoch(&clock_now()) {
        Some(duration) => Some(whole_seconds(&duration)),
        None => None,
    };
    unix_time_from(seconds)
}

/// Content, summary, thumbnail and content hash of an article after enrichment.
#[derive(Clone, Debug, PartialEq, Eq)]
pub struct EnrichedArticleContent {
    pub content: Option<String>,
    pub summary: Option<String>,
    pub media_thumbnail: Option<String>,
    pub content_hash: Option<String>,
}

/// Internal representation used before persisting an article row.
#[derive(Clone, Debug, PartialEq, Eq)]
pub struct ArticleRecord {
    pub title: Option<String>,
    pub content: Option<String>,
    pub author: Option<String>,
    pub summary: Option<String>,
    pub content_hash: Option<String>,
    pub feed_id: i64,
    pub guid: String,
    pub guid_hash: String,
    pub last_modified: i64,
    pub media_thumbnail: Option<String>,
    pub pub_date: Option<i64>,
    pub updated_date: Option<i64>,
    pub url: Option<String>,
    pub starred: bool,
    pub unread: bool,
}

/// The update time of an entry: its own, or now when it has none.
pub open spec fn entry_updated(entry: FeedEntry, now_ts: i64) -> i64 {
    match entry.updated {
        Some(t) => t,
        None => now_ts,
    }
}

/// The publication time of an entry: its own, or its update time when it has none.
pub open spec fn entry_published(entry: FeedEntry, now_ts: i64) -> i64 {
    match entry.published {
        Some(t) => t,
        None => entry_updated(entry, now_ts),
    }
}

/// Entry `i` comes before entry `j` in freshness order: it was published later, or at the same
/// time and earlier in the document. Entries without dates count as published now.
pub open spec fn fresher(entries: Seq<FeedEntry>, now_ts: i64, i: usize, j: usize) -> bool {
    let ti = entry_published(entries[i as int], now_ts);
    let tj = entry_published(entries[j as int], now_ts);
    ti > tj || (ti == tj && i < j)
}

fn published_time(entry: &FeedEntry, now_ts: i64) -> (res: i64)
    ensures
        res == entry_published(*entry, now_ts),
{
    match entry.published {
        Some(t) => t,
        None => match entry.updated {
            Some(u) => u,
            None => now_ts,
        },
    }
}

fn is_fresher(entries: &[FeedEntry], now_ts: i64, i: usize, j: usize) -> (res: bool)
    requires
        i < entries@.len(),
        j < entries@.len(),
    ensures
        res == fresher(entries@, now_ts, i, j),
{
    let ti = published_time(&entries[i], now_ts);
    let tj = published_time(&entries[j], now_ts);
    ti > tj || (ti == tj && i < j)
}

/// The entries a newly added feed seeds its article list with: the indices of the ten freshest
/// entries (all of them when there are fewer), freshest first. Every chosen entry is fresher
/// than every entry left out.
pub fn freshest_entries(entries: &[FeedEntry], now_ts: i64) -> (res: Vec<usize>)
    ensures
        res@.len() == if entries@.len() < MAX_ENTRIES_ON_CREATE {
            entries@.len()
        } else {
            MAX_ENTRIES_ON_CREATE as nat
        },
        forall|a: int| 0 <= a < res@.len() ==> #[trigger] res@[a] < entries@.len(),
        forall|a: int, b: int|
            0 <= a < b < res@.len() ==> #[trigger] fresher(entries@, now_ts, res@[a], res@[b]),
        forall|a: int, j: usize|
            0 <= a < res@.len() && j < entries@.len() && !res@.contains(j) ==> #[trigger] fresher(
                entries@,
                now_ts,
                res@[a],
                j,
            ),
{
    let n = entries.len();
    let limit = entries_to_seed(n);
    let mut remaining: Vec<usize> = Vec::new();
    let mut i: usize = 0;
    while i < n
        invariant
            i <= n,
            remaining@ == Seq::new(i as nat, |k: int| k as usize),
        decreases n - i,
    {
        remaining.push(i);
        i = i + 1;
        assert(remaining@ =~= Seq::new(i as nat, |k: int| k as usize));
    }
    let mut chosen: Vec<usize> = Vec::new();
    proof {
        assert forall|j: usize| j < n implies remaining@.contains(j) by {
            assert(remaining@[j as int] == j);
        }
        assert forall|x: int, y: int|
            0 <= x < remaining@.len() && 0 <= y < remaining@.len() && x != y implies remaining@[x]
            != remaining@[y] by {
            assert(remaining@[x] == x as usize && remaining@[y] == y as usize);
        }
    }
    while chosen.len() < limit
        invariant
            n == entries@.len(),
            chosen@.len() <= limit,
            limit == if n < MAX_ENTRIES_ON_CREATE {
                n
            } else {
                MAX_ENTRIES_ON_CREATE
            },
            chosen@.len() + remaining@.len() == n,
            remaining@.no_duplicates(),
            forall|q: int| 0 <= q < remaining@.len() ==> #[trigger] remaining@[q] < n,
            forall|a: int| 0 <= a < chosen@.len() ==> #[trigger] chosen@[a] < n,
            forall|j: usize| j < n ==> (remaining@.contains(j) <==> !chosen@.contains(j)),
            forall|a: int, b: int|
                0 <= a < b < chosen@.len() ==> #[trigger] fresher(
                    entries@,
                    now_ts,
                    chosen@[a],
                    chosen@[b],
                ),
            forall|a: int, q: int|
                0 <= a < chosen@.len() && 0 <= q < remaining@.len() ==> #[trigger] fresher(
                    entries@,
                    now_ts,
                    chosen@[a],
                    remaining@[q],
                ),
        decreases limit - chosen@.len(),
    {
        let mut p: usize = 0;
        let mut q: usize = 1;
        while q < remaining.len()
            invariant
                n == entries@.len(),
                0 < remaining@.len(),
                p < remaining@.len(),
                p < q,
                q <= remaining@.len(),
                forall|k: int| 0 <= k < remaining@.len() ==> #[trigger] remaining@[k] < n,
                remaining@.no_duplicates(),
                forall|r: int|
                    0 <= r < q && r != p ==> #[trigger] fresher(
                        entries@,
                        now_ts,
                        remaining@[p as int],
                        remaining@[r],
                    ),
            decreases remaining@.len() - q,
        {
            let ghost old_p = p;
            assert(remaining@[q as int] != remaining@[p as int]);
            if is_fresher(entries, now_ts, remaining[q], remaining[p]) {
                p = q;
                assert forall|r: int| 0 <= r < q && r != p implies #[trigger] fresher(
                    entries@,
                    now_ts,
                    remaining@[p as int],
                    remaining@[r],
                ) by {
                    if r != old_p {
                        assert(fresher(entries@, now_ts, remaining@[old_p as int], remaining@[r]));
                    }
                }
            }
            q = q + 1;
        }
        let ghost old_remaining = remaining@;
        let ghost old_chosen = chosen@;
        let best = remaining.remove(p);
        chosen.push(best);
        proof {
            assert(remaining@ == old_remaining.remove(p as int));
            assert forall|x: int, y: int|
                0 <= x < remaining@.len() && 0 <= y < remaining@.len() && x != y implies remaining@[x]
                != remaining@[y] by {
                let ox = if x < p { x } else { x + 1 };
                let oy = if y < p { y } else { y + 1 };
                assert(remaining@[x] == old_remaining[ox]);
                assert(remaining@[y] == old_remaining[oy]);
            }
            assert forall|j: usize| j < n implies (remaining@.contains(j) <==> !chosen@.contains(j)) by {
                if remaining@.contains(j) {
                    let x = choose|x: int| 0 <= x < remaining@.len() && remaining@[x] == j;
                    let ox = if x < p { x } else { x + 1 };
                    assert(old_remaining[ox] == j);
                    assert(ox != p);
                    assert(old_remaining[p as int] != j);
                    assert(!old_chosen.contains(j));
                    if chosen@.contains(j) {
                        let a = choose|a: int| 0 <= a < chosen@.len() && chosen@[a] == j;
                        if a < old_chosen.len() {
                            assert(old_chosen[a] == j);
                        }
                    }
                } else {
                    if j == best {
                        assert(chosen@[chosen@.len() - 1] == j);
                    } else if old_remaining.contains(j) {
                        let ox = choose|ox: int| 0 <= ox < old_remaining.len() && old_remaining[ox] == j;
                        assert(ox != p);
                        let x = if ox < p { ox } else { ox - 1 };
                        assert(remaining@[x] == j);
                    } else {
                        assert(old_chosen.contains(j));
                        let a = choose|a: int| 0 <= a < old_chosen.len() && old_chosen[a] == j;
                        assert(chosen@[a] == j);
                    }
                }
            }
            assert forall|a: int, b: int| 0 <= a < b < chosen@.len() implies #[trigger] fresher(
                entries@,
                now_ts,
                chosen@[a],
                chosen@[b],
            ) by {
                if b == chosen@.len() - 1 {
                    assert(chosen@[b] == old_remaining[p as int]);
                    assert(fresher(entries@, now_ts, old_chosen[a], old_remaining[p as int]));
                } else {
                    assert(fresher(entries@, now_ts, old_chosen[a], old_chosen[b]));
                }
            }
            assert forall|a: int, r: int|
                0 <= a < chosen@.len() && 0 <= r < remaining@.len() implies #[trigger] fresher(
                entries@,
                now_ts,
                chosen@[a],
                remaining@[r],
            ) by {
                let o = if r < p { r } else { r + 1 };
                assert(remaining@[r] == old_remaining[o]);
                assert(o != p);
                if a == chosen@.len() - 1 {
                    assert(fresher(entries@, now_ts, old_remaining[p as int], old_remaining[o]));
                } else {
                    assert(fresher(entries@, now_ts, old_chosen[a], old_remaining[o]));
                }
            }
        }
    }
    proof {
        assert forall|a: int, j: usize|
            0 <= a < chosen@.len() && j < entries@.len() && !chosen@.contains(j) implies #[trigger] fresher(
            entries@,
            now_ts,
            chosen@[a],
            j,
        ) by {
            assert(remaining@.contains(j));
            let x = choose|x: int| 0 <= x < remaining@.len() && remaining@[x] == j;
            assert(fresher(entries@, now_ts, chosen@[a], remaining@[x]));
        }
    }
    chosen
}

/// Builds the article record of a feed entry from its enriched content: no record for an entry
/// without guid; otherwise a new, unread, unstarred article keyed by the MD5 of its guid, with
/// the entry's title, first link and first author, and timestamps defaulting to now.
pub fn article_record_from_feed_entry(
    feed_id: i64,
    entry: &FeedEntry,
    enriched: EnrichedArticleContent,
    now_ts: i64,
) -> (res: Option<ArticleRecord>)
    ensures
        entry_guid(*entry) is None <==> res is None,
        res matches Some(r) ==> {
            &&& r.guid@ == entry_guid(*entry)->0
            &&& r.guid_hash@ == md5_hex(r.guid@)
            &&& r.feed_id == feed_id
            &&& r.title == entry.title
            &&& r.url == entry.link
            &&& r.author == entry.author
            &&& r.content == enriched.content
            &&& r.summary == enriched.summary
            &&& r.content_hash == enriched.content_hash
            &&& r.media_thumbnail == enriched.media_thumbnail
            &&& r.last_modified == now_ts
            &&& r.updated_date == Some(entry_updated(*entry, now_ts))
            &&& r.pub_date == Some(entry_published(*entry, now_ts))
            &&& !r.starred
            &&& r.unread
        },
{
    let guid = match guid_from_feed_entry(entry) {
        Some(g) => g,
        None => return None,
    };
    let updated = match entry.updated {
        Some(t) => t,
        None => now_ts,
    };
    let published = match entry.published {
        Some(t) => t,
        None => updated,
    };
    let hash = guid_hash(guid.as_str());
    Some(ArticleRecord {
        title: entry.title.clone(),
        content: enriched.content,
        author: entry.author.clone(),
        summary: enriched.summary,
        content_hash: enriched.content_hash,
        feed_id,
        guid_hash: hash,
        guid,
        last_modified: now_ts,
        media_thumbnail: enriched.media_thumbnail,
        pub_date: Some(published),
        updated_date: Some(updated),
        url: entry.link.clone(),
        starred: false,
        unread: true,
    })
}

/// Entries with the same guid get the same de-duplication key, whatever else differs between
/// them, so the later one is refused as a duplicate.
pub proof fn law_same_guid_same_key(e1: FeedEntry, e2: FeedEntry)
    requires
        entry_guid(e1) is Some,
        entry_guid(e1) == entry_guid(e2),
    ensures
        md5_hex(entry_guid(e1)->0) == md5_hex(entry_guid(e2)->0),
{
}

/// An article keeps the entry's own dates: its publication date is the entry's publication time
/// whenever the entry has one, whatever its update time; without one it falls back to the update
/// time, and without either to now. The update date is the entry's update time, or now.
pub proof fn law_entry_dates_are_kept(entry: FeedEntry, now_ts: i64)
    ensures
        entry.published matches Some(p) ==> entry_published(entry, now_ts) == p,
        entry.published is None ==> (entry.updated matches Some(u) ==> entry_published(
            entry,
            now_ts,
        ) == u),
        entry.published is None && entry.updated is None ==> entry_published(entry, now_ts)
            == now_ts,
        entry.updated matches Some(u) ==> entry_updated(entry, now_ts) == u,
        entry.updated is None ==> entry_updated(entry, now_ts) == now_ts,
{
}

/// Outcome of attempting to persist an article by guid hash.
#[derive(Clone, Debug, PartialEq, Eq)]
pub enum InsertArticleOutcome {
    Inserted { guid_hash: String },
    Duplicate { guid_hash: String },
}

/// Decides an insertion: an article whose guid hash is already stored is a duplicate and is not
/// inserted again.
pub fn insert_outcome(guid_hash: String, existing_id: Option<i64>) -> (res: InsertArticleOutcome)
    ensures
        existing_id is Some ==> res == (InsertArticleOutcome::Duplicate { guid_hash }),
        existing_id is None ==> res == (InsertArticleOutcome::Inserted { guid_hash }),
{
    if existing_id.is_some() {
        InsertArticleOutcome::Duplicate { guid_hash }
    } else {
        InsertArticleOutcome::Inserted { guid_hash }
    }
}

} // verus!
