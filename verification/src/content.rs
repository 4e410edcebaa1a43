//! Content rules: text normalisation, thumbnails, full-text and summary decisions.

use vstd::prelude::*;

use crate::text::{
    char_count, chars_of, chars_start_with, opt_chars, take_chars, trim, trim_str,
    truncate_chars, starts_with, is_white_space, trim_start, trim_end,
};

verus! {

/// One day in seconds.
pub const ONE_DAY: i64 = 86_400;

/// The feed quality evaluation runs again once this much time has passed.
pub const ONE_MONTH: i64 = 30 * ONE_DAY;

/// Article text sent for summarisation is cut to this many characters.
pub const ARTICLE_MAX_CHARS: usize = 8_000;

/// Content shorter than this is its own summary; longer content is summarised or truncated.
pub const LLM_SUMMARY_MIN_CHARS: usize = 160;

/// The characters of an optional text slice.
pub open spec fn opt_str(o: Option<&str>) -> Option<Seq<char>> {
    match o {
        Some(s) => Some(s@),
        None => None,
    }
}

// ---------------------------------------------------------------------------------------------
// Regular expressions and case mapping

/// The position of the first `>` in `s`.
pub open spec fn first_gt(s: Seq<char>) -> Option<nat>
    decreases s.len(),
{
    if s.len() == 0 {
        None
    } else if s[0] == '>' {
        Some(0)
    } else {
        match first_gt(s.drop_first()) {
            Some(k) => Some(k + 1),
            None => None,
        }
    }
}

pub proof fn lemma_first_gt_in_bounds(s: Seq<char>)
    ensures
        first_gt(s) matches Some(k) ==> k < s.len(),
    decreases s.len(),
{
    if s.len() > 0 && s[0] != '>' {
        lemma_first_gt_in_bounds(s.drop_first());
    }
}

pub proof fn lemma_trim_start_shorter(s: Seq<char>)
    requires
        s.len() > 0,
        is_white_space(s[0]),
    ensures
        trim_start(s).len() < s.len(),
    decreases s.len(),
{
    let t = s.drop_first();
    assert(trim_start(s) == trim_start(t));
    if t.len() > 0 && is_white_space(t[0]) {
        lemma_trim_start_shorter(t);
    } else {
        assert(trim_start(t) == t);
    }
}

/// `text` with every match of the regular expression `<[^>]+>` replaced by a space: scanning
/// from the left, a `<` whose first following `>` is not right next to it starts a tag that
/// ends at that `>`.
pub open spec fn tags_replaced(text: Seq<char>) -> Seq<char>
    decreases text.len(),
{
    if text.len() == 0 {
        Seq::empty()
    } else {
        match first_gt(text.drop_first()) {
            Some(k) => if text[0] == '<' && k >= 1 {
                proof {
                    lemma_first_gt_in_bounds(text.drop_first());
                }
                seq![' '] + tags_replaced(text.skip(k + 2int))
            } else {
                seq![text[0]] + tags_replaced(text.drop_first())
            },
            None => seq![text[0]] + tags_replaced(text.drop_first()),
        }
    }
}

/// `text` with every run matched by the regular expression `\s+` (Unicode white space)
/// replaced by one space.
pub open spec fn whitespace_collapsed(text: Seq<char>) -> Seq<char>
    decreases text.len(),
{
    if text.len() == 0 {
        Seq::empty()
    } else if is_white_space(text[0]) {
        proof {
            lemma_trim_start_shorter(text);
        }
        seq![' '] + whitespace_collapsed(trim_start(text))
    } else {
        seq![text[0]] + whitespace_collapsed(text.drop_first())
    }
}

/// The first capture of `(?is)<img[^>]*\bsrc\s*=\s*["']([^"']+)["']` in `html`: the `src` of
/// the first image tag.
pub uninterp spec fn first_img_src(html: Seq<char>) -> Option<Seq<char>>;

/// `str::to_lowercase`: the Unicode lowercase mapping of a text.
pub uninterp spec fn unicode_lowercase(text: Seq<char>) -> Seq<char>;

/// Every character is ASCII.
pub open spec fn is_ascii_text(s: Seq<char>) -> bool {
    forall|i: int| 0 <= i < s.len() ==> (#[trigger] s[i]) as u32 <= 127
}

/// `A` to `Z` mapped to `a` to `z`; every other character kept.
pub open spec fn ascii_lower_char(c: char) -> char {
    if 65 <= c as u32 <= 90 {
        ((c as u32) + 32) as char
    } else {
        c
    }
}

/// ASCII lowercasing of a text.
pub open spec fn ascii_lowercase(s: Seq<char>) -> Seq<char> {
    s.map_values(|c: char| ascii_lower_char(c))
}

/// The lowercase form of a text: on ASCII text, the letters `A` to `Z` become `a` to `z`; on
/// other text, the Unicode mapping.
pub open spec fn lowercase(text: Seq<char>) -> Seq<char> {
    if is_ascii_text(text) {
        ascii_lowercase(text)
    } else {
        unicode_lowercase(text)
    }
}

/// `regex::Regex::replace_all` with the pattern `<[^>]+>` and a single space as replacement.
#[verifier::external_body]
fn replace_html_tags(text: &str) -> (res: String)
    ensures
        res@ == tags_replaced(text@),
{
    match regex::Regex::new(r"<[^>]+>") {
        Ok(re) => re.replace_all(text, " ").into_owned(),
        Err(_) => text.to_string(),
    }
}

/// `regex::Regex::replace_all` with the pattern `\s+` and a single space as replacement.
#[verifier::external_body]
fn collapse_whitespace(text: &str) -> (res: String)
    ensures
        res@ == whitespace_collapsed(text@),
{
    match regex::Regex::new(r"\s+") {
        Ok(re) => re.replace_all(text, " ").into_owned(),
        Err(_) => text.to_string(),
    }
}

/// `regex::Regex::captures` with the image pattern, reading the first capture group.
#[verifier::external_body]
fn capture_first_img_src(html: &str) -> (res: Option<String>)
    ensures
        opt_chars(res) == first_img_src(html@),
{
    match regex::Regex::new(r#"(?is)<img[^>]*\bsrc\s*=\s*[\"']([^\"']+)[\"']"#) {
        Ok(re) => re.captures(html).and_then(|c| c.get(1).map(|m| m.as_str().to_string())),
        Err(_) => None,
    }
}

/// `str::to_lowercase`. On ASCII text the Unicode lowercase mapping is the ASCII one (`A`-`Z`
/// to `a`-`z`, all else unchanged); other text gets the named mapping.
#[verifier::external_body]
fn to_lowercase(text: &str) -> (res: String)
    ensures
        is_ascii_text(text@) ==> res@ == ascii_lowercase(text@),
        !is_ascii_text(text@) ==> res@ == unicode_lowercase(text@),
{
    text.to_lowercase()
}

// ---------------------------------------------------------------------------------------------
// Text rules

/// HTML or plain text reduced for length comparisons: tags become spaces, white space runs
/// become one space, the ends are trimmed and the text is lowercased; absent text is empty.
pub open spec fn normalized(text: Option<Seq<char>>) -> Seq<char> {
    match text {
        None => Seq::empty(),
        Some(t) => lowercase(trim(whitespace_collapsed(tags_replaced(t)))),
    }
}

/// Readable text for prompts: like `normalized` but keeping the case.
pub open spec fn plain(text: Option<Seq<char>>) -> Seq<char> {
    match text {
        None => Seq::empty(),
        Some(t) => trim(whitespace_collapsed(tags_replaced(t))),
    }
}

/// The first image URL of optional HTML.
pub open spec fn first_image(html: Option<Seq<char>>) -> Option<Seq<char>> {
    match html {
        None => None,
        Some(h) => first_img_src(h),
    }
}

/// Extracts the first image source URL from HTML body content.
pub fn extract_first_image_url(html_content: Option<&str>) -> (res: Option<String>)
    ensures
        opt_chars(res) == first_image(opt_str(html_content)),
{
    match html_content {
        Some(html) => capture_first_img_src(html),
        None => None,
    }
}

/// Normalizes HTML or plain text for length-based quality comparisons.
pub fn normalize_text(text: Option<&str>) -> (res: String)
    ensures
        res@ == normalized(opt_str(text)),
{
    match text {
        None => String::new(),
        Some(t) => {
            let stripped = replace_html_tags(t);
            let collapsed = collapse_whitespace(stripped.as_str());
            let trimmed = trim_str(collapsed.as_str());
            to_lowercase(trimmed.as_str())
        },
    }
}

/// Removes HTML tags so LLM prompts operate on readable text instead of markup.
pub fn strip_html(text: &str) -> (res: String)
    ensures
        res@ == tags_replaced(text@),
{
    replace_html_tags(text)
}

/// Strips tags and collapses white space, keeping the case of the words.
pub fn plain_text(text: Option<&str>) -> (res: String)
    ensures
        res@ == plain(opt_str(text)),
{
    match text {
        None => String::new(),
        Some(t) => {
            let stripped = strip_html(t);
            let collapsed = collapse_whitespace(stripped.as_str());
            trim_str(collapsed.as_str())
        },
    }
}

/// Extracted text is preferred when it is not empty and, once normalised, at least twice as
/// long as the feed-provided text.
pub open spec fn extracted_preferred(extracted: Option<Seq<char>>, feed_content: Option<Seq<char>>) -> bool {
    normalized(extracted).len() > 0 && normalized(extracted).len() >= 2 * normalized(
        feed_content,
    ).len()
}

/// Compares extracted article text against feed-provided text to decide which is richer.
pub fn is_extracted_content_preferred(
    extracted_text: Option<&str>,
    feed_content: Option<&str>,
) -> (res: bool)
    ensures
        res == extracted_preferred(opt_str(extracted_text), opt_str(feed_content)),
{
    let extracted_length = char_count(normalize_text(extracted_text).as_str());
    if extracted_length == 0 {
        return false;
    }
    let feed_length = char_count(normalize_text(feed_content).as_str());
    extracted_length as u128 >= 2 * (feed_length as u128)
}

/// The summary stored for content without one: short content is its own summary; long content
/// gets the LLM summary when LLM summaries are wanted, enabled and available, else its first 160
/// characters followed by `...`.
pub open spec fn missing_summary(
    content: Seq<char>,
    use_llm_summary: bool,
    llm_enabled: bool,
    llm_summary: Option<Seq<char>>,
) -> Seq<char> {
    if content.len() < LLM_SUMMARY_MIN_CHARS {
        content
    } else if use_llm_summary && llm_enabled && llm_summary is Some {
        llm_summary->0
    } else {
        take_chars(content, LLM_SUMMARY_MIN_CHARS as int) + "..."@
    }
}

/// Builds a fallback summary when feed content lacks a dedicated summary field.
pub fn build_missing_summary(
    content: &str,
    use_llm_summary: bool,
    llm_enabled: bool,
    llm_summary: Option<String>,
) -> (res: Option<String>)
    ensures
        res matches Some(s) && s@ == missing_summary(
            content@,
            use_llm_summary,
            llm_enabled,
            opt_chars(llm_summary),
        ),
{
    if char_count(content) < LLM_SUMMARY_MIN_CHARS {
        return Some(String::from_str(content));
    }
    if use_llm_summary && llm_enabled {
        if let Some(summary) = llm_summary {
            return Some(summary);
        }
    }
    let mut truncated = truncate_chars(content, LLM_SUMMARY_MIN_CHARS);
    truncated.append("...");
    Some(truncated)
}

/// The heuristic for LLM summaries: wanted when the feed has no summary, not when the article
/// text is empty, and otherwise when the normalised summary is a proper prefix of the normalised
/// article text (a lead-in rather than a summary).
pub open spec fn llm_summary_heuristic(
    feed_summary: Option<Seq<char>>,
    final_article_text: Option<Seq<char>>,
) -> bool {
    let s = normalized(feed_summary);
    let a = normalized(final_article_text);
    if s.len() == 0 {
        true
    } else if a.len() == 0 {
        false
    } else {
        a.len() > s.len() && starts_with(a, s)
    }
}

/// Decides without an LLM whether the feed summary should be replaced by a generated one.
pub fn should_enable_llm_summary_by_heuristic(
    feed_summary: Option<&str>,
    final_article_text: Option<&str>,
) -> (res: bool)
    ensures
        res == llm_summary_heuristic(opt_str(feed_summary), opt_str(final_article_text)),
{
    let normalized_summary = normalize_text(feed_summary);
    let summary_chars = chars_of(normalized_summary.as_str());
    if summary_chars.len() == 0 {
        return true;
    }
    let normalized_article = normalize_text(final_article_text);
    let article_chars = chars_of(normalized_article.as_str());
    if article_chars.len() == 0 {
        return false;
    }
    article_chars.len() > summary_chars.len() && chars_start_with(
        article_chars.as_slice(),
        summary_chars.as_slice(),
    )
}

/// The feed quality evaluation is due when it never ran or last ran more than a month ago.
pub open spec fn quality_check_due(last_quality_check: Option<i64>, now_ts: i64) -> bool {
    match last_quality_check {
        None => true,
        Some(last) => now_ts - last > ONE_MONTH,
    }
}

/// Returns whether the monthly feed-quality evaluation window has elapsed at `now_ts`.
pub fn needs_quality_check(last_quality_check: Option<i64>, now_ts: i64) -> (res: bool)
    ensures
        res == quality_check_due(last_quality_check, now_ts),
{
    match last_quality_check {
        None => true,
        Some(last) => (now_ts as i128) - (last as i128) > ONE_MONTH as i128,
    }
}

// ---------------------------------------------------------------------------------------------
// Full-text extraction

/// A Mozilla Readability parser instance.
#[verifier::external_type_specification]
#[verifier::external_body]
pub struct ExReadability(readability_js::Readability);

/// The `content` of the article Readability extracts from `html`, read against `base_url`
/// (`parse_with_url`), as the parser returns it, or `None` when extraction fails.
pub uninterp spec fn readability_with_url(html: Seq<char>, base_url: Seq<char>) -> Option<Seq<char>>;

/// The `content` of the article Readability extracts from `html` without a base URL (`parse`),
/// or `None` when extraction fails.
pub uninterp spec fn readability_plain(html: Seq<char>) -> Option<Seq<char>>;

/// `readability_js::Readability::new()`: starts the embedded JavaScript engine. It can fail for
/// reasons outside its arguments (it has none), so nothing is stated of the result.
#[verifier::external_body]
fn new_reader() -> Option<readability_js::Readability> {
    readability_js::Readability::new().ok()
}

/// `Readability::parse_with_url`, reading the extracted article's `content`. A reader holds no
/// options (`Readability::new` takes none; options are given per call and none are given here),
/// so every reader gives the same result, named by the html and the URL.
#[verifier::external_body]
fn parse_with_url(reader: &readability_js::Readability, html: &str, base_url: &str) -> (res: Option<String>)
    ensures
        opt_chars(res) == readability_with_url(html@, base_url@),
{
    reader.parse_with_url(html, base_url).ok().map(|article| article.content)
}

/// `Readability::parse`, reading the extracted article's `content`.
#[verifier::external_body]
fn parse_plain(reader: &readability_js::Readability, html: &str) -> (res: Option<String>)
    ensures
        opt_chars(res) == readability_plain(html@),
{
    reader.parse(html).ok().map(|article| article.content)
}

/// The raw article Readability yields: with the base URL when one is given and that succeeds,
/// else without.
pub open spec fn readability_article(html: Seq<char>, base_url: Option<Seq<char>>) -> Option<Seq<char>> {
    match base_url {
        Some(url) => match readability_with_url(html, url) {
            Some(c) => Some(c),
            None => readability_plain(html),
        },
        None => readability_plain(html),
    }
}

/// Extracts clean article HTML from a fetched document using Mozilla Readability. Blank
/// documents yield nothing; otherwise the result, when there is one, is the trimmed extracted
/// content, which is never empty.
pub fn extract_article_from_html(html: &str, base_url: Option<&str>) -> (res: Option<String>)
    ensures
        trim(html@).len() == 0 ==> res is None,
        res matches Some(c) ==> {
            &&& readability_article(html@, opt_str(base_url)) is Some
            &&& c@ == trim(readability_article(html@, opt_str(base_url))->0)
            &&& c@.len() > 0
        },
{
    if trim_str(html).unicode_len() == 0 {
        return None;
    }
    let reader = match new_reader() {
        Some(r) => r,
        None => return None,
    };
    extract_with_reader(&reader, html, base_url)
}

/// The article a started Readability engine extracts from `html`: the parse with the base URL
/// when one is given and it succeeds, else the parse without; then trimmed, and nothing when it
/// is blank.
pub fn extract_with_reader(reader: &readability_js::Readability, html: &str, base_url: Option<
    &str,
>) -> (res: Option<String>)
    ensures
        match readability_article(html@, opt_str(base_url)) {
            Some(c) => if trim(c).len() > 0 {
                res matches Some(r) && r@ == trim(c)
            } else {
                res is None
            },
            None => res is None,
        },
{
    let raw = match base_url {
        Some(url) => match parse_with_url(reader, html, url) {
            Some(c) => Some(c),
            None => parse_plain(reader, html),
        },
        None => parse_plain(reader, html),
    };
    cleaned_extraction(raw)
}

/// What extraction keeps of the parser's raw article content: the trimmed text, or nothing when
/// there is no content or it is blank.
pub fn cleaned_extraction(raw: Option<String>) -> (res: Option<String>)
    ensures
        match raw {
            Some(c) => if trim(c@).len() > 0 {
                res matches Some(r) && r@ == trim(c@)
            } else {
                res is None
            },
            None => res is None,
        },
{
    let content = match raw {
        Some(c) => trim_str(c.as_str()),
        None => return None,
    };
    if content.unicode_len() == 0 {
        return None;
    }
    Some(content)
}

// ---------------------------------------------------------------------------------------------
// Feed content state

/// Per-feed content flags: when quality was last evaluated, whether extracted full text replaces
/// the feed content, and whether summaries are generated.
#[derive(Clone, Copy, Debug, PartialEq, Eq)]
pub struct FeedContentState {
    pub last_quality_check: Option<i64>,
    pub use_extracted_fulltext: bool,
    pub use_llm_summary: bool,
}

/// An entry fit to sample feed quality: it has a link, and content or a summary.
pub open spec fn quality_sample_fit(entry: crate::article::FeedEntry) -> bool {
    entry.link is Some && (entry.content is Some || entry.summary is Some)
}

/// Picks the first feed entry that includes both content metadata and a canonical link.
pub fn select_quality_sample(entries: &[crate::article::FeedEntry]) -> (res: Option<usize>)
    ensures
        match res {
            Some(i) => i < entries@.len() && quality_sample_fit(entries@[i as int]) && forall|
                j: int,
            | 0 <= j < i ==> !quality_sample_fit(#[trigger] entries@[j]),
            None => forall|j: int|
                0 <= j < entries@.len() ==> !quality_sample_fit(#[trigger] entries@[j]),
        },
{
    let mut i: usize = 0;
    while i < entries.len()
        invariant
            i <= entries@.len(),
            forall|j: int| 0 <= j < i ==> !quality_sample_fit(#[trigger] entries@[j]),
        decreases entries.len() - i,
    {
        let e = &entries[i];
        if e.link.is_some() && (e.content.is_some() || e.summary.is_some()) {
            return Some(i);
        }
        i = i + 1;
    }
    None
}

/// The feed-provided text of a sample entry: its content, else its summary.
pub open spec fn sample_feed_content(entry: crate::article::FeedEntry) -> Option<Seq<char>> {
    match entry.content {
        Some(c) => Some(c@),
        None => opt_chars(entry.summary),
    }
}

/// The feed-provided text of an entry: its content, else its summary.
pub fn entry_feed_content(entry: &crate::article::FeedEntry) -> (res: Option<String>)
    ensures
        opt_chars(res) == sample_feed_content(*entry),
{
    match &entry.content {
        Some(c) => Some(c.clone()),
        None => entry.summary.clone(),
    }
}

/// The LLM verdict on a feed summary decides when there is one; otherwise the heuristic.
pub open spec fn llm_summary_wanted(
    final_article_text: Option<Seq<char>>,
    feed_summary: Option<Seq<char>>,
    llm_enabled: bool,
    llm_says_good: Option<bool>,
) -> bool {
    if normalized(feed_summary).len() == 0 {
        true
    } else if normalized(final_article_text).len() == 0 {
        false
    } else if llm_enabled && llm_says_good is Some {
        !llm_says_good->0
    } else {
        llm_summary_heuristic(feed_summary, final_article_text)
    }
}

/// Whether the LLM should be asked about the feed summary: only when both texts are non-empty
/// once normalised and LLM support is enabled.
pub open spec fn llm_quality_question_needed(
    final_article_text: Option<Seq<char>>,
    feed_summary: Option<Seq<char>>,
    llm_enabled: bool,
) -> bool {
    normalized(feed_summary).len() > 0 && normalized(final_article_text).len() > 0 && llm_enabled
}

/// Decides whether generated summaries replace the feed's: always when the feed has no summary,
/// never when the article text is empty, else by the LLM's verdict (`!is_good`) when it gave one,
/// else by the prefix heuristic.
pub fn should_enable_llm_summary(
    final_article_text: Option<&str>,
    feed_summary: Option<&str>,
    llm_enabled: bool,
    llm_says_good: Option<bool>,
) -> (res: bool)
    ensures
        res == llm_summary_wanted(
            opt_str(final_article_text),
            opt_str(feed_summary),
            llm_enabled,
            llm_says_good,
        ),
{
    if char_count(normalize_text(feed_summary).as_str()) == 0 {
        return true;
    }
    if char_count(normalize_text(final_article_text).as_str()) == 0 {
        return false;
    }
    if llm_enabled {
        if let Some(is_good) = llm_says_good {
            return !is_good;
        }
    }
    should_enable_llm_summary_by_heuristic(feed_summary, final_article_text)
}

/// Whether to ask the LLM about the feed summary before deciding.
pub fn needs_llm_quality_question(
    final_article_text: Option<&str>,
    feed_summary: Option<&str>,
    llm_enabled: bool,
) -> (res: bool)
    ensures
        res == llm_quality_question_needed(
            opt_str(final_article_text),
            opt_str(feed_summary),
            llm_enabled,
        ),
{
    char_count(normalize_text(feed_summary).as_str()) > 0 && char_count(
        normalize_text(final_article_text).as_str(),
    ) > 0 && llm_enabled
}

/// The flags after a quality evaluation at `now_ts`: extracted full text is used when it is
/// preferred over the feed content; summaries are generated only with extracted full text, and
/// then as the summary decision on that text says.
pub open spec fn evaluated_state(
    extracted: Option<Seq<char>>,
    feed_content: Option<Seq<char>>,
    feed_summary: Option<Seq<char>>,
    llm_enabled: bool,
    llm_says_good: Option<bool>,
    now_ts: i64,
) -> FeedContentState {
    let fulltext = extracted_preferred(extracted, feed_content);
    let final_text = if fulltext {
        extracted
    } else {
        feed_content
    };
    FeedContentState {
        last_quality_check: Some(now_ts),
        use_extracted_fulltext: fulltext,
        use_llm_summary: fulltext && llm_summary_wanted(
            final_text,
            feed_summary,
            llm_enabled,
            llm_says_good,
        ),
    }
}

/// The text the summary decision is taken on: the extracted text when it is preferred, else the
/// feed content.
pub fn quality_final_text(extracted: Option<String>, feed_content: Option<String>) -> (res: Option<
    String,
>)
    ensures
        opt_chars(res) == if extracted_preferred(opt_chars(extracted), opt_chars(feed_content)) {
            opt_chars(extracted)
        } else {
            opt_chars(feed_content)
        },
{
    let preferred = is_extracted_content_preferred(
        match &extracted {
            Some(e) => Some(e.as_str()),
            None => None,
        },
        match &feed_content {
            Some(f) => Some(f.as_str()),
            None => None,
        },
    );
    if preferred {
        extracted
    } else {
        feed_content
    }
}

/// Completes a quality evaluation from the outcomes of its remote steps: the extracted article
/// text (if any) and the LLM verdict on the feed summary (if one was asked for and given).
pub fn evaluate_feed_content_state(
    extracted: Option<String>,
    feed_content: Option<String>,
    feed_summary: Option<String>,
    llm_enabled: bool,
    llm_says_good: Option<bool>,
    now_ts: i64,
) -> (res: FeedContentState)
    ensures
        res == evaluated_state(
            opt_chars(extracted),
            opt_chars(feed_content),
            opt_chars(feed_summary),
            llm_enabled,
            llm_says_good,
            now_ts,
        ),
        res.use_llm_summary ==> res.use_extracted_fulltext,
{
    let fulltext = is_extracted_content_preferred(
        match &extracted {
            Some(e) => Some(e.as_str()),
            None => None,
        },
        match &feed_content {
            Some(f) => Some(f.as_str()),
            None => None,
        },
    );
    let final_text = quality_final_text(extracted, feed_content);
    let use_llm = fulltext && should_enable_llm_summary(
        match &final_text {
            Some(t) => Some(t.as_str()),
            None => None,
        },
        match &feed_summary {
            Some(s) => Some(s.as_str()),
            None => None,
        },
        llm_enabled,
        llm_says_good,
    );
    FeedContentState {
        last_quality_check: Some(now_ts),
        use_extracted_fulltext: fulltext,
        use_llm_summary: use_llm,
    }
}

// ---------------------------------------------------------------------------------------------
// Article enrichment

/// What enrichment starts from: the article URL and feed-provided fields, and the feed's flags.
#[derive(Clone, Debug, PartialEq, Eq)]
pub struct EnrichInput {
    pub url: Option<String>,
    pub content: Option<String>,
    pub summary: Option<String>,
    pub media_thumbnail: Option<String>,
    pub use_extracted_fulltext: bool,
    pub use_llm_summary: bool,
    pub llm_enabled: bool,
}

/// The extracted full text replaces the feed content when the feed uses full text, the article
/// has a URL and extraction produced text.
pub open spec fn fulltext_applies(input: EnrichInput, extracted: Option<Seq<char>>) -> bool {
    input.use_extracted_fulltext && input.url is Some && extracted is Some
}

/// The content stored for the article.
pub open spec fn enriched_content(input: EnrichInput, extracted: Option<Seq<char>>) -> Option<Seq<char>> {
    if fulltext_applies(input, extracted) {
        extracted
    } else {
        opt_chars(input.content)
    }
}

/// The first of two optional texts that is present.
pub open spec fn either(a: Option<Seq<char>>, b: Option<Seq<char>>) -> Option<Seq<char>> {
    match a {
        Some(x) => Some(x),
        None => b,
    }
}

/// The thumbnail: the feed's own, else the first image of the feed content (or summary), else,
/// after full-text extraction, the first image of the extracted text.
pub open spec fn enriched_thumbnail(input: EnrichInput, extracted: Option<Seq<char>>) -> Option<Seq<char>> {
    let initial = match input.media_thumbnail {
        Some(t) => Some(t@),
        None => first_image(either(opt_chars(input.content), opt_chars(input.summary))),
    };
    if fulltext_applies(input, extracted) && initial is None {
        first_image(extracted)
    } else {
        initial
    }
}

/// The summary kept from the feed: none when summaries are generated for this feed.
pub open spec fn kept_summary(input: EnrichInput) -> Option<Seq<char>> {
    if input.use_llm_summary {
        None
    } else {
        opt_chars(input.summary)
    }
}

/// The summary stored for the article: the feed's summary when kept, else one built from the
/// stored content (see `missing_summary`), else none.
pub open spec fn enriched_summary(
    input: EnrichInput,
    extracted: Option<Seq<char>>,
    llm_summary: Option<Seq<char>>,
) -> Option<Seq<char>> {
    match (kept_summary(input), enriched_content(input, extracted)) {
        (None, Some(c)) => Some(
            missing_summary(c, input.use_llm_summary, input.llm_enabled, llm_summary),
        ),
        (k, _) => k,
    }
}

/// Whether the stored content is to be summarised by the LLM.
pub open spec fn llm_summary_requested(input: EnrichInput, extracted: Option<Seq<char>>) -> bool {
    kept_summary(input) is None && enriched_content(input, extracted) is Some && input.use_llm_summary
        && input.llm_enabled && enriched_content(input, extracted)->0.len()
        >= LLM_SUMMARY_MIN_CHARS
}

/// The URL whose page is to be fetched for full-text extraction, if any.
pub fn fulltext_url(input: &EnrichInput) -> (res: Option<String>)
    ensures
        opt_chars(res) == if input.use_extracted_fulltext {
            opt_chars(input.url)
        } else {
            None
        },
{
    if input.use_extracted_fulltext {
        input.url.clone()
    } else {
        None
    }
}

fn final_content(input: &EnrichInput, extracted: &Option<String>) -> (res: Option<String>)
    ensures
        opt_chars(res) == enriched_content(*input, opt_chars(*extracted)),
{
    if input.use_extracted_fulltext && input.url.is_some() && extracted.is_some() {
        extracted.clone()
    } else {
        input.content.clone()
    }
}

fn as_str_opt(o: &Option<String>) -> (res: Option<&str>)
    ensures
        opt_str(res) == opt_chars(*o),
{
    match o {
        Some(s) => Some(s.as_str()),
        None => None,
    }
}

/// The text to send for summarisation, when the stored content is to be summarised by the LLM.
pub fn llm_summary_source(input: &EnrichInput, extracted: &Option<String>) -> (res: Option<String>)
    ensures
        llm_summary_requested(*input, opt_chars(*extracted)) ==> opt_chars(res) == enriched_content(
            *input,
            opt_chars(*extracted),
        ),
        !llm_summary_requested(*input, opt_chars(*extracted)) ==> res is None,
{
    if input.use_llm_summary && input.llm_enabled {
        if let Some(c) = final_content(input, extracted) {
            if char_count(c.as_str()) >= LLM_SUMMARY_MIN_CHARS {
                return Some(c);
            }
        }
    }
    None
}

/// Applies thumbnail fallback, the fetched full text and the generated summary to an article:
/// `extracted` is the text extracted from the article page (when one was fetched), and
/// `llm_summary` the generated summary (when one was requested and obtained).
pub fn enrich_article_content(
    input: &EnrichInput,
    extracted: Option<String>,
    llm_summary: Option<String>,
) -> (res: crate::article::EnrichedArticleContent)
    ensures
        opt_chars(res.content) == enriched_content(*input, opt_chars(extracted)),
        opt_chars(res.media_thumbnail) == enriched_thumbnail(*input, opt_chars(extracted)),
        opt_chars(res.summary) == enriched_summary(
            *input,
            opt_chars(extracted),
            opt_chars(llm_summary),
        ),
        opt_chars(res.content_hash) == match enriched_content(*input, opt_chars(extracted)) {
            Some(c) => Some(crate::article::md5_hex(c)),
            None => None,
        },
{
    let content = final_content(input, &extracted);
    let initial_thumbnail = match &input.media_thumbnail {
        Some(t) => Some(t.clone()),
        None => {
            let source = match &input.content {
                Some(c) => Some(c.as_str()),
                None => as_str_opt(&input.summary),
            };
            extract_first_image_url(source)
        },
    };
    let fulltext = input.use_extracted_fulltext && input.url.is_some() && extracted.is_some();
    let media_thumbnail = if fulltext && initial_thumbnail.is_none() {
        extract_first_image_url(as_str_opt(&extracted))
    } else {
        initial_thumbnail
    };
    let kept = if input.use_llm_summary {
        None
    } else {
        input.summary.clone()
    };
    let summary = match kept {
        Some(k) => Some(k),
        None => match &content {
            Some(c) => build_missing_summary(
                c.as_str(),
                input.use_llm_summary,
                input.llm_enabled,
                llm_summary,
            ),
            None => None,
        },
    };
    let content_hash = match &content {
        Some(c) => Some(crate::article::md5_hex_of(c.as_str())),
        None => None,
    };
    crate::article::EnrichedArticleContent { content, summary, media_thumbnail, content_hash }
}

/// The content of an entry as the feed gives it, for refreshes: its content and summary
/// unchanged, the first image of its content (else of its summary) as thumbnail, and the MD5 of
/// its content.
pub fn raw_entry_content(entry: &crate::article::FeedEntry) -> (res:
    crate::article::EnrichedArticleContent)
    ensures
        res.content == entry.content,
        res.summary == entry.summary,
        opt_chars(res.media_thumbnail) == first_image(
            either(opt_chars(entry.content), opt_chars(entry.summary)),
        ),
        opt_chars(res.content_hash) == match entry.content {
            Some(c) => Some(crate::article::md5_hex(c@)),
            None => None,
        },
{
    let source = match &entry.content {
        Some(c) => Some(c.as_str()),
        None => as_str_opt(&entry.summary),
    };
    let media_thumbnail = extract_first_image_url(source);
    let content_hash = match &entry.content {
        Some(c) => Some(crate::article::md5_hex_of(c.as_str())),
        None => None,
    };
    crate::article::EnrichedArticleContent {
        content: entry.content.clone(),
        summary: entry.summary.clone(),
        media_thumbnail,
        content_hash,
    }
}

/// Builds the article record a refresh stores for an entry: as `article_record_from_feed_entry`
/// does, from the entry's content as the feed gives it, with no page fetched and no summary made.
pub fn article_record_from_raw_entry(feed_id: i64, entry: &crate::article::FeedEntry, now_ts: i64) -> (res:
    Option<crate::article::ArticleRecord>)
    ensures
        crate::article::entry_guid(*entry) is None <==> res is None,
        res matches Some(r) ==> {
            &&& r.guid@ == crate::article::entry_guid(*entry)->0
            &&& r.guid_hash@ == crate::article::md5_hex(r.guid@)
            &&& r.feed_id == feed_id
            &&& r.title == entry.title
            &&& r.url == entry.link
            &&& r.author == entry.author
            &&& r.content == entry.content
            &&& r.summary == entry.summary
            &&& opt_chars(r.media_thumbnail) == first_image(
                either(opt_chars(entry.content), opt_chars(entry.summary)),
            )
            &&& opt_chars(r.content_hash) == match entry.content {
                Some(c) => Some(crate::article::md5_hex(c@)),
                None => None,
            }
            &&& r.last_modified == now_ts
            &&& r.updated_date == Some(crate::article::entry_updated(*entry, now_ts))
            &&& r.pub_date == Some(crate::article::entry_published(*entry, now_ts))
            &&& !r.starred
            &&& r.unread
        },
{
    crate::article::article_record_from_feed_entry(feed_id, entry, raw_entry_content(entry), now_ts)
}

// ---------------------------------------------------------------------------------------------
// Summaries and summary quality through the LLM

/// Schema name of summarisation replies, also accepted as a wrapper object.
pub open spec fn article_summary_schema() -> Seq<char> {
    "article_summary"@
}

/// Schema name of summary quality replies, also accepted as a wrapper object.
pub open spec fn summary_quality_schema() -> Seq<char> {
    "summary_quality"@
}

/// The article text sent for summarisation: readable text cut to 8000 characters; nothing when
/// LLM support is off or the text is blank.
pub open spec fn summary_request(llm_enabled: bool, article_text: Seq<char>) -> Option<Seq<char>> {
    let t = take_chars(plain(Some(article_text)), ARTICLE_MAX_CHARS as int);
    if llm_enabled && trim(t).len() > 0 {
        Some(t)
    } else {
        None
    }
}

/// Prepares the article text of a summarisation request.
pub fn summary_request_text(llm_enabled: bool, article_text: &str) -> (res: Option<String>)
    ensures
        opt_chars(res) == summary_request(llm_enabled, article_text@),
{
    if !llm_enabled {
        return None;
    }
    let plain = plain_text(Some(article_text));
    let trimmed = truncate_chars(plain.as_str(), ARTICLE_MAX_CHARS);
    if trim_str(trimmed.as_str()).unicode_len() == 0 {
        return None;
    }
    Some(trimmed)
}

/// The stored summary read from a summarisation reply, marked as generated.
pub fn summary_from_llm_response(parsed: &crate::llm::JsonValue) -> (res: Option<String>)
    ensures
        match crate::llm::structured_string(*parsed, "summary"@, seq![article_summary_schema()]) {
            Some(s) => res matches Some(r) && r@ == s + " (AI generated)"@,
            None => res is None,
        },
{
    let keys: [&str; 1] = ["article_summary"];
    let summary = crate::llm::extract_string_from_structured_response(parsed, "summary", &keys);
    assert(keys@.map_values(|k: &str| k@) =~= seq![article_summary_schema()]);
    match summary {
        Some(mut s) => {
            s.append(" (AI generated)");
            Some(s)
        },
        None => None,
    }
}

/// The texts of a summary quality question: the readable article text and summary (each made
/// readable twice over, as the question is prepared), or nothing when the question is not needed
/// or either text is blank.
pub open spec fn quality_question(
    final_article_text: Option<Seq<char>>,
    feed_summary: Option<Seq<char>>,
    llm_enabled: bool,
) -> Option<(Seq<char>, Seq<char>)> {
    let a = plain(Some(plain(final_article_text)));
    let s = plain(Some(plain(feed_summary)));
    if llm_quality_question_needed(final_article_text, feed_summary, llm_enabled) && trim(a).len()
        > 0 && trim(s).len() > 0 {
        Some((a, s))
    } else {
        None
    }
}

/// Prepares the texts of the summary quality question, when it is to be asked.
pub fn quality_question_texts(
    final_article_text: Option<&str>,
    feed_summary: Option<&str>,
    llm_enabled: bool,
) -> (res: Option<(String, String)>)
    ensures
        match quality_question(opt_str(final_article_text), opt_str(feed_summary), llm_enabled) {
            Some((a, s)) => res matches Some((x, y)) && x@ == a && y@ == s,
            None => res is None,
        },
{
    if !needs_llm_quality_question(final_article_text, feed_summary, llm_enabled) {
        return None;
    }
    let article_once = plain_text(final_article_text);
    let summary_once = plain_text(feed_summary);
    let article = plain_text(Some(article_once.as_str()));
    let summary = plain_text(Some(summary_once.as_str()));
    if trim_str(article.as_str()).unicode_len() == 0 || trim_str(summary.as_str()).unicode_len()
        == 0 {
        return None;
    }
    Some((article, summary))
}

/// The verdict read from a summary quality reply.
pub fn quality_from_llm_response(parsed: &crate::llm::JsonValue) -> (res: Option<bool>)
    ensures
        res == crate::llm::structured_bool(*parsed, "is_good"@, seq![summary_quality_schema()]),
{
    let keys: [&str; 1] = ["summary_quality"];
    let verdict = crate::llm::extract_bool_from_structured_response(parsed, "is_good", &keys);
    assert(keys@.map_values(|k: &str| k@) =~= seq![summary_quality_schema()]);
    verdict
}

/// Generated summaries are switched on only for feeds whose articles use the extracted full text.
pub proof fn law_llm_summary_needs_fulltext(
    extracted: Option<Seq<char>>,
    feed_content: Option<Seq<char>>,
    feed_summary: Option<Seq<char>>,
    llm_enabled: bool,
    llm_says_good: Option<bool>,
    now_ts: i64,
)
    ensures
        evaluated_state(extracted, feed_content, feed_summary, llm_enabled, llm_says_good, now_ts).use_llm_summary
            ==> evaluated_state(
            extracted,
            feed_content,
            feed_summary,
            llm_enabled,
            llm_says_good,
            now_ts,
        ).use_extracted_fulltext,
{
}

/// The quality evaluation runs about monthly: it is not due again until more than a month after
/// it last ran, and then it is.
pub proof fn law_quality_check_runs_monthly(last: i64, now_ts: i64)
    ensures
        now_ts - last <= ONE_MONTH ==> !quality_check_due(Some(last), now_ts),
        now_ts - last > ONE_MONTH ==> quality_check_due(Some(last), now_ts),
        quality_check_due(None, now_ts),
{
}

/// Without a usable LLM summary, long content is summarised by truncation: its first 160
/// characters followed by `...`; short content is its own summary.
pub proof fn law_fallback_summary_truncates(
    content: Seq<char>,
    use_llm_summary: bool,
    llm_enabled: bool,
    llm_summary: Option<Seq<char>>,
)
    requires
        !(use_llm_summary && llm_enabled && llm_summary is Some),
    ensures
        content.len() < LLM_SUMMARY_MIN_CHARS ==> missing_summary(
            content,
            use_llm_summary,
            llm_enabled,
            llm_summary,
        ) == content,
        content.len() >= LLM_SUMMARY_MIN_CHARS ==> {
            let s = missing_summary(content, use_llm_summary, llm_enabled, llm_summary);
            &&& s.len() == LLM_SUMMARY_MIN_CHARS + 3
            &&& s.take(LLM_SUMMARY_MIN_CHARS as int) == content.take(LLM_SUMMARY_MIN_CHARS as int)
        },
{
    reveal_strlit("...");
    if content.len() >= LLM_SUMMARY_MIN_CHARS {
        let s = missing_summary(content, use_llm_summary, llm_enabled, llm_summary);
        assert(s.take(LLM_SUMMARY_MIN_CHARS as int) =~= content.take(LLM_SUMMARY_MIN_CHARS as int));
    }
}

// ---------------------------------------------------------------------------------------------
// The quality check, step by step

/// How a feed's content quality is (re-)evaluated on a fetch.
#[derive(Clone, Copy, Debug, PartialEq, Eq)]
pub enum QualityPlan {
    /// The last evaluation is recent: keep the flags.
    Keep,
    /// Due, but no entry has a link and content: keep the flags.
    NoSample,
    /// Evaluate on the entry at this index: fetch its page, then decide.
    Evaluate(usize),
}

/// Plans the quality check of a fetched feed: nothing unless it is due, then the first entry
/// fit to sample, if any.
pub fn quality_check_plan(
    state: FeedContentState,
    entries: &[crate::article::FeedEntry],
    now_ts: i64,
) -> (res: QualityPlan)
    ensures
        !quality_check_due(state.last_quality_check, now_ts) ==> res == QualityPlan::Keep,
        quality_check_due(state.last_quality_check, now_ts) ==> match res {
            QualityPlan::Keep => false,
            QualityPlan::NoSample => forall|j: int|
                0 <= j < entries@.len() ==> !quality_sample_fit(#[trigger] entries@[j]),
            QualityPlan::Evaluate(i) => i < entries@.len() && quality_sample_fit(entries@[i as int])
                && forall|j: int| 0 <= j < i ==> !quality_sample_fit(#[trigger] entries@[j]),
        },
{
    if !needs_quality_check(state.last_quality_check, now_ts) {
        return QualityPlan::Keep;
    }
    match select_quality_sample(entries) {
        Some(i) => QualityPlan::Evaluate(i),
        None => QualityPlan::NoSample,
    }
}

/// The question put to the LLM during a quality check, if any: only when the extracted full text
/// is preferred (summaries are generated only then), and then on that text and the feed summary
/// as `quality_question_texts` prepares them.
pub fn quality_llm_question(
    extracted: &Option<String>,
    feed_content: &Option<String>,
    feed_summary: &Option<String>,
    llm_enabled: bool,
) -> (res: Option<(String, String)>)
    ensures
        !extracted_preferred(opt_chars(*extracted), opt_chars(*feed_content)) ==> res is None,
        extracted_preferred(opt_chars(*extracted), opt_chars(*feed_content)) ==> match quality_question(
            opt_chars(*extracted),
            opt_chars(*feed_summary),
            llm_enabled,
        ) {
            Some((a, q)) => res matches Some((x, y)) && x@ == a && y@ == q,
            None => res is None,
        },
{
    if !is_extracted_content_preferred(as_str_opt(extracted), as_str_opt(feed_content)) {
        return None;
    }
    quality_question_texts(as_str_opt(extracted), as_str_opt(feed_summary), llm_enabled)
}

// ---------------------------------------------------------------------------------------------
// Laws of enrichment, quality and summary requests

/// A thumbnail the feed gives is kept, whatever the content's images or the extraction: the first
/// inline image is a fallback only.
pub proof fn law_feed_thumbnail_is_kept(input: EnrichInput, extracted: Option<Seq<char>>)
    ensures
        input.media_thumbnail matches Some(t) ==> enriched_thumbnail(input, extracted) == Some(t@),
{
}

/// Extracted text is preferred only when it is not empty and, once normalised, at least twice
/// as long as the feed text; in particular an extraction shorter than the feed text is never
/// preferred, and an empty feed text loses to any non-empty extraction.
pub proof fn law_extraction_must_be_twice_as_long(
    extracted: Option<Seq<char>>,
    feed_content: Option<Seq<char>>,
)
    ensures
        extracted_preferred(extracted, feed_content) ==> normalized(extracted).len() > 0
            && normalized(extracted).len() >= 2 * normalized(feed_content).len(),
        normalized(extracted).len() < normalized(feed_content).len() ==> !extracted_preferred(
            extracted,
            feed_content,
        ),
        normalized(extracted).len() > 0 && normalized(extracted).len() >= 2 * normalized(
            feed_content,
        ).len() ==> extracted_preferred(extracted, feed_content),
{
}

proof fn lemma_trim_end_keeps_first(s: Seq<char>)
    requires
        s.len() > 0,
        !is_white_space(s[0]),
    ensures
        trim_end(s).len() > 0,
    decreases s.len(),
{
    if is_white_space(s.last()) {
        let d = s.drop_last();
        assert(d[0] == s[0]);
        lemma_trim_end_keeps_first(d);
    }
}

/// The text sent for a summary is the start of the article's readable text (tags stripped and
/// white space collapsed first): all of it when it is shorter than 8000 characters, else exactly
/// its first 8000. Nothing is sent without LLM support, and a readable text that is not blank is
/// always sent.
pub proof fn law_summary_request_is_the_readable_start(article_text: Seq<char>)
    ensures
        summary_request(false, article_text) is None,
        summary_request(true, article_text) matches Some(t) ==> {
            let readable = plain(Some(article_text));
            &&& t.len() <= ARTICLE_MAX_CHARS
            &&& t.len() <= readable.len()
            &&& readable.take(t.len() as int) == t
            &&& (readable.len() >= ARTICLE_MAX_CHARS ==> t.len() == ARTICLE_MAX_CHARS)
            &&& (readable.len() < ARTICLE_MAX_CHARS ==> t == readable)
        },
        plain(Some(article_text)).len() > 0 ==> summary_request(true, article_text) is Some,
{
    let readable = plain(Some(article_text));
    let t = take_chars(readable, ARTICLE_MAX_CHARS as int);
    if readable.len() > 0 {
        crate::normal_form::lemma_trim_output(whitespace_collapsed(tags_replaced(article_text)));
        assert(!is_white_space(readable[0]));
        assert(t[0] == readable[0]);
        assert(trim_start(t) == t);
        lemma_trim_end_keeps_first(t);
    }
    if readable.len() >= ARTICLE_MAX_CHARS {
        assert(readable.take(ARTICLE_MAX_CHARS as int) == t);
    } else {
        assert(readable.take(readable.len() as int) =~= readable);
    }
}

} // verus!
