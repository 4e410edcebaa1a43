# headless-rss

A self-hosted feed aggregator with a Nextcloud News compatible API (v1-2 and v1-3).

The decisions of the service are written in Verus and proved against their contracts:

- `src/ssrf.rs`: which remote URLs and resolved addresses may be fetched.
- `src/auth.rs`: HTTP Basic authentication of the protected routes.
- `src/schedule.rs`: when a feed is refreshed next, from its recent publishing rate.
- `src/items.rs`, `src/folders.rs`, `src/feeds.rs`, `src/errors.rs`: the API's queries,
  verdicts and error answers.
- `src/article.rs`, `src/content.rs`, `src/llm.rs`: feed entries, article records, content
  quality, summaries and the structured replies of an OpenAI-compatible model.
- `src/normal_form.rs`: the shape of normalised ASCII text (trimmed, single-spaced, lowercase,
  unchanged by normalising again).
- `src/config.rs`, `src/text.rs`: configuration values and the text helpers the rest builds on.

Calls into other crates (feed parsing, regular expressions, MD5, base64, Readability, URL
parsing, randomness, the clock) go through small trusted wrappers whose contracts are documented
beside them.

`app/` is the program around the library: the command line, the HTTP server, SQLite storage,
outbound HTTP, DNS lookups and the update loop. `tests/` exercises the library on concrete values.
