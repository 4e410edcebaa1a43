//! Runtime configuration values and the rules derived from them.

use vstd::prelude::*;

use crate::text::{chars_of, opt_chars, str_equals, trim, trim_str};

verus! {

/// Default `FEED_UPDATE_FREQUENCY_MIN`, in minutes.
pub const DEFAULT_FEED_UPDATE_FREQUENCY_MIN: u64 = 15;

/// Default `VERSION` reported by the version endpoint.
pub open spec fn default_version() -> Seq<char> {
    "dev"@
}

/// Default `OPENAI_BASE_URL`.
pub open spec fn default_openai_base_url() -> Seq<char> {
    "https://api.openai.com/v1"@
}

/// Default `OPENAI_MODEL`.
pub open spec fn default_openai_model() -> Seq<char> {
    "gpt-5-nano"@
}

/// Runtime configuration sourced from the environment.
#[derive(Clone, Debug)]
pub struct Config {
    pub username: Option<String>,
    pub password: Option<String>,
    pub version: String,
    pub db_path: String,
    /// Allows localhost targets in remote fetches (automated tests only).
    pub testing_mode: bool,
    pub feed_update_frequency_min: u64,
    pub openai_api_key: Option<String>,
    pub openai_base_url: String,
    pub openai_model: String,
}

impl Config {
    /// HTTP Basic auth is enforced only when both a username and a password are configured.
    pub fn auth_enabled(&self) -> (res: bool)
        ensures
            res == (self.username is Some && self.password is Some),
    {
        self.username.is_some() && self.password.is_some()
    }

    /// LLM features are on exactly when an OpenAI API key is configured.
    pub fn llm_enabled(&self) -> (res: bool)
        ensures
            res == self.openai_api_key is Some,
    {
        self.openai_api_key.is_some()
    }
}

/// An environment value as the configuration keeps it: trimmed, and absent when blank.
pub open spec fn env_value(raw: Option<Seq<char>>) -> Option<Seq<char>> {
    match raw {
        Some(r) => if trim(r).len() > 0 {
            Some(trim(r))
        } else {
            None
        },
        None => None,
    }
}

/// Trims an environment value and treats a blank one as unset.
pub fn normalize_env_value(raw: Option<String>) -> (res: Option<String>)
    ensures
        opt_chars(res) == env_value(opt_chars(raw)),
{
    match raw {
        Some(r) => {
            let t = trim_str(r.as_str());
            if t.unicode_len() > 0 {
                Some(t)
            } else {
                None
            }
        },
        None => None,
    }
}

/// The database path used when `DATABASE_PATH` is unset: `data/headless-rss.sqlite3` when it
/// exists or when `../data/headless-rss.sqlite3` does not, else the parent-directory one.
pub fn default_db_path(data_db_exists: bool, parent_data_db_exists: bool) -> (res: String)
    ensures
        data_db_exists || !parent_data_db_exists ==> res@ == "data/headless-rss.sqlite3"@,
        !data_db_exists && parent_data_db_exists ==> res@ == "../data/headless-rss.sqlite3"@,
{
    if data_db_exists {
        return String::from_str("data/headless-rss.sqlite3");
    }
    if parent_data_db_exists {
        return String::from_str("../data/headless-rss.sqlite3");
    }
    String::from_str("data/headless-rss.sqlite3")
}


/// An ASCII decimal digit.
pub open spec fn is_ascii_digit(c: char) -> bool {
    48 <= c as u32 <= 57
}

/// Every character is an ASCII decimal digit.
pub open spec fn all_digits(s: Seq<char>) -> bool {
    forall|i: int| 0 <= i < s.len() ==> is_ascii_digit(#[trigger] s[i])
}

/// The value of a string of decimal digits.
pub open spec fn digits_value(s: Seq<char>) -> nat
    decreases s.len(),
{
    if s.len() == 0 {
        0
    } else {
        digits_value(s.drop_last()) * 10 + (s.last() as u32 - 48) as nat
    }
}

/// The digits of an unsigned number: the text without one leading `+`.
pub open spec fn unsigned_digits(s: Seq<char>) -> Seq<char> {
    if s.len() > 0 && s[0] == '+' {
        s.drop_first()
    } else {
        s
    }
}

/// What `str::parse::<u64>` makes of a text: an optional `+` followed by at least one decimal
/// digit, with a value that fits in `u64`.
pub open spec fn parsed_u64(s: Seq<char>) -> Option<u64> {
    let d = unsigned_digits(s);
    if d.len() > 0 && all_digits(d) && digits_value(d) <= u64::MAX {
        Some(digits_value(d) as u64)
    } else {
        None
    }
}

proof fn lemma_digits_value_prefix(s: Seq<char>, j: int)
    requires
        all_digits(s),
        0 <= j <= s.len(),
    ensures
        digits_value(s.take(j)) <= digits_value(s),
    decreases s.len(),
{
    if j < s.len() {
        let t = s.drop_last();
        assert(t.take(j) =~= s.take(j));
        assert(all_digits(t)) by {
            assert forall|i: int| 0 <= i < t.len() implies is_ascii_digit(#[trigger] t[i]) by {
                assert(t[i] == s[i]);
            }
        }
        lemma_digits_value_prefix(t, j);
    } else {
        assert(s.take(j) =~= s);
    }
}

/// Parses an unsigned decimal number as `str::parse::<u64>` does.
pub fn parse_u64(text: &str) -> (res: Option<u64>)
    ensures
        res == parsed_u64(text@),
{
    let cs = chars_of(text);
    let n = cs.len();
    let start: usize = if n > 0 && cs[0] == '+' {
        1
    } else {
        0
    };
    let ghost d = unsigned_digits(text@);
    assert(d =~= cs@.subrange(start as int, n as int));
    if start == n {
        return None;
    }
    let mut value: u128 = 0;
    let mut i: usize = start;
    while i < n
        invariant
            start <= i <= n,
            cs@ == text@,
            n == cs@.len(),
            d == unsigned_digits(text@),
            d == cs@.subrange(start as int, n as int),
            all_digits(d.take(i - start)),
            value == digits_value(d.take(i - start)),
            value <= u64::MAX,
        decreases n - i,
    {
        let c = cs[i];
        let code = c as u32;
        if !(48 <= code && code <= 57) {
            proof {
                assert(d[i - start] == c);
                assert(!is_ascii_digit(d[i - start]));
                assert(!all_digits(d));
            }
            return None;
        }
        let digit = (code - 48) as u128;
        let next = value * 10 + digit;
        proof {
            let p = d.take(i + 1 - start);
            assert(p.drop_last() =~= d.take(i - start));
            assert(p.last() == c);
            assert(digits_value(p) == digits_value(p.drop_last()) * 10 + (code - 48) as nat);
            assert(next == digits_value(p));
            assert(all_digits(p)) by {
                assert forall|k: int| 0 <= k < p.len() implies is_ascii_digit(#[trigger] p[k]) by {
                    if k < p.len() - 1 {
                        assert(p[k] == d.take(i - start)[k]);
                    }
                }
            }
        }
        if next > u64::MAX as u128 {
            proof {
                if all_digits(d) {
                    lemma_digits_value_prefix(d, i + 1 - start);
                    assert(digits_value(d) > u64::MAX);
                }
            }
            return None;
        }
        value = next;
        i = i + 1;
    }
    assert(d.take(n - start) =~= d);
    Some(value as u64)
}

/// The raw environment values the configuration is read from.
#[derive(Clone, Debug)]
pub struct EnvVars {
    pub username: Option<String>,
    pub password: Option<String>,
    pub version: Option<String>,
    pub database_path: Option<String>,
    pub testing_mode: Option<String>,
    pub feed_update_frequency_min: Option<String>,
    pub openai_api_key: Option<String>,
    pub openai_base_url: Option<String>,
    pub openai_model: Option<String>,
}

/// `TESTING_MODE` switches localhost access on when it reads `1` or `true`.
pub open spec fn testing_flag(value: Option<Seq<char>>) -> bool {
    match value {
        Some(v) => v == "1"@ || v == "true"@,
        None => false,
    }
}

/// The update frequency: a valid number of minutes, else the default.
pub open spec fn frequency_minutes(value: Option<Seq<char>>) -> u64 {
    match value {
        Some(v) => match parsed_u64(v) {
            Some(m) => m,
            None => DEFAULT_FEED_UPDATE_FREQUENCY_MIN,
        },
        None => DEFAULT_FEED_UPDATE_FREQUENCY_MIN,
    }
}

/// A value with a default: the given text, or the default when it is absent.
pub open spec fn or_default(value: Option<Seq<char>>, default: Seq<char>) -> Seq<char> {
    match value {
        Some(v) => v,
        None => default,
    }
}

fn string_or(value: Option<String>, default: &str) -> (res: String)
    ensures
        res@ == or_default(opt_chars(value), default@),
{
    match value {
        Some(v) => v,
        None => String::from_str(default),
    }
}

impl Config {
    /// Builds the configuration from the environment: credentials, API key and the `OPENAI_*`
    /// and mode values are trimmed and ignored when blank; `VERSION` and `DATABASE_PATH` are taken
    /// as they are, with the defaults `dev` and the data directory's database.
    pub fn from_env_values(vars: EnvVars, data_db_exists: bool, parent_data_db_exists: bool) -> (res:
        Config)
        ensures
            opt_chars(res.username) == env_value(opt_chars(vars.username)),
            opt_chars(res.password) == env_value(opt_chars(vars.password)),
            res.version@ == or_default(opt_chars(vars.version), default_version()),
            vars.database_path is Some ==> res.db_path == vars.database_path->0,
            vars.database_path is None && (data_db_exists || !parent_data_db_exists) ==> res.db_path@
                == "data/headless-rss.sqlite3"@,
            vars.database_path is None && !data_db_exists && parent_data_db_exists
                ==> res.db_path@ == "../data/headless-rss.sqlite3"@,
            res.testing_mode == testing_flag(env_value(opt_chars(vars.testing_mode))),
            res.feed_update_frequency_min == frequency_minutes(
                env_value(opt_chars(vars.feed_update_frequency_min)),
            ),
            opt_chars(res.openai_api_key) == env_value(opt_chars(vars.openai_api_key)),
            res.openai_base_url@ == or_default(
                env_value(opt_chars(vars.openai_base_url)),
                default_openai_base_url(),
            ),
            res.openai_model@ == or_default(
                env_value(opt_chars(vars.openai_model)),
                default_openai_model(),
            ),
    {
        let db_path = match vars.database_path {
            Some(p) => p,
            None => default_db_path(data_db_exists, parent_data_db_exists),
        };
        let testing_mode = match normalize_env_value(vars.testing_mode) {
            Some(v) => str_equals(v.as_str(), "1") || str_equals(v.as_str(), "true"),
            None => false,
        };
        let feed_update_frequency_min = match normalize_env_value(vars.feed_update_frequency_min) {
            Some(v) => match parse_u64(v.as_str()) {
                Some(m) => m,
                None => DEFAULT_FEED_UPDATE_FREQUENCY_MIN,
            },
            None => DEFAULT_FEED_UPDATE_FREQUENCY_MIN,
        };
        Config {
            username: normalize_env_value(vars.username),
            password: normalize_env_value(vars.password),
            version: string_or(vars.version, "dev"),
            db_path,
            testing_mode,
            feed_update_frequency_min,
            openai_api_key: normalize_env_value(vars.openai_api_key),
            openai_base_url: string_or(
                normalize_env_value(vars.openai_base_url),
                "https://api.openai.com/v1",
            ),
            openai_model: string_or(normalize_env_value(vars.openai_model), "gpt-5-nano"),
        }
    }
}

} // verus!
