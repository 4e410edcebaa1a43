//! HTTP Basic authentication of the protected API routes.

use base64::Engine;
use vstd::prelude::*;

use crate::config::Config;
use crate::text::opt_chars;

verus! {

/// Why a request to a protected route is refused; answered with `401` and a Basic challenge.
#[derive(Clone, Copy, Debug, PartialEq, Eq)]
pub enum AuthError {
    /// No `Authorization` header.
    NotAuthenticated,
    /// A malformed header or wrong credentials.
    InvalidCredentials,
}

impl AuthError {
    /// The `detail` text of the refusal.
    pub fn message(&self) -> (res: &'static str)
        ensures
            res@ == match *self {
                AuthError::NotAuthenticated => "Not authenticated"@,
                AuthError::InvalidCredentials => "Invalid authentication credentials"@,
            },
    {
        match self {
            AuthError::NotAuthenticated => "Not authenticated",
            AuthError::InvalidCredentials => "Invalid authentication credentials",
        }
    }
}

/// What the STANDARD base64 engine decodes from `input`, or `None` when it is not valid base64.
pub uninterp spec fn base64_decoded(input: Seq<u8>) -> Option<Seq<u8>>;

/// `base64::engine::general_purpose::STANDARD.decode`.
#[verifier::external_body]
fn base64_decode(input: &[u8]) -> (res: Option<Vec<u8>>)
    ensures
        match res {
            Some(v) => base64_decoded(input@) == Some(v@),
            None => base64_decoded(input@) is None,
        },
{
    base64::engine::general_purpose::STANDARD.decode(input).ok()
}

/// `String::from_utf8`: succeeds exactly on valid UTF-8, decoding it.
#[verifier::external_body]
fn utf8_string(bytes: Vec<u8>) -> (res: Option<String>)
    ensures
        res is Some <==> vstd::utf8::valid_utf8(bytes@),
        res matches Some(s) ==> s@ == vstd::utf8::decode_utf8(bytes@),
{
    String::from_utf8(bytes).ok()
}

/// A header byte `HeaderValue::to_str` accepts: visible ASCII or a tab.
pub open spec fn visible_ascii(b: u8) -> bool {
    (32 <= b && b < 127) || b == 9
}

/// `Basic ` in ASCII.
pub open spec fn basic_prefix() -> Seq<u8> {
    seq![66u8, 97u8, 115u8, 105u8, 99u8, 32u8]
}

/// Index of the first `:` of a text.
pub open spec fn first_colon(s: Seq<char>) -> Option<int>
    decreases s.len(),
{
    if s.len() == 0 {
        None
    } else if s[0] == ':' {
        Some(0)
    } else {
        match first_colon(s.drop_first()) {
            Some(i) => Some(i + 1),
            None => None,
        }
    }
}

/// The user name and password of a Basic `Authorization` header value: visible ASCII, the
/// `Basic ` prefix, base64, UTF-8, and a `:` separating the two (at its first occurrence).
pub open spec fn basic_credentials(header: Seq<u8>) -> Option<(Seq<char>, Seq<char>)> {
    if (forall|i: int| 0 <= i < header.len() ==> visible_ascii(#[trigger] header[i]))
        && header.len() >= 6 && header.take(6) == basic_prefix() {
        match base64_decoded(header.skip(6)) {
            Some(decoded) => if vstd::utf8::valid_utf8(decoded) {
                let text = vstd::utf8::decode_utf8(decoded);
                match first_colon(text) {
                    Some(i) => Some((text.take(i), text.skip(i + 1))),
                    None => None,
                }
            } else {
                None
            },
            None => None,
        }
    } else {
        None
    }
}

/// The verdict on a request to a protected route, given the configured credentials and the
/// request's `Authorization` header.
pub open spec fn auth_verdict(
    username: Option<Seq<char>>,
    password: Option<Seq<char>>,
    header: Option<Seq<u8>>,
) -> Result<(), AuthError> {
    if !(username is Some && password is Some) {
        Ok(())
    } else {
        match header {
            None => Err(AuthError::NotAuthenticated),
            Some(h) => match basic_credentials(h) {
                Some((u, p)) => if u == username->0 && p == password->0 {
                    Ok(())
                } else {
                    Err(AuthError::InvalidCredentials)
                },
                None => Err(AuthError::InvalidCredentials),
            },
        }
    }
}

fn all_visible_ascii(bytes: &[u8]) -> (res: bool)
    ensures
        res == forall|i: int| 0 <= i < bytes@.len() ==> visible_ascii(#[trigger] bytes@[i]),
{
    let mut k: usize = 0;
    while k < bytes.len()
        invariant
            k <= bytes@.len(),
            forall|i: int| 0 <= i < k ==> visible_ascii(#[trigger] bytes@[i]),
        decreases bytes.len() - k,
    {
        let b = bytes[k];
        if !((32 <= b && b < 127) || b == 9) {
            return false;
        }
        k = k + 1;
    }
    true
}

fn has_basic_prefix(bytes: &[u8]) -> (res: bool)
    ensures
        res == (bytes@.len() >= 6 && bytes@.take(6) == basic_prefix()),
{
    if bytes.len() < 6 {
        return false;
    }
    let ok = bytes[0] == 66 && bytes[1] == 97 && bytes[2] == 115 && bytes[3] == 105 && bytes[4]
        == 99 && bytes[5] == 32;
    if ok {
        assert(bytes@.take(6) =~= basic_prefix());
    } else {
        assert(bytes@.take(6) != basic_prefix()) by {
            if bytes@.take(6) == basic_prefix() {
                assert(bytes@.take(6)[0] == bytes@[0]);
                assert(bytes@.take(6)[1] == bytes@[1]);
                assert(bytes@.take(6)[2] == bytes@[2]);
                assert(bytes@.take(6)[3] == bytes@[3]);
                assert(bytes@.take(6)[4] == bytes@[4]);
                assert(bytes@.take(6)[5] == bytes@[5]);
            }
        }
    }
    ok
}

proof fn lemma_first_colon_at(s: Seq<char>, k: int)
    requires
        0 <= k < s.len(),
        s[k] == ':',
        forall|j: int| 0 <= j < k ==> s[j] != ':',
    ensures
        first_colon(s) == Some(k),
    decreases k,
{
    if k > 0 {
        assert(s.drop_first()[k - 1] == s[k]);
        assert forall|j: int| 0 <= j < k - 1 implies s.drop_first()[j] != ':' by {
            assert(s.drop_first()[j] == s[j + 1]);
        }
        lemma_first_colon_at(s.drop_first(), k - 1);
    }
}

proof fn lemma_no_colon(s: Seq<char>)
    requires
        forall|j: int| 0 <= j < s.len() ==> s[j] != ':',
    ensures
        first_colon(s) is None,
    decreases s.len(),
{
    if s.len() > 0 {
        assert forall|j: int| 0 <= j < s.len() - 1 implies s.drop_first()[j] != ':' by {
            assert(s.drop_first()[j] == s[j + 1]);
        }
        lemma_no_colon(s.drop_first());
    }
}

fn split_credentials(text: &str) -> (res: Option<(String, String)>)
    ensures
        match first_colon(text@) {
            Some(i) => res matches Some((u, p)) && u@ == text@.take(i) && p@ == text@.skip(i + 1),
            None => res is None,
        },
{
    let cs = crate::text::chars_of(text);
    let mut k: usize = 0;
    while k < cs.len()
        invariant
            cs@ == text@,
            k <= cs@.len(),
            forall|j: int| 0 <= j < k ==> cs@[j] != ':',
        decreases cs.len() - k,
    {
        if cs[k] == ':' {
            proof {
                lemma_first_colon_at(text@, k as int);
            }
            let mut user: Vec<char> = Vec::new();
            let mut i: usize = 0;
            while i < k
                invariant
                    cs@ == text@,
                    i <= k < cs@.len(),
                    user@ == cs@.take(i as int),
                decreases k - i,
            {
                user.push(cs[i]);
                i = i + 1;
                assert(user@ =~= cs@.take(i as int));
            }
            let mut pass: Vec<char> = Vec::new();
            let mut j: usize = k + 1;
            while j < cs.len()
                invariant
                    cs@ == text@,
                    k < j <= cs@.len(),
                    pass@ == cs@.subrange(k + 1, j as int),
                decreases cs.len() - j,
            {
                pass.push(cs[j]);
                j = j + 1;
                assert(pass@ =~= cs@.subrange(k + 1, j as int));
            }
            assert(pass@ =~= cs@.skip(k + 1));
            return Some(
                (crate::text::string_of(user.as_slice()), crate::text::string_of(pass.as_slice())),
            );
        }
        k = k + 1;
    }
    proof {
        lemma_no_colon(text@);
    }
    None
}

fn skip_prefix(bytes: &[u8]) -> (res: Vec<u8>)
    requires
        bytes@.len() >= 6,
    ensures
        res@ == bytes@.skip(6),
{
    let mut out: Vec<u8> = Vec::new();
    let mut k: usize = 6;
    while k < bytes.len()
        invariant
            6 <= k <= bytes@.len(),
            out@ == bytes@.subrange(6, k as int),
        decreases bytes.len() - k,
    {
        out.push(bytes[k]);
        k = k + 1;
        assert(out@ =~= bytes@.subrange(6, k as int));
    }
    assert(out@ =~= bytes@.skip(6));
    out
}

/// The user name and password carried by a Basic `Authorization` header value.
pub fn parse_basic_credentials(header: &[u8]) -> (res: Option<(String, String)>)
    ensures
        match basic_credentials(header@) {
            Some((u, p)) => res matches Some((x, y)) && x@ == u && y@ == p,
            None => res is None,
        },
{
    if !all_visible_ascii(header) || !has_basic_prefix(header) {
        return None;
    }
    let encoded = skip_prefix(header);
    let decoded = match base64_decode(encoded.as_slice()) {
        Some(d) => d,
        None => return None,
    };
    let text = match utf8_string(decoded) {
        Some(t) => t,
        None => return None,
    };
    split_credentials(text.as_str())
}

/// Checks a request to a protected route: open when credentials are not both configured;
/// otherwise `Not authenticated` without an `Authorization` header, and `Invalid authentication
/// credentials` unless it carries exactly the configured user name and password.
pub fn check_basic_auth(config: &Config, authorization: Option<&[u8]>) -> (res: Result<(), AuthError>)
    ensures
        res == auth_verdict(
            opt_chars(config.username),
            opt_chars(config.password),
            match authorization {
                Some(h) => Some(h@),
                None => None,
            },
        ),
{
    if !config.auth_enabled() {
        return Ok(());
    }
    let header = match authorization {
        Some(h) => h,
        None => return Err(AuthError::NotAuthenticated),
    };
    let (username, password) = match parse_basic_credentials(header) {
        Some(c) => c,
        None => return Err(AuthError::InvalidCredentials),
    };
    let expected_username = match &config.username {
        Some(u) => u.as_str(),
        None => "",
    };
    let expected_password = match &config.password {
        Some(p) => p.as_str(),
        None => "",
    };
    if crate::text::str_equals(username.as_str(), expected_username) && crate::text::str_equals(
        password.as_str(),
        expected_password,
    ) {
        Ok(())
    } else {
        Err(AuthError::InvalidCredentials)
    }
}

/// With authentication configured, a request is let through only with the configured
/// credentials; without it, every request is let through.
pub proof fn law_only_configured_credentials_pass(
    username: Option<Seq<char>>,
    password: Option<Seq<char>>,
    header: Option<Seq<u8>>,
)
    ensures
        !(username is Some && password is Some) ==> auth_verdict(username, password, header) is Ok,
        (username is Some && password is Some && auth_verdict(username, password, header) is Ok)
            ==> header is Some && basic_credentials(header->0) == Some(
            (username->0, password->0),
        ),
        (username is Some && password is Some && header is None) ==> auth_verdict(
            username,
            password,
            header,
        ) == Err::<(), AuthError>(AuthError::NotAuthenticated),
{
}

} // verus!
