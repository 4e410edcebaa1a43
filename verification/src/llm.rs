//! OpenAI-compatible chat completions: endpoint, structured replies and log previews.

use vstd::prelude::*;

use crate::text::{char_count, chars_of, opt_chars, string_of, take_chars, trim, trim_str, truncate_chars};

verus! {

/// Response bodies quoted in warnings are cut to this many characters.
pub const OPENAI_LOG_BODY_PREVIEW_CHARS: usize = 400;

/// Client timeout of chat completion requests, in seconds.
pub const OPENAI_TIMEOUT_SECONDS: u64 = 10;

/// `base` without its trailing slashes.
pub open spec fn without_trailing_slashes(base: Seq<char>) -> Seq<char>
    decreases base.len(),
{
    if base.len() > 0 && base.last() == '/' {
        without_trailing_slashes(base.drop_last())
    } else {
        base
    }
}

/// Builds the chat completions URL from the configured OpenAI-compatible base URL.
pub fn openai_chat_completions_url(base_url: &str) -> (res: String)
    ensures
        res@ == without_trailing_slashes(base_url@) + "/chat/completions"@,
{
    let cs = chars_of(base_url);
    let mut end: usize = cs.len();
    assert(cs@.subrange(0, end as int) =~= base_url@);
    while end > 0 && cs[end - 1] == '/'
        invariant
            cs@ == base_url@,
            end <= cs@.len(),
            without_trailing_slashes(base_url@) == without_trailing_slashes(
                cs@.subrange(0, end as int),
            ),
        decreases end,
    {
        assert(cs@.subrange(0, end as int).drop_last() =~= cs@.subrange(0, end - 1));
        end = end - 1;
    }
    let mut kept: Vec<char> = Vec::new();
    let mut k: usize = 0;
    while k < end
        invariant
            cs@ == base_url@,
            k <= end <= cs@.len(),
            kept@ == cs@.subrange(0, k as int),
        decreases end - k,
    {
        kept.push(cs[k]);
        k = k + 1;
        assert(kept@ =~= cs@.subrange(0, k as int));
    }
    let mut res = string_of(kept.as_slice());
    res.append("/chat/completions");
    res
}

/// Joins an error's message with the messages of its sources, outermost first, with `": "`.
pub open spec fn error_chain_text(messages: Seq<Seq<char>>) -> Seq<char>
    decreases messages.len(),
{
    if messages.len() == 0 {
        Seq::empty()
    } else if messages.len() == 1 {
        messages[0]
    } else {
        error_chain_text(messages.drop_last()) + ": "@ + messages.last()
    }
}

/// Formats an error with its full source chain (given outermost first) for warning logs.
pub fn format_error_chain(messages: &[String]) -> (res: String)
    ensures
        res@ == error_chain_text(messages@.map_values(|m: String| m@)),
{
    let ghost views = messages@.map_values(|m: String| m@);
    let mut res = String::new();
    let mut k: usize = 0;
    while k < messages.len()
        invariant
            k <= messages@.len(),
            views == messages@.map_values(|m: String| m@),
            res@ == error_chain_text(views.take(k as int)),
        decreases messages.len() - k,
    {
        assert(views.take(k + 1).drop_last() =~= views.take(k as int));
        if k > 0 {
            res.append(": ");
        } else {
            assert(res@ =~= Seq::<char>::empty());
        }
        res.append(messages[k].as_str());
        k = k + 1;
    }
    assert(views.take(messages@.len() as int) =~= views);
    res
}

/// The preview of a response body: its first 400 characters, trimmed, followed by `...` when the
/// body was longer.
pub open spec fn body_preview(body: Seq<char>) -> Seq<char> {
    let preview = trim(take_chars(body, OPENAI_LOG_BODY_PREVIEW_CHARS as int));
    if body.len() > OPENAI_LOG_BODY_PREVIEW_CHARS {
        preview + "..."@
    } else {
        preview
    }
}

/// Truncates response text so warning logs keep enough context without flooding output.
pub fn response_body_preview(body: &str) -> (res: String)
    ensures
        res@ == body_preview(body@),
{
    let head = truncate_chars(body, OPENAI_LOG_BODY_PREVIEW_CHARS);
    let mut preview = trim_str(head.as_str());
    if char_count(body) > OPENAI_LOG_BODY_PREVIEW_CHARS {
        preview.append("...");
    }
    preview
}

/// The reply of a chat completion: the first choice's message content, trimmed, when it is not
/// blank.
pub open spec fn completion_content(first_choice_content: Option<Option<Seq<char>>>) -> Option<Seq<char>> {
    match first_choice_content {
        Some(Some(c)) => if trim(c).len() > 0 {
            Some(trim(c))
        } else {
            None
        },
        _ => None,
    }
}

/// Reads the reply of a chat completion from the message contents of its choices, in order:
/// the first choice's content, trimmed, when there is a choice and its content is not blank.
pub fn chat_completion_content(choice_contents: &[Option<String>]) -> (res: Option<String>)
    ensures
        opt_chars(res) == completion_content(
            if choice_contents@.len() > 0 {
                Some(opt_chars(choice_contents@[0]))
            } else {
                None
            },
        ),
{
    if choice_contents.len() == 0 {
        return None;
    }
    match &choice_contents[0] {
        Some(c) => {
            let t = trim_str(c.as_str());
            if t.unicode_len() > 0 {
                Some(t)
            } else {
                None
            }
        },
        None => None,
    }
}

// ---------------------------------------------------------------------------------------------
// Structured replies

/// A JSON value as the structured replies are read.
#[derive(Debug)]
pub enum JsonValue {
    Null,
    Bool(bool),
    /// A number, kept as its JSON text.
    Number(String),
    Str(String),
    Array(Vec<JsonValue>),
    /// Members in document order, keys unique.
    Object(Vec<(String, JsonValue)>),
}

/// The value of the first member named `key`.
pub open spec fn lookup(members: Seq<(String, JsonValue)>, key: Seq<char>) -> Option<JsonValue>
    decreases members.len(),
{
    if members.len() == 0 {
        None
    } else if members[0].0@ == key {
        Some(members[0].1)
    } else {
        lookup(members.drop_first(), key)
    }
}

/// `Value::get`: the member `key` of an object; nothing for other values.
pub open spec fn json_get(v: JsonValue, key: Seq<char>) -> Option<JsonValue> {
    match v {
        JsonValue::Object(members) => lookup(members@, key),
        _ => None,
    }
}

/// `Value::as_str`.
pub open spec fn json_str(v: Option<JsonValue>) -> Option<Seq<char>> {
    match v {
        Some(JsonValue::Str(s)) => Some(s@),
        _ => None,
    }
}

/// `Value::as_bool`.
pub open spec fn json_bool(v: Option<JsonValue>) -> Option<bool> {
    match v {
        Some(JsonValue::Bool(b)) => Some(b),
        _ => None,
    }
}

/// The member `key` of `v`, if `v` is an object that has one.
pub fn json_get_member<'a>(v: &'a JsonValue, key: &str) -> (res: Option<&'a JsonValue>)
    ensures
        match res {
            Some(r) => json_get(*v, key@) == Some(*r),
            None => json_get(*v, key@) is None,
        },
{
    match v {
        JsonValue::Object(members) => {
            let n = members.len();
            let mut i: usize = 0;
            assert(members@.subrange(0, n as int) =~= members@);
            assert(json_get(*v, key@) == lookup(members@, key@));
            while i < n
                invariant
                    n == members@.len(),
                    i <= n,
                    json_get(*v, key@) == lookup(members@, key@),
                    lookup(members@, key@) == lookup(members@.subrange(i as int, n as int), key@),
                decreases n - i,
            {
                let ghost rest = members@.subrange(i as int, n as int);
                assert(rest[0] == members@[i as int]);
                assert(rest.drop_first() =~= members@.subrange(i + 1, n as int));
                if str_eq_key(members[i].0.as_str(), key) {
                    assert(lookup(rest, key@) == Some(rest[0].1));
                    return Some(&members[i].1);
                }
                i = i + 1;
            }
            None
        },
        _ => None,
    }
}

fn str_eq_key(a: &str, b: &str) -> (res: bool)
    ensures
        res == (a@ == b@),
{
    crate::text::str_equals(a, b)
}

/// A string member, trimmed, when it is not blank.
pub open spec fn nonblank(s: Option<Seq<char>>) -> Option<Seq<char>> {
    match s {
        Some(t) => if trim(t).len() > 0 {
            Some(trim(t))
        } else {
            None
        },
        None => None,
    }
}

/// The string `field` found inside one of the wrapper objects, trying them in order.
pub open spec fn wrapped_string(parsed: JsonValue, field: Seq<char>, wrappers: Seq<Seq<char>>) -> Option<Seq<char>>
    decreases wrappers.len(),
{
    if wrappers.len() == 0 {
        None
    } else {
        let inner = match json_get(parsed, wrappers[0]) {
            Some(w) => nonblank(json_str(json_get(w, field))),
            None => None,
        };
        if inner is Some {
            inner
        } else {
            wrapped_string(parsed, field, wrappers.drop_first())
        }
    }
}

/// The string `field` of a structured reply: at the top level, or else inside a wrapper object
/// named after the schema.
pub open spec fn structured_string(parsed: JsonValue, field: Seq<char>, wrappers: Seq<Seq<char>>) -> Option<Seq<char>> {
    let top = nonblank(json_str(json_get(parsed, field)));
    if top is Some {
        top
    } else {
        wrapped_string(parsed, field, wrappers)
    }
}

/// The boolean `field` found inside one of the wrapper objects, trying them in order.
pub open spec fn wrapped_bool(parsed: JsonValue, field: Seq<char>, wrappers: Seq<Seq<char>>) -> Option<bool>
    decreases wrappers.len(),
{
    if wrappers.len() == 0 {
        None
    } else {
        let inner = match json_get(parsed, wrappers[0]) {
            Some(w) => json_bool(json_get(w, field)),
            None => None,
        };
        if inner is Some {
            inner
        } else {
            wrapped_bool(parsed, field, wrappers.drop_first())
        }
    }
}

/// The boolean `field` of a structured reply: at the top level, or inside a wrapper object.
pub open spec fn structured_bool(parsed: JsonValue, field: Seq<char>, wrappers: Seq<Seq<char>>) -> Option<bool> {
    let top = json_bool(json_get(parsed, field));
    if top is Some {
        top
    } else {
        wrapped_bool(parsed, field, wrappers)
    }
}

fn member_string(v: &JsonValue, field: &str) -> (res: Option<String>)
    ensures
        opt_chars(res) == nonblank(json_str(json_get(*v, field@))),
{
    match json_get_member(v, field) {
        Some(JsonValue::Str(s)) => {
            let t = trim_str(s.as_str());
            if t.unicode_len() > 0 {
                Some(t)
            } else {
                None
            }
        },
        _ => None,
    }
}

fn member_bool(v: &JsonValue, field: &str) -> (res: Option<bool>)
    ensures
        res == json_bool(json_get(*v, field@)),
{
    match json_get_member(v, field) {
        Some(JsonValue::Bool(b)) => Some(*b),
        _ => None,
    }
}

/// Reads a non-blank string field of a structured LLM reply, unwrapping a schema-named wrapper
/// object when the model added one.
pub fn extract_string_from_structured_response(
    parsed: &JsonValue,
    field_name: &str,
    wrapper_keys: &[&str],
) -> (res: Option<String>)
    ensures
        opt_chars(res) == structured_string(
            *parsed,
            field_name@,
            wrapper_keys@.map_values(|k: &str| k@),
        ),
{
    if let Some(value) = member_string(parsed, field_name) {
        return Some(value);
    }
    let ghost keys = wrapper_keys@.map_values(|k: &str| k@);
    let n = wrapper_keys.len();
    let mut i: usize = 0;
    assert(keys.subrange(0, n as int) =~= keys);
    while i < n
        invariant
            n == wrapper_keys@.len(),
            keys == wrapper_keys@.map_values(|k: &str| k@),
            i <= n,
            nonblank(json_str(json_get(*parsed, field_name@))) is None,
            wrapped_string(*parsed, field_name@, keys) == wrapped_string(
                *parsed,
                field_name@,
                keys.subrange(i as int, n as int),
            ),
        decreases n - i,
    {
        let ghost rest = keys.subrange(i as int, n as int);
        assert(rest[0] == wrapper_keys@[i as int]@);
        assert(rest.drop_first() =~= keys.subrange(i + 1, n as int));
        if let Some(wrapper) = json_get_member(parsed, wrapper_keys[i]) {
            if let Some(value) = member_string(wrapper, field_name) {
                return Some(value);
            }
        }
        i = i + 1;
    }
    None
}

/// Reads a boolean field of a structured LLM reply, unwrapping a schema-named wrapper object
/// when the model added one.
pub fn extract_bool_from_structured_response(
    parsed: &JsonValue,
    field_name: &str,
    wrapper_keys: &[&str],
) -> (res: Option<bool>)
    ensures
        res == structured_bool(*parsed, field_name@, wrapper_keys@.map_values(|k: &str| k@)),
{
    if let Some(value) = member_bool(parsed, field_name) {
        return Some(value);
    }
    let ghost keys = wrapper_keys@.map_values(|k: &str| k@);
    let n = wrapper_keys.len();
    let mut i: usize = 0;
    assert(keys.subrange(0, n as int) =~= keys);
    while i < n
        invariant
            n == wrapper_keys@.len(),
            keys == wrapper_keys@.map_values(|k: &str| k@),
            i <= n,
            json_bool(json_get(*parsed, field_name@)) is None,
            wrapped_bool(*parsed, field_name@, keys) == wrapped_bool(
                *parsed,
                field_name@,
                keys.subrange(i as int, n as int),
            ),
        decreases n - i,
    {
        let ghost rest = keys.subrange(i as int, n as int);
        assert(rest[0] == wrapper_keys@[i as int]@);
        assert(rest.drop_first() =~= keys.subrange(i + 1, n as int));
        if let Some(wrapper) = json_get_member(parsed, wrapper_keys[i]) {
            if let Some(value) = member_bool(wrapper, field_name) {
                return Some(value);
            }
        }
        i = i + 1;
    }
    None
}

} // verus!
