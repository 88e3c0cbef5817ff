//! Helpers of the chat-completions provider: endpoint URLs and error sanitising.
use vstd::prelude::*;
use crate::text::{
    append_chars, chars_of, ends_with, find, find_exec, find_from, find_from_exec, has_suffix,
    slice_chars, string_of, take_chars, trim_end_char,
};

verus! {

/// The base URL of a provider: its configured API base without trailing `/`.
pub fn provider_base_url(api_base: &str) -> (r: String)
    ensures
        r@ == trim_end_char(api_base@, '/'),
{
    let v = chars_of(api_base);
    let mut n = v.len();
    assert(v@.take(n as int) =~= v@);
    while n > 0 && v[n - 1] == '/'
        invariant
            n <= v@.len(),
            trim_end_char(v@, '/') == trim_end_char(v@.take(n as int), '/'),
        decreases n,
    {
        assert(v@.take(n as int).drop_last() =~= v@.take(n - 1));
        n = n - 1;
    }
    let r = slice_chars(&v, 0, n);
    assert(r@ =~= v@.take(n as int));
    string_of(&r)
}

/// The path of the chat-completions endpoint.
pub open spec fn completions_path() -> Seq<char> {
    "/chat/completions"@
}

/// The chat-completions URL: the base URL itself when it already names the
/// endpoint, else the base URL with the endpoint path appended.
pub open spec fn chat_url_spec(base: Seq<char>) -> Seq<char> {
    if has_suffix(base, completions_path()) {
        base
    } else {
        base + completions_path()
    }
}

/// Build the chat completions URL.
pub fn chat_url(base_url: &str) -> (r: String)
    ensures
        r@ == chat_url_spec(base_url@),
{
    let b = chars_of(base_url);
    let p = chars_of("/chat/completions");
    if ends_with(&b, &p) {
        string_of(&b)
    } else {
        let mut out = b;
        append_chars(&mut out, &p);
        string_of(&out)
    }
}

/// The replacement text for a redacted secret.
pub open spec fn redacted() -> Seq<char> {
    "[REDACTED]"@
}

/// A character that may stand between a credential's name and its value.
pub open spec fn is_separator(c: char) -> bool {
    c == ':' || c == '=' || c == ' ' || c == '"' || c == '\''
}

/// The first position at or after `k` that holds no separator (or the end).
pub open spec fn skip_separators(s: Seq<char>, k: int) -> int
    decreases s.len() - k,
{
    if 0 <= k < s.len() && is_separator(s[k]) {
        skip_separators(s, k + 1)
    } else {
        k
    }
}

/// Where a value starting at `v` ends: at the next space, or at the end.
pub open spec fn value_end(s: Seq<char>, v: int) -> int {
    match find_from(s, seq![' '], v) {
        Some(e) => e,
        None => s.len() as int,
    }
}

/// `s` with its first credential under `key` replaced by the redaction
/// marker: the name, the separators after it and the value that follows, up
/// to the next space or the end; unchanged when `key` is absent.
pub open spec fn redact(s: Seq<char>, key: Seq<char>) -> Seq<char> {
    match find(s, key) {
        Some(i) => s.take(i) + redacted() + s.skip(
            value_end(s, skip_separators(s, i + key.len())),
        ),
        None => s,
    }
}

/// An error body as it may be shown: its first 500 characters, with the
/// first `api_key` and then the first `token` credential redacted.
pub open spec fn sanitize_spec(e: Seq<char>) -> Seq<char> {
    redact(redact(take_chars(e, 500), "api_key"@), "token"@)
}

fn is_separator_exec(c: char) -> (r: bool)
    ensures
        r == is_separator(c),
{
    c == ':' || c == '=' || c == ' ' || c == '"' || c == '\''
}

fn redact_exec(s: Vec<char>, key: &[char]) -> (r: Vec<char>)
    ensures
        r@ == redact(s@, key@),
{
    match find_exec(&s, key) {
        Some(i) => {
            proof {
                crate::text::lemma_find_from_bounds(s@, key@, 0);
                assert(find_from(s@, key@, 0) == Some(i as int));
                assert(crate::text::occurs_at(s@, key@, i as int));
                assert(i + key@.len() <= s@.len());
            }
            let klen = key.len();
            let n = s.len();
            assert(i + klen <= n);
            let start = i + klen;
            let mut k = start;
            while k < s.len() && is_separator_exec(s[k])
                invariant
                    start <= k <= s@.len(),
                    skip_separators(s@, start as int) == skip_separators(s@, k as int),
                decreases s@.len() - k,
            {
                k = k + 1;
            }
            assert(skip_separators(s@, k as int) == k);
            let sp = vec![' '];
            assert(sp@ == seq![' ']);
            let end = match find_from_exec(&s, &sp, k) {
                Some(e) => {
                    proof {
                        crate::text::lemma_find_from_bounds(s@, sp@, k as int);
                    }
                    e
                },
                None => s.len(),
            };
            assert(end as int == value_end(s@, k as int));
            let mut out = slice_chars(&s, 0, i);
            let red = chars_of("[REDACTED]");
            append_chars(&mut out, &red);
            let tail = slice_chars(&s, end, s.len());
            append_chars(&mut out, &tail);
            assert(s@.take(i as int) =~= s@.subrange(0, i as int));
            assert(s@.skip(end as int) =~= s@.subrange(end as int, s@.len() as int));
            out
        },
        None => s,
    }
}

/// Sanitize error messages to avoid leaking secrets.
pub fn sanitize_error(error: &str) -> (r: String)
    ensures
        r@ == sanitize_spec(error@),
{
    let v = chars_of(error);
    let head = if v.len() <= 500 {
        v
    } else {
        slice_chars(&v, 0, 500)
    };
    assert(head@ =~= take_chars(error@, 500));
    let k1 = chars_of("api_key");
    let k2 = chars_of("token");
    let a = redact_exec(head, &k1);
    let b = redact_exec(a, &k2);
    string_of(&b)
}

/// The message of a failed status: the status, then the sanitised body.
pub open spec fn api_error_message(status: Seq<char>, body: Seq<char>) -> Seq<char> {
    "API error ("@ + status + "): "@ + sanitize_spec(body)
}

/// The message of a body that could not be parsed: the parser's words, then
/// the first 200 characters of the body.
pub open spec fn parse_error_message(error: Seq<char>, body: Seq<char>) -> Seq<char> {
    "Failed to parse response: "@ + error + " (body: "@ + take_chars(body, 200) + "...)"@
}

/// The message of a reply without content.
pub open spec fn no_content_message() -> Seq<char> {
    "No response content returned"@
}

/// What a chat request gives: for a failed status, its error; for a body
/// that could not be parsed, the parse error; else the content of the first
/// choice, or an error when there is none.
pub open spec fn chat_reply_spec(
    status_ok: bool,
    status: Seq<char>,
    body: Seq<char>,
    parsed: Result<Option<Seq<char>>, Seq<char>>,
) -> Result<Seq<char>, Seq<char>> {
    if !status_ok {
        Err(api_error_message(status, body))
    } else {
        match parsed {
            Err(e) => Err(parse_error_message(e, body)),
            Ok(Some(c)) => Ok(c),
            Ok(None) => Err(no_content_message()),
        }
    }
}

/// Judge the answer of the chat endpoint. `status_ok` and `status` are the
/// HTTP status; `body` the text of the answer; `parsed` the content of its
/// first choice (none when it has no choice or no content), or the parser's
/// error. Returns the content, or the error message.
pub fn chat_reply(
    status_ok: bool,
    status: &str,
    body: &str,
    parsed: Result<Option<String>, String>,
) -> (r: Result<String, String>)
    ensures
        (match r {
            Ok(c) => Ok(c@),
            Err(m) => Err(m@),
        }) == chat_reply_spec(
            status_ok,
            status@,
            body@,
            match parsed {
                Ok(Some(c)) => Ok(Some(c@)),
                Ok(None) => Ok(None),
                Err(e) => Err(e@),
            },
        ),
{
    if !status_ok {
        let mut out = chars_of("API error (");
        append_chars(&mut out, &chars_of(status));
        append_chars(&mut out, &chars_of("): "));
        let clean = sanitize_error(body);
        append_chars(&mut out, &chars_of(clean.as_str()));
        return Err(string_of(&out));
    }
    match parsed {
        Err(e) => {
            let mut out = chars_of("Failed to parse response: ");
            append_chars(&mut out, &chars_of(e.as_str()));
            append_chars(&mut out, &chars_of(" (body: "));
            let b = chars_of(body);
            let head = if b.len() <= 200 {
                b
            } else {
                slice_chars(&b, 0, 200)
            };
            assert(head@ =~= take_chars(body@, 200));
            append_chars(&mut out, &head);
            append_chars(&mut out, &chars_of("...)"));
            Err(string_of(&out))
        },
        Ok(Some(c)) => Ok(c),
        Ok(None) => Err(String::from_str("No response content returned")),
    }
}

/// The content of the first choice of a chat-completions reply body (none
/// when it has none), or the text of the parser's error.
pub uninterp spec fn chat_body_content(body: Seq<char>) -> Result<Option<Seq<char>>, Seq<char>>;

/// Reads a chat-completions reply body.
/// Trusted: parses with `serde_json::from_str` into a `Value` (its error
/// written with `Display`), then reads `choices[0].message.content` with
/// `Value::get` and `Value::as_str`; a body without that string gives none.
/// The result depends on the body alone and is named by `chat_body_content`.
#[verifier::external_body]
fn parse_chat_body(body: &str) -> (r: Result<Option<String>, String>)
    ensures
        r matches Ok(Some(c)) ==> (chat_body_content(body@) matches Ok(Some(d)) && d == c@),
        r matches Ok(None) ==> chat_body_content(body@) matches Ok(None),
        r matches Err(e) ==> (chat_body_content(body@) matches Err(d) && d == e@),
{
    match serde_json::from_str::<serde_json::Value>(body) {
        Ok(v) => Ok(v
            .get("choices")
            .and_then(|c| c.get(0))
            .and_then(|c| c.get("message"))
            .and_then(|m| m.get("content"))
            .and_then(|t| t.as_str())
            .map(|t| t.to_string())),
        Err(e) => Err(e.to_string()),
    }
}

/// The answer of the chat endpoint: for a failed status, its error; else
/// the body is read and judged as `chat_reply` does.
pub fn chat_answer(status_ok: bool, status: &str, body: &str) -> (r: Result<String, String>)
    ensures
        (match r {
            Ok(c) => Ok(c@),
            Err(m) => Err(m@),
        }) == chat_reply_spec(status_ok, status@, body@, chat_body_content(body@)),
{
    if !status_ok {
        return chat_reply(false, status, body, Ok(None));
    }
    let parsed = parse_chat_body(body);
    chat_reply(true, status, body, parsed)
}

} // verus!
