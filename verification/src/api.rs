//! Cloud API: endpoint URLs and user-facing messages for failed requests.
use vstd::prelude::*;

use crate::text::{
    decimal, is_ws, lemma_leading_ws_bound, lemma_trailing_ws_bound, push_chars, push_str, skip_ws,
    str_chars, str_eq, to_owned_string, trim_chars, trailing_ws, trim, trim_end, trim_start, u64_to_string,
};

verus! {

/// Default fallow cloud API base URL.
pub const DEFAULT_API_URL: &'static str = "https://api.fallow.cloud";

/// Exit code for network failures (connect error, timeout, auth rejection).
pub const NETWORK_EXIT_CODE: u8 = 7;

/// Structured error payload returned by fallow cloud on non-2xx responses.
#[derive(Debug, Default)]
pub struct ErrorEnvelope {
    /// Machine-readable code (e.g. `rate_limit_exceeded`, `payload_too_large`).
    pub code: Option<String>,
    /// Human-readable message from the backend.
    pub message: Option<String>,
}

pub open spec fn hint_token_stale() -> Seq<char> {
    "your stored license is too stale to refresh. Reactivate with: fallow license activate --trial --email <addr>"@
}

pub open spec fn hint_invalid_token() -> Seq<char> {
    "your stored license token is missing required claims. Reactivate with: fallow license activate --trial --email <addr>"@
}

pub open spec fn hint_unauthorized_license() -> Seq<char> {
    "authentication failed. Reactivate with: fallow license activate --trial --email <addr>"@
}

pub open spec fn hint_unauthorized_upload() -> Seq<char> {
    "authentication failed. Generate an API key at https://fallow.cloud/settings#api-keys and set FALLOW_API_KEY on the runner. Note: this key is separate from the license JWT; `fallow license activate --trial` will not fix this error."@
}

pub open spec fn hint_rate_limited() -> Seq<char> {
    "trial creation is rate-limited to 5 per hour per IP. Wait an hour or retry from a different network (in CI, start the trial locally and set FALLOW_LICENSE on the runner)."@
}

pub open spec fn hint_payload_too_large() -> Seq<char> {
    "inventory exceeds the 200,000-function server limit. Scope the walk with --exclude-paths, or open an issue if this is a legitimately large repo."@
}

/// The actionable hint for a backend error code in the context of an operation.
pub open spec fn hint_spec(operation: Seq<char>, code: Seq<char>) -> Option<Seq<char>> {
    if operation == "refresh"@ && code == "token_stale"@ {
        Some(hint_token_stale())
    } else if operation == "refresh"@ && code == "invalid_token"@ {
        Some(hint_invalid_token())
    } else if (operation == "refresh"@ || operation == "trial"@) && code == "unauthorized"@ {
        Some(hint_unauthorized_license())
    } else if operation == "upload-inventory"@ && code == "unauthorized"@ {
        Some(hint_unauthorized_upload())
    } else if operation == "trial"@ && code == "rate_limit_exceeded"@ {
        Some(hint_rate_limited())
    } else if operation == "upload-inventory"@ && code == "payload_too_large"@ {
        Some(hint_payload_too_large())
    } else {
        None
    }
}

/// Map a backend error-code + operation pair to an actionable user-facing
/// hint. Returns `None` for unknown codes.
pub fn actionable_error_hint(operation: &str, code: &str) -> (r: Option<&'static str>)
    ensures
        match r {
            Some(h) => hint_spec(operation@, code@) == Some(h@),
            None => hint_spec(operation@, code@) is None,
        },
{
    let refresh = str_eq(operation, "refresh");
    let trial = str_eq(operation, "trial");
    let upload = str_eq(operation, "upload-inventory");
    if refresh && str_eq(code, "token_stale") {
        Some("your stored license is too stale to refresh. Reactivate with: fallow license activate --trial --email <addr>")
    } else if refresh && str_eq(code, "invalid_token") {
        Some("your stored license token is missing required claims. Reactivate with: fallow license activate --trial --email <addr>")
    } else if (refresh || trial) && str_eq(code, "unauthorized") {
        Some("authentication failed. Reactivate with: fallow license activate --trial --email <addr>")
    } else if upload && str_eq(code, "unauthorized") {
        Some("authentication failed. Generate an API key at https://fallow.cloud/settings#api-keys and set FALLOW_API_KEY on the runner. Note: this key is separate from the license JWT; `fallow license activate --trial` will not fix this error.")
    } else if trial && str_eq(code, "rate_limit_exceeded") {
        Some("trial creation is rate-limited to 5 per hour per IP. Wait an hour or retry from a different network (in CI, start the trial locally and set FALLOW_LICENSE on the runner).")
    } else if upload && str_eq(code, "payload_too_large") {
        Some("inventory exceeds the 200,000-function server limit. Scope the walk with --exclude-paths, or open an issue if this is a legitimately large repo.")
    } else {
        None
    }
}


/// The message shown for a non-2xx response: the mapped hint with status and
/// code when the envelope's code is known for the operation, else a generic
/// line with the backend's message (or the raw body) appended when not blank.
pub open spec fn status_message_spec(
    status: u16,
    body: Seq<char>,
    code: Option<Seq<char>>,
    message: Option<Seq<char>>,
    operation: Seq<char>,
) -> Seq<char> {
    if code is Some && hint_spec(operation, code->0) is Some {
        hint_spec(operation, code->0)->0 + " (HTTP "@ + decimal(status as nat) + ", code "@ + code->0 + ")"@
    } else {
        let suffix = if message is Some && trim(message->0).len() > 0 {
            ": "@ + trim(message->0)
        } else if trim(body).len() > 0 {
            ": "@ + trim(body)
        } else {
            seq![]
        };
        operation + " request failed with HTTP "@ + decimal(status as nat) + suffix
    }
}

pub open spec fn opt_view(o: Option<String>) -> Option<Seq<char>> {
    match o { Some(s) => Some(s@), None => None }
}

/// The envelope's code and message, when the body parsed as an envelope.
pub open spec fn envelope_code(e: Option<ErrorEnvelope>) -> Option<Seq<char>> {
    match e { Some(env) => opt_view(env.code), None => None }
}

pub open spec fn envelope_message(e: Option<ErrorEnvelope>) -> Option<Seq<char>> {
    match e { Some(env) => opt_view(env.message), None => None }
}

/// Format a non-2xx response into a user-facing error string, given the
/// status, the raw body and the body parsed as an [`ErrorEnvelope`] (`None`
/// when it did not parse).
pub fn format_http_status_message(
    status: u16,
    body: &str,
    envelope: Option<&ErrorEnvelope>,
    operation: &str,
) -> (r: String)
    ensures
        r@ == status_message_spec(
            status,
            body@,
            envelope_code(match envelope { Some(e) => Some(*e), None => None }),
            envelope_message(match envelope { Some(e) => Some(*e), None => None }),
            operation@,
        ),
{
    let status_text = u64_to_string(status as u64);
    if let Some(env) = envelope {
        if let Some(code) = &env.code {
            if let Some(hint) = actionable_error_hint(operation, code.as_str()) {
                let mut r = to_owned_string(hint);
                push_str(&mut r, " (HTTP ");
                push_str(&mut r, status_text.as_str());
                push_str(&mut r, ", code ");
                push_str(&mut r, code.as_str());
                push_str(&mut r, ")");
                return r;
            }
        }
    }
    let mut r = to_owned_string(operation);
    push_str(&mut r, " request failed with HTTP ");
    push_str(&mut r, status_text.as_str());
    let trimmed_message = match envelope {
        Some(env) => match &env.message {
            Some(m) => {
                let mv = str_chars(m.as_str());
                Some(trim_chars(&mv))
            },
            None => None,
        },
        None => None,
    };
    let bv = str_chars(body);
    let tb = trim_chars(&bv);
    match trimmed_message {
        Some(tm) if tm.len() > 0 => {
            push_str(&mut r, ": ");
            push_chars(&mut r, &tm, 0, tm.len());
            assert(tm@.subrange(0, tm@.len() as int) =~= tm@);
        },
        _ => {
            if tb.len() > 0 {
                push_str(&mut r, ": ");
                push_chars(&mut r, &tb, 0, tb.len());
                assert(tb@.subrange(0, tb@.len() as int) =~= tb@);
            } else {
                assert(r@ =~= r@ + Seq::<char>::empty());
            }
        },
    }
    r
}

/// The base URL in use: the override when it is present and not blank, else
/// the default.
pub open spec fn api_base_spec(base_override: Option<Seq<char>>) -> Seq<char> {
    if base_override is Some && trim(base_override->0).len() > 0 {
        base_override->0
    } else {
        DEFAULT_API_URL@
    }
}

/// Number of trailing `/` characters of `s`.
pub open spec fn trailing_slashes(s: Seq<char>) -> nat
    decreases s.len(),
{
    if s.len() > 0 && s.last() == '/' { 1 + trailing_slashes(s.drop_last()) } else { 0 }
}

proof fn lemma_trailing_slashes_bound(s: Seq<char>)
    ensures
        trailing_slashes(s) <= s.len(),
    decreases s.len(),
{
    if s.len() > 0 && s.last() == '/' {
        lemma_trailing_slashes_bound(s.drop_last());
    }
}

/// The full URL of an endpoint: the base without its trailing slashes, then the path.
pub open spec fn api_url_spec(base_override: Option<Seq<char>>, path: Seq<char>) -> Seq<char> {
    let base = api_base_spec(base_override);
    base.take(base.len() - trailing_slashes(base)) + path
}

proof fn lemma_trimmed_base_has_no_trailing_slash(s: Seq<char>)
    ensures
        trailing_slashes(s) <= s.len(),
        s.len() - trailing_slashes(s) > 0 ==> s[s.len() - trailing_slashes(s) - 1] != '/',
        forall|i: int| s.len() - trailing_slashes(s) <= i < s.len() ==> s[i] == '/',
    decreases s.len(),
{
    if s.len() > 0 && s.last() == '/' {
        lemma_trimmed_base_has_no_trailing_slash(s.drop_last());
        assert forall|i: int| s.len() - trailing_slashes(s) <= i < s.len() implies s[i] == '/' by {
            if i < s.len() - 1 {
                assert(s[i] == s.drop_last()[i]);
            }
        }
    }
}

/// An endpoint URL ends with the path, and the base part before it does not
/// end in `/`: a path that starts with one `/` never meets a second.
pub proof fn lemma_api_url_no_double_slash(base_override: Option<Seq<char>>, path: Seq<char>)
    ensures
        ({
            let url = api_url_spec(base_override, path);
            let n = url.len() - path.len();
            &&& 0 <= n
            &&& url.subrange(n, url.len() as int) == path
            &&& n > 0 ==> url[n - 1] != '/'
        }),
{
    let base = api_base_spec(base_override);
    lemma_trimmed_base_has_no_trailing_slash(base);
    let url = api_url_spec(base_override, path);
    let kept = base.take(base.len() - trailing_slashes(base));
    assert(url.subrange(kept.len() as int, url.len() as int) =~= path);
    if kept.len() > 0 {
        assert(url[kept.len() - 1] == base[kept.len() - 1]);
    }
}

/// Resolve an API endpoint path to a full URL against the base URL override
/// (the `FALLOW_API_URL` setting) or the default base.
pub fn api_url_from(base_override: Option<&str>, path: &str) -> (r: String)
    ensures
        r@ == api_url_spec(match base_override { Some(b) => Some(b@), None => None }, path@),
{
    let use_override = match base_override {
        Some(b) => {
            let bv = str_chars(b);
            trim_chars(&bv).len() > 0
        },
        None => false,
    };
    let base = if use_override {
        match base_override { Some(b) => str_chars(b), None => str_chars(DEFAULT_API_URL) }
    } else {
        str_chars(DEFAULT_API_URL)
    };
    let mut end = base.len();
    assert(base@.take(end as int) =~= base@);
    while end > 0 && base[end - 1] == '/'
        invariant
            end <= base@.len(),
            trailing_slashes(base@) == (base@.len() - end) + trailing_slashes(base@.take(end as int)),
        decreases end,
    {
        assert(base@.take(end as int).drop_last() =~= base@.take(end - 1));
        end = end - 1;
    }
    proof {
        lemma_trailing_slashes_bound(base@.take(end as int));
    }
    let mut r = String::new();
    push_chars(&mut r, &base, 0, end);
    push_str(&mut r, path);
    assert(base@.subrange(0, end as int) =~= base@.take(end as int));
    r
}

} // verus!
