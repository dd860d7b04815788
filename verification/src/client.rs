//! The client and its configuration: API key, API root, default model, retry
//! policy and timeout, with environment values as fallbacks.

use std::sync::Arc;
use std::time::Duration;

use reqwest::Client as HttpClient;
use reqwest::ClientBuilder as HttpClientBuilder;

use vstd::prelude::*;
use vstd::string::*;
use vstd::utf8::{decode_utf8, encode_utf8, is_char_boundary};

use crate::error::Error;
use crate::json::{
    as_text, get_member, json_is_object, json_object_entries, json_parse, json_string, json_text, parse_json,
    to_json_text,
};
use crate::maps::opt_chars;
use crate::question::Question;
use crate::request::{StateView, SystemOneRequest};
use crate::retry::RetryPolicy;
use crate::text::{concat2, decimal, decimal_string, trim, trim_slashes, trim_trailing_slashes, trimmed};
use crate::time::{duration_debug, duration_text, nanos, seconds};

verus! {

/// Production API root.
pub const DEFAULT_BASE_URL: &'static str = "https://api.typesafe.ai";
/// Model used when none is configured: the latest stable Jev release.
pub const DEFAULT_MODEL: &'static str = "jev-latest";
/// Per-request timeout when none is configured, in seconds.
pub const DEFAULT_TIMEOUT_SECS: u64 = 30;
/// Environment variable holding the API key.
pub const ENV_API_KEY: &'static str = "TYPESAFE_API_KEY";
/// Environment variable holding the default model.
pub const ENV_MODEL: &'static str = "TYPESAFE_DEFAULT_MODEL";
/// Environment variable holding the API root.
pub const ENV_BASE_URL: &'static str = "TYPESAFE_BASE_URL";

/// Longest error body kept in an error message, in bytes.
pub const MAX_ERROR_BODY: usize = 2048;

/// The text of a member of an error body: a string as it is, anything else as JSON.
pub open spec fn member_text(m: serde_json::Value) -> Seq<char> {
    match json_string(m) {
        Some(s) => s,
        None => json_text(m),
    }
}

/// The text under the first of `detail`, `message` and `error` that a JSON body has.
pub open spec fn body_detail(v: serde_json::Value) -> Option<Seq<char>> {
    if json_is_object(v) && json_object_entries(v).contains_key("detail"@) {
        Some(member_text(json_object_entries(v)["detail"@]))
    } else if json_is_object(v) && json_object_entries(v).contains_key("message"@) {
        Some(member_text(json_object_entries(v)["message"@]))
    } else if json_is_object(v) && json_object_entries(v).contains_key("error"@) {
        Some(member_text(json_object_entries(v)["error"@]))
    } else {
        None
    }
}

/// The message an error body stands for: its detail when it is JSON with one,
/// else the body itself.
pub open spec fn body_message(text: Seq<char>) -> Seq<char> {
    match json_parse(text) {
        Some(v) => match body_detail(v) {
            Some(d) => d,
            None => text,
        },
        None => text,
    }
}

/// The greatest character boundary of `bytes` at or below `i`.
pub open spec fn boundary_at_or_below(bytes: Seq<u8>, i: nat) -> nat
    decreases i,
{
    if i == 0 || is_char_boundary(bytes, i as int) {
        i
    } else {
        boundary_at_or_below(bytes, (i - 1) as nat)
    }
}

/// `message` cut to at most `MAX_ERROR_BODY` bytes at a character boundary, with an
/// ellipsis when something was cut.
pub open spec fn truncated(message: Seq<char>) -> Seq<char> {
    let bytes = encode_utf8(message);
    if bytes.len() > MAX_ERROR_BODY {
        decode_utf8(bytes.take(boundary_at_or_below(bytes, MAX_ERROR_BODY as nat) as int)) + "…"@
    } else {
        message
    }
}

proof fn lemma_encode_concat(a: Seq<char>, b: Seq<char>)
    ensures
        encode_utf8(a + b) == encode_utf8(a) + encode_utf8(b),
    decreases a.len(),
{
    if a.len() == 0 {
        assert(a + b =~= b);
        assert(encode_utf8(a) + encode_utf8(b) =~= encode_utf8(b));
    } else {
        lemma_encode_concat(a.drop_first(), b);
        assert((a + b).drop_first() =~= a.drop_first() + b);
        assert((a + b)[0] == a[0]);
        assert(encode_utf8(a + b) =~= encode_utf8(a) + encode_utf8(b));
    }
}

proof fn lemma_boundary_below(bytes: Seq<u8>, i: nat)
    requires
        vstd::utf8::valid_utf8(bytes),
    ensures
        boundary_at_or_below(bytes, i) <= i,
        is_char_boundary(bytes, boundary_at_or_below(bytes, i) as int),
    decreases i,
{
    if i > 0 && !is_char_boundary(bytes, i as int) {
        lemma_boundary_below(bytes, (i - 1) as nat);
    }
}

/// An error message keeps at most `MAX_ERROR_BODY` bytes of the body's message:
/// a short message is kept whole, a long one is cut at a character boundary to a
/// prefix of its bytes, followed by the ellipsis.
pub proof fn law_message_bounded(message: Seq<char>)
    ensures
        encode_utf8(message).len() <= MAX_ERROR_BODY ==> truncated(message) == message,
        encode_utf8(message).len() > MAX_ERROR_BODY ==> exists|e: int| 0 <= e <= MAX_ERROR_BODY
            && encode_utf8(truncated(message)) == encode_utf8(message).take(e) + encode_utf8("…"@),
        encode_utf8(truncated(message)).len() <= MAX_ERROR_BODY + encode_utf8("…"@).len(),
{
    broadcast use vstd::utf8::encode_utf8_valid_utf8, vstd::utf8::decode_utf8_encode_utf8;
    let bytes = encode_utf8(message);
    if bytes.len() > MAX_ERROR_BODY {
        let e = boundary_at_or_below(bytes, MAX_ERROR_BODY as nat);
        lemma_boundary_below(bytes, MAX_ERROR_BODY as nat);
        vstd::utf8::valid_utf8_split(bytes, e as int);
        let prefix = bytes.take(e as int);
        assert(prefix =~= bytes.subrange(0, e as int));
        assert(encode_utf8(decode_utf8(prefix)) == prefix);
        lemma_encode_concat(decode_utf8(prefix), "…"@);
        assert(encode_utf8(truncated(message)) == prefix + encode_utf8("…"@));
    }
}

fn member_string(m: &serde_json::Value) -> (r: String)
    ensures
        r@ == member_text(*m),
{
    match as_text(m) {
        Some(s) => String::from_str(s),
        None => to_json_text(m),
    }
}

/// The message of an error response whose body is `text`: the `detail`,
/// `message` or `error` member of a JSON body (the first present; a string as is,
/// anything else as JSON), else the whole body; cut to `MAX_ERROR_BODY` bytes at a
/// character boundary, with an ellipsis when cut.
pub fn error_message(text: String) -> (r: String)
    ensures
        r@ == truncated(body_message(text@)),
{
    let message = match parse_json(text.as_str()) {
        Some(v) => {
            match get_member(&v, "detail") {
                Some(m) => member_string(m),
                None => match get_member(&v, "message") {
                    Some(m) => member_string(m),
                    None => match get_member(&v, "error") {
                        Some(m) => member_string(m),
                        None => text,
                    },
                },
            }
        },
        None => text,
    };
    truncate_message(message)
}

fn truncate_message(message: String) -> (r: String)
    ensures
        r@ == truncated(message@),
{
    broadcast use vstd::utf8::encode_utf8_valid_utf8, vstd::utf8::encode_utf8_decode_utf8;
    let s = message.as_str();
    let byte_len = s.as_bytes().len();
    if byte_len > MAX_ERROR_BODY {
        let ghost bytes = encode_utf8(message@);
        let mut end: usize = MAX_ERROR_BODY;
        assert(boundary_at_or_below(bytes, end as nat) == boundary_at_or_below(bytes, MAX_ERROR_BODY as nat));
        while !s.is_char_boundary(end)
            invariant
                0 <= end <= MAX_ERROR_BODY,
                s.spec_bytes() == bytes,
                bytes.len() > MAX_ERROR_BODY,
                vstd::utf8::valid_utf8(bytes),
                boundary_at_or_below(bytes, end as nat) == boundary_at_or_below(bytes, MAX_ERROR_BODY as nat),
            decreases end,
        {
            end = end - 1;
        }
        assert(boundary_at_or_below(bytes, end as nat) == end);
        let (head, _) = s.split_at(end);
        proof {
            assert(head.spec_bytes() =~= bytes.take(end as int));
            assert(decode_utf8(encode_utf8(head@)) == head@);
        }
        let mut r = String::from_str(head);
        r.append("…");
        assert(r@ == decode_utf8(bytes.take(end as int)) + "…"@);
        r
    } else {
        assert(s.spec_bytes() == encode_utf8(message@));
        message
    }
}

/// `reqwest::Client::builder`: a builder with the HTTP client's defaults.
#[verifier::external_body]
fn http_client_builder() -> HttpClientBuilder {
    HttpClient::builder()
}

/// `reqwest::ClientBuilder::build`: fails when the TLS backend (rustls) cannot be
/// initialised or the system configuration cannot be loaded; nothing is promised
/// of which, so the result is left unstated.
#[verifier::external_body]
fn build_http_client(b: HttpClientBuilder) -> Result<HttpClient, reqwest::Error> {
    b.build()
}

/// `Display` of an HTTP client error (through `ToString`); nothing is promised of
/// the text.
#[verifier::external_body]
fn http_error_text(e: &reqwest::Error) -> String {
    e.to_string()
}

/// The values of the three environment variables, as read (`None` when unset).
pub struct Environment {
    /// `TYPESAFE_API_KEY`.
    pub api_key: Option<String>,
    /// `TYPESAFE_BASE_URL`.
    pub base_url: Option<String>,
    /// `TYPESAFE_DEFAULT_MODEL`.
    pub model: Option<String>,
}

/// An environment value that counts: trimmed, and only when something is left.
pub open spec fn env_value(raw: Option<String>) -> Option<Seq<char>> {
    match raw {
        Some(v) => if trimmed(v@).len() > 0 { Some(trimmed(v@)) } else { None },
        None => None,
    }
}

/// The trimmed value of an environment variable, when it is set and not blank.
pub fn non_empty_value(raw: Option<String>) -> (r: Option<String>)
    ensures
        opt_chars(r) == env_value(raw),
{
    match raw {
        Some(v) => {
            let t = trim(v.as_str());
            if t.as_str().is_empty() {
                None
            } else {
                Some(t)
            }
        },
        None => None,
    }
}

struct Inner {
    http: HttpClient,
    api_key: String,
    base_url: String,
    model: String,
    retry: RetryPolicy,
    timeout: Duration,
}

/// Client for the System One API. Cheap to clone; shares one HTTP pool.
#[derive(Clone)]
pub struct Client {
    inner: Arc<Inner>,
}

/// What a client is configured with.
pub ghost struct ClientConfig {
    pub http: HttpClient,
    pub api_key: Seq<char>,
    pub base_url: Seq<char>,
    pub model: Seq<char>,
    pub retry: RetryPolicy,
    pub timeout: Duration,
}

impl View for Client {
    type V = ClientConfig;

    closed spec fn view(&self) -> ClientConfig {
        ClientConfig {
            http: self.inner.http,
            api_key: self.inner.api_key@,
            base_url: self.inner.base_url@,
            model: self.inner.model@,
            retry: self.inner.retry,
            timeout: self.inner.timeout,
        }
    }
}

/// Builder for [`Client`]. Explicit values win over environment variables.
pub struct ClientBuilder {
    api_key: Option<String>,
    base_url: Option<String>,
    model: Option<String>,
    retry: Option<RetryPolicy>,
    timeout: Option<Duration>,
    http: Option<HttpClient>,
}

/// What a client builder holds: the explicitly given settings.
pub ghost struct BuilderSettings {
    pub api_key: Option<Seq<char>>,
    pub base_url: Option<Seq<char>>,
    pub model: Option<Seq<char>>,
    pub retry: Option<RetryPolicy>,
    pub timeout: Option<Duration>,
    pub http: Option<HttpClient>,
}

impl View for ClientBuilder {
    type V = BuilderSettings;

    closed spec fn view(&self) -> BuilderSettings {
        BuilderSettings {
            api_key: opt_chars(self.api_key),
            base_url: opt_chars(self.base_url),
            model: opt_chars(self.model),
            retry: self.retry,
            timeout: self.timeout,
            http: self.http,
        }
    }
}

/// `text` in double quotes.
pub open spec fn quoted(text: Seq<char>) -> Seq<char> {
    "\""@ + text + "\""@
}

/// The description of a retry policy: each setting and its value.
pub open spec fn retry_description(p: RetryPolicy) -> Seq<char> {
    "RetryPolicy { max_retries: "@ + decimal(p.max_retries as nat) + ", backoff_initial: "@ + duration_debug(
        p.backoff_initial,
    ) + ", backoff_max: "@ + duration_debug(p.backoff_max) + ", backoff_jitter: "@ + decimal(
        p.backoff_jitter as nat,
    ) + ", respect_retry_after: "@ + (if p.respect_retry_after {
        "true"@
    } else {
        "false"@
    }) + " }"@
}

/// The description of a client: API root, model, retry policy and timeout. The API
/// key is not part of it.
pub open spec fn client_description(c: ClientConfig) -> Seq<char> {
    "Client { base_url: "@ + quoted(c.base_url) + ", model: "@ + quoted(c.model) + ", retry: "@
        + retry_description(c.retry) + ", timeout: "@ + duration_debug(c.timeout) + ", .. }"@
}

/// An optional setting: `None`, or `Some(..)` around the description of its value.
pub open spec fn optional_description(d: Option<Seq<char>>) -> Seq<char> {
    match d {
        Some(t) => "Some("@ + t + ")"@,
        None => "None"@,
    }
}

/// The description of a builder: each setting given so far. An API key shows only
/// as `<redacted>`.
pub open spec fn builder_description(b: BuilderSettings) -> Seq<char> {
    "ClientBuilder { api_key: "@ + optional_description(
        match b.api_key {
            Some(_) => Some(quoted("<redacted>"@)),
            None => None,
        },
    ) + ", base_url: "@ + optional_description(
        match b.base_url {
            Some(u) => Some(quoted(u)),
            None => None,
        },
    ) + ", model: "@ + optional_description(
        match b.model {
            Some(m) => Some(quoted(m)),
            None => None,
        },
    ) + ", retry: "@ + optional_description(
        match b.retry {
            Some(p) => Some(retry_description(p)),
            None => None,
        },
    ) + ", timeout: "@ + optional_description(
        match b.timeout {
            Some(t) => Some(duration_debug(t)),
            None => None,
        },
    ) + ", .. }"@
}

fn retry_text(p: &RetryPolicy) -> (r: String)
    ensures
        r@ == retry_description(*p),
{
    let mut s = String::from_str("RetryPolicy { max_retries: ");
    s.append(decimal_string(p.max_retries as usize).as_str());
    s.append(", backoff_initial: ");
    s.append(duration_text(p.backoff_initial).as_str());
    s.append(", backoff_max: ");
    s.append(duration_text(p.backoff_max).as_str());
    s.append(", backoff_jitter: ");
    s.append(decimal_string(p.backoff_jitter as usize).as_str());
    s.append(", respect_retry_after: ");
    if p.respect_retry_after {
        s.append("true");
    } else {
        s.append("false");
    }
    s.append(" }");
    s
}

fn quoted_string(text: &str) -> (r: String)
    ensures
        r@ == quoted(text@),
{
    let mut s = String::from_str("\"");
    s.append(text);
    s.append("\"");
    s
}

fn optional_text(s: &mut String, d: Option<String>)
    ensures
        final(s)@ == old(s)@ + optional_description(opt_chars(d)),
{
    match d {
        Some(t) => {
            s.append("Some(");
            s.append(t.as_str());
            s.append(")");
        },
        None => {
            s.append("None");
        },
    }
}

/// Whether `p` has the default retry settings.
pub open spec fn is_default_retry(p: RetryPolicy) -> bool {
    &&& p.max_retries == 2
    &&& nanos(p.backoff_initial) == 500_000_000
    &&& nanos(p.backoff_max) == 5_000_000_000
    &&& p.backoff_jitter == 250_000
    &&& p.respect_retry_after
}

/// The API key a build uses: an explicit key unless it is blank, else the
/// environment's.
pub open spec fn chosen_api_key(b: BuilderSettings, env: Environment) -> Option<Seq<char>> {
    match b.api_key {
        Some(k) => if trimmed(k).len() > 0 { Some(k) } else { env_value(env.api_key) },
        None => env_value(env.api_key),
    }
}

/// The API root a build uses, without trailing slashes: explicit, else the
/// environment's, else the production root.
pub open spec fn chosen_base_url(b: BuilderSettings, env: Environment) -> Seq<char> {
    trim_trailing_slashes(
        match b.base_url {
            Some(u) => u,
            None => match env_value(env.base_url) {
                Some(u) => u,
                None => DEFAULT_BASE_URL@,
            },
        },
    )
}

/// The default model a build uses: explicit, else the environment's, else `jev-latest`.
pub open spec fn chosen_model(b: BuilderSettings, env: Environment) -> Seq<char> {
    match b.model {
        Some(m) => m,
        None => match env_value(env.model) {
            Some(m) => m,
            None => DEFAULT_MODEL@,
        },
    }
}

/// The model a build uses is the explicit one; without one, the trimmed
/// environment model when it is not blank, else [`DEFAULT_MODEL`]. It depends on
/// nothing else: not on the API key, the API root or any other setting.
pub proof fn law_model_choice(b1: BuilderSettings, b2: BuilderSettings, e1: Environment, e2: Environment)
    ensures
        b1.model matches Some(m) ==> chosen_model(b1, e1) == m,
        b1.model is None && env_value(e1.model) is Some ==> chosen_model(b1, e1) == env_value(e1.model)->0,
        b1.model is None && env_value(e1.model) is None ==> chosen_model(b1, e1) == DEFAULT_MODEL@,
        b1.model == b2.model && e1.model == e2.model ==> chosen_model(b1, e1) == chosen_model(b2, e2),
{
}

/// Each setting a build uses depends only on its own explicit value and its own
/// environment variable: the API key on the given key and `TYPESAFE_API_KEY`, the
/// API root on the given root and `TYPESAFE_BASE_URL`.
pub proof fn law_settings_independent(b1: BuilderSettings, b2: BuilderSettings, e1: Environment, e2: Environment)
    ensures
        b1.api_key == b2.api_key && e1.api_key == e2.api_key ==> chosen_api_key(b1, e1) == chosen_api_key(b2, e2),
        b1.base_url == b2.base_url && e1.base_url == e2.base_url ==> chosen_base_url(b1, e1) == chosen_base_url(
            b2,
            e2,
        ),
        b1.api_key is Some && trimmed(b1.api_key->0).len() > 0 ==> chosen_api_key(b1, e1) == b1.api_key,
        b1.base_url matches Some(u) ==> chosen_base_url(b1, e1) == trim_trailing_slashes(u),
        b1.base_url is None && env_value(e1.base_url) is Some ==> chosen_base_url(b1, e1) == trim_trailing_slashes(
            env_value(e1.base_url)->0,
        ),
        b1.base_url is None && env_value(e1.base_url) is None ==> chosen_base_url(b1, e1) == trim_trailing_slashes(
            DEFAULT_BASE_URL@,
        ),
        b1.api_key is None ==> chosen_api_key(b1, e1) == env_value(e1.api_key),
        b1.api_key is Some && trimmed(b1.api_key->0).len() == 0 ==> chosen_api_key(b1, e1) == env_value(e1.api_key),
{
}

/// How the message of the error for an HTTP client that cannot be built starts.
pub open spec fn http_failure_prefix() -> Seq<char> {
    "failed to build HTTP client: "@
}

/// The message of the error for a missing API key.
pub open spec fn missing_key_message() -> Seq<char> {
    "no API key: pass ClientBuilder::api_key or set "@ + ENV_API_KEY@
}

impl ClientBuilder {
    /// A description of the settings given so far, for logs: the API key, when
    /// given, shows only as `<redacted>`.
    pub fn describe(&self) -> (r: String)
        ensures
            r@ == builder_description(self@),
    {
        let key = match &self.api_key {
            Some(_) => Some(quoted_string("<redacted>")),
            None => None,
        };
        let url = match &self.base_url {
            Some(u) => Some(quoted_string(u.as_str())),
            None => None,
        };
        let model = match &self.model {
            Some(m) => Some(quoted_string(m.as_str())),
            None => None,
        };
        let retry = match &self.retry {
            Some(p) => Some(retry_text(p)),
            None => None,
        };
        let timeout = match &self.timeout {
            Some(t) => Some(duration_text(*t)),
            None => None,
        };
        let mut s = String::from_str("ClientBuilder { api_key: ");
        optional_text(&mut s, key);
        s.append(", base_url: ");
        optional_text(&mut s, url);
        s.append(", model: ");
        optional_text(&mut s, model);
        s.append(", retry: ");
        optional_text(&mut s, retry);
        s.append(", timeout: ");
        optional_text(&mut s, timeout);
        s.append(", .. }");
        s
    }
}

impl Default for ClientBuilder {
    /// Nothing set.
    fn default() -> (r: ClientBuilder)
        ensures
            r@.api_key is None,
            r@.base_url is None,
            r@.model is None,
            r@.retry is None,
            r@.timeout is None,
            r@.http is None,
    {
        ClientBuilder { api_key: None, base_url: None, model: None, retry: None, timeout: None, http: None }
    }
}

impl ClientBuilder {
    /// API key. Falls back to `TYPESAFE_API_KEY`.
    pub fn api_key(self, key: &str) -> (r: ClientBuilder)
        ensures
            r@ == (BuilderSettings { api_key: Some(key@), ..self@ }),
    {
        ClientBuilder { api_key: Some(String::from_str(key)), ..self }
    }

    /// API root without trailing slash. Falls back to `TYPESAFE_BASE_URL`, then
    /// [`DEFAULT_BASE_URL`].
    pub fn base_url(self, url: &str) -> (r: ClientBuilder)
        ensures
            r@ == (BuilderSettings { base_url: Some(url@), ..self@ }),
    {
        ClientBuilder { base_url: Some(String::from_str(url)), ..self }
    }

    /// Default model for [`Client::system_one`]. Falls back to
    /// `TYPESAFE_DEFAULT_MODEL`, then [`DEFAULT_MODEL`].
    pub fn model(self, model: &str) -> (r: ClientBuilder)
        ensures
            r@ == (BuilderSettings { model: Some(model@), ..self@ }),
    {
        ClientBuilder { model: Some(String::from_str(model)), ..self }
    }

    /// Retry policy. Defaults to [`RetryPolicy::default`].
    pub fn retry(self, retry: RetryPolicy) -> (r: ClientBuilder)
        ensures
            r@ == (BuilderSettings { retry: Some(retry), ..self@ }),
    {
        ClientBuilder { retry: Some(retry), ..self }
    }

    /// Per-request timeout. Defaults to 30 seconds.
    pub fn timeout(self, timeout: Duration) -> (r: ClientBuilder)
        ensures
            r@ == (BuilderSettings { timeout: Some(timeout), ..self@ }),
    {
        ClientBuilder { timeout: Some(timeout), ..self }
    }

    /// Reuse an existing HTTP client (TLS backend, proxies, pools).
    pub fn http_client(self, http: HttpClient) -> (r: ClientBuilder)
        ensures
            r@ == (BuilderSettings { http: Some(http), ..self@ }),
    {
        ClientBuilder { http: Some(http), ..self }
    }

    /// Build the client, falling back to the environment values in `env` for what
    /// was not set. Fails when no API key is available, or when no HTTP client was
    /// given and the default one cannot be built.
    pub fn build(self, env: Environment) -> (r: Result<Client, Error>)
        ensures
            chosen_api_key(self@, env) is None ==> (r matches Err(Error::Config(m)) && m@ == missing_key_message()),
            chosen_api_key(self@, env) is Some && self@.http is Some ==> r is Ok,
            r matches Err(e) ==> e is Config,
            chosen_api_key(self@, env) is Some && r is Err ==> self@.http is None && (r matches Err(Error::Config(m))
                && m@.len() >= http_failure_prefix().len()
                && m@.take(http_failure_prefix().len() as int) == http_failure_prefix()),
            r matches Ok(c) ==> {
                &&& chosen_api_key(self@, env) == Some(c@.api_key)
                &&& c@.base_url == chosen_base_url(self@, env)
                &&& c@.model == chosen_model(self@, env)
                &&& (self@.model matches Some(m) ==> c@.model == m)
                &&& (self@.model is None ==> c@.model == match env_value(env.model) {
                    Some(m) => m,
                    None => DEFAULT_MODEL@,
                })
                &&& (self@.http matches Some(h) ==> c@.http == h)
                &&& (self@.retry matches Some(p) ==> c@.retry == p)
                &&& (self@.retry is None ==> is_default_retry(c@.retry))
                &&& (self@.timeout matches Some(t) ==> c@.timeout == t)
                &&& (self@.timeout is None ==> nanos(c@.timeout) == DEFAULT_TIMEOUT_SECS * 1_000_000_000)
            },
    {
        let ghost settings = self@;
        let ClientBuilder { api_key, base_url, model, retry, timeout, http } = self;
        let Environment { api_key: env_key, base_url: env_url, model: env_model } = env;
        let explicit_key = match api_key {
            Some(k) => {
                let t = trim(k.as_str());
                if t.as_str().is_empty() {
                    None
                } else {
                    Some(k)
                }
            },
            None => None,
        };
        let key = match explicit_key {
            Some(k) => k,
            None => match non_empty_value(env_key) {
                Some(k) => k,
                None => {
                    return Err(Error::Config(concat2("no API key: pass ClientBuilder::api_key or set ", ENV_API_KEY)));
                },
            },
        };
        let url = match base_url {
            Some(u) => u,
            None => match non_empty_value(env_url) {
                Some(u) => u,
                None => String::from_str(DEFAULT_BASE_URL),
            },
        };
        let url = trim_slashes(url.as_str());
        let model = match model {
            Some(m) => m,
            None => match non_empty_value(env_model) {
                Some(m) => m,
                None => String::from_str(DEFAULT_MODEL),
            },
        };
        let http = match http {
            Some(h) => h,
            None => match build_http_client(http_client_builder()) {
                Ok(h) => h,
                Err(e) => {
                    let text = http_error_text(&e);
                    return Err(Error::Config(concat2("failed to build HTTP client: ", text.as_str())));
                },
            },
        };
        let retry = match retry {
            Some(p) => p,
            None => RetryPolicy::default(),
        };
        let timeout = match timeout {
            Some(t) => t,
            None => seconds(DEFAULT_TIMEOUT_SECS),
        };
        Ok(Client { inner: Arc::new(Inner { http, api_key: key, base_url: url, model, retry, timeout }) })
    }
}

impl Client {
    /// Start configuring a client.
    pub fn builder() -> (r: ClientBuilder)
        ensures
            r@.api_key is None,
            r@.base_url is None,
            r@.model is None,
            r@.retry is None,
            r@.timeout is None,
            r@.http is None,
    {
        ClientBuilder::default()
    }

    /// Client configured entirely from the environment values in `env`.
    pub fn from_env(env: Environment) -> (r: Result<Client, Error>)
        ensures
            env_value(env.api_key) is None ==> (r matches Err(Error::Config(m)) && m@ == missing_key_message()),
            r matches Err(e) ==> e is Config,
            env_value(env.api_key) is Some && r is Err ==> (r matches Err(Error::Config(m))
                && m@.len() >= http_failure_prefix().len()
                && m@.take(http_failure_prefix().len() as int) == http_failure_prefix()),
            r matches Ok(c) ==> {
                &&& env_value(env.api_key) == Some(c@.api_key)
                &&& c@.base_url == trim_trailing_slashes(
                    match env_value(env.base_url) {
                        Some(u) => u,
                        None => DEFAULT_BASE_URL@,
                    },
                )
                &&& c@.model == match env_value(env.model) {
                    Some(m) => m,
                    None => DEFAULT_MODEL@,
                }
                &&& is_default_retry(c@.retry)
                &&& nanos(c@.timeout) == DEFAULT_TIMEOUT_SECS * 1_000_000_000
            },
    {
        Client::builder().build(env)
    }

    /// A description of the client, for logs: API root, model, retry policy and
    /// timeout. The API key is left out.
    pub fn describe(&self) -> (r: String)
        ensures
            r@ == client_description(self@),
    {
        let mut s = String::from_str("Client { base_url: ");
        s.append(quoted_string(self.inner.base_url.as_str()).as_str());
        s.append(", model: ");
        s.append(quoted_string(self.inner.model.as_str()).as_str());
        s.append(", retry: ");
        s.append(retry_text(&self.inner.retry).as_str());
        s.append(", timeout: ");
        s.append(duration_text(self.inner.timeout).as_str());
        s.append(", .. }");
        s
    }

    /// The model used when [`Client::system_one`] is called.
    pub fn default_model(&self) -> (r: &str)
        ensures
            r@ == self@.model,
    {
        self.inner.model.as_str()
    }

    /// The API key sent as bearer token.
    pub fn api_key(&self) -> (r: &str)
        ensures
            r@ == self@.api_key,
    {
        self.inner.api_key.as_str()
    }

    /// The API root, without trailing slash.
    pub fn base_url(&self) -> (r: &str)
        ensures
            r@ == self@.base_url,
    {
        self.inner.base_url.as_str()
    }

    /// The retry policy.
    pub fn retry_policy(&self) -> (r: &RetryPolicy)
        ensures
            *r == self@.retry,
    {
        &self.inner.retry
    }

    /// The per-request timeout.
    pub fn timeout(&self) -> (r: Duration)
        ensures
            r == self@.timeout,
    {
        self.inner.timeout
    }

    /// The HTTP client.
    pub fn http(&self) -> (r: &HttpClient)
        ensures
            *r == self@.http,
    {
        &self.inner.http
    }

    /// Start building a `POST /v1/systemone` call: state, questions, then `prepare`.
    pub fn system_one(&self) -> (r: SystemOneRequest<'_>)
        ensures
            r@.client == *self,
            r@.model is None,
            r@.state == StateView::Empty,
            r@.questions == Map::<Seq<char>, Question>::empty(),
            r@.error is None,
    {
        SystemOneRequest::new(self)
    }

    /// The URL of an API path such as `/v1/models`.
    pub fn endpoint(&self, path: &str) -> (r: String)
        ensures
            r@ == self@.base_url + path@,
    {
        concat2(self.inner.base_url.as_str(), path)
    }
}

} // verus!
