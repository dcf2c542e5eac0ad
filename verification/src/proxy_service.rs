//! Building the outbound conversation call and walking the candidate
//! endpoints.
//!
//! Everything that decides is here and verified: the model-name mapping, the
//! payload tree, the headers and cookies, the proxy resolution order, the
//! access-token resolution, and the endpoint-fallback state machine. The
//! network client that performs the attempts lives outside the library and
//! reports each attempt's outcome back in plain values.

use vstd::prelude::*;
use crate::json::{JsonValue, obj_get, as_text, first_elem, parse_json, get_field, get_text};
use crate::normalizer::{field_string, normalized, normalize};
use crate::openai_types::{ChatCompletionRequest, Message};
use crate::text::{starts_with, has_prefix, str_eq};

verus! {

/// Relies on uuid::Uuid::new_v4 and its Display impl: a fresh random
/// version-4 UUID in the hyphenated form, which is always 36 characters.
#[verifier::external_body]
pub fn new_uuid() -> (r: String)
    ensures
        r@.len() == 36,
{
    uuid::Uuid::new_v4().to_string()
}

/// The fixed model-name mapping: legacy chat model names go to the names
/// the web backend knows, and every other name passes through unchanged.
pub open spec fn mapped_model(m: Seq<char>) -> Seq<char> {
    if m == "gpt-3.5-turbo"@ || m == "gpt-3.5-turbo-0613"@ || m == "gpt-3.5-turbo-16k"@ || m
        == "gpt-3.5-turbo-16k-0613"@ {
        "text-davinci-002-render-sha"@
    } else if m == "gpt-4"@ || m == "gpt-4-0613"@ {
        "gpt-4"@
    } else if m == "gpt-4-32k"@ || m == "gpt-4-32k-0613"@ {
        "gpt-4-32k"@
    } else if m == "gpt-4.5"@ || m == "gpt-4.5-preview"@ {
        "gpt-4.5-preview"@
    } else {
        m
    }
}

/// Maps a caller-supplied model name to the upstream-recognized one.
pub fn map_model_name(model_name: &str) -> (r: String)
    ensures
        r@ == mapped_model(model_name@),
{
    if str_eq(model_name, "gpt-3.5-turbo") || str_eq(model_name, "gpt-3.5-turbo-0613") || str_eq(
        model_name,
        "gpt-3.5-turbo-16k",
    ) || str_eq(model_name, "gpt-3.5-turbo-16k-0613") {
        String::from_str("text-davinci-002-render-sha")
    } else if str_eq(model_name, "gpt-4") || str_eq(model_name, "gpt-4-0613") {
        String::from_str("gpt-4")
    } else if str_eq(model_name, "gpt-4-32k") || str_eq(model_name, "gpt-4-32k-0613") {
        String::from_str("gpt-4-32k")
    } else if str_eq(model_name, "gpt-4.5") || str_eq(model_name, "gpt-4.5-preview") {
        String::from_str("gpt-4.5-preview")
    } else {
        model_name.to_owned()
    }
}

/// The number text of an optional sampling knob, with its default.
pub open spec fn sampling_text(o: Option<String>, default: Seq<char>) -> Seq<char> {
    match o {
        Some(s) => s@,
        None => default,
    }
}

/// The number bound to `key`, when `p` is an object holding one there.
pub open spec fn payload_number(p: JsonValue, key: Seq<char>) -> Option<Seq<char>> {
    match obj_get(p, key) {
        Some(v) => match v {
            JsonValue::Number(n) => Some(n@),
            _ => None,
        },
        None => None,
    }
}

/// The content texts of a message list.
pub open spec fn message_contents(msgs: Seq<Message>) -> Seq<Seq<char>> {
    msgs.map_values(|m: Message| m.content@)
}

/// `es` is exactly the given texts, each as a JSON string.
pub open spec fn all_texts(es: Seq<JsonValue>, contents: Seq<Seq<char>>) -> bool {
    es.len() == contents.len() && forall|i: int|
        0 <= i < es.len() ==> as_text(#[trigger] es[i]) == Some(contents[i])
}

/// The single user message inside the payload's `messages` array.
pub open spec fn payload_first_message(p: JsonValue) -> Option<JsonValue> {
    match obj_get(p, "messages"@) {
        Some(arr) => first_elem(arr),
        None => None,
    }
}

/// The payload's user message carries the fresh message id, the user role,
/// a text content block, and one part per inbound message content.
pub open spec fn payload_message_ok(m: JsonValue, contents: Seq<Seq<char>>, message_id: Seq<char>) -> bool {
    &&& field_string(m, "id"@) == Some(message_id)
    &&& field_string(m, "role"@) == Some("user"@)
    &&& match obj_get(m, "content"@) {
        Some(c) => {
            &&& field_string(c, "content_type"@) == Some("text"@)
            &&& match obj_get(c, "parts"@) {
                Some(parts) => parts matches JsonValue::Array(es) && all_texts(es@, contents),
                None => false,
            }
        },
        None => false,
    }
}

/// The translated payload for one conversation call: action `next`, one
/// user message holding every inbound content as a part, the mapped model,
/// no conversation id, a fresh parent id, and the sampling knobs with their
/// defaults (temperature 0.7, top-p 1.0).
pub fn build_outbound_payload(
    req: &ChatCompletionRequest,
    message_id: &str,
    parent_message_id: &str,
) -> (p: JsonValue)
    ensures
        field_string(p, "action"@) == Some("next"@),
        field_string(p, "model"@) == Some(mapped_model(req.model@)),
        obj_get(p, "conversation_id"@) == Some(JsonValue::Null),
        field_string(p, "parent_message_id"@) == Some(parent_message_id@),
        payload_number(p, "temperature"@) == Some(sampling_text(req.temperature, "0.7"@)),
        payload_number(p, "top_p"@) == Some(sampling_text(req.top_p, "1.0"@)),
        obj_get(p, "messages"@) matches Some(arr) && arr matches JsonValue::Array(es) && es@.len()
            == 1,
        payload_first_message(p) matches Some(m) && payload_message_ok(
            m,
            message_contents(req.messages@),
            message_id@,
        ),
{
    let mut parts: Vec<JsonValue> = Vec::new();
    let mut i: usize = 0;
    while i < req.messages.len()
        invariant
            i <= req.messages@.len(),
            parts@.len() == i,
            forall|k: int|
                0 <= k < i ==> as_text(#[trigger] parts@[k]) == Some(
                    message_contents(req.messages@)[k],
                ),
        decreases req.messages@.len() - i,
    {
        parts.push(JsonValue::Text(req.messages[i].content.clone()));
        i = i + 1;
    }
    let ghost parts_v = parts@;
    let mut content_fields: Vec<(String, JsonValue)> = Vec::new();
    content_fields.push(
        (String::from_str("content_type"), JsonValue::Text(String::from_str("text"))),
    );
    content_fields.push((String::from_str("parts"), JsonValue::Array(parts)));
    let ghost cf = content_fields@;
    let mut message_fields: Vec<(String, JsonValue)> = Vec::new();
    message_fields.push((String::from_str("id"), JsonValue::Text(message_id.to_owned())));
    message_fields.push((String::from_str("role"), JsonValue::Text(String::from_str("user"))));
    message_fields.push((String::from_str("content"), JsonValue::Object(content_fields)));
    let ghost mf = message_fields@;
    let mut messages: Vec<JsonValue> = Vec::new();
    messages.push(JsonValue::Object(message_fields));
    let ghost msgs_v = messages@;
    let temperature = match &req.temperature {
        Some(t) => t.clone(),
        None => String::from_str("0.7"),
    };
    let top_p = match &req.top_p {
        Some(t) => t.clone(),
        None => String::from_str("1.0"),
    };
    let mut fields: Vec<(String, JsonValue)> = Vec::new();
    fields.push((String::from_str("action"), JsonValue::Text(String::from_str("next"))));
    fields.push((String::from_str("messages"), JsonValue::Array(messages)));
    fields.push((String::from_str("model"), JsonValue::Text(map_model_name(req.model.as_str()))));
    fields.push((String::from_str("conversation_id"), JsonValue::Null));
    fields.push(
        (String::from_str("parent_message_id"), JsonValue::Text(parent_message_id.to_owned())),
    );
    fields.push((String::from_str("temperature"), JsonValue::Number(temperature)));
    fields.push((String::from_str("top_p"), JsonValue::Number(top_p)));
    let ghost fs = fields@;
    let p = JsonValue::Object(fields);
    proof {
        reveal_strlit("action");
        reveal_strlit("messages");
        reveal_strlit("model");
        reveal_strlit("conversation_id");
        reveal_strlit("parent_message_id");
        reveal_strlit("temperature");
        reveal_strlit("top_p");
        reveal_strlit("id");
        reveal_strlit("role");
        reveal_strlit("content");
        reveal_strlit("content_type");
        reveal_strlit("parts");
        assert(fs.len() == 7);
        assert(fs[0].0@ == "action"@);
        assert(fs[1].0@ == "messages"@);
        assert(fs[2].0@ == "model"@);
        assert(fs[3].0@ == "conversation_id"@);
        assert(fs[4].0@ == "parent_message_id"@);
        assert(fs[5].0@ == "temperature"@);
        assert(fs[6].0@ == "top_p"@);
        assert(mf[0].0@ == "id"@);
        assert(mf[1].0@ == "role"@);
        assert(mf[2].0@ == "content"@);
        assert(cf[0].0@ == "content_type"@);
        assert(cf[1].0@ == "parts"@);
        crate::json::lemma_lookup_skip(fs, "messages"@, 1);
        crate::json::lemma_lookup_skip(fs, "model"@, 2);
        crate::json::lemma_lookup_skip(fs, "conversation_id"@, 3);
        crate::json::lemma_lookup_skip(fs, "parent_message_id"@, 4);
        crate::json::lemma_lookup_skip(fs, "temperature"@, 5);
        assert(fs[2].0@ != "top_p"@) by {
            assert(fs[2].0@[0] != "top_p"@[0]);
        }
        crate::json::lemma_lookup_skip(fs, "top_p"@, 6);
        assert(fs.skip(1)[0] == fs[1]);
        assert(fs.skip(2)[0] == fs[2]);
        assert(fs.skip(3)[0] == fs[3]);
        assert(fs.skip(4)[0] == fs[4]);
        assert(fs.skip(5)[0] == fs[5]);
        assert(fs.skip(6)[0] == fs[6]);
        assert(crate::json::lookup(fs, "action"@) == Some(fs[0].1));
        assert(crate::json::lookup(fs, "messages"@) == Some(fs[1].1));
        assert(crate::json::lookup(fs, "model"@) == Some(fs[2].1));
        assert(crate::json::lookup(fs, "conversation_id"@) == Some(fs[3].1));
        assert(crate::json::lookup(fs, "parent_message_id"@) == Some(fs[4].1));
        assert(crate::json::lookup(fs, "temperature"@) == Some(fs[5].1));
        assert(crate::json::lookup(fs, "top_p"@) == Some(fs[6].1));
        assert(first_elem(fs[1].1) == Some(msgs_v[0]));
        crate::json::lemma_lookup_skip(mf, "role"@, 1);
        crate::json::lemma_lookup_skip(mf, "content"@, 2);
        assert(mf.skip(1)[0] == mf[1]);
        assert(mf.skip(2)[0] == mf[2]);
        assert(crate::json::lookup(mf, "id"@) == Some(mf[0].1));
        assert(crate::json::lookup(mf, "role"@) == Some(mf[1].1));
        assert(crate::json::lookup(mf, "content"@) == Some(mf[2].1));
        crate::json::lemma_lookup_skip(cf, "parts"@, 1);
        assert(cf.skip(1)[0] == cf[1]);
        assert(crate::json::lookup(cf, "content_type"@) == Some(cf[0].1));
        assert(crate::json::lookup(cf, "parts"@) == Some(cf[1].1));
        assert(all_texts(parts_v, message_contents(req.messages@)));
    }
    p
}

/// The authorization value itself, when its shape already marks it as a
/// token: the rest after a `Bearer ` prefix, or a JWT-looking value whole.
pub open spec fn direct_token(a: Seq<char>) -> Option<Seq<char>> {
    if starts_with(a, "Bearer "@) {
        Some(a.skip("Bearer "@.len() as int))
    } else if starts_with(a, "eyJ"@) {
        Some(a)
    } else {
        None
    }
}

/// The token the session-info body yields: its `accessToken` string field,
/// or the configured authorization unchanged.
pub open spec fn session_token(b: Seq<char>, a: Seq<char>) -> Seq<char> {
    match crate::json::parsed_json(b) {
        Some(v) => match field_string(v, "accessToken"@) {
            Some(t) => t,
            None => a,
        },
        None => a,
    }
}

/// The access token a call goes out with: the authorization itself when its
/// shape already marks it as a token; else whatever the session-info body
/// yields; and with no session-info body, the authorization unchanged. Never
/// a failure: some credential always comes back.
pub open spec fn resolved_token(a: Seq<char>, body: Option<Seq<char>>) -> Seq<char> {
    match direct_token(a) {
        Some(t) => t,
        None => match body {
            Some(b) => session_token(b, a),
            None => a,
        },
    }
}

/// The token hidden in the authorization value's own shape, if any.
pub fn token_from_authorization(auth: &str) -> (r: Option<String>)
    ensures
        match r {
            Some(t) => direct_token(auth@) == Some(t@),
            None => direct_token(auth@) is None,
        },
{
    if has_prefix(auth, "Bearer ") {
        proof {
            reveal_strlit("Bearer ");
        }
        let rest = auth.substring_char(7, auth.unicode_len());
        proof {
            assert(rest@ =~= auth@.skip("Bearer "@.len() as int));
        }
        Some(rest.to_owned())
    } else if has_prefix(auth, "eyJ") {
        Some(auth.to_owned())
    } else {
        None
    }
}

/// The access token taken from a session-info body, with the configured
/// authorization as the last resort.
pub fn extract_access_token(session_body: &str, auth: &str) -> (r: String)
    ensures
        r@ == session_token(session_body@, auth@),
{
    if let Some(v) = parse_json(session_body) {
        if let Some(f) = get_field(&v, "accessToken") {
            if let Some(t) = get_text(f) {
                return t;
            }
        }
    }
    auth.to_owned()
}

/// Resolves the access token a conversation call goes out with; see
/// `resolved_token`.
pub fn resolve_access_token(auth: &str, session_body: Option<&str>) -> (r: String)
    ensures
        r@ == resolved_token(
            auth@,
            match session_body {
                Some(b) => Some(b@),
                None => None,
            },
        ),
{
    if let Some(t) = token_from_authorization(auth) {
        return t;
    }
    match session_body {
        Some(b) => extract_access_token(b, auth),
        None => auth.to_owned(),
    }
}

/// The authorization header value around a resolved access token.
pub fn bearer_header(access_token: &str) -> (r: String)
    ensures
        r@ == "Bearer "@ + access_token@,
{
    let mut r = String::from_str("Bearer ");
    r.append(access_token);
    r
}

/// The cookie header of a conversation call: the session cookie, the
/// clearance cookie (empty when none is configured), and the callback URL.
pub open spec fn cookie_text(session: Seq<char>, clearance: Seq<char>) -> Seq<char> {
    "__Secure-next-auth.session-token="@ + session + "; cf_clearance="@ + clearance
        + "; __Secure-next-auth.callback-url=https://chat.openai.com/"@
}

/// Builds the cookie header; see `cookie_text`.
pub fn build_cookie_header(session_token: &str, cf_clearance: Option<&str>) -> (r: String)
    ensures
        r@ == cookie_text(
            session_token@,
            match cf_clearance {
                Some(c) => c@,
                None => Seq::empty(),
            },
        ),
{
    let mut r = String::from_str("__Secure-next-auth.session-token=");
    r.append(session_token);
    r.append("; cf_clearance=");
    if let Some(c) = cf_clearance {
        r.append(c);
    }
    r.append("; __Secure-next-auth.callback-url=https://chat.openai.com/");
    proof {
        if cf_clearance is None {
            assert(r@ =~= cookie_text(session_token@, Seq::empty()));
        }
    }
    r
}

/// The fixed browser-imitating headers sent with every conversation call.
pub fn static_headers() -> (r: Vec<(String, String)>)
    ensures
        r@.len() == 12,
        r@[0].0@ == "content-type"@ && r@[0].1@ == "application/json"@,
        r@[1].0@ == "user-agent"@ && r@[1].1@
            == "Mozilla/5.0 (Windows NT 10.0; Win64; x64) AppleWebKit/537.36 (KHTML, like Gecko) Chrome/120.0.0.0 Safari/537.36"@,
        r@[2].0@ == "accept"@ && r@[2].1@ == "text/event-stream"@,
        r@[3].0@ == "referer"@ && r@[3].1@ == "https://chat.openai.com/"@,
        r@[4].0@ == "origin"@ && r@[4].1@ == "https://chat.openai.com"@,
        r@[5].0@ == "sec-ch-ua"@ && r@[5].1@
            == "\"Not_A Brand\";v=\"99\", \"Google Chrome\";v=\"120\", \"Chromium\";v=\"120\""@,
        r@[6].0@ == "sec-ch-ua-mobile"@ && r@[6].1@ == "?0"@,
        r@[7].0@ == "sec-ch-ua-platform"@ && r@[7].1@ == "\"Windows\""@,
        r@[8].0@ == "sec-fetch-dest"@ && r@[8].1@ == "empty"@,
        r@[9].0@ == "sec-fetch-mode"@ && r@[9].1@ == "cors"@,
        r@[10].0@ == "sec-fetch-site"@ && r@[10].1@ == "same-origin"@,
        r@[11].0@ == "accept-language"@ && r@[11].1@ == "zh-CN,zh;q=0.9,en;q=0.8"@,
{
    let mut r: Vec<(String, String)> = Vec::new();
    r.push((String::from_str("content-type"), String::from_str("application/json")));
    r.push(
        (
            String::from_str("user-agent"),
            String::from_str(
                "Mozilla/5.0 (Windows NT 10.0; Win64; x64) AppleWebKit/537.36 (KHTML, like Gecko) Chrome/120.0.0.0 Safari/537.36",
            ),
        ),
    );
    r.push((String::from_str("accept"), String::from_str("text/event-stream")));
    r.push((String::from_str("referer"), String::from_str("https://chat.openai.com/")));
    r.push((String::from_str("origin"), String::from_str("https://chat.openai.com")));
    r.push(
        (
            String::from_str("sec-ch-ua"),
            String::from_str(
                "\"Not_A Brand\";v=\"99\", \"Google Chrome\";v=\"120\", \"Chromium\";v=\"120\"",
            ),
        ),
    );
    r.push((String::from_str("sec-ch-ua-mobile"), String::from_str("?0")));
    r.push((String::from_str("sec-ch-ua-platform"), String::from_str("\"Windows\"")));
    r.push((String::from_str("sec-fetch-dest"), String::from_str("empty")));
    r.push((String::from_str("sec-fetch-mode"), String::from_str("cors")));
    r.push((String::from_str("sec-fetch-site"), String::from_str("same-origin")));
    r.push((String::from_str("accept-language"), String::from_str("zh-CN,zh;q=0.9,en;q=0.8")));
    r
}

/// Where an outbound connection is to go through.
pub enum ProxyChoice {
    Http(String),
    Https(String),
}

/// The proxy candidates to try, in order: the HTTPS variable first, then the
/// HTTP variable, then the generic variable (its scheme sniffed, an
/// unschemed value getting the http scheme), and with no variable set the
/// fixed list of common local proxy ports as last-resort HTTP proxies.
/// Whoever drives the connection takes the first candidate that configures,
/// and proceeds direct when none does.
pub fn proxy_candidates(
    https_proxy: Option<String>,
    http_proxy: Option<String>,
    all_proxy: Option<String>,
) -> (r: Vec<ProxyChoice>)
    ensures
        match https_proxy {
            Some(u) => r@ == seq![ProxyChoice::Https(u)],
            None => match http_proxy {
                Some(u) => r@ == seq![ProxyChoice::Http(u)],
                None => match all_proxy {
                    Some(u) => {
                        &&& r@.len() == 1
                        &&& if starts_with(u@, "https://"@) {
                            r@[0] == ProxyChoice::Https(u)
                        } else if starts_with(u@, "http://"@) {
                            r@[0] == ProxyChoice::Http(u)
                        } else {
                            r@[0] matches ProxyChoice::Http(w) && w@ == "http://"@ + u@
                        }
                    },
                    None => {
                        &&& r@.len() == 4
                        &&& r@[0] matches ProxyChoice::Http(w) && w@ == "http://127.0.0.1:10809"@
                        &&& r@[1] matches ProxyChoice::Http(w) && w@ == "http://127.0.0.1:7890"@
                        &&& r@[2] matches ProxyChoice::Http(w) && w@ == "http://127.0.0.1:1080"@
                        &&& r@[3] matches ProxyChoice::Http(w) && w@ == "http://127.0.0.1:8080"@
                    },
                },
            },
        },
{
    let mut r: Vec<ProxyChoice> = Vec::new();
    match https_proxy {
        Some(u) => {
            r.push(ProxyChoice::Https(u));
        },
        None => match http_proxy {
            Some(u) => {
                r.push(ProxyChoice::Http(u));
            },
            None => match all_proxy {
                Some(u) => {
                    if has_prefix(u.as_str(), "https://") {
                        r.push(ProxyChoice::Https(u));
                    } else if has_prefix(u.as_str(), "http://") {
                        r.push(ProxyChoice::Http(u));
                    } else {
                        let mut w = String::from_str("http://");
                        w.append(u.as_str());
                        r.push(ProxyChoice::Http(w));
                    }
                },
                None => {
                    r.push(ProxyChoice::Http(String::from_str("http://127.0.0.1:10809")));
                    r.push(ProxyChoice::Http(String::from_str("http://127.0.0.1:7890")));
                    r.push(ProxyChoice::Http(String::from_str("http://127.0.0.1:1080")));
                    r.push(ProxyChoice::Http(String::from_str("http://127.0.0.1:8080")));
                },
            },
        },
    }
    r
}

/// The candidate conversation endpoints, in the order they are tried.
pub fn api_endpoints() -> (r: Vec<String>)
    ensures
        r@.len() == 2,
        r@[0]@ == "https://chat.openai.com/backend-api/conversation"@,
        r@[1]@ == "https://chat.openai.com/api/conversation"@,
{
    let mut r: Vec<String> = Vec::new();
    r.push(String::from_str("https://chat.openai.com/backend-api/conversation"));
    r.push(String::from_str("https://chat.openai.com/api/conversation"));
    r
}

/// What one attempt against one endpoint came back with.
pub enum AttemptOutcome {
    /// The connection itself failed; the detail text.
    TransportFailure(String),
    /// A response outside the 2xx range; its status and body.
    HttpFailure(u16, String),
    /// A 2xx response; its body, possibly empty.
    BodyReceived(String),
}

/// The error kept for diagnostics when an attempt yields no answer.
pub enum UpstreamError {
    Transport(String),
    Http(u16, String),
    EmptyBody,
    NoEndpoints,
}

/// The answer one outcome settles the whole call with: only a non-empty 2xx
/// body does, normalized.
pub open spec fn outcome_answer(outcome: AttemptOutcome) -> Option<Seq<char>> {
    match outcome {
        AttemptOutcome::BodyReceived(b) => if b@.len() > 0 {
            Some(normalized(b@))
        } else {
            None
        },
        _ => None,
    }
}

/// The error one answerless outcome records.
pub open spec fn outcome_error(outcome: AttemptOutcome) -> Option<UpstreamError> {
    match outcome {
        AttemptOutcome::TransportFailure(d) => Some(UpstreamError::Transport(d)),
        AttemptOutcome::HttpFailure(status, body) => Some(UpstreamError::Http(status, body)),
        AttemptOutcome::BodyReceived(b) => if b@.len() == 0 {
            Some(UpstreamError::EmptyBody)
        } else {
            None
        },
    }
}

/// One walk over the candidate endpoints: which endpoint the next attempt
/// targets, and the last failure seen. The driver asks for the next
/// endpoint, performs the attempt, and records the outcome; a non-empty 2xx
/// body ends the walk with the normalized answer, anything else records its
/// error and moves on.
pub struct UpstreamSession {
    endpoints: Vec<String>,
    next_index: usize,
    last_error: Option<UpstreamError>,
}

impl UpstreamSession {
    /// The candidate endpoints, in order.
    pub closed spec fn endpoints_view(&self) -> Seq<Seq<char>> {
        self.endpoints@.map_values(|s: String| s@)
    }

    /// How many candidates have failed so far.
    pub closed spec fn pos(&self) -> int {
        self.next_index as int
    }

    /// The last failure seen.
    pub closed spec fn last_error_view(&self) -> Option<UpstreamError> {
        self.last_error
    }

    /// The position never passes the end of the candidate list.
    pub closed spec fn wf(&self) -> bool {
        self.next_index <= self.endpoints@.len()
    }

    /// A walk over the given candidates, none tried yet.
    pub fn new(endpoints: Vec<String>) -> (s: Self)
        ensures
            s.wf(),
            s.endpoints_view() == endpoints@.map_values(|e: String| e@),
            s.pos() == 0,
            s.last_error_view() is None,
    {
        UpstreamSession { endpoints, next_index: 0, last_error: None }
    }

    /// The endpoint the next attempt must target, `None` once every
    /// candidate has been tried.
    pub fn next_endpoint(&self) -> (r: Option<String>)
        requires
            self.wf(),
        ensures
            match r {
                Some(e) => self.pos() < self.endpoints_view().len() && e@ == self.endpoints_view()[
                    self.pos()
                ],
                None => self.pos() == self.endpoints_view().len(),
            },
    {
        if self.next_index < self.endpoints.len() {
            Some(self.endpoints[self.next_index].clone())
        } else {
            None
        }
    }

    /// Records one attempt's outcome. A non-empty 2xx body yields the
    /// normalized answer and leaves the walk where it stands; every other
    /// outcome records its error and moves to the next candidate.
    pub fn record_outcome(&mut self, outcome: AttemptOutcome) -> (r: Option<String>)
        requires
            old(self).wf(),
            old(self).pos() < old(self).endpoints_view().len(),
        ensures
            final(self).wf(),
            final(self).endpoints_view() == old(self).endpoints_view(),
            match r {
                Some(answer) => {
                    &&& outcome_answer(outcome) == Some(answer@)
                    &&& final(self).pos() == old(self).pos()
                    &&& final(self).last_error_view() == old(self).last_error_view()
                },
                None => {
                    &&& outcome_answer(outcome) is None
                    &&& final(self).pos() == old(self).pos() + 1
                    &&& final(self).last_error_view() == outcome_error(outcome)
                },
            },
    {
        let n = self.endpoints.len();
        proof {
            assert(self.next_index < n);
        }
        match outcome {
            AttemptOutcome::TransportFailure(d) => {
                self.last_error = Some(UpstreamError::Transport(d));
                self.next_index = self.next_index + 1;
                None
            },
            AttemptOutcome::HttpFailure(status, body) => {
                self.last_error = Some(UpstreamError::Http(status, body));
                self.next_index = self.next_index + 1;
                None
            },
            AttemptOutcome::BodyReceived(b) => {
                if b.as_str().unicode_len() > 0 {
                    Some(normalize(b.as_str()))
                } else {
                    self.last_error = Some(UpstreamError::EmptyBody);
                    self.next_index = self.next_index + 1;
                    None
                }
            },
        }
    }

    /// The error the whole call fails with once every candidate has been
    /// tried: the last attempt's, and a bare marker when there was no
    /// candidate at all.
    pub fn take_error(self) -> (e: UpstreamError)
        ensures
            e == match self.last_error_view() {
                Some(err) => err,
                None => UpstreamError::NoEndpoints,
            },
    {
        match self.last_error {
            Some(err) => err,
            None => UpstreamError::NoEndpoints,
        }
    }
}

/// Endpoint fallback order: when the first candidate fails with a non-2xx
/// status and the second comes back with a non-empty body, the walk's answer
/// is the one normalized from the second body, and the first failure is
/// recorded only as a diagnostic, never as the result.
pub proof fn lemma_endpoint_fallback_order(status: u16, err_body: String, ok_body: String)
    requires
        ok_body@.len() > 0,
    ensures
        outcome_answer(AttemptOutcome::HttpFailure(status, err_body)) is None,
        outcome_error(AttemptOutcome::HttpFailure(status, err_body)) == Some(
            UpstreamError::Http(status, err_body),
        ),
        outcome_answer(AttemptOutcome::BodyReceived(ok_body)) == Some(normalized(ok_body@)),
{
}

} // verus!
