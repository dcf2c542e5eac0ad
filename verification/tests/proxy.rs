use chatgpt_proxy::json::to_text;
use chatgpt_proxy::openai_types::{ChatCompletionRequest, Message};
use chatgpt_proxy::proxy_service::{
    api_endpoints, bearer_header, build_cookie_header, build_outbound_payload, map_model_name,
    new_uuid, proxy_candidates, resolve_access_token, AttemptOutcome, ProxyChoice,
    UpstreamError, UpstreamSession,
};

fn request(model: &str, contents: &[&str]) -> ChatCompletionRequest {
    ChatCompletionRequest {
        model: model.to_string(),
        messages: contents
            .iter()
            .map(|c| Message { role: "user".to_string(), content: c.to_string() })
            .collect(),
        max_tokens: None,
        temperature: None,
        top_p: None,
        frequency_penalty: None,
        presence_penalty: None,
    }
}

#[test]
fn model_names_map_exactly() {
    assert_eq!(map_model_name("gpt-3.5-turbo"), "text-davinci-002-render-sha");
    assert_eq!(map_model_name("gpt-3.5-turbo-16k-0613"), "text-davinci-002-render-sha");
    assert_eq!(map_model_name("gpt-4-0613"), "gpt-4");
    assert_eq!(map_model_name("gpt-4-32k-0613"), "gpt-4-32k");
    assert_eq!(map_model_name("gpt-4.5"), "gpt-4.5-preview");
    assert_eq!(map_model_name("gpt-4o"), "gpt-4o");
    assert_eq!(map_model_name("o3-mini-high"), "o3-mini-high");
    assert_eq!(map_model_name("custom-model"), "custom-model");
}

#[test]
fn outbound_payload_serializes_exactly() {
    let req = request("gpt-3.5-turbo", &["hi"]);
    let payload = build_outbound_payload(&req, "MID", "PID");
    assert_eq!(
        to_text(&payload),
        "{\"action\":\"next\",\"messages\":[{\"id\":\"MID\",\"role\":\"user\",\
         \"content\":{\"content_type\":\"text\",\"parts\":[\"hi\"]}}],\
         \"model\":\"text-davinci-002-render-sha\",\"conversation_id\":null,\
         \"parent_message_id\":\"PID\",\"temperature\":0.7,\"top_p\":1.0}"
    );
}

#[test]
fn outbound_payload_keeps_sampling_text_and_all_parts() {
    let mut req = request("gpt-4o", &["one", "two"]);
    req.temperature = Some("0.25".to_string());
    req.top_p = Some("0.9".to_string());
    let payload = build_outbound_payload(&req, "M", "P");
    let text = to_text(&payload);
    assert!(text.contains("\"parts\":[\"one\",\"two\"]"));
    assert!(text.contains("\"temperature\":0.25"));
    assert!(text.contains("\"top_p\":0.9"));
    assert!(text.contains("\"model\":\"gpt-4o\""));
}

#[test]
fn access_token_resolution_prefers_token_shaped_authorization() {
    assert_eq!(resolve_access_token("Bearer abc123", None), "abc123");
    assert_eq!(resolve_access_token("eyJhbGciOi", None), "eyJhbGciOi");
    // a bearer-shaped value never consults the session body
    let body = "{\"accessToken\":\"from-session\"}";
    assert_eq!(resolve_access_token("Bearer abc123", Some(body)), "abc123");
}

#[test]
fn access_token_resolution_falls_back_to_session_then_original() {
    let body = "{\"accessToken\":\"from-session\"}";
    assert_eq!(resolve_access_token("opaque-value", Some(body)), "from-session");
    assert_eq!(
        resolve_access_token("opaque-value", Some("{\"user\":\"nobody\"}")),
        "opaque-value"
    );
    assert_eq!(resolve_access_token("opaque-value", Some("not json")), "opaque-value");
    assert_eq!(resolve_access_token("opaque-value", None), "opaque-value");
}

#[test]
fn header_builders_render_exactly() {
    assert_eq!(bearer_header("tok"), "Bearer tok");
    assert_eq!(
        build_cookie_header("sess-token", Some("clear")),
        "__Secure-next-auth.session-token=sess-token; cf_clearance=clear; \
         __Secure-next-auth.callback-url=https://chat.openai.com/"
    );
    assert_eq!(
        build_cookie_header("s", None),
        "__Secure-next-auth.session-token=s; cf_clearance=; \
         __Secure-next-auth.callback-url=https://chat.openai.com/"
    );
}

#[test]
fn proxy_resolution_order() {
    let got = proxy_candidates(Some("https://p1".to_string()), Some("http://p2".to_string()), None);
    assert_eq!(got.len(), 1);
    assert!(matches!(&got[0], ProxyChoice::Https(u) if u == "https://p1"));

    let got = proxy_candidates(None, Some("http://p2".to_string()), Some("x".to_string()));
    assert_eq!(got.len(), 1);
    assert!(matches!(&got[0], ProxyChoice::Http(u) if u == "http://p2"));

    let got = proxy_candidates(None, None, Some("https://all".to_string()));
    assert!(matches!(&got[0], ProxyChoice::Https(u) if u == "https://all"));
    let got = proxy_candidates(None, None, Some("bare:1080".to_string()));
    assert!(matches!(&got[0], ProxyChoice::Http(u) if u == "http://bare:1080"));

    let got = proxy_candidates(None, None, None);
    let urls: Vec<&str> = got
        .iter()
        .map(|c| match c {
            ProxyChoice::Http(u) => u.as_str(),
            ProxyChoice::Https(u) => u.as_str(),
        })
        .collect();
    assert_eq!(
        urls,
        vec![
            "http://127.0.0.1:10809",
            "http://127.0.0.1:7890",
            "http://127.0.0.1:1080",
            "http://127.0.0.1:8080",
        ]
    );
}

#[test]
fn endpoint_fallback_uses_second_body_after_first_failure() {
    let mut session = UpstreamSession::new(api_endpoints());
    let first = session.next_endpoint().expect("first endpoint");
    assert_eq!(first, "https://chat.openai.com/backend-api/conversation");
    let r = session.record_outcome(AttemptOutcome::HttpFailure(403, "denied".to_string()));
    assert!(r.is_none());
    let second = session.next_endpoint().expect("second endpoint");
    assert_eq!(second, "https://chat.openai.com/api/conversation");
    let body = "{\"message\":{\"content\":{\"parts\":[\"answer\"]}}}".to_string();
    let r = session.record_outcome(AttemptOutcome::BodyReceived(body));
    assert_eq!(r.as_deref(), Some("answer"));
}

#[test]
fn exhausted_session_reports_last_error() {
    let mut session = UpstreamSession::new(api_endpoints());
    assert!(session
        .record_outcome(AttemptOutcome::TransportFailure("refused".to_string()))
        .is_none());
    assert!(session
        .record_outcome(AttemptOutcome::HttpFailure(502, "bad gateway".to_string()))
        .is_none());
    assert!(session.next_endpoint().is_none());
    match session.take_error() {
        UpstreamError::Http(status, body) => {
            assert_eq!(status, 502);
            assert_eq!(body, "bad gateway");
        }
        _ => panic!("expected the last error, an http failure"),
    }
}

#[test]
fn empty_body_counts_as_failure() {
    let mut session = UpstreamSession::new(api_endpoints());
    assert!(session.record_outcome(AttemptOutcome::BodyReceived(String::new())).is_none());
    let second = session.next_endpoint().expect("second endpoint");
    assert_eq!(second, "https://chat.openai.com/api/conversation");
    assert!(session
        .record_outcome(AttemptOutcome::TransportFailure("down".to_string()))
        .is_none());
    match session.take_error() {
        UpstreamError::Transport(d) => assert_eq!(d, "down"),
        _ => panic!("expected the transport failure to be the last error"),
    }
}

#[test]
fn session_with_no_endpoints_reports_so() {
    let session = UpstreamSession::new(Vec::new());
    assert!(session.next_endpoint().is_none());
    assert!(matches!(session.take_error(), UpstreamError::NoEndpoints));
}

#[test]
fn fresh_uuids_are_hyphenated_and_distinct() {
    let a = new_uuid();
    let b = new_uuid();
    assert_eq!(a.len(), 36);
    assert_eq!(a.chars().filter(|c| *c == '-').count(), 4);
    assert_ne!(a, b);
}
