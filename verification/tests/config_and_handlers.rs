use chatgpt_proxy::config::{parse_u16_or, parse_u32_or, AppConfig};
use chatgpt_proxy::handlers::{
    build_error_response, build_success_response, completion_id, current_timestamp, get_status,
    SystemCounters,
};
use chatgpt_proxy::openai_types::{ChatCompletionRequest, Message};
use chatgpt_proxy::utils::{estimate_token_count, estimate_token_count_str};

#[test]
fn numeric_config_parsing() {
    assert_eq!(parse_u32_or("123", 60), 123);
    assert_eq!(parse_u32_or("0", 60), 0);
    assert_eq!(parse_u32_or("", 60), 60);
    assert_eq!(parse_u32_or("12x", 60), 60);
    assert_eq!(parse_u32_or("-5", 60), 60);
    assert_eq!(parse_u32_or("4294967295", 60), 4294967295);
    assert_eq!(parse_u32_or("4294967296", 60), 60);
    assert_eq!(parse_u32_or("99999999999999999999", 60), 60);
    assert_eq!(parse_u16_or("8080", 3000), 8080);
    assert_eq!(parse_u16_or("65535", 3000), 65535);
    assert_eq!(parse_u16_or("65536", 3000), 3000);
    assert_eq!(parse_u16_or("port", 3000), 3000);
}

#[test]
fn config_from_parts_applies_defaults() {
    let c = AppConfig::from_parts("sess".to_string(), "auth".to_string(), None, None, None);
    assert_eq!(c.chatgpt_session_token, "sess");
    assert_eq!(c.chatgpt_authorization, "auth");
    assert_eq!(c.server_port, 3000);
    assert_eq!(c.max_requests_per_minute, 60);
    assert_eq!(c.max_tokens_per_minute, 40000);

    let c = AppConfig::from_parts(
        "s".to_string(),
        "a".to_string(),
        Some("8080".to_string()),
        Some("10".to_string()),
        Some("bad".to_string()),
    );
    assert_eq!(c.server_port, 8080);
    assert_eq!(c.max_requests_per_minute, 10);
    assert_eq!(c.max_tokens_per_minute, 40000);
}

#[test]
fn token_estimates_follow_the_quarter_rule() {
    assert_eq!(estimate_token_count_str(""), 0);
    assert_eq!(estimate_token_count_str("abc"), 0);
    assert_eq!(estimate_token_count_str("abcd"), 1);
    assert_eq!(estimate_token_count_str("abcdefgh"), 2);

    let req = ChatCompletionRequest {
        model: "gpt-4".to_string(),
        messages: vec![
            Message { role: "user".to_string(), content: "abcdefgh".to_string() },
            Message { role: "assistant".to_string(), content: "abcd".to_string() },
        ],
        max_tokens: None,
        temperature: None,
        top_p: None,
        frequency_penalty: None,
        presence_penalty: None,
    };
    // 8 request overhead + (4 + 2) + (4 + 1)
    assert_eq!(estimate_token_count(&req), 19);
}

#[test]
fn token_estimates_count_characters_not_bytes() {
    // four characters of three bytes each still make one token
    assert_eq!(estimate_token_count_str("日本語字"), 1);
}

#[test]
fn success_response_shape() {
    let r = build_success_response(
        "chatcmpl-1".to_string(),
        1700000000,
        "the answer".to_string(),
        10,
        5,
    );
    assert_eq!(r.id, "chatcmpl-1");
    assert_eq!(r.object, "chat.completion");
    assert_eq!(r.created, 1700000000);
    assert_eq!(r.choices.len(), 1);
    assert_eq!(r.choices[0].index, 0);
    assert_eq!(r.choices[0].message.role, "assistant");
    assert_eq!(r.choices[0].message.content, "the answer");
    assert_eq!(r.choices[0].finish_reason, "stop");
    let usage = r.usage.expect("usage is reported on success");
    assert_eq!(usage.prompt_tokens, 10);
    assert_eq!(usage.completion_tokens, 5);
    assert_eq!(usage.total_tokens, 15);
}

#[test]
fn error_response_shape() {
    let r = build_error_response("chatcmpl-2".to_string(), 1, "boom".to_string());
    assert_eq!(r.choices.len(), 1);
    assert_eq!(r.choices[0].message.content, "Error: boom");
    assert_eq!(r.choices[0].finish_reason, "error");
    assert!(r.usage.is_none());
}

#[test]
fn completion_ids_carry_the_namespace() {
    assert_eq!(completion_id("abc".to_string()), "chatcmpl-abc");
}

#[test]
fn counters_accumulate_and_saturate() {
    let mut c = SystemCounters::new();
    c.increment_request_count();
    c.increment_request_count();
    c.add_tokens(30);
    c.add_tokens(12);
    assert_eq!(c.total_requests, 2);
    assert_eq!(c.total_tokens, 42);
    c.total_tokens = u64::MAX - 1;
    c.add_tokens(10);
    assert_eq!(c.total_tokens, u64::MAX);
    c.total_requests = u64::MAX;
    c.increment_request_count();
    assert_eq!(c.total_requests, u64::MAX);
}

#[test]
fn status_snapshot_reports_the_given_state() {
    let config = AppConfig::from_parts(
        "s".to_string(),
        "a".to_string(),
        Some("4000".to_string()),
        Some("30".to_string()),
        Some("9000".to_string()),
    );
    let mut counters = SystemCounters::new();
    counters.increment_request_count();
    counters.add_tokens(7);
    let s = get_status(&config, &counters, 55, 2, "1.2.3".to_string());
    assert_eq!(s.version, "1.2.3");
    assert_eq!(s.uptime_seconds, 55);
    assert_eq!(s.server_port, 4000);
    assert_eq!(s.rate_limits.max_requests_per_minute, 30);
    assert_eq!(s.rate_limits.max_tokens_per_minute, 9000);
    assert_eq!(s.stats.total_requests, 1);
    assert_eq!(s.stats.total_tokens, 7);
    assert_eq!(s.stats.active_ips, 2);
}

#[test]
fn timestamps_are_nonnegative_and_recent() {
    let t = current_timestamp();
    // after 2020 on any sane clock, and the contract promises at least zero
    assert!(t >= 0);
    assert!(t > 1_500_000_000);
}
