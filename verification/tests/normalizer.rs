use chatgpt_proxy::normalizer::normalize;
use chatgpt_proxy::json::{JsonValue, to_text, parse_json};

#[test]
fn direct_json_parts_precedence() {
    let body = "{\"message\":{\"content\":{\"parts\":[\"hi\"]}}}";
    assert_eq!(normalize(body), "hi");
}

#[test]
fn direct_json_top_level_content() {
    assert_eq!(normalize("{\"content\":\"hi\"}"), "hi");
}

#[test]
fn direct_json_message_content_string() {
    assert_eq!(normalize("{\"message\":{\"content\":\"direct\"}}"), "direct");
}

#[test]
fn direct_json_text_field() {
    assert_eq!(normalize("{\"text\":\"from text\"}"), "from text");
}

#[test]
fn direct_json_parts_win_over_content() {
    let body = "{\"message\":{\"content\":{\"parts\":[\"first\"]}},\"content\":\"second\"}";
    assert_eq!(normalize(body), "first");
}

#[test]
fn direct_json_unknown_shape_reserialized() {
    assert_eq!(normalize("{\"foo\":1}"), "{\"foo\":1}");
}

#[test]
fn stream_accumulation_in_arrival_order() {
    let body = "data: {\"message\":{\"content\":{\"parts\":[\"Hello\"]}}}\n\
                data: {\"message\":{\"content\":{\"parts\":[\" world\"]}}}\n\
                data: [DONE]\n";
    assert_eq!(normalize(body), "Hello world");
}

#[test]
fn stream_terminator_contributes_nothing() {
    let body = "data: {\"message\":{\"content\":{\"parts\":[\"only\"]}}}\ndata: [DONE]\n";
    assert_eq!(normalize(body), "only");
}

#[test]
fn stream_last_event_used_when_no_parts_accumulate() {
    let body = "data: {\"message\":{\"content\":\"tail\"}}\ndata: [DONE]\n";
    // no event carried parts, so the last parsed event is re-examined
    assert_eq!(normalize(body), "tail");
}

#[test]
fn direct_json_message_without_parts_falls_through() {
    // message.content exists as an object but holds no usable parts, so the
    // top-level content field wins
    let body = "{\"message\":{\"content\":{\"parts\":[]}},\"content\":\"top\"}";
    assert_eq!(normalize(body), "top");
}

#[test]
fn stream_lines_with_carriage_returns() {
    let body = "data: {\"message\":{\"content\":{\"parts\":[\"crlf\"]}}}\r\ndata: [DONE]\r\n";
    assert_eq!(normalize(body), "crlf");
}

#[test]
fn fallback_on_empty_input_is_nonempty() {
    let out = normalize("");
    assert!(!out.is_empty());
    assert!(out.starts_with("Unparseable upstream response."));
}

#[test]
fn fallback_on_garbage_is_nonempty() {
    let out = normalize("%%% not json at all %%%");
    assert!(!out.is_empty());
    assert!(out.contains("%%% not json at all %%%"));
}

#[test]
fn fallback_on_truncated_json_is_nonempty() {
    let out = normalize("{\"message\": {\"content\"");
    assert!(!out.is_empty());
    assert!(out.starts_with("Unparseable upstream response."));
}

#[test]
fn fallback_preview_is_bounded() {
    let long: String = "x".repeat(2_000);
    let out = normalize(&long);
    assert!(out.starts_with("Unparseable upstream response."));
    assert!(out.ends_with("... (truncated)"));
    assert!(out.len() < 1_100);
}

#[test]
fn serializer_renders_all_shapes() {
    assert_eq!(to_text(&JsonValue::Null), "null");
    assert_eq!(to_text(&JsonValue::Bool(true)), "true");
    assert_eq!(to_text(&JsonValue::Bool(false)), "false");
    assert_eq!(to_text(&JsonValue::Number("12.5".to_string())), "12.5");
    let arr = JsonValue::Array(vec![
        JsonValue::Text("a\"b".to_string()),
        JsonValue::Null,
        JsonValue::Number("3".to_string()),
    ]);
    assert_eq!(to_text(&arr), "[\"a\\\"b\",null,3]");
    let obj = JsonValue::Object(vec![
        ("k".to_string(), JsonValue::Text("v".to_string())),
        ("n".to_string(), JsonValue::Array(vec![])),
    ]);
    assert_eq!(to_text(&obj), "{\"k\":\"v\",\"n\":[]}");
}

#[test]
fn parse_json_builds_the_library_tree() {
    // the parse wrapper must carry the real content across, not echo input
    let v = parse_json("{\"a\":[true,\"x\"],\"b\":null}").expect("valid json");
    assert_eq!(to_text(&v), "{\"a\":[true,\"x\"],\"b\":null}");
    assert!(parse_json("not json").is_none());
    assert!(parse_json("").is_none());
}

#[test]
fn escaped_strings_survive_reserialization() {
    let v = parse_json("{\"s\":\"line\\nbreak\\t\\\"q\\\"\"}").expect("valid json");
    assert_eq!(to_text(&v), "{\"s\":\"line\\nbreak\\t\\\"q\\\"\"}");
}
