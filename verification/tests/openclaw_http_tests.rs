use claw_browser::json::JsonValue;
use claw_browser::openclaw_http::{
    alive_url, bearer, default_true, parse_sse_data, plain_response_message, resolve_v1_request,
    slice_bytes, OpenclawV1Params, SseDecoder,
};

fn to_serde(v: &JsonValue) -> serde_json::Value {
    match v {
        JsonValue::Null => serde_json::Value::Null,
        JsonValue::Bool(b) => serde_json::Value::Bool(*b),
        JsonValue::Number(n) => serde_json::Value::Number(n.clone()),
        JsonValue::Str(s) => serde_json::Value::String(s.clone()),
        JsonValue::Array(a) => serde_json::Value::Array(a.iter().map(to_serde).collect()),
        JsonValue::Object(o) => {
            let mut m = serde_json::Map::new();
            for (k, x) in o {
                m.insert(k.clone(), to_serde(x));
            }
            serde_json::Value::Object(m)
        }
    }
}

fn msg(kind: &str, text: &str) -> Option<(String, String)> {
    Some((kind.to_string(), text.to_string()))
}

fn params(token: Option<&str>) -> OpenclawV1Params {
    OpenclawV1Params {
        base_url: None,
        token: token.map(|t| t.to_string()),
        session_key: None,
        model: None,
        input: "hello".to_string(),
        stream: true,
    }
}

#[test]
fn sse_delta_kinds() {
    assert_eq!(parse_sse_data("", r#"{"type":"response.output_text.delta","delta":"Hi"}"#), msg("thought", "Hi"));
    assert_eq!(parse_sse_data("", r#" {"type":"response.function_call_arguments.delta","delta":"{"} "#), msg("tool", "{"));
    assert_eq!(parse_sse_data("x.tool_call", r#"{"delta":"a"}"#), msg("tool", "a"));
    assert_eq!(parse_sse_data("x.tool_call", r#"{"type":5,"delta":"a"}"#), msg("tool", "a"));
    assert_eq!(parse_sse_data("x.tool_call", r#"{"type":"text","delta":"a"}"#), msg("thought", "a"));
}

#[test]
fn sse_payload_shapes() {
    assert_eq!(parse_sse_data("", r#"{"choices":[{"delta":{"content":"c"}}]}"#), msg("thought", "c"));
    assert_eq!(parse_sse_data("", r#"{"delta":"","text":"t"}"#), msg("thought", "t"));
    assert_eq!(parse_sse_data("", r#"{"content":"k"}"#), msg("thought", "k"));
    assert_eq!(parse_sse_data("", r#"{"choices":[],"content":"k"}"#), msg("thought", "k"));
    assert_eq!(parse_sse_data("", r#"{"delta":"","text":""}"#), None);
    assert_eq!(parse_sse_data("", r#"{"delta":{"x":1}}"#), None);
}

#[test]
fn sse_ignored_data() {
    assert_eq!(parse_sse_data("", "[DONE]"), None);
    assert_eq!(parse_sse_data("", "  "), None);
    assert_eq!(parse_sse_data("", "not json"), None);
    assert_eq!(parse_sse_data("", "[1]"), None);
}

#[test]
fn decoder_events_and_blank_lines() {
    let mut d = SseDecoder::new();
    let out = d.feed(b"event: response.function_call\ndata: {\"delta\":\"a\"}\n\ndata: {\"delta\":\"b\"}\n");
    assert_eq!(out, vec![("tool".to_string(), "a".to_string()), ("thought".to_string(), "b".to_string())]);
    assert!(d.buf.is_empty());
}

#[test]
fn decoder_split_chunks_and_crlf() {
    let mut d = SseDecoder::new();
    assert!(d.feed(b"data: {\"del").is_empty());
    assert_eq!(d.feed(b"ta\":\"x\"}\r\nid: 7\r\n"), vec![("thought".to_string(), "x".to_string())]);
    assert!(d.finish().is_none());
    assert!(d.feed("data: {\"delta\":\"你".as_bytes()).is_empty());
    assert_eq!(d.feed("好\"}\n".as_bytes()), vec![("thought".to_string(), "你好".to_string())]);
}

#[test]
fn decoder_finish_last_line() {
    let mut d = SseDecoder::new();
    assert!(d.feed(b"event: a.tool_call\ndata: {\"delta\":\"z\"}").is_empty());
    assert_eq!(d.event_type, "a.tool_call");
    assert_eq!(d.finish(), msg("tool", "z"));
    let mut e = SseDecoder::new();
    e.feed(b"event: x");
    assert_eq!(e.finish(), None);
}

#[test]
fn plain_responses() {
    assert_eq!(plain_response_message("  plain text \n"), msg("thought", "plain text"));
    assert_eq!(plain_response_message(r#"{"delta":"d"}"#), msg("thought", "d"));
    assert_eq!(plain_response_message(" \n"), None);
    assert_eq!(plain_response_message(r#"{"output":[]}"#), msg("thought", r#"{"output":[]}"#));
}

#[test]
fn request_defaults() {
    let q = resolve_v1_request(&params(Some("  t  ")), &None, &None, &None).unwrap();
    assert_eq!(q.url, "http://127.0.0.1:18789/v1/responses");
    assert_eq!(q.token, "t");
    assert_eq!(q.session_key, "agent:main:main2");
    assert_eq!(q.model, "minimax-cn/MiniMax-M2.5");
    assert_eq!(
        to_serde(&q.body),
        serde_json::from_str::<serde_json::Value>(r#"{"input":"hello","model":"minimax-cn/MiniMax-M2.5","stream":true}"#).unwrap()
    );
}

#[test]
fn request_from_environment() {
    let mut p = params(Some("  "));
    p.base_url = Some("http://h:1//".to_string());
    p.session_key = Some(" ".to_string());
    let q = resolve_v1_request(&p, &Some(" e ".to_string()), &Some("s1".to_string()), &Some("m".to_string())).unwrap();
    assert_eq!(q.url, "http://h:1/v1/responses");
    assert_eq!(q.token, "e");
    assert_eq!(q.session_key, "s1");
    assert_eq!(q.model, "m");
    p.model = Some("own".to_string());
    p.stream = false;
    let r = resolve_v1_request(&p, &Some("e".to_string()), &None, &Some("m".to_string())).unwrap();
    assert_eq!(r.model, "own");
    assert_eq!(to_serde(&r.body)["stream"], serde_json::Value::Bool(false));
}

#[test]
fn request_without_token() {
    let e = resolve_v1_request(&params(None), &Some("   ".to_string()), &None, &None);
    assert_eq!(e.err(), Some("缺少 token：请传入 token 或设置环境变量 OPENCLAW_BEARER_TOKEN".to_string()));
}

#[test]
fn small_helpers() {
    assert_eq!(alive_url(&None), "http://127.0.0.1:18789/");
    assert_eq!(alive_url(&Some("http://x///".to_string())), "http://x/");
    assert_eq!(bearer("tok"), "Bearer tok");
    assert!(default_true());
    assert_eq!(slice_bytes(&vec![1, 2, 3, 4], 1, 3), vec![2, 3]);
}

#[test]
fn decoder_chunking_does_not_matter() {
    let stream = "event: a.function_call\ndata: {\"delta\":\"x\"}\n\ndata: {\"text\":\"y\"}\r\ndata: [DONE]\ndata: {\"content\":\"z\"}";
    let mut whole = SseDecoder::new();
    let all = whole.feed(stream.as_bytes());
    for cut in 0..stream.len() {
        let mut d = SseDecoder::new();
        let mut got = d.feed(&stream.as_bytes()[..cut]);
        got.extend(d.feed(&stream.as_bytes()[cut..]));
        assert_eq!(got, all);
        assert_eq!(d.buf, whole.buf);
        assert_eq!(d.event_type, whole.event_type);
        assert_eq!(d.finish(), whole.finish());
    }
    assert_eq!(all, vec![("tool".to_string(), "x".to_string()), ("thought".to_string(), "y".to_string())]);
    assert_eq!(whole.finish(), Some(("thought".to_string(), "z".to_string())));
}
