use chat_relay::event::{event_payload, line_delta, nonempty_delta, starts_with, trim_bounds};
use chat_relay::relay::{
    remote_error, ChatTurn, Config, Phase, Relay, RelayError, Role, DEFAULT_BASE_URL,
    DEFAULT_MODEL, EMPTY_RESPONSE_TEXT,
};

fn config_with_key(key: &str) -> Config {
    let mut c = Config::empty();
    c.api_key = key.to_string();
    c
}

fn streaming_relay() -> Relay {
    let mut relay = Relay::new();
    let req = relay.start(&config_with_key("sk-test"), Vec::new(), "hi".to_string());
    assert!(req.is_ok());
    assert!(relay.on_status(200));
    assert_eq!(relay.current_phase(), Phase::Streaming);
    relay
}

#[test]
fn deltas_are_forwarded_in_order_and_joined() {
    let mut relay = streaming_relay();
    let body = "data: {\"choices\":[{\"delta\":{\"content\":\"Hel\"}}]}\n\
                data: {\"choices\":[{\"delta\":{\"content\":\"lo\"}}]}\n\
                data: [DONE]\n";
    let deltas = relay.on_chunk(body.as_bytes());
    assert_eq!(deltas, vec!["Hel".to_string(), "lo".to_string()]);
    let done = relay.finish();
    assert!(done.deltas.is_empty());
    assert_eq!(done.text, "Hello");
    assert_eq!(relay.current_phase(), Phase::Completed);
}

#[test]
fn deltas_split_across_chunks() {
    let mut relay = streaming_relay();
    let body = "data: {\"choices\":[{\"delta\":{\"content\":\"Hel\"}}]}\n\
                data: {\"choices\":[{\"delta\":{\"content\":\"lo\"}}]}\n\
                data: [DONE]\n";
    let mut forwarded = Vec::new();
    for b in body.as_bytes().chunks(3) {
        forwarded.extend(relay.on_chunk(b));
    }
    let done = relay.finish();
    forwarded.extend(done.deltas);
    assert_eq!(forwarded, vec!["Hel".to_string(), "lo".to_string()]);
    assert_eq!(done.text, "Hello");
}

#[test]
fn unparseable_line_is_skipped() {
    let mut relay = streaming_relay();
    let body = "data: {\"choices\":[{\"delta\":{\"content\":\"A\"}}]}\n\
                data: not-json\n\
                data: {\"choices\":[{\"delta\":{\"content\":\"B\"}}]}\n";
    let deltas = relay.on_chunk(body.as_bytes());
    assert_eq!(deltas, vec!["A".to_string(), "B".to_string()]);
    assert_eq!(relay.current_phase(), Phase::Streaming);
    assert_eq!(relay.finish().text, "AB");
}

#[test]
fn stream_without_deltas_returns_placeholder() {
    let mut relay = streaming_relay();
    let body = ": keep-alive\n\ndata: {\"choices\":[{\"delta\":{}}]}\n\
                data: {\"choices\":[{\"delta\":{\"content\":\"\"}}]}\ndata: [DONE]\n";
    assert!(relay.on_chunk(body.as_bytes()).is_empty());
    let done = relay.finish();
    assert!(done.deltas.is_empty());
    assert_eq!(done.text, EMPTY_RESPONSE_TEXT);
    assert!(!done.text.is_empty());
    assert_eq!(relay.current_phase(), Phase::Completed);
}

#[test]
fn empty_stream_returns_placeholder() {
    let mut relay = streaming_relay();
    let done = relay.finish();
    assert_eq!(done.text, EMPTY_RESPONSE_TEXT);
}

#[test]
fn unterminated_last_line_is_taken_at_the_end() {
    let mut relay = streaming_relay();
    let deltas = relay.on_chunk(b"data: {\"choices\":[{\"delta\":{\"content\":\"tail\"}}]}");
    assert!(deltas.is_empty());
    let done = relay.finish();
    assert_eq!(done.deltas, vec!["tail".to_string()]);
    assert_eq!(done.text, "tail");
}

#[test]
fn unauthorized_status_never_streams() {
    let mut relay = Relay::new();
    assert!(relay.start(&config_with_key("bad"), Vec::new(), "hi".to_string()).is_ok());
    assert!(!relay.on_status(401));
    assert_eq!(relay.current_phase(), Phase::Failed);
    let e = remote_error(401, "{\"error\":\"invalid key\"}".to_string());
    match &e {
        RelayError::Remote { status, body } => {
            assert_eq!(*status, 401);
            assert_eq!(body, "{\"error\":\"invalid key\"}");
        }
        other => panic!("unexpected {:?}", other),
    }
    assert_eq!(
        e.describe(),
        "the endpoint refused the request: {\"error\":\"invalid key\"}"
    );
}

#[test]
fn success_statuses_start_the_stream() {
    for status in [200u16, 201, 299] {
        let mut relay = Relay::new();
        assert!(relay.start(&config_with_key("k"), Vec::new(), "m".to_string()).is_ok());
        assert!(relay.on_status(status));
        assert_eq!(relay.current_phase(), Phase::Streaming);
    }
    for status in [199u16, 300, 404, 500] {
        let mut relay = Relay::new();
        assert!(relay.start(&config_with_key("k"), Vec::new(), "m".to_string()).is_ok());
        assert!(!relay.on_status(status));
        assert_eq!(relay.current_phase(), Phase::Failed);
    }
}

#[test]
fn missing_api_key_builds_no_request() {
    let mut relay = Relay::new();
    let r = relay.start(&Config::empty(), Vec::new(), "hello".to_string());
    assert!(matches!(r, Err(RelayError::Configuration)));
    assert_eq!(relay.current_phase(), Phase::Failed);
    assert_eq!(RelayError::Configuration.describe(), "no API key is configured");
}

#[test]
fn request_uses_defaults_for_empty_settings() {
    let mut relay = Relay::new();
    let history = vec![
        ChatTurn { role: Role::System, content: "be brief".to_string() },
        ChatTurn { role: Role::Assistant, content: "ok".to_string() },
    ];
    let req = relay.start(&config_with_key("sk-1"), history, "question".to_string()).unwrap();
    assert_eq!(req.endpoint, format!("{}/chat/completions", DEFAULT_BASE_URL));
    assert_eq!(req.endpoint, "https://api.openai.com/v1/chat/completions");
    assert_eq!(req.model, DEFAULT_MODEL);
    assert_eq!(req.api_key, "sk-1");
    assert!(req.stream);
    assert_eq!(req.messages.len(), 3);
    assert_eq!(req.messages[0].role, Role::System);
    assert_eq!(req.messages[0].content, "be brief");
    assert_eq!(req.messages[1].role, Role::Assistant);
    assert_eq!(req.messages[2].role, Role::User);
    assert_eq!(req.messages[2].content, "question");
    assert_eq!(relay.current_phase(), Phase::Sending);
}

#[test]
fn request_uses_configured_settings() {
    let mut relay = Relay::new();
    let mut c = config_with_key("sk-2");
    c.model_id = "my-model".to_string();
    c.base_url = "http://localhost:8080/v1".to_string();
    let req = relay.start(&c, Vec::new(), "q".to_string()).unwrap();
    assert_eq!(req.endpoint, "http://localhost:8080/v1/chat/completions");
    assert_eq!(req.model, "my-model");
    assert_eq!(req.messages.len(), 1);
}

#[test]
fn send_and_read_errors_fail_the_call() {
    let mut relay = Relay::new();
    assert!(relay.start(&config_with_key("k"), Vec::new(), "m".to_string()).is_ok());
    let e = relay.on_send_error("connection refused".to_string());
    assert!(matches!(&e, RelayError::TransportSend(d) if d == "connection refused"));
    assert_eq!(e.describe(), "the request could not be sent: connection refused");
    assert_eq!(relay.current_phase(), Phase::Failed);

    let mut relay = streaming_relay();
    relay.on_chunk(b"data: {\"choices\":[{\"delta\":{\"content\":\"par\"}}]}\n");
    let e = relay.on_read_error("reset".to_string());
    assert!(matches!(&e, RelayError::TransportRead(d) if d == "reset"));
    assert_eq!(e.describe(), "the response stream broke off: reset");
    assert_eq!(relay.current_phase(), Phase::Failed);
}

#[test]
fn payload_of_event_lines() {
    assert_eq!(event_payload(b"data: {\"x\":1}"), Some(b"{\"x\":1}".to_vec()));
    assert_eq!(event_payload(b"  data: abc \r"), Some(b"abc".to_vec()));
    assert_eq!(event_payload(b"data: [DONE]"), None);
    assert_eq!(event_payload(b"data: [DONE] "), None);
    assert_eq!(event_payload(b"data: [DONE]x"), Some(b"[DONE]x".to_vec()));
    assert_eq!(event_payload(b""), None);
    assert_eq!(event_payload(b"   "), None);
    assert_eq!(event_payload(b": comment"), None);
    assert_eq!(event_payload(b"event: message"), None);
    assert_eq!(event_payload(b"data:{\"x\":1}"), None);
    assert_eq!(event_payload(b"data: "), None);
    assert_eq!(event_payload(b"data: x"), Some(b"x".to_vec()));
}

#[test]
fn trimming_and_prefixes() {
    assert_eq!(trim_bounds(b" \tab c\n "), (2, 6));
    assert_eq!(trim_bounds(b"   "), (3, 3));
    assert_eq!(trim_bounds(b""), (0, 0));
    assert!(starts_with(b"data: x", b"data: "));
    assert!(!starts_with(b"data", b"data: "));
    assert!(starts_with(b"abc", b""));
}

#[test]
fn delta_of_a_line() {
    assert_eq!(
        line_delta(b"data: {\"choices\":[{\"delta\":{\"content\":\"Hi\"}}]}"),
        Some("Hi".to_string())
    );
    assert_eq!(
        line_delta(b"data: {\"choices\":[{\"delta\":{\"content\":\"a\\nb\"}}]}"),
        Some("a\nb".to_string())
    );
    assert_eq!(
        line_delta(b"data: {\"choices\":[{\"delta\":{\"content\":\"a\xFFb\"}}]}"),
        Some("a\u{FFFD}b".to_string())
    );
    assert_eq!(line_delta(b"data: {\"choices\":[{\"delta\":{\"content\":\"\"}}]}"), None);
    assert_eq!(line_delta(b"data: {\"choices\":[{\"delta\":{\"content\":7}}]}"), None);
    assert_eq!(line_delta(b"data: {\"choices\":[]}"), None);
    assert_eq!(line_delta(b"data: not-json"), None);
    assert_eq!(line_delta(b"data: [DONE]"), None);
    assert_eq!(line_delta(b"{\"choices\":[{\"delta\":{\"content\":\"Hi\"}}]}"), None);
}

#[test]
fn only_nonempty_text_counts() {
    assert_eq!(nonempty_delta(Some(Some("x".to_string()))), Some("x".to_string()));
    assert_eq!(nonempty_delta(Some(Some(String::new()))), None);
    assert_eq!(nonempty_delta(Some(None)), None);
    assert_eq!(nonempty_delta(None), None);
}

#[test]
fn empty_config_is_blank() {
    let c = Config::empty();
    assert!(c.api_key.is_empty() && c.model_id.is_empty() && c.base_url.is_empty());
    assert!(c.compact_model_id.is_empty() && c.channels_json.is_empty());
    assert!(!c.reasoning_enabled && !c.compact_reasoning_enabled);
}
