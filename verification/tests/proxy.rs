use codex_tools::byte_stream::StreamPump;
use codex_tools::events::PendingEvent;
use codex_tools::exchange::{
    answer_models, fallback_non_sse_stream, prepare_models, prepare_request, translate_reply,
    Arrival, BodyRead, Exchange, Fallback, ModelsRead, Step,
};
use codex_tools::json::Json;
use codex_tools::models::{ProviderApiType, ProviderProfile};
use codex_tools::proxy::{
    authorization_for, effective_base_url, error_response, invalid_request_response,
    is_authorized, is_event_stream, make_proxy_key, send_failure_response,
    upstream_error_response, ChatProxyRegistry, ProxyConfig, Reply, RunningProxy, SendFailure,
    PROXY_PORT,
};
use codex_tools::pump::{MAX_SSE_LINE_BUFFER_BYTES, MAX_STREAM_RESPONSE_BYTES};
use codex_tools::sse::MAX_SSE_EVENT_DATA_BYTES;
use serde_json::Value;

const COMPLETION: &str = r#"{"id":"chatcmpl-1","object":"chat.completion","created":1700000000,"model":"deepseek-chat","choices":[{"index":0,"message":{"role":"assistant","content":"你好"},"finish_reason":"stop"}],"usage":{"prompt_tokens":3,"completion_tokens":2,"total_tokens":5}}"#;

fn provider(id: &str, base_url: &str) -> ProviderProfile {
    ProviderProfile {
        id: id.into(),
        name: "Provider".into(),
        base_url: base_url.into(),
        headers: Vec::new(),
        timeout_secs: 30,
        enabled: true,
        active: false,
        model: String::new(),
        available_models: Vec::new(),
        selected_models: None,
        custom_models: Vec::new(),
        api_type: ProviderApiType::Chat,
        api_key: Some("secret".into()),
        has_api_key: false,
        created_at: 0,
        updated_at: 0,
    }
}

fn started(provider: &ProviderProfile) -> ChatProxyRegistry {
    let mut registry = ChatProxyRegistry::default();
    assert!(registry.ensure(provider).is_none());
    registry.started(provider, PROXY_PORT, make_proxy_key());
    registry
}

fn running(registry: &mut ChatProxyRegistry) -> &mut RunningProxy {
    registry.single.as_mut().unwrap()
}

fn value(document: &Json) -> Value {
    serde_json::from_str(&document.render().unwrap()).unwrap()
}

/// What a service does with a request.
enum Upstream {
    Refuses(u16, String),
    Stalls,
    Answers(&'static str, Vec<u8>),
    StallsInBody,
}

/// What Codex gets.
enum Answer {
    Reply(u16, Value),
    Events(Vec<Value>),
}

impl Answer {
    fn reply(self) -> (u16, Value) {
        match self {
            Answer::Reply(status, body) => (status, body),
            Answer::Events(_) => panic!("a single answer was expected"),
        }
    }

    fn events(self) -> Vec<Value> {
        match self {
            Answer::Events(events) => events,
            Answer::Reply(status, body) => panic!("{status} {body}"),
        }
    }
}

fn told(events: Vec<PendingEvent>) -> Vec<Value> {
    events
        .into_iter()
        .map(|event| serde_json::from_str(&event.data()).unwrap())
        .collect()
}

fn replied(reply: Reply) -> Answer {
    Answer::Reply(reply.status, value(&reply.body))
}

/// Sends a request of Codex through the proxy. The service is played by a
/// function from the body of a request to what comes back.
fn serve(
    proxy: &mut RunningProxy,
    body: &str,
    mut service: impl FnMut(&str, &Value) -> Upstream,
) -> Answer {
    let header = authorization_for(&proxy.proxy_api_key).into_bytes();
    let prepared =
        prepare_request(Some(&header), &header, body.as_bytes(), &proxy.snapshot);
    let mut exchange = match prepared {
        Ok(request) => Exchange::new(request),
        Err(reply) => return replied(reply),
    };
    let since = proxy.snapshot.generation;
    let url = exchange.request.url.clone();
    let mut sent = exchange.first_body();
    loop {
        let (arrival, read, content_type) = match service(&url, &value(&sent)) {
            Upstream::Refuses(status, detail) => {
                (Arrival::Refused(status, detail), BodyRead::Broken, "")
            }
            Upstream::Stalls => {
                (Arrival::Failed(SendFailure::TimedOut), BodyRead::Broken, "")
            }
            Upstream::Answers(content_type, bytes) => {
                (Arrival::Accepted, BodyRead::Bytes(bytes), content_type)
            }
            Upstream::StallsInBody => (Arrival::Accepted, BodyRead::TimedOut, ""),
        };
        match exchange.next_step(&arrival) {
            Step::Send(body) => sent = body,
            Step::Answer(reply) => return replied(reply),
            Step::Read => {
                let context = exchange.context(1_700_000_000);
                let mut lent = proxy.snapshot.lend(since);
                let (store, cache) = (&mut lent.reasoning_store, &mut lent.capabilities);
                let answer = if !exchange.request.stream {
                    replied(translate_reply(&read, &context, store, cache))
                } else if is_event_stream(Some(content_type)) {
                    let mut pump = StreamPump::open(&context);
                    let mut events = told(pump.take_events());
                    if let BodyRead::Bytes(bytes) = &read {
                        for piece in bytes.chunks(1000) {
                            if pump.is_stopped() {
                                break;
                            }
                            pump.take_bytes(piece);
                            while pump.read_lines(16) {
                                events.extend(told(pump.take_events()));
                            }
                            pump.check_line();
                            events.extend(told(pump.take_events()));
                        }
                    }
                    pump.finish(store, cache, context.capability_key.clone());
                    events.extend(told(pump.take_events()));
                    Answer::Events(events)
                } else {
                    match fallback_non_sse_stream(&read, &context, store, cache) {
                        Fallback::Reply(reply) => replied(reply),
                        Fallback::Events(events) => Answer::Events(told(events)),
                    }
                };
                proxy.snapshot.take_back(since, lent);
                return answer;
            }
        }
    }
}

fn types(events: &[Value]) -> Vec<&str> {
    events.iter().map(|event| event["type"].as_str().unwrap()).collect()
}

#[test]
fn proxy_translates_non_streaming_requests_end_to_end() {
    let chat = provider("p", "http://127.0.0.1:1");
    let mut registry = started(&chat);
    assert_eq!(running(&mut registry).snapshot.config.api_key, "secret");
    let answer = serve(
        running(&mut registry),
        r#"{"model": "deepseek-chat", "input": "你好", "stream": false}"#,
        |url, body| {
            assert!(url.contains("chat/completions"));
            assert!(body.get("messages").is_some());
            Upstream::Answers("application/json", COMPLETION.into())
        },
    );
    let (status, body) = answer.reply();
    assert_eq!(status, 200);
    assert_eq!(body["object"], "response");
    assert_eq!(body["output"][0]["content"][0]["text"], "你好");
    assert_eq!(body["usage"]["input_tokens"], 3);

    let (port2, _) = registry.ensure(&chat).unwrap();
    let other = provider("p2", "http://127.0.0.1:2/v1");
    let (port3, _) = registry.ensure(&other).unwrap();
    assert_eq!(port2, port3);
}

#[test]
fn proxy_rejects_requests_without_credentials() {
    let mut registry = started(&provider("p", "http://127.0.0.1:2/v1"));
    let proxy = running(&mut registry);
    let expected = authorization_for(&proxy.proxy_api_key).into_bytes();
    let body = br#"{"model": "deepseek-chat", "input": "hi"}"#;
    let refused = prepare_request(None, &expected, body, &proxy.snapshot).err().unwrap();
    assert_eq!(refused.status, 401);
    for wrong in ["Bearer codex-tools", "Bearer wrong-key", "Bearer "] {
        let refused = prepare_models(Some(wrong.as_bytes()), &expected, &proxy.snapshot);
        assert_eq!(refused.err().unwrap().status, 401);
    }
    let allowed = prepare_models(Some(&expected), &expected, &proxy.snapshot);
    assert_eq!(allowed.ok().unwrap(), "http://127.0.0.1:2/v1/models");
}

#[test]
fn proxy_forwards_upstream_errors() {
    let mut registry = started(&provider("p", "http://127.0.0.1:1"));
    let answer = serve(
        running(&mut registry),
        r#"{"model": "deepseek-chat", "input": "hi"}"#,
        |_, _| {
            Upstream::Refuses(
                401,
                r#"{"error":{"message":"invalid api key","type":"authentication_error","code":"invalid_api_key"}}"#
                    .into(),
            )
        },
    );
    let (status, body) = answer.reply();
    assert_eq!(status, 401);
    assert_eq!(body["error"]["message"], "invalid api key");
}

#[test]
fn proxy_learns_prompt_structured_output_after_validation_rejection() {
    let mut registry = started(&provider("p", "http://127.0.0.1:1"));
    let request = |input: &str| {
        format!(
            r#"{{"model": "deepseek-chat", "input": "{input}", "text": {{"format": {{"type": "json_schema", "name": "review", "schema": {{"type": "object", "properties": {{"ok": {{"type": "boolean"}}}}}}}}}}}}"#
        )
    };
    let completion = r#"{"id":"chatcmpl-2","object":"chat.completion","created":1700000000,"model":"deepseek-chat","choices":[{"index":0,"message":{"role":"assistant","content":"{\"ok\": true}"},"finish_reason":"stop"}],"usage":{"prompt_tokens":3,"completion_tokens":2,"total_tokens":5}}"#;
    let mut seen = 0;
    let answer = serve(running(&mut registry), &request("hi"), |_, body| {
        seen += 1;
        let text = body.to_string();
        if seen == 1 {
            assert!(text.contains("response_format"));
            Upstream::Refuses(
                400,
                r#"{"error":{"code":400,"message":"invalid request","type":"invalid_request_error"}}"#
                    .into(),
            )
        } else {
            assert!(!text.contains("response_format"));
            assert!(text.contains("JSON Schema"));
            assert!(!text.contains("top-level fields: ok"));
            Upstream::Answers("application/json", completion.into())
        }
    });
    let (status, body) = answer.reply();
    assert_eq!(seen, 2);
    assert_eq!(status, 200);
    assert_eq!(body["output"][0]["content"][0]["text"], "{\"ok\":true}");

    let mut again = 0;
    let answer = serve(running(&mut registry), &request("hi again"), |_, body| {
        again += 1;
        let text = body.to_string();
        assert!(!text.contains("response_format"));
        assert!(text.contains("JSON Schema"));
        Upstream::Answers("application/json", completion.into())
    });
    assert_eq!(again, 1);
    assert_eq!(answer.reply().0, 200);
}

#[test]
fn a_request_is_degraded_once_at_most() {
    let mut registry = started(&provider("p", "http://127.0.0.1:1"));
    let mut seen = 0;
    let answer = serve(
        running(&mut registry),
        r#"{"model": "m", "input": "hi", "text": {"format": {"type": "json_schema", "name": "n", "schema": {"type": "object"}}}}"#,
        |_, _| {
            seen += 1;
            Upstream::Refuses(422, "no".into())
        },
    );
    assert_eq!(seen, 2);
    let (status, body) = answer.reply();
    assert_eq!(status, 422);
    assert!(body["error"]["message"].as_str().unwrap().contains("no"));
}

#[test]
fn proxy_translates_streaming_requests_end_to_end() {
    let mut registry = started(&provider("p", "http://127.0.0.1:1"));
    let chunks = [
        r#"data: {"id":"chatcmpl-1","choices":[{"index":0,"delta":{"role":"assistant","content":"你"}}]}"#,
        r#"data: {"id":"chatcmpl-1","choices":[{"index":0,"delta":{"content":"好"}}]}"#,
        r#"data: {"id":"chatcmpl-1","choices":[{"index":0,"delta":{},"finish_reason":"stop"}]}"#,
        r#"data: {"id":"chatcmpl-1","usage":{"prompt_tokens":3,"completion_tokens":2,"total_tokens":5}}"#,
        "data: [DONE]",
    ]
    .join("\n\n");
    let events = serve(
        running(&mut registry),
        r#"{"model": "deepseek-chat", "input": "你好", "stream": true}"#,
        |_, _| Upstream::Answers("text/event-stream", chunks.clone().into_bytes()),
    )
    .events();
    assert_eq!(
        types(&events),
        vec![
            "response.created",
            "response.in_progress",
            "response.output_item.added",
            "response.content_part.added",
            "response.output_text.delta",
            "response.output_text.delta",
            "response.output_text.done",
            "response.content_part.done",
            "response.output_item.done",
            "response.completed",
        ]
    );
}

#[test]
fn proxy_streams_many_tokens_without_loss_or_reordering() {
    let mut registry = started(&provider("p", "http://127.0.0.1:1"));
    let total = 2000usize;
    let mut stream = String::new();
    for i in 0..total {
        stream.push_str(&format!(
            "data: {{\"id\":\"c\",\"choices\":[{{\"index\":0,\"delta\":{{\"content\":\"{i}\"}}}}]}}\n\n"
        ));
    }
    stream.push_str("data: [DONE]\n\n");
    let events = serve(
        running(&mut registry),
        r#"{"model": "deepseek-chat", "input": "hi", "stream": true}"#,
        |_, _| Upstream::Answers("text/event-stream; charset=utf-8", stream.clone().into_bytes()),
    )
    .events();
    let deltas = events
        .iter()
        .filter_map(|event| event.get("delta").and_then(Value::as_str))
        .collect::<Vec<_>>();
    assert_eq!(deltas.len(), total);
    for (index, delta) in deltas.iter().enumerate() {
        assert_eq!(*delta, index.to_string());
    }
}

#[test]
fn reasoning_content_is_passed_back_on_next_turn_end_to_end() {
    let mut registry = started(&provider("p", "http://127.0.0.1:1"));
    let sse = [
        r#"data: {"id":"c","choices":[{"index":0,"delta":{"role":"assistant","reasoning_content":"第一步思考"}}]}"#,
        r#"data: {"id":"c","choices":[{"index":0,"delta":{"content":"好的"}}]}"#,
        r#"data: {"id":"c","choices":[{"index":0,"delta":{"tool_calls":[{"index":0,"id":"call_1","type":"function","function":{"name":"run_shell","arguments":"{\"cmd\":\"ls\"}"}}]}}]}"#,
        r#"data: {"id":"c","choices":[{"index":0,"delta":{},"finish_reason":"tool_calls"}]}"#,
        r#"data: {"id":"c","usage":{"prompt_tokens":3,"completion_tokens":5,"total_tokens":8}}"#,
        "data: [DONE]",
    ]
    .join("\n\n");
    let events = serve(
        running(&mut registry),
        r#"{"model": "deepseek-reasoner", "input": "运行命令", "stream": true}"#,
        |_, _| Upstream::Answers("text/event-stream", sse.clone().into_bytes()),
    )
    .events();
    let completed = events
        .iter()
        .find(|event| event["type"] == "response.completed")
        .unwrap();
    let output = completed["response"]["output"].as_array().unwrap();
    let message = output.iter().find(|item| item["type"] == "message").unwrap();
    let function = output.iter().find(|item| item["type"] == "function_call").unwrap();
    let second = format!(
        r#"{{"model": "deepseek-reasoner", "input": [
            {{"type": "message", "role": "user", "content": [{{"type": "input_text", "text": "运行命令"}}]}},
            {{"type": "message", "id": {}, "role": "assistant", "content": [{{"type": "output_text", "text": "好的"}}]}},
            {{"type": "function_call", "id": {}, "call_id": {}, "name": "run_shell", "arguments": "{{\"cmd\":\"ls\"}}"}},
            {{"type": "function_call_output", "call_id": {}, "output": "ok"}}
        ]}}"#,
        message["id"], function["id"], function["call_id"], function["call_id"],
    );
    let answer = serve(running(&mut registry), &second, |_, body| {
        let tool_message = body["messages"]
            .as_array()
            .unwrap()
            .iter()
            .find(|message| message.get("tool_calls").is_some())
            .unwrap()
            .clone();
        assert_eq!(tool_message["reasoning_content"], "第一步思考");
        Upstream::Answers("application/json", COMPLETION.into())
    });
    assert_eq!(answer.reply().0, 200);
}

#[test]
fn proxy_fails_when_upstream_closes_without_a_terminal_choice() {
    let mut registry = started(&provider("p", "http://127.0.0.1:1"));
    let chunks = "data: {\"choices\":[{\"delta\":{\"content\":\"你好\"}}]}\n\n\ndata: {\"choices\":[{\"delta\":{\"content\":\"世界\"}}]}";
    let events = serve(
        running(&mut registry),
        r#"{"model": "deepseek-chat", "input": "hi", "stream": true}"#,
        |_, _| Upstream::Answers("text/event-stream", chunks.into()),
    )
    .events();
    assert!(types(&events).contains(&"response.failed"));
    assert!(!types(&events).contains(&"response.completed"));
}

#[test]
fn proxy_fails_stream_with_oversized_unterminated_line() {
    let mut registry = started(&provider("p", "http://127.0.0.1:1"));
    let events = serve(
        running(&mut registry),
        r#"{"model": "m", "input": "hi", "stream": true}"#,
        |_, _| {
            Upstream::Answers("text/event-stream", vec![b'x'; MAX_SSE_LINE_BUFFER_BYTES + 1])
        },
    )
    .events();
    assert!(types(&events).contains(&"response.failed"));
    assert!(!types(&events).contains(&"response.completed"));
    assert!(events.last().unwrap().to_string().contains("未换行"));
}

#[test]
fn proxy_fails_when_eof_line_pushes_event_data_over_limit() {
    let mut registry = started(&provider("p", "http://127.0.0.1:1"));
    let stream = format!("data: {}\ndata: tail", "x".repeat(MAX_SSE_EVENT_DATA_BYTES - 4));
    let events = serve(
        running(&mut registry),
        r#"{"model": "m", "input": "hi", "stream": true}"#,
        |_, _| Upstream::Answers("text/event-stream", stream.clone().into_bytes()),
    )
    .events();
    assert!(types(&events).contains(&"response.failed"));
    assert!(!types(&events).contains(&"response.completed"));
}

#[test]
fn a_stream_over_the_limit_fails() {
    let mut registry = started(&provider("p", "http://127.0.0.1:1"));
    let header = authorization_for(&running(&mut registry).proxy_api_key).into_bytes();
    let request = prepare_request(
        Some(&header),
        &header,
        br#"{"model": "m", "input": "hi", "stream": true}"#,
        &running(&mut registry).snapshot,
    )
    .ok()
    .unwrap();
    let mut pump = StreamPump::open(&Exchange::new(request).context(0));
    let piece = vec![b'\n'; 1 << 20];
    for _ in 0..MAX_STREAM_RESPONSE_BYTES / piece.len() {
        pump.take_bytes(&piece);
        assert!(!pump.is_stopped());
    }
    pump.take_bytes(b"\n");
    assert!(pump.is_stopped());
}

#[test]
fn a_stalled_stream_says_so() {
    let mut registry = started(&provider("p", "http://127.0.0.1:1"));
    let proxy = running(&mut registry);
    let header = authorization_for(&proxy.proxy_api_key).into_bytes();
    let body = br#"{"model": "m", "input": "hi", "stream": true}"#;
    for stalled in [true, false] {
        let request =
            prepare_request(Some(&header), &header, body, &proxy.snapshot).ok().unwrap();
        let since = proxy.snapshot.generation;
        let mut pump = StreamPump::open(&Exchange::new(request).context(0));
        if stalled {
            pump.stall();
        } else {
            pump.break_off();
        }
        let mut lent = proxy.snapshot.lend(since);
        pump.finish(&mut lent.reasoning_store, &mut lent.capabilities, None);
        proxy.snapshot.take_back(since, lent);
        let events = told(pump.take_events());
        let last = events.last().unwrap();
        assert_eq!(last["type"], "response.failed");
        let words = if stalled { "超时" } else { "读取上游流式响应失败" };
        assert!(last.to_string().contains(words));
    }
}

#[test]
fn bytes_that_are_no_text_are_marked() {
    let mut registry = started(&provider("p", "http://127.0.0.1:1"));
    let mut stream = b"data: {\"choices\":[{\"delta\":{\"content\":\"a".to_vec();
    stream.push(0xff);
    stream.extend_from_slice(b"\"}}]}\n\ndata: [DONE]\n\n");
    let events = serve(
        running(&mut registry),
        r#"{"model": "m", "input": "hi", "stream": true}"#,
        |_, _| Upstream::Answers("text/event-stream", stream.clone()),
    )
    .events();
    let delta = events.iter().find_map(|event| event.get("delta")).unwrap();
    assert_eq!(delta, "a\u{fffd}");
}

#[test]
fn proxy_rejects_oversized_non_streaming_response() {
    let mut registry = started(&provider("p", "http://127.0.0.1:1"));
    let proxy = running(&mut registry);
    let header = authorization_for(&proxy.proxy_api_key).into_bytes();
    let request = prepare_request(
        Some(&header),
        &header,
        br#"{"model": "m", "input": "hi", "stream": false}"#,
        &proxy.snapshot,
    )
    .ok()
    .unwrap();
    let since = proxy.snapshot.generation;
    let mut lent = proxy.snapshot.lend(since);
    let reply = translate_reply(
        &BodyRead::Broken,
        &Exchange::new(request).context(0),
        &mut lent.reasoning_store,
        &mut lent.capabilities,
    );
    assert_eq!(reply.status, 502);
}

#[test]
fn registry_keeps_port_and_swaps_config_when_parameters_change() {
    let first_provider = provider("p", "http://127.0.0.1:1/v1");
    let mut registry = started(&first_provider);
    let first = registry.ensure(&first_provider).unwrap();
    assert_eq!(registry.ensure(&first_provider).unwrap(), first);
    let mut changed = provider("p", "http://127.0.0.1:2/v1");
    changed.api_key = Some("new-secret".into());
    let second = registry.ensure(&changed).unwrap();
    assert_eq!(first, second);
    let config = &running(&mut registry).snapshot.config;
    assert_eq!(config.upstream_base, "http://127.0.0.1:2/v1");
    assert_eq!(config.api_key, "new-secret");
    assert_eq!(PROXY_PORT, 27777);
    assert!(registry.stop_all());
    assert!(!registry.stop_all());
}

#[test]
fn equivalent_provider_switch_updates_owner_and_clears_reasoning() {
    let mut registry = started(&provider("first", "http://127.0.0.1:1/v1"));
    let since = running(&mut registry).snapshot.generation;
    running(&mut registry)
        .snapshot
        .reasoning_store
        .insert("call_1", "private reasoning");
    let mut late = running(&mut registry).snapshot.lend(since);

    registry.ensure(&provider("second", "http://127.0.0.1:1/v1")).unwrap();
    registry.stop("first");
    let snapshot = &mut running(&mut registry).snapshot;
    assert!(!snapshot.config.is_disabled());
    assert!(snapshot.reasoning_store.get("call_1").is_none());
    late.reasoning_store.insert("late_call", "old provider reasoning");
    snapshot.take_back(since, late);
    assert!(snapshot.reasoning_store.get("late_call").is_none());
    assert!(snapshot.reasoning_store.get("call_1").is_none());

    registry.ensure(&provider("second", "http://127.0.0.1:2/v1")).unwrap();
    assert!(running(&mut registry).snapshot.reasoning_store.get("call_1").is_none());
    registry.stop("second");
    assert!(running(&mut registry).snapshot.config.is_disabled());
}

#[test]
fn deleting_config_owner_disables_upstream_until_next_switch() {
    let first = provider("p", "http://127.0.0.1:1/v1");
    let mut registry = started(&first);
    let (port, token) = registry.ensure(&first).unwrap();
    registry.stop("p");
    assert!(running(&mut registry).snapshot.config.is_disabled());
    let other = provider("p2", "http://127.0.0.1:2/v1");
    assert_eq!(registry.ensure(&other).unwrap(), (port, token));
    assert_eq!(
        running(&mut registry).snapshot.config.upstream_base,
        "http://127.0.0.1:2/v1"
    );
}

#[test]
fn nothing_is_sent_while_no_provider_is_served() {
    let mut registry = started(&provider("p", "http://127.0.0.1:1/v1"));
    registry.stop("p");
    let proxy = running(&mut registry);
    let answer = serve(proxy, r#"{"model": "m", "input": "hi"}"#, |_, _| {
        panic!("nothing may be sent")
    });
    let (status, _) = answer.reply();
    assert_eq!(status, 503);
    let header = authorization_for(&proxy.proxy_api_key).into_bytes();
    let refused = prepare_models(Some(&header), &header, &proxy.snapshot);
    assert_eq!(refused.err().unwrap().status, 503);
    assert!(ProxyConfig::disabled().is_disabled());
}

#[test]
fn effective_url_uses_proxy_for_chat_and_direct_for_responses() {
    let chat = provider("chat", "https://api.deepseek.com/v1");
    assert!(effective_base_url(&chat, &mut ChatProxyRegistry::default()).is_none());
    let mut registry = started(&chat);
    let target = effective_base_url(&chat, &mut registry).unwrap();
    assert_eq!(target.base_url, "http://127.0.0.1:27777/v1");
    assert!(target.proxy_api_key.is_some());

    let mut responses = provider("chat", "https://api.deepseek.com/v1");
    responses.api_type = ProviderApiType::Responses;
    let target = effective_base_url(&responses, &mut registry).unwrap();
    assert_eq!(target.base_url, "https://api.deepseek.com/v1");
    assert!(target.proxy_api_key.is_none());
}

#[test]
fn registries_generate_distinct_proxy_tokens() {
    let first = make_proxy_key();
    let second = make_proxy_key();
    assert_ne!(first, second);
    assert!(first.len() >= 108);
}

#[test]
fn proxy_synthesizes_sse_when_upstream_ignores_stream_request() {
    let mut registry = started(&provider("p", "http://127.0.0.1:1"));
    let completion = r#"{"id":"chatcmpl-9","object":"chat.completion","created":1700000000,"model":"deepseek-chat","choices":[{"index":0,"message":{"role":"assistant","content":"一次性结果","tool_calls":[{"id":"call_1","type":"function","function":{"name":"f","arguments":"{\"a\":1}"}}]},"finish_reason":"tool_calls"}],"usage":{"prompt_tokens":4,"completion_tokens":6,"total_tokens":10}}"#;
    let events = serve(
        running(&mut registry),
        r#"{"model": "deepseek-chat", "input": "hi", "stream": true}"#,
        |_, _| Upstream::Answers("application/json", completion.into()),
    )
    .events();
    let completed = events
        .iter()
        .find(|event| event["type"] == "response.completed")
        .unwrap();
    let output = completed["response"]["output"].as_array().unwrap();
    assert_eq!(output[0]["content"][0]["text"], "一次性结果");
    let call = output.iter().find(|item| item["type"] == "function_call").unwrap();
    assert_eq!(call["call_id"], "call_1");
    assert_eq!(call["arguments"], "{\"a\":1}");
    assert_eq!(completed["response"]["usage"]["input_tokens"], 4);
    assert_eq!(completed["response"]["usage"]["output_tokens"], 6);
}

#[test]
fn proxy_surfaces_json_error_when_stream_request_gets_non_sse_error() {
    let mut registry = started(&provider("p", "http://127.0.0.1:1"));
    let answer = serve(
        running(&mut registry),
        r#"{"model": "bad", "input": "hi", "stream": true}"#,
        |_, _| {
            Upstream::Answers(
                "application/json",
                r#"{"error":{"message":"bad model","type":"invalid_request_error"}}"#.into(),
            )
        },
    );
    let (status, body) = answer.reply();
    assert_eq!(status, 502);
    assert_eq!(body["error"]["message"], "bad model");
}

#[test]
fn proxy_times_out_when_upstream_stalls_before_responding() {
    for stream in [false, true] {
        let mut chat = provider("p", "http://127.0.0.1:1");
        chat.timeout_secs = 1;
        let mut registry = started(&chat);
        let request = format!(r#"{{"model": "m", "input": "hi", "stream": {stream}}}"#);
        let answer = serve(running(&mut registry), &request, |_, _| Upstream::Stalls);
        let (status, body) = answer.reply();
        assert_eq!(status, 504);
        assert!(body["error"]["message"].as_str().unwrap().contains("超时"));
    }
}

#[test]
fn proxy_returns_gateway_timeout_when_non_streaming_body_stalls() {
    let mut registry = started(&provider("p", "http://127.0.0.1:1"));
    let answer = serve(
        running(&mut registry),
        r#"{"model": "m", "input": "hi", "stream": false}"#,
        |_, _| Upstream::StallsInBody,
    );
    assert_eq!(answer.reply().0, 504);
}

#[test]
fn requests_that_cannot_be_read_are_refused() {
    let mut registry = started(&provider("p", "http://127.0.0.1:1"));
    for body in ["not json", "[1]", r#"{"model": "m", "input": "hi", "previous_response_id": "r"}"#] {
        let answer = serve(running(&mut registry), body, |_, _| panic!("nothing may be sent"));
        assert_eq!(answer.reply().0, 400);
    }
}

#[test]
fn lists_of_models_are_passed_on() {
    let listed = answer_models(&ModelsRead::Answered(200, br#"{"data": []}"#.to_vec()));
    assert_eq!(listed.status, 200);
    assert_eq!(value(&listed.body).to_string(), r#"{"data":[]}"#);
    let refused = answer_models(&ModelsRead::Answered(403, b"{}".to_vec()));
    assert_eq!(refused.status, 403);
    assert_eq!(answer_models(&ModelsRead::Unreachable("gone".into())).status, 502);
    assert_eq!(answer_models(&ModelsRead::Broken("cut".into())).status, 502);
    assert_eq!(answer_models(&ModelsRead::TimedOut).status, 504);
}

#[test]
fn replies_carry_their_status_and_words() {
    let reply = error_response(418, "茶壶");
    assert_eq!(reply.status, 418);
    assert_eq!(value(&reply.body)["error"]["message"], "茶壶");
    let reply = invalid_request_response("缺少 input");
    assert_eq!(reply.status, 400);
    assert!(value(&reply.body)["error"]["message"].as_str().unwrap().contains("缺少 input"));
    let reply = upstream_error_response(429, "slow down");
    assert_eq!(reply.status, 429);
    assert!(value(&reply.body)["error"]["message"].as_str().unwrap().contains("slow down"));
    let timed_out = send_failure_response(&SendFailure::ConnectionTimedOut, 30);
    assert_eq!(timed_out.status, 504);
    let unreachable = send_failure_response(&SendFailure::Unreachable("refused".into()), 30);
    assert_eq!(unreachable.status, 502);
}

#[test]
fn only_the_whole_key_is_accepted() {
    let expected = b"Bearer key".to_vec();
    assert!(is_authorized(Some(b"Bearer key"), &expected));
    assert!(!is_authorized(Some(b"Bearer ke"), &expected));
    assert!(!is_authorized(Some(b"Bearer keyy"), &expected));
    assert!(!is_authorized(Some(b"bearer key"), &expected));
    assert!(!is_authorized(None, &expected));
}

#[test]
fn event_streams_are_told_by_their_type() {
    assert!(is_event_stream(Some("text/event-stream")));
    assert!(is_event_stream(Some("Text/Event-Stream; charset=utf-8")));
    assert!(!is_event_stream(Some("application/json")));
    assert!(!is_event_stream(None));
}
