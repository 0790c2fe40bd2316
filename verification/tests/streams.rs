use codex_tools::capability::CapabilityCache;
use codex_tools::completion::completion_to_chunk;
use codex_tools::events::PendingEvent;
use codex_tools::json::Json;
use codex_tools::pump::{dispatch_data, translate_buffered_sse, ResponseTranslationContext};
use codex_tools::reasoning::ReasoningStore;
use codex_tools::response::{chat_to_responses_body, ResponseMetadata};
use codex_tools::sse::{SseEventParser, MAX_SSE_EVENT_DATA_BYTES};
use codex_tools::stream::StreamTranslator;
use serde_json::Value;

fn doc(source: &str) -> Json {
    Json::parse(source).unwrap()
}

fn value(document: &Json) -> Value {
    serde_json::from_str(&document.render().unwrap()).unwrap()
}

fn to_response(
    chat: &Json,
    response_id: &str,
    model: &str,
    created_at: i64,
    store: &mut ReasoningStore,
    structured_output: bool,
) -> Result<Value, String> {
    chat_to_responses_body(chat, response_id, model, created_at, store, structured_output)
        .map(|response| value(&response))
}

fn structured_translator(
    response_id: &str,
    model: &str,
    created_at: i64,
    structured_output: bool,
) -> StreamTranslator {
    StreamTranslator::new_with_metadata(
        response_id,
        model,
        created_at,
        structured_output,
        None,
        ResponseMetadata::default(),
    )
}

fn translator(response_id: &str, model: &str, created_at: i64) -> StreamTranslator {
    structured_translator(response_id, model, created_at, false)
}

fn events_to_json(events: Vec<PendingEvent>) -> Vec<Value> {
    events
        .into_iter()
        .map(|event| serde_json::from_str(&event.data()).unwrap())
        .collect()
}

#[test]
fn streaming_translator_emits_spec_events() {
    let mut translator = translator("resp_x", "deepseek-chat", 1);
    let mut events = Vec::new();
    translator.push_chunk(
        &doc(r#"{"choices": [{"delta": {"role": "assistant", "content": "你"}}]}"#),
        &mut events,
    );
    translator.push_chunk(
        &doc(r#"{"choices": [{"delta": {"content": "好"}}]}"#),
        &mut events,
    );
    translator.push_chunk(
        &doc(r#"{"choices": [{"delta": {"tool_calls": [{"index": 0, "id": "call_1", "function": {"name": "f", "arguments": "{\"a\":"}}]}}]}"#),
        &mut events,
    );
    translator.push_chunk(
        &doc(r#"{"choices": [{"delta": {"tool_calls": [{"index": 0, "function": {"arguments": "1}"}}]}}]}"#),
        &mut events,
    );
    translator.push_chunk(
        &doc(r#"{"choices": [{"delta": {}, "finish_reason": "tool_calls"}], "usage": {"prompt_tokens": 7, "completion_tokens": 9}}"#),
        &mut events,
    );
    translator.finish(&mut events, &mut ReasoningStore::default());

    let values = events_to_json(events);
    let types = values
        .iter()
        .map(|value| value["type"].as_str().unwrap().to_owned())
        .collect::<Vec<_>>();
    assert_eq!(
        types,
        vec![
            "response.output_item.added",
            "response.content_part.added",
            "response.output_text.delta",
            "response.output_text.delta",
            "response.output_item.added",
            "response.function_call_arguments.delta",
            "response.function_call_arguments.delta",
            "response.output_text.done",
            "response.content_part.done",
            "response.output_item.done",
            "response.function_call_arguments.done",
            "response.output_item.done",
            "response.completed",
        ]
    );
    let message_added = &values[0];
    assert_eq!(message_added["output_index"], 0);
    assert_eq!(message_added["item"]["type"], "message");
    let tool_added = &values[4];
    assert_eq!(tool_added["output_index"], 1);
    assert_eq!(tool_added["item"]["type"], "function_call");
    assert_eq!(tool_added["item"]["call_id"], "call_1");
    let completed = values.last().unwrap();
    assert_eq!(completed["response"]["status"], "completed");
    assert_eq!(completed["response"]["usage"]["input_tokens"], 7);
    assert_eq!(completed["response"]["usage"]["output_tokens"], 9);
    let output = completed["response"]["output"].as_array().unwrap();
    assert_eq!(output.len(), 2);
    assert_eq!(output[0]["type"], "message");
    assert_eq!(output[0]["content"][0]["text"], "你好");
    assert_eq!(output[1]["type"], "function_call");
    assert_eq!(output[1]["arguments"], "{\"a\":1}");
}

#[test]
fn invalid_structured_output_fails_without_streaming_prose() {
    let non_streaming = to_response(
        &doc(r#"{
            "choices": [{
                "message": {"role": "assistant", "content": "not json"},
                "finish_reason": "stop"
            }]
        }"#),
        "resp_invalid",
        "model",
        1,
        &mut ReasoningStore::default(),
        true,
    );
    assert!(non_streaming.is_err());

    let mut translator =
        structured_translator("resp_invalid", "model", 1, true);
    let mut events = Vec::new();
    translator.push_chunk(
        &doc(r#"{"choices": [{"delta": {"content": "not json"}, "finish_reason": "stop"}]}"#),
        &mut events,
    );
    assert!(events.is_empty(), "unvalidated prose must remain buffered");
    assert!(!translator.finish(&mut events, &mut ReasoningStore::default()));
    let values = events_to_json(events);
    assert_eq!(values.last().unwrap()["type"], "response.failed");
    assert!(!values.iter().any(|event| {
        event["type"] == "response.output_text.delta" || event["type"] == "response.completed"
    }));
}

#[test]
fn structured_tool_call_drops_unvalidated_commentary_in_both_modes() {
    let completion = doc(r#"{
        "choices": [{
            "message": {
                "role": "assistant",
                "content": "I will call a tool",
                "tool_calls": [{
                    "id": "call_1",
                    "type": "function",
                    "function": {"name": "f", "arguments": "{}"}
                }]
            },
            "finish_reason": "tool_calls"
        }]
    }"#);
    let response = to_response(
        &completion,
        "resp_tool",
        "model",
        1,
        &mut ReasoningStore::default(),
        true,
    )
    .unwrap();
    assert_eq!(response["output"].as_array().unwrap().len(), 1);
    assert_eq!(response["output"][0]["type"], "function_call");

    let mut translator =
        structured_translator("resp_tool", "model", 1, true);
    let mut events = Vec::new();
    translator.push_chunk(&completion_to_chunk(&completion), &mut events);
    translator.finish(&mut events, &mut ReasoningStore::default());
    let terminal = events_to_json(events).pop().unwrap();
    assert_eq!(terminal["response"]["output"].as_array().unwrap().len(), 1);
    assert_eq!(terminal["response"]["output"][0]["type"], "function_call");
}

#[test]
fn structured_stream_never_exposes_reasoning_as_output() {
    let mut translator = structured_translator(
        "resp_guardian",
        "third-party-model",
        1,
        true,
    );
    let mut events = Vec::new();
    translator.push_chunk(
        &doc(r#"{"choices": [{"delta": {"reasoning_content": "Decision:\n```json\n{\"outcome\":\"allow\"}\n```"}, "finish_reason": "stop"}]}"#),
        &mut events,
    );
    assert!(!translator.finish(&mut events, &mut ReasoningStore::default()));

    let values = events_to_json(events);
    assert_eq!(values.last().unwrap()["type"], "response.failed");
    assert!(
        !values
            .iter()
            .any(|value| value["type"] == "response.output_text.delta")
    );
}

#[test]
fn ordinary_stream_does_not_expose_reasoning_as_output() {
    let mut translator = translator("resp_reasoning", "model", 1);
    let mut events = Vec::new();
    translator.push_chunk(
        &doc(r#"{"choices": [{"delta": {"reasoning_content": "{\"private\":true}"}}]}"#),
        &mut events,
    );
    translator.push_chunk(
        &doc(r#"{"choices": [{"delta": {}, "finish_reason": "stop"}]}"#),
        &mut events,
    );
    translator.finish(&mut events, &mut ReasoningStore::default());

    let values = events_to_json(events);
    let completed = values.last().unwrap();
    assert_eq!(completed["response"]["output"], Value::Array(vec![]));
}

#[test]
fn finish_reason_length_is_incomplete_in_both_response_modes() {
    let completion = doc(r#"{
        "choices": [{
            "message": {"role": "assistant", "content": "partial"},
            "finish_reason": "length"
        }]
    }"#);
    let response = to_response(
        &completion,
        "resp_length",
        "model",
        1,
        &mut ReasoningStore::default(),
        false,
    )
    .unwrap();
    assert_eq!(response["status"], "incomplete");
    assert_eq!(
        response["incomplete_details"]["reason"],
        "max_output_tokens"
    );

    let mut translator = translator("resp_length", "model", 1);
    let mut events = Vec::new();
    translator.push_chunk(&completion_to_chunk(&completion), &mut events);
    assert!(translator.finish(&mut events, &mut ReasoningStore::default()));
    let values = events_to_json(events);
    let terminal = values.last().unwrap();
    assert_eq!(terminal["type"], "response.incomplete");
    assert_eq!(
        terminal["response"]["incomplete_details"]["reason"],
        "max_output_tokens"
    );
}

#[test]
fn response_events_have_strictly_increasing_sequence_numbers() {
    let mut translator = translator("resp_sequence", "model", 1);
    let mut events = Vec::new();
    translator.push_chunk(
        &doc(r#"{"choices": [{"delta": {"content": "ok", "tool_calls": [{"index": 0, "id": "call_1", "function": {"name": "f", "arguments": "{}"}}]}}]}"#),
        &mut events,
    );
    translator.push_chunk(
        &doc(r#"{"choices": [{"delta": {}, "finish_reason": "tool_calls"}]}"#),
        &mut events,
    );
    translator.finish(&mut events, &mut ReasoningStore::default());

    for (expected, event) in events_to_json(events).iter().enumerate() {
        assert_eq!(event["sequence_number"], expected as u64);
    }
}

#[test]
fn refusal_is_preserved_as_a_typed_content_part() {
    let mut translator =
        structured_translator("resp_refusal", "model", 1, true);
    let mut events = Vec::new();
    translator.push_chunk(
        &doc(r#"{"choices": [{"delta": {"refusal": "not allowed"}, "finish_reason": "content_filter"}]}"#),
        &mut events,
    );
    translator.finish(&mut events, &mut ReasoningStore::default());

    let values = events_to_json(events);
    assert!(values.iter().any(|event| {
        event["type"] == "response.refusal.delta" && event["delta"] == "not allowed"
    }));
    let terminal = values.last().unwrap();
    assert_eq!(terminal["type"], "response.incomplete");
    assert_eq!(
        terminal["response"]["output"][0]["content"][0]["type"],
        "refusal"
    );
}

#[test]
fn split_tool_identity_is_buffered_until_complete() {
    let mut translator = translator("resp_tool", "model", 1);
    let mut events = Vec::new();
    translator.push_chunk(
        &doc(r#"{"choices": [{"delta": {"tool_calls": [{"index": 0, "id": "call_1", "function": {"arguments": "{\"a\":"}}]}}]}"#),
        &mut events,
    );
    assert!(events.is_empty());
    translator.push_chunk(
        &doc(r#"{"choices": [{"delta": {"tool_calls": [{"index": 0, "function": {"name": "f", "arguments": "1}"}}]}}]}"#),
        &mut events,
    );
    translator.finish(&mut events, &mut ReasoningStore::default());

    let values = events_to_json(events);
    assert_eq!(values[0]["item"]["call_id"], "call_1");
    assert_eq!(values[0]["item"]["name"], "f");
    assert_eq!(values[1]["delta"], "{\"a\":1}");
}

#[test]
fn conflicting_or_legacy_tool_calls_fail_instead_of_completing_empty() {
    let mut translator = translator("resp_conflict", "model", 1);
    let mut events = Vec::new();
    translator.push_chunk(
        &doc(r#"{"choices": [{"delta": {"tool_calls": [{"index": 0, "id": "call_a", "function": {"name": "f", "arguments": ""}}]}}]}"#),
        &mut events,
    );
    let error = translator.push_chunk(
        &doc(r#"{"choices": [{"delta": {"tool_calls": [{"index": 0, "id": "call_b", "function": {"name": "f", "arguments": "{}"}}]}}]}"#),
        &mut events,
    );
    assert!(error.is_some());
    assert!(
        events_to_json(events)
            .iter()
            .any(|event| event["type"] == "response.failed")
    );

    let legacy = to_response(
        &doc(r#"{
            "choices": [{
                "message": {"role": "assistant", "content": null, "function_call": {"name": "f", "arguments": "{}"}},
                "finish_reason": "function_call"
            }]
        }"#),
        "resp_legacy",
        "model",
        1,
        &mut ReasoningStore::default(),
        false,
    );
    assert!(legacy.is_err());
}

#[test]
fn buffered_sse_without_content_type_uses_the_normal_state_machine() {
    let events = translate_buffered_sse(
        "data: {\"choices\":[{\"delta\":{\"content\":\"ok\"},\"finish_reason\":\"stop\"}]}\n\ndata: [DONE]\n\n",
        &ResponseTranslationContext {
            response_id: "resp_buffered".into(),
            model: "model".into(),
            created_at: 1,
            structured_output: false,
            structured_schema: None,
            metadata: ResponseMetadata::default(),
            capability_key: None,
        },
        &mut ReasoningStore::default(),
        &mut CapabilityCache::default(),
    );
    let values = events_to_json(
        events
            .into_iter()
            .filter(|event| event.event_type != "done")
            .collect(),
    );
    assert_eq!(values.last().unwrap()["type"], "response.completed");
    assert_eq!(
        values.last().unwrap()["response"]["output"][0]["content"][0]["text"],
        "ok"
    );
}

#[test]
fn buffered_sse_validates_schema_before_learning_prompt_capability() {
    let mut cache = CapabilityCache::default();
    let events = translate_buffered_sse(
        "data: {\"choices\":[{\"delta\":{\"content\":\"{\\\"ok\\\":\\\"wrong\\\"}\"},\"finish_reason\":\"stop\"}]}\n\ndata: [DONE]\n\n",
        &ResponseTranslationContext {
            response_id: "resp_buffered_schema".into(),
            model: "model".into(),
            created_at: 1,
            structured_output: true,
            structured_schema: Some(doc(r#"{
                "type": "object",
                "properties": {"ok": {"type": "boolean"}},
                "required": ["ok"]
            }"#)),
            metadata: ResponseMetadata::default(),
            capability_key: Some("model\njson_schema".into()),
        },
        &mut ReasoningStore::default(),
        &mut cache,
    );
    let values = events_to_json(events);
    assert_eq!(values.last().unwrap()["type"], "response.failed");
    assert!(cache.is_empty());
}

#[test]
fn sse_parser_joins_multi_line_data_and_dispatches_on_blank_line() {
    let mut parser = SseEventParser::default();
    assert!(
        parser
            .push_line("data: {\"id\": \"chatcmpl-1\",")
            .unwrap()
            .is_none()
    );
    assert!(
        parser
            .push_line("data: \"choices\": []}")
            .unwrap()
            .is_none()
    );
    let data = parser.push_line("").unwrap().unwrap();
    assert_eq!(data, "{\"id\": \"chatcmpl-1\",\n\"choices\": []}");
    // 注释与 event: 行被忽略。
    assert!(parser.push_line(": keep-alive").unwrap().is_none());
    assert!(parser.push_line("event: message").unwrap().is_none());
    assert!(parser.push_line("data: [DONE]").unwrap().is_none());
    assert_eq!(parser.push_line("").unwrap().unwrap(), "[DONE]");
    // EOF 时残留数据也会被分发。
    assert!(parser.push_line("data: {\"a\":1}").unwrap().is_none());
    assert_eq!(parser.finish().unwrap(), "{\"a\":1}");
    assert!(parser.finish().is_none());

    let mut parser = SseEventParser::default();
    assert!(
        parser
            .push_line("\u{feff}data: {\"ok\":true}")
            .unwrap()
            .is_none()
    );
    assert_eq!(parser.push_line("").unwrap().unwrap(), "{\"ok\":true}");
}

#[test]
fn streaming_translator_emits_failed_event_on_error_chunk() {
    let mut translator = translator("resp_z", "deepseek-chat", 1);
    let mut events = Vec::new();
    let error = translator
        .push_chunk(
            &doc(r#"{"error": {"message": "model overloaded", "type": "server_error"}}"#),
            &mut events,
        )
        .unwrap();
    assert_eq!(error, "model overloaded");
    let values = events_to_json(events);
    assert_eq!(values.len(), 1);
    assert_eq!(values[0]["type"], "response.failed");
    assert_eq!(values[0]["response"]["status"], "failed");
    assert_eq!(
        values[0]["response"]["error"]["message"],
        "model overloaded"
    );
    assert_eq!(values[0]["response"]["error"]["code"], "server_error");
    assert!(values[0]["response"]["error"].get("type").is_none());
    for field in ["parallel_tool_calls", "tool_choice", "tools"] {
        assert!(values[0]["response"].get(field).is_some());
    }
}

#[test]
fn streaming_usage_includes_all_required_details() {
    let mut translator = translator("resp_usage", "model", 1);
    let mut events = Vec::new();
    translator.push_chunk(
        &doc(r#"{
            "choices": [{"delta": {}, "finish_reason": "stop"}],
            "usage": {
                "prompt_tokens": 10,
                "completion_tokens": 5,
                "total_tokens": 15,
                "prompt_tokens_details": {"cached_tokens": 3, "cache_write_tokens": 2},
                "completion_tokens_details": {"reasoning_tokens": 1}
            }
        }"#),
        &mut events,
    );
    assert!(translator.finish(&mut events, &mut ReasoningStore::default()));

    let values = events_to_json(events);
    let usage = &values.last().unwrap()["response"]["usage"];
    assert_eq!(usage["input_tokens_details"]["cached_tokens"], 3);
    assert_eq!(usage["input_tokens_details"]["cache_write_tokens"], 2);
    assert_eq!(usage["output_tokens_details"]["reasoning_tokens"], 1);
}

#[test]
fn streaming_translator_keeps_reasoning_internal_without_phantom_item() {
    let mut store = ReasoningStore::default();
    let mut translator = translator("resp_r", "deepseek-reasoner", 1);
    let mut events = Vec::new();
    translator.push_chunk(
        &doc(r#"{"choices": [{"delta": {"reasoning_content": "先分析一下，"}}]}"#),
        &mut events,
    );
    translator.push_chunk(
        &doc(r#"{"choices": [{"delta": {"reasoning_content": "再给出答案。"}}]}"#),
        &mut events,
    );
    translator.push_chunk(
        &doc(r#"{"choices": [{"delta": {"content": "答案是 42"}}]}"#),
        &mut events,
    );
    translator.push_chunk(
        &doc(r#"{"choices": [{"delta": {}, "finish_reason": "stop"}]}"#),
        &mut events,
    );
    translator.finish(&mut events, &mut store);

    let values = events_to_json(events);
    let types = values
        .iter()
        .map(|value| value["type"].as_str().unwrap().to_owned())
        .collect::<Vec<_>>();
    assert_eq!(
        types,
        vec![
            "response.output_item.added",
            "response.content_part.added",
            "response.output_text.delta",
            "response.output_text.done",
            "response.content_part.done",
            "response.output_item.done",
            "response.completed",
        ]
    );
    let message_added = values
        .iter()
        .find(|v| v["type"] == "response.output_item.added")
        .unwrap();
    assert_eq!(message_added["output_index"], 0);
    let completed = values.last().unwrap();
    assert_eq!(
        completed["response"]["output"][0]["content"][0]["text"],
        "答案是 42"
    );
    assert_eq!(
        store.get(&translator.msg_item_id),
        Some("先分析一下，再给出答案。")
    );
}

#[test]
fn tool_call_without_arguments_is_still_emitted() {
    // 无参数工具调用：只有 id/name，没有 arguments 分片，也必须完整输出。
    let mut translator = translator("resp_t", "deepseek-chat", 1);
    let mut events = Vec::new();
    translator.push_chunk(
        &doc(r#"{"choices": [{"delta": {"tool_calls": [{"index": 0, "id": "call_1", "type": "function", "function": {"name": "get_time", "arguments": ""}}]}}]}"#),
        &mut events,
    );
    translator.push_chunk(
        &doc(r#"{"choices": [{"delta": {}, "finish_reason": "tool_calls"}]}"#),
        &mut events,
    );
    translator.finish(&mut events, &mut ReasoningStore::default());

    let values = events_to_json(events);
    let types = values
        .iter()
        .map(|value| value["type"].as_str().unwrap_or_default())
        .collect::<Vec<_>>();
    assert!(types.contains(&"response.output_item.added"));
    assert!(types.contains(&"response.function_call_arguments.done"));
    assert!(types.contains(&"response.output_item.done"));
    let completed = values
        .iter()
        .find(|value| value["type"] == "response.completed")
        .unwrap();
    let output = completed["response"]["output"].as_array().unwrap();
    let call = output
        .iter()
        .find(|item| item["type"] == "function_call")
        .expect("无参数工具调用也必须出现在输出里");
    assert_eq!(call["name"], "get_time");
    assert_eq!(call["call_id"], "call_1");
}

#[test]
fn stream_translator_persists_reasoning_for_its_output_items() {
    let mut store = ReasoningStore::default();
    let mut translator = translator("resp_r", "deepseek-reasoner", 1);
    let mut events = Vec::new();
    translator.push_chunk(
        &doc(r#"{"choices": [{"delta": {"reasoning_content": "第一步"}}]}"#),
        &mut events,
    );
    translator.push_chunk(
        &doc(r#"{"choices": [{"delta": {"content": "结果"}}]}"#),
        &mut events,
    );
    translator.push_chunk(
        &doc(r#"{"choices": [{"delta": {"tool_calls": [{"index": 0, "id": "call_1", "function": {"name": "f", "arguments": "{}"}}]}}]}"#),
        &mut events,
    );
    translator.push_chunk(
        &doc(r#"{"choices": [{"delta": {}, "finish_reason": "tool_calls"}]}"#),
        &mut events,
    );
    translator.finish(&mut events, &mut store);

    // 正文消息与工具调用条目都记住了同一份思考内容，供下一轮回传。
    assert_eq!(store.get(&translator.msg_item_id), Some("第一步"));
    let tool_item_id = translator.tool_calls[0].item_id.clone();
    assert_eq!(store.get(&tool_item_id), Some("第一步"));
}

#[test]
fn sse_parser_accumulates_multiline_data_and_tolerates_cr() {
    let mut parser = SseEventParser::default();
    assert_eq!(parser.push_line("data: {\"type\":\"a\"").unwrap(), None);
    assert_eq!(parser.push_line("data: ,\"more\":1}").unwrap(), None);
    // event:/注释行忽略。
    assert_eq!(parser.push_line("event: x").unwrap(), None);
    assert_eq!(parser.push_line(": comment").unwrap(), None);
    assert_eq!(
        parser.push_line("").unwrap(),
        Some("{\"type\":\"a\"\n,\"more\":1}".into())
    );
    // 分发后缓冲区已取走，可复用。
    assert!(parser.data.is_empty());
    // 行尾 \r 容错。
    assert_eq!(parser.push_line("data: done\r").unwrap(), None);
    assert_eq!(parser.push_line("").unwrap(), Some("done".into()));
}

#[test]
fn sse_parser_finish_dispatchs_remaining_data() {
    let mut parser = SseEventParser::default();
    assert_eq!(parser.push_line("data: tail").unwrap(), None);
    assert_eq!(parser.finish(), Some("tail".into()));
    assert_eq!(parser.finish(), None);
}

#[test]
fn sse_parser_rejects_oversized_event_data() {
    let mut parser = SseEventParser::default();
    let line = format!("data: {}", "x".repeat(MAX_SSE_EVENT_DATA_BYTES + 1));
    assert!(parser.push_line(&line).is_err());
}

#[test]
fn malformed_sse_json_emits_failed_not_completed() {
    let mut translator = translator("resp_bad", "model", 1);
    let mut events = Vec::new();
    let mut failed = false;
    let mut done = false;
    assert!(dispatch_data(
        &mut translator,
        "{not-json}",
        &mut events,
        &mut failed,
        &mut done,
    ));
    let types = events
        .iter()
        .map(|event| event.event_type)
        .collect::<Vec<_>>();
    assert!(types.contains(&"response.failed"));
    assert!(!types.contains(&"response.completed"));
}

#[test]
fn streaming_translator_handles_tool_only_responses() {
    let mut translator = translator("resp_y", "deepseek-chat", 1);
    let mut events = Vec::new();
    translator.push_chunk(
        &doc(r#"{"choices": [{"delta": {"tool_calls": [{"index": 0, "id": "call_1", "function": {"name": "f", "arguments": "{}"}}]}}]}"#),
        &mut events,
    );
    translator.push_chunk(
        &doc(r#"{"choices": [{"delta": {}, "finish_reason": "tool_calls"}]}"#),
        &mut events,
    );
    translator.finish(&mut events, &mut ReasoningStore::default());

    let values = events_to_json(events);
    let completed = values.last().unwrap();
    let output = completed["response"]["output"].as_array().unwrap();
    assert_eq!(output.len(), 1);
    assert_eq!(output[0]["type"], "function_call");
    assert_eq!(output[0]["call_id"], "call_1");
}
