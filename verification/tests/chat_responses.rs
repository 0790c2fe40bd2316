use codex_tools::completion::completion_to_chunk;
use codex_tools::json::Json;
use codex_tools::reasoning::ReasoningStore;
use codex_tools::response::{chat_to_responses_body, chat_to_responses_body_with_schema};
use serde_json::Value;

fn doc(source: &str) -> Json {
    Json::parse(source).unwrap()
}

fn value(document: &Json) -> Value {
    serde_json::from_str(&document.render().unwrap()).unwrap()
}

fn to_response(
    chat: &Json,
    response_id: &str,
    model: &str,
    created_at: i64,
    store: &mut ReasoningStore,
    structured_output: bool,
) -> Result<Value, String> {
    chat_to_responses_body(chat, response_id, model, created_at, store, structured_output)
        .map(|response| value(&response))
}

fn to_checked_response(
    chat: &Json,
    response_id: &str,
    model: &str,
    created_at: i64,
    store: &mut ReasoningStore,
    structured_output: bool,
    schema: Option<&Json>,
) -> Result<Value, String> {
    chat_to_responses_body_with_schema(
        chat,
        response_id,
        model,
        created_at,
        store,
        structured_output,
        schema,
    )
    .map(|response| value(&response))
}

#[test]
fn non_streaming_response_is_translated() {
    let translated = to_response(
        &doc(r#"{
            "id": "chatcmpl-1",
            "created": 1700000000,
            "model": "deepseek-chat",
            "choices": [{
                "index": 0,
                "message": {
                    "role": "assistant",
                    "content": "你好！",
                    "tool_calls": [{
                        "id": "call_x",
                        "type": "function",
                        "function": {"name": "get_weather", "arguments": "{\"city\":\"北京\"}"}
                    }]
                },
                "finish_reason": "tool_calls"
            }],
            "usage": {"prompt_tokens": 10, "completion_tokens": 5, "total_tokens": 15}
        }"#),
        "resp_test",
        "deepseek-chat",
        1700000000,
        &mut ReasoningStore::default(),
        false,
    )
    .unwrap();
    assert_eq!(translated["object"], "response");
    assert_eq!(translated["status"], "completed");
    assert_eq!(translated["id"], "resp_test");
    assert_eq!(translated["created_at"], 1700000000);
    let output = translated["output"].as_array().unwrap();
    assert_eq!(output.len(), 2);
    assert_eq!(output[0]["type"], "message");
    assert_eq!(output[0]["content"][0]["text"], "你好！");
    assert_eq!(output[1]["type"], "function_call");
    assert_eq!(output[1]["call_id"], "call_x");
    assert_eq!(output[1]["name"], "get_weather");
    assert_eq!(output[1]["arguments"], "{\"city\":\"北京\"}");
    assert_eq!(translated["usage"]["input_tokens"], 10);
    assert_eq!(translated["usage"]["output_tokens"], 5);
    assert_eq!(translated["usage"]["total_tokens"], 15);
    assert_eq!(translated["output_text"], "你好！");
}

#[test]
fn structured_non_streaming_response_uses_parsed_object() {
    let translated = to_response(
        &doc(r#"{
            "choices": [{
                "message": {
                    "role": "assistant",
                    "content": null,
                    "parsed": {"outcome": "allow"}
                },
                "finish_reason": "stop"
            }]
        }"#),
        "resp_guardian",
        "third-party-model",
        1,
        &mut ReasoningStore::default(),
        true,
    )
    .unwrap();

    assert_eq!(
        translated["output"][0]["content"][0]["text"],
        r#"{"outcome":"allow"}"#
    );

    let with_text_property = to_response(
        &doc(r#"{
            "choices": [{
                "message": {
                    "role": "assistant",
                    "content": null,
                    "parsed": {"text": "keep", "ok": true}
                },
                "finish_reason": "stop"
            }]
        }"#),
        "resp_text_property",
        "model",
        1,
        &mut ReasoningStore::default(),
        true,
    )
    .unwrap();
    assert_eq!(
        with_text_property["output"][0]["content"][0]["text"],
        r#"{"ok":true,"text":"keep"}"#
    );
}

#[test]
fn structured_output_is_validated_against_the_requested_schema() {
    let completion = doc(r#"{
        "choices": [{
            "message": {"role": "assistant", "content": "{\"ok\":\"yes\"}"},
            "finish_reason": "stop"
        }]
    }"#);
    let schema = doc(r#"{
        "type": "object",
        "properties": {"ok": {"type": "boolean"}},
        "required": ["ok"],
        "additionalProperties": false
    }"#);

    let result = to_checked_response(
        &completion,
        "resp_schema",
        "model",
        1,
        &mut ReasoningStore::default(),
        true,
        Some(&schema),
    );

    assert!(result.is_err());
}

#[test]
fn non_streaming_success_envelope_with_error_or_no_choices_is_rejected() {
    for response in [
        doc(r#"{"error": {"message": "bad model"}}"#),
        doc(r#"{}"#),
        doc(r#"{"choices": []}"#),
    ] {
        assert!(
            to_response(
                &response,
                "resp_bad",
                "model",
                1,
                &mut ReasoningStore::default(),
                false,
            )
            .is_err()
        );
    }
}

#[test]
fn non_streaming_response_persists_reasoning_content() {
    let mut store = ReasoningStore::default();
    let chat_response = doc(r#"{
        "choices": [{
            "message": {
                "role": "assistant",
                "content": "结果",
                "reasoning_content": "思考过程",
                "tool_calls": [{"id": "call_1", "type": "function", "function": {"name": "f", "arguments": "{}"}}]
            },
            "finish_reason": "tool_calls"
        }]
    }"#);
    let body = to_response(
        &chat_response,
        "resp_1",
        "deepseek-reasoner",
        0,
        &mut store,
        false,
    )
    .unwrap();
    let msg_id = body["output"][0]["id"].as_str().unwrap().to_owned();
    assert_eq!(store.get(&msg_id), Some("思考过程"));
    // 工具调用条目同样记住（同一 suffix，按调用序号区分）。
    let fc_id = format!("fc_{}_0", msg_id.trim_start_matches("msg_"));
    assert_eq!(store.get(&fc_id), Some("思考过程"));
}

#[test]
fn completion_to_chunk_indexes_multiple_tool_calls() {
    // 非流式补全的 tool_calls 不带 index，必须按位置补上，
    // 否则多个工具调用会被折叠成一个。
    let chunk = value(&completion_to_chunk(&doc(r#"{
        "choices": [{"message": {"role": "assistant", "content": null, "tool_calls": [
            {"id": "call_1", "type": "function", "function": {"name": "a", "arguments": "{}"}},
            {"id": "call_2", "type": "function", "function": {"name": "b", "arguments": "{}"}}
        ]}}],
        "usage": {"prompt_tokens": 1, "completion_tokens": 2, "total_tokens": 3}
    }"#)));
    let delta = &chunk["choices"][0]["delta"];
    let calls = delta["tool_calls"].as_array().unwrap();
    assert_eq!(calls.len(), 2);
    assert_eq!(calls[0]["index"], 0);
    assert_eq!(calls[1]["index"], 1);
    // content 为 null（纯工具调用）时不写入 delta，避免产生空文本事件。
    assert!(delta.get("content").is_none());
    assert_eq!(chunk["usage"]["prompt_tokens"], 1);
}
