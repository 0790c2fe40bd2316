use codex_tools::chat_request::{degrade_structured_output, responses_to_chat_body};
use codex_tools::json::Json;
use codex_tools::reasoning::ReasoningStore;
use codex_tools::request::validate_supported_responses_request;
use serde_json::Value;

fn doc(source: &str) -> Json {
    Json::parse(source).unwrap()
}

fn value(document: &Json) -> Value {
    serde_json::from_str(&document.render().unwrap()).unwrap()
}

fn to_chat(body: &Json, store: &ReasoningStore) -> Value {
    value(&responses_to_chat_body(body, store))
}

fn degrade(chat: &Json) -> Value {
    value(&degrade_structured_output(chat))
}

#[test]
fn string_input_and_instructions_become_system_and_user_messages() {
    let chat = to_chat(
        &doc(r#"{
            "model": "deepseek-chat",
            "instructions": "你是翻译助手",
            "input": "你好",
            "stream": true
        }"#),
        &ReasoningStore::default(),
    );
    let messages = chat["messages"].as_array().unwrap();
    assert_eq!(messages[0]["role"], "system");
    assert_eq!(messages[0]["content"], "你是翻译助手");
    assert_eq!(messages[1]["role"], "user");
    assert_eq!(messages[1]["content"], "你好");
    assert_eq!(chat["model"], "deepseek-chat");
    assert_eq!(chat["stream"], true);
}

#[test]
fn developer_messages_are_merged_into_the_leading_system_message() {
    let chat = to_chat(
        &doc(r#"{
            "model": "strict-template-model",
            "instructions": "Base instructions",
            "input": [
                {"type": "message", "role": "user", "content": "first"},
                {"type": "message", "role": "developer", "content": [{"type": "input_text", "text": "Late developer instruction"}]},
                {"type": "message", "role": "assistant", "content": "reply"},
                {"type": "message", "role": "system", "content": "Additional system instruction"},
                {"type": "message", "role": "user", "content": "second"}
            ]
        }"#),
        &ReasoningStore::default(),
    );

    let messages = chat["messages"].as_array().unwrap();
    assert_eq!(messages.len(), 4);
    assert_eq!(messages[0]["role"], "system");
    assert_eq!(
        messages[0]["content"],
        "Base instructions\n\nLate developer instruction\n\nAdditional system instruction"
    );
    assert_eq!(messages[1]["role"], "user");
    assert_eq!(messages[2]["role"], "assistant");
    assert_eq!(messages[3]["role"], "user");
    assert_eq!(
        messages
            .iter()
            .filter(|message| message["role"] == "system")
            .count(),
        1
    );
}

#[test]
fn multi_turn_tool_conversation_is_reordered() {
    let chat = to_chat(
        &doc(r#"{
            "model": "deepseek-chat",
            "input": [
                {"type": "message", "role": "user", "content": [{"type": "input_text", "text": "查天气"}]},
                {"type": "function_call", "call_id": "call_1", "name": "get_weather", "arguments": "{\"city\":\"北京\"}"},
                {"type": "function_call_output", "call_id": "call_1", "output": "晴 25℃"},
                {"type": "message", "role": "user", "content": "然后呢？"}
            ]
        }"#),
        &ReasoningStore::default(),
    );
    let messages = chat["messages"].as_array().unwrap();
    assert_eq!(messages.len(), 4);
    assert_eq!(messages[0]["role"], "user");
    assert_eq!(messages[0]["content"], "查天气");
    assert_eq!(messages[1]["role"], "assistant");
    assert_eq!(messages[1]["content"], "");
    assert_eq!(messages[1]["tool_calls"][0]["id"], "call_1");
    assert_eq!(
        messages[1]["tool_calls"][0]["function"]["name"],
        "get_weather"
    );
    assert_eq!(messages[2]["role"], "tool");
    assert_eq!(messages[2]["tool_call_id"], "call_1");
    assert_eq!(messages[2]["content"], "晴 25℃");
    assert_eq!(messages[3]["role"], "user");
}

#[test]
fn json_schema_format_is_converted_to_response_format() {
    let chat = to_chat(
        &doc(r#"{
            "model": "deepseek-v4-pro",
            "input": "hi",
            "text": {
                "format": {
                    "type": "json_schema",
                    "name": "review",
                    "schema": {"type": "object", "properties": {"ok": {"type": "boolean"}}}
                }
            }
        }"#),
        &ReasoningStore::default(),
    );
    let format = &chat["response_format"];
    assert_eq!(format["type"], "json_schema");
    assert_eq!(format["json_schema"]["name"], "review");
    assert_eq!(format["json_schema"]["schema"]["type"], "object");
}

#[test]
fn degrade_structured_output_moves_schema_into_system_prompt() {
    let chat = doc(r#"{
        "model": "deepseek-v4-pro",
        "messages": [
            {"role": "system", "content": "You are Codex."},
            {"role": "user", "content": "hi"}
        ],
        "response_format": {
            "type": "json_schema",
            "json_schema": {
                "name": "review",
                "schema": {"type": "object", "properties": {"ok": {"type": "boolean"}}}
            }
        }
    }"#);
    let degraded = degrade(&chat);
    assert!(degraded.get("response_format").is_none());
    let system = &degraded["messages"][0];
    assert_eq!(system["role"], "system");
    let content = system["content"].as_str().unwrap();
    assert!(content.contains("You are Codex."));
    assert!(content.contains("JSON Schema"));
    // schema 没有 required 时不能把可选属性擅自改成必填。
    assert!(!content.contains("top-level fields:"));
    assert!(content.contains("ONLY a single valid JSON object"));
    // 用户消息保持原样。
    assert_eq!(degraded["messages"][1]["role"], "user");
    assert_eq!(degraded["messages"][1]["content"], "hi");
}

#[test]
fn degrade_instruction_lists_schema_required_fields() {
    let chat = doc(r#"{
        "model": "deepseek-v4-pro",
        "messages": [{"role": "user", "content": "hi"}],
        "response_format": {
            "type": "json_schema",
            "json_schema": {
                "name": "review",
                "schema": {
                    "type": "object",
                    "required": ["outcome", "message"],
                    "properties": {
                        "outcome": {"type": "string", "enum": ["approved", "rejected"]},
                        "message": {"type": "string"}
                    },
                    "additionalProperties": false
                }
            }
        }
    }"#);
    let degraded = degrade(&chat);
    let system = &degraded["messages"][0];
    let content = system["content"].as_str().unwrap();
    // 必填字段（含 outcome）被显式列出，且强调不得遗漏。
    assert!(content.contains("top-level fields: outcome, message"));
    assert!(content.contains("Do not omit any field"));
    assert!(content.contains("\"outcome\""));
    assert!(content.contains("markdown code fences"));
}

#[test]
fn degrade_structured_output_inserts_system_message_when_missing() {
    let chat = doc(r#"{
        "model": "deepseek-v4-pro",
        "messages": [{"role": "user", "content": "hi"}],
        "response_format": {
            "type": "json_schema",
            "json_schema": {
                "name": "review",
                "schema": {"type": "object"}
            }
        }
    }"#);
    let degraded = degrade(&chat);
    assert!(degraded.get("response_format").is_none());
    assert_eq!(degraded["messages"][0]["role"], "system");
    assert!(
        degraded["messages"][0]["content"]
            .as_str()
            .unwrap()
            .contains("JSON Schema")
    );
    assert_eq!(degraded["messages"][1]["role"], "user");
}

#[test]
fn degrade_json_object_still_adds_json_only_instruction() {
    let degraded = degrade(&doc(r#"{
        "messages": [{"role": "user", "content": "hi"}],
        "response_format": {"type": "json_object"}
    }"#));
    assert!(degraded.get("response_format").is_none());
    assert!(
        degraded["messages"][0]["content"]
            .as_str()
            .unwrap()
            .contains("ONLY a single valid JSON object")
    );
}

#[test]
fn tools_and_tool_choice_are_converted() {
    let chat = to_chat(
        &doc(r#"{
            "model": "gpt-4o",
            "input": "hi",
            "tools": [
                {"type": "function", "name": "f", "description": "desc", "parameters": {"type": "object", "properties": {"a": {"type": "string"}}, "additionalProperties": false}, "strict": true}
            ],
            "tool_choice": {"type": "function", "name": "f"},
            "max_output_tokens": 128,
            "reasoning": {"effort": "low"},
            "temperature": 0.3
        }"#),
        &ReasoningStore::default(),
    );
    let tools = chat["tools"].as_array().unwrap();
    assert_eq!(tools[0]["type"], "function");
    assert_eq!(tools[0]["function"]["name"], "f");
    assert_eq!(tools[0]["function"]["description"], "desc");
    assert_eq!(
        tools[0]["function"]["parameters"]["additionalProperties"],
        false
    );
    assert_eq!(tools[0]["function"]["strict"], true);
    assert_eq!(chat["tool_choice"]["type"], "function");
    assert_eq!(chat["tool_choice"]["function"]["name"], "f");
    assert_eq!(chat["max_completion_tokens"], 128);
    assert_eq!(chat["reasoning_effort"], "low");
    assert_eq!(chat["temperature"], 0.3);
}

#[test]
fn optional_builtin_tools_are_filtered_while_functions_are_preserved() {
    let request = doc(r#"{
        "model": "chat-model",
        "input": "hi",
        "tool_choice": "auto",
        "tools": [
            {"type": "web_search_preview"},
            {"type": "function", "name": "read_file", "parameters": {"type": "object"}}
        ]
    }"#);
    assert!(validate_supported_responses_request(&request).is_ok());

    let chat = to_chat(&request, &ReasoningStore::default());
    let tools = chat["tools"].as_array().unwrap();
    assert_eq!(tools.len(), 1);
    assert_eq!(tools[0]["function"]["name"], "read_file");

    assert!(
        validate_supported_responses_request(&doc(r#"{
            "input": "hi",
            "tool_choice": "required",
            "tools": [{"type": "web_search_preview"}]
        }"#))
        .is_err()
    );
    assert!(
        validate_supported_responses_request(&doc(r#"{
            "input": "hi",
            "tool_choice": {"type": "web_search_preview"},
            "tools": [{"type": "web_search_preview"}]
        }"#))
        .is_err()
    );
}

#[test]
fn unsupported_state_and_input_items_are_rejected_instead_of_dropped() {
    assert!(
        validate_supported_responses_request(&doc(r#"{
            "input": [{"type": "file_search_call", "id": "search_1"}]
        }"#))
        .is_err()
    );
    assert!(
        validate_supported_responses_request(&doc(r#"{
            "input": "hi",
            "text": {"format": {"type": "json_schema", "schema": {"type": "invalid"}}}
        }"#))
        .is_err()
    );
}

#[test]
fn image_input_is_preserved() {
    let chat = to_chat(
        &doc(r#"{
            "model": "gpt-4o",
            "input": [{"type": "message", "role": "user", "content": [
                {"type": "input_text", "text": "这是什么"},
                {"type": "input_image", "image_url": "data:image/png;base64,xxx", "detail": "high"}
            ]}]
        }"#),
        &ReasoningStore::default(),
    );
    let content = chat["messages"][0]["content"].as_array().unwrap();
    assert_eq!(content.len(), 2);
    assert_eq!(content[1]["type"], "image_url");
    assert_eq!(content[1]["image_url"]["url"], "data:image/png;base64,xxx");
    assert_eq!(content[1]["image_url"]["detail"], "high");
}

#[test]
fn input_to_messages_attaches_remembered_reasoning_content() {
    let mut store = ReasoningStore::default();
    {
        store.insert("msg_1", "第一步思考");
        store.insert("fc_1", "工具调用前的思考");
    }
    let chat = to_chat(
        &doc(r#"{
            "model": "deepseek-reasoner",
            "input": [
                {"type": "message", "role": "user", "content": [{"type": "input_text", "text": "hi"}]},
                {"type": "message", "id": "msg_1", "role": "assistant", "content": [{"type": "output_text", "text": "好的"}]},
                {"type": "function_call", "id": "fc_1", "call_id": "call_1", "name": "f", "arguments": "{}"},
                {"type": "function_call_output", "call_id": "call_1", "output": "done"}
            ]
        }"#),
        &store,
    );
    let messages = chat["messages"].as_array().unwrap();
    // Responses 的 assistant 文本与紧随其后的 function_call 属于同一轮，
    // 必须合并成一条 Chat assistant 消息并使用工具调用对应的 reasoning。
    let assistant_message = messages
        .iter()
        .find(|message| message.get("content").and_then(Value::as_str) == Some("好的"))
        .unwrap();
    assert!(assistant_message.get("tool_calls").is_some());
    assert_eq!(assistant_message["reasoning_content"], "工具调用前的思考");
    assert_eq!(
        messages
            .iter()
            .filter(|message| message.get("role").and_then(Value::as_str) == Some("assistant"))
            .count(),
        1
    );
}

#[test]
fn reasoning_matches_by_call_id_when_item_id_is_rewritten() {
    // 条目 id 被 Codex 重写（重新生成）时，只要 call_id 一致，仍能回传思考内容。
    let mut store = ReasoningStore::default();
    {
        store.insert("call_1", "工具调用前的思考");
    }
    let chat = to_chat(
        &doc(r#"{
            "model": "deepseek-reasoner",
            "input": [
                {"type": "message", "role": "user", "content": [{"type": "input_text", "text": "hi"}]},
                {"type": "function_call", "id": "regenerated_fc", "call_id": "call_1", "name": "f", "arguments": "{}"},
                {"type": "function_call_output", "call_id": "call_1", "output": "done"}
            ]
        }"#),
        &store,
    );
    let messages = chat["messages"].as_array().unwrap();
    let tool_message = messages
        .iter()
        .find(|message| message.get("tool_calls").is_some())
        .unwrap();
    assert_eq!(tool_message["reasoning_content"], "工具调用前的思考");
}
