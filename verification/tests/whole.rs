use codex_tools::byte_stream::StreamPump;
use codex_tools::capability::CapabilityCache;
use codex_tools::chat_request::{input_to_messages, normalize_system_messages};
use codex_tools::completion::completion_to_chunk;
use codex_tools::events::PendingEvent;
use codex_tools::json::Json;
use codex_tools::maintenance::{refresh_failure, MaintenanceEvent};
use codex_tools::models::{AppError, ProviderApiType, ProviderProfile};
use codex_tools::proxy::{make_proxy_key, ChatProxyRegistry, PROXY_PORT};
use codex_tools::pump::{ResponseTranslationContext, SseRun};
use codex_tools::quota::ProviderAccountQuota;
use codex_tools::quota_rounds::{QuotaEvent, QuotaRefresh, QuotaTask};
use codex_tools::reasoning::ReasoningStore;
use codex_tools::response::{chat_to_responses_body, ResponseMetadata};
use codex_tools::stream::StreamTranslator;
use serde_json::Value;

fn context() -> ResponseTranslationContext {
    ResponseTranslationContext {
        response_id: "resp_x".into(),
        model: "m".into(),
        created_at: 1,
        structured_output: false,
        structured_schema: None,
        metadata: ResponseMetadata::default(),
        capability_key: None,
    }
}

fn value(event: &PendingEvent) -> Value {
    serde_json::from_str(&event.data()).unwrap()
}

/// The events of a stream that arrives in pieces of a length.
fn events_of(body: &[u8], length: usize) -> Vec<Value> {
    let run = SseRun::open_with_id(&context(), "broken", "msg_1".into());
    let mut pump = StreamPump::new(run);
    let mut events = Vec::new();
    for piece in body.chunks(length) {
        if pump.is_stopped() {
            break;
        }
        pump.take_bytes(piece);
        while pump.read_lines(1) {
            events.append(&mut pump.take_events());
        }
        pump.check_line();
    }
    pump.finish(&mut ReasoningStore::default(), &mut CapabilityCache::default(), None);
    events.append(&mut pump.take_events());
    events.iter().map(value).collect()
}

fn kinds(events: &[Value]) -> Vec<String> {
    events.iter().map(|event| event["type"].as_str().unwrap().to_owned()).collect()
}

const TERMINAL: [&str; 3] = ["response.completed", "response.incomplete", "response.failed"];

fn body_of(tokens: usize) -> (String, Vec<String>) {
    let mut body = String::new();
    let mut said = Vec::new();
    for index in 0..tokens {
        let token = format!("词{index} ");
        body.push_str(&format!(
            "data: {{\"choices\":[{{\"delta\":{{\"content\":\"{token}\"}}}}]}}\n\n"
        ));
        said.push(token);
    }
    body.push_str("data: {\"choices\":[{\"delta\":{},\"finish_reason\":\"stop\"}]}\n\n");
    body.push_str("data: [DONE]\n\n");
    (body, said)
}

#[test]
fn every_way_of_cutting_a_stream_tells_the_same() {
    let (body, said) = body_of(12);
    let whole = events_of(body.as_bytes(), body.len());
    for length in [1, 2, 3, 5, 7, 64, 1000] {
        assert_eq!(events_of(body.as_bytes(), length), whole);
    }
    let told: Vec<String> = whole
        .iter()
        .filter(|event| event["type"] == "response.output_text.delta")
        .map(|event| event["delta"].as_str().unwrap().to_owned())
        .collect();
    assert_eq!(told, said);
}

#[test]
fn pieces_of_text_are_told_up_to_the_mark() {
    let body = ": comment\n\
        data: {\"choices\":[{\"delta\":{\"content\":\"一\"}}]}\n\n\
        event: message\n\
        data: {\"choices\":[{\"delta\":{\"content\":\"二\"}}]}\r\n\r\n\
        data: [DONE]\n\n\
        data: no json\n\n";
    for length in [1, 4, 9, 4096] {
        let told: Vec<String> = events_of(body.as_bytes(), length)
            .iter()
            .filter(|event| event["type"] == "response.output_text.delta")
            .map(|event| event["delta"].as_str().unwrap().to_owned())
            .collect();
        assert_eq!(told, ["一", "二"]);
    }
}

#[test]
fn every_stream_has_one_terminal_event_which_is_the_last() {
    let (good, _) = body_of(2);
    let bodies = [
        good,
        "data: [DONE]\n\n".to_owned(),
        "data: no json\n\n".to_owned(),
        "data: {\"error\":{\"message\":\"no\"}}\n\ndata: {\"choices\":[]}\n\n".to_owned(),
        String::new(),
        format!("data: {}", "x".repeat(1_100_000)),
    ];
    for body in bodies {
        let kinds = kinds(&events_of(body.as_bytes(), 4096));
        assert_eq!(&kinds[..2], ["response.created", "response.in_progress"]);
        let terminal = kinds.iter().filter(|kind| TERMINAL.contains(&kind.as_str())).count();
        assert_eq!(terminal, 1);
        assert!(TERMINAL.contains(&kinds.last().unwrap().as_str()));
    }
}

#[test]
fn items_are_announced_and_closed_once() {
    let body = concat_lines(&[
        r#"{"choices":[{"delta":{"content":"hi","tool_calls":[{"index":3,"function":{"arguments":"{"}}]}}]}"#,
        r#"{"choices":[{"delta":{"tool_calls":[{"index":3,"id":"a","function":{"name":"f","arguments":"1"}}]}}]}"#,
        r#"{"choices":[{"delta":{"tool_calls":[{"index":1,"id":"b","function":{"name":"g","arguments":"{}"}}]}}]}"#,
        r#"{"choices":[{"delta":{"tool_calls":[{"index":3,"function":{"arguments":"}"}}]},"finish_reason":"tool_calls"}]}"#,
    ]);
    let events = events_of(body.as_bytes(), 11);
    for index in 0..3u64 {
        for kind in ["response.output_item.added", "response.output_item.done"] {
            let count = events
                .iter()
                .filter(|event| event["type"] == kind && event["output_index"] == index)
                .count();
            assert_eq!(count, 1);
        }
    }
    let told: String = events
        .iter()
        .filter(|event| {
            event["type"] == "response.function_call_arguments.delta" && event["output_index"] == 1
        })
        .map(|event| event["delta"].as_str().unwrap().to_owned())
        .collect();
    assert_eq!(told, "{1}");
    let answer = &events.last().unwrap()["response"];
    assert_eq!(answer["output"][1]["arguments"], "{1}");
    assert_eq!(answer["output"][2]["call_id"], "b");
}

fn concat_lines(chunks: &[&str]) -> String {
    let mut body = String::new();
    for chunk in chunks {
        body.push_str("data: ");
        body.push_str(chunk);
        body.push_str("\n\n");
    }
    body.push_str("data: [DONE]\n\n");
    body
}

fn without_ids(output: &Value) -> Value {
    let mut output = output.clone();
    for item in output.as_array_mut().unwrap() {
        item["id"] = Value::Null;
    }
    output
}

#[test]
fn an_answer_streamed_at_once_is_the_answer_translated() {
    let completion = Json::parse(
        r#"{"model":"real","choices":[{"message":{"content":"hi","refusal":"no",
        "tool_calls":[{"id":"a","function":{"name":"f","arguments":""}},
        {"id":"b","function":{"name":"g","arguments":"{}"}}]},"finish_reason":"length"}]}"#,
    )
    .unwrap();
    let mut store = ReasoningStore::default();
    let direct = chat_to_responses_body(&completion, "resp_x", "m", 1, &mut store, false).unwrap();
    let direct: Value = serde_json::from_str(&direct.render().unwrap()).unwrap();
    let mut translator = StreamTranslator::new_with_metadata(
        "resp_x",
        "m",
        1,
        false,
        None,
        ResponseMetadata::default(),
    );
    let mut events = Vec::new();
    assert!(translator.push_chunk(&completion_to_chunk(&completion), &mut events).is_none());
    assert!(translator.finish(&mut events, &mut store));
    let last = value(events.last().unwrap());
    let streamed = &last["response"];
    for member in ["id", "created_at", "status", "model", "incomplete_details"] {
        assert_eq!(streamed[member], direct[member]);
    }
    assert_eq!(without_ids(&streamed["output"]), without_ids(&direct["output"]));
}

#[test]
fn nothing_of_an_input_is_dropped() {
    let body = Json::parse(
        r#"{"model":"m","instructions":"a","input":["one",
        {"type":"reasoning"},
        {"role":"developer","content":"b"},
        {"type":"function_call","call_id":"x","name":"f","arguments":"1"},
        {"type":"function_call","call_id":"y","name":"g","arguments":"2"},
        {"type":"function_call_output","call_id":"x","output":"X"},
        {"role":"user","content":"two"},
        {"type":"function_call_output","call_id":"y","output":"Y"}]}"#,
    )
    .unwrap();
    let messages = input_to_messages(&body, &ReasoningStore::default());
    let values: Vec<Value> = messages
        .iter()
        .map(|message| serde_json::from_str(&message.render().unwrap()).unwrap())
        .collect();
    let with_role = |role: &str| -> Vec<&Value> {
        values.iter().filter(|message| message["role"] == role).collect()
    };
    assert_eq!(with_role("system").len(), 1);
    assert_eq!(values[0]["content"], "a\n\nb");
    let users = with_role("user");
    assert_eq!((&users[0]["content"], &users[1]["content"]), (&"one".into(), &"two".into()));
    let tools = with_role("tool");
    assert_eq!(tools[0]["tool_call_id"], "x");
    assert_eq!(tools[1]["content"], "Y");
    let calls: Vec<String> = values
        .iter()
        .filter_map(|message| message["tool_calls"].as_array())
        .flatten()
        .map(|call| call["id"].as_str().unwrap().to_owned())
        .collect();
    assert_eq!(calls, vec!["x", "y"]);

    let again = normalize_system_messages(messages);
    let again: Vec<Value> = again
        .iter()
        .map(|message| serde_json::from_str(&message.render().unwrap()).unwrap())
        .collect();
    assert_eq!(again, values);
}

fn provider(id: &str, base_url: &str, headers: &[(&str, &str)]) -> ProviderProfile {
    ProviderProfile {
        id: id.into(),
        name: id.into(),
        base_url: base_url.into(),
        headers: headers.iter().map(|pair| (pair.0.into(), pair.1.into())).collect(),
        timeout_secs: 7,
        enabled: true,
        active: false,
        model: String::new(),
        available_models: Vec::new(),
        selected_models: None,
        custom_models: Vec::new(),
        api_type: ProviderApiType::Chat,
        api_key: Some("secret".into()),
        has_api_key: true,
        created_at: 0,
        updated_at: 0,
    }
}

#[test]
fn a_proxy_takes_on_the_settings_of_its_provider_and_lets_go_of_them() {
    let first = provider("one", "http://one.test/v1/", &[("x-one", "1"), ("user-agent", "u")]);
    let second = provider("two", "http://two.test/v1", &[("x-two", "2")]);
    let mut registry = ChatProxyRegistry::default();
    registry.started(&first, PROXY_PORT, "key".into());
    {
        let config = &registry.single.as_ref().unwrap().snapshot.config;
        assert_eq!(config.upstream_base, "http://one.test/v1");
        assert_eq!(config.headers.get("x-one").unwrap(), "1");
        assert!(config.headers.get("user-agent").is_none());
        assert_eq!(config.timeout_secs, 7);
    }
    registry.single.as_mut().unwrap().snapshot.reasoning_store.insert("id", "thought");
    assert_eq!(registry.ensure(&second), Some((PROXY_PORT, "key".into())));
    {
        let running = registry.single.as_ref().unwrap();
        assert_eq!(running.snapshot.config.upstream_base, "http://two.test/v1");
        assert!(running.snapshot.config.headers.get("x-one").is_none());
        assert_eq!(running.snapshot.config.headers.get("x-two").unwrap(), "2");
        assert!(running.snapshot.reasoning_store.get("id").is_none());
    }
    registry.stop("two");
    let config = &registry.single.as_ref().unwrap().snapshot.config;
    assert!(config.is_disabled());
    assert!(config.api_key.is_empty());
    assert!(config.headers.is_empty());
    assert_eq!(config.timeout_secs, 30);
}

#[test]
fn the_key_of_the_proxy_is_three_identifiers() {
    let key = make_proxy_key();
    assert_eq!(key.len(), 108);
    for (place, letter) in key.chars().enumerate() {
        if [8, 13, 18, 23].contains(&(place % 36)) {
            assert_eq!(letter, '-');
        } else {
            assert!(letter.is_ascii_digit() || ('a'..='f').contains(&letter));
        }
    }
}

#[test]
fn a_login_that_is_not_accepted_is_told_apart_from_other_trouble() {
    assert!(matches!(
        refresh_failure(&AppError::InvalidConfig("expired".into())),
        MaintenanceEvent::Refused
    ));
    for error in [AppError::Internal("no network".into()), AppError::StaleOperation] {
        assert!(matches!(refresh_failure(&error), MaintenanceEvent::Failed));
    }
}

#[test]
fn a_quota_that_cannot_be_asked_for_is_not_saved() {
    let mut round = QuotaRefresh::new(ProviderAccountQuota::default(), false, 9);
    round.report(QuotaEvent::Ready);
    round.report(QuotaEvent::Failed(AppError::Internal("no client".into())));
    assert_eq!(round.task(), QuotaTask::Finished);
    assert_eq!(round.into_outcome().unwrap().err().unwrap().message(), "no client");

    let mut round = QuotaRefresh::new(ProviderAccountQuota::default(), false, 9);
    round.report(QuotaEvent::Ready);
    round.report(QuotaEvent::Refused(
        false,
        codex_tools::quota::QuotaStatus::RateLimited,
        "slow".into(),
        None,
    ));
    assert_eq!(round.task(), QuotaTask::Save);
    round.report(QuotaEvent::Saved);
    assert_eq!(round.into_outcome().unwrap().ok().unwrap().last_attempt_at, Some(9));
}
