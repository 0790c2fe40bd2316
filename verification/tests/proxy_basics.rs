use codex_tools::headers::build_upstream_headers;
use codex_tools::proxy::endpoint_for;
use codex_tools::reasoning::ReasoningStore;
use codex_tools::text::truncate;


#[test]
fn upstream_endpoint_respects_versioned_roots() {
    assert_eq!(
        endpoint_for("https://api.deepseek.com", "chat/completions"),
        "https://api.deepseek.com/v1/chat/completions"
    );
    assert_eq!(
        endpoint_for("https://api.deepseek.com/v1", "chat/completions"),
        "https://api.deepseek.com/v1/chat/completions"
    );
    assert_eq!(
        endpoint_for("https://gateway.test/openai/v2", "models"),
        "https://gateway.test/openai/v2/models"
    );
}

#[test]
fn truncate_limits_characters_and_handles_multibyte() {
    assert_eq!(truncate("abc", 10), "abc");
    assert_eq!(truncate("abcde", 3), "abc…");
    // 多字节字符按字符截断，不会切坏 UTF-8。
    assert_eq!(truncate("a你b", 2), "a你…");
    assert_eq!(truncate("", 5), "");
    assert_eq!(truncate("abcdef", 0), "…");
}

#[test]
fn ambiguous_call_ids_never_leak_reasoning_between_conversations() {
    let mut store = ReasoningStore::default();
    store.insert_call_alias("call_1", "conversation A");
    store.insert_call_alias("call_1", "conversation B");

    assert_eq!(store.get("call_1"), None);
}

#[test]
fn upstream_headers_skip_invalid_entries() {
    // 异常请求头只跳过错误项，不影响其余有效头（保存时已校验，这里是兜底）。
    let headers = build_upstream_headers(&vec![
        ("X-Custom".into(), "ok".into()),
        ("User-Agent".into(), "custom-agent".into()),
        ("invalid header".into(), "x".into()),
        ("X-Other".into(), "bad\nvalue".into()),
    ]);
    assert_eq!(
        headers
            .get("x-custom")
            .and_then(|value| value.to_str().ok()),
        Some("ok")
    );
    assert_eq!(headers.len(), 1);
}
