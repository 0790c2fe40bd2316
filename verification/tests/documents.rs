use codex_tools::chat_request::responses_to_chat_body;
use codex_tools::codex_document::{
    apply_custom_fields, clear_custom_provider_fields, inspect, named_provider,
    normalize_inline_model_providers,
    parse_config_document, remove_legacy_openai_relay_provider,
    update_managed_model_provider_fields,
};
use codex_tools::codex_files::{
    capture, read_config_text, read_optional, same_contents, CodexFile, CodexFiles, Commit,
    FileRead, FileReads, FileStep, Report, Task, TextRead,
};
use codex_tools::codex_preview::{
    are_blank, catalog_bytes, describe_changes, hide_secrets, managed_custom_preview, mask_secret,
    merged_headers, parse_auth_object, render_api_key_auth, render_token_auth,
};
use codex_tools::config_manager::{
    candidate_models, classify_login, home, standard_home, ConfigManager, LoginFile, PendingPatch,
    MAX_PENDING, PENDING_NANOS,
};
use codex_tools::json::Json;
use codex_tools::models::{AppError, ProviderApiType, ProviderProfile};
use codex_tools::order::order;
use codex_tools::proxy::ActivationTarget;
use codex_tools::reasoning::{ReasoningStore, MAX_REASONING_CHARS, MAX_REASONING_ENTRIES};
use codex_tools::text;
use toml_edit::DocumentMut;

fn files(config: Option<&str>) -> CodexFiles {
    CodexFiles { config: config.map(|text| text.as_bytes().to_vec()), auth: None, catalog: None }
}

fn reads(config: Option<&str>) -> FileReads {
    FileReads {
        config: match config {
            Some(text) => FileRead::Contents(text.as_bytes().to_vec()),
            None => FileRead::Absent,
        },
        auth: FileRead::Absent,
        catalog: FileRead::Absent,
    }
}

fn patch(id: &str, created_at: u64) -> PendingPatch {
    PendingPatch {
        id: id.into(),
        rendered: "model = \"m\"\n".into(),
        auth_rendered: b"{}\n".to_vec(),
        catalog: None,
        original: files(None),
        created_at,
    }
}

fn provider() -> ProviderProfile {
    ProviderProfile {
        id: "p".into(),
        name: "Provider".into(),
        base_url: "https://example.test/v1".into(),
        headers: vec![("User-Agent".into(), "own".into()), ("X-Tenant".into(), "t-123".into())],
        timeout_secs: 30,
        enabled: true,
        active: false,
        model: String::new(),
        available_models: vec!["b".into(), "a".into()],
        selected_models: None,
        custom_models: vec!["a".into(), "c".into()],
        api_type: ProviderApiType::Responses,
        api_key: Some("sk-0123456789".into()),
        has_api_key: false,
        created_at: 0,
        updated_at: 0,
    }
}

#[test]
fn json_is_read_and_written() {
    let document = Json::parse(r#"{"b": [1, -2, 0.5, null, true], "a": "x\ny"}"#).unwrap();
    assert_eq!(document.render().unwrap(), r#"{"a":"x\ny","b":[1,-2,0.5,null,true]}"#);
    assert_eq!(
        Json::object().with("k", Json::unsigned(3)).render_pretty().unwrap(),
        "{\n  \"k\": 3\n}"
    );
    assert_eq!(Json::signed(-7).render().unwrap(), "-7");
    assert_eq!(Json::signed(7).as_u64(), Some(7));
    assert!(Json::parse("{").is_none());
    assert!(Json::parse_bytes(b"\xff").is_none());
    assert!(Json::read(b"{").err().unwrap().contains("EOF"));
    assert_eq!(document.duplicate().render(), document.render());
    let twice = Json::object().with("k", Json::Null).with("k", Json::Bool(true));
    assert_eq!(twice.render().unwrap(), r#"{"k":true}"#);
}

#[test]
fn schemas_are_checked() {
    let schema = Json::parse(r#"{"type": "object", "required": ["a"]}"#).unwrap();
    assert!(schema.is_valid_schema());
    assert_eq!(schema.schema_accepts(&Json::object().with("a", Json::Null)), Some(true));
    assert_eq!(schema.schema_accepts(&Json::object()), Some(false));
    let wrong = Json::parse(r#"{"type": 12}"#).unwrap();
    assert!(!wrong.is_valid_schema());
    assert_eq!(wrong.schema_accepts(&Json::Null), None);
}

#[test]
fn texts_are_taken_apart() {
    assert_eq!(text::trim(" \u{a0}a b\n"), "a b");
    assert!(text::is_blank("\t \n"));
    assert_eq!(text::replace("aaa", "aa", "b"), "ba");
    assert_eq!(text::replace("abc", "", "x"), "abc");
    assert_eq!(text::decimal_text(0), "0");
    assert_eq!(text::decimal_text(u128::MAX), u128::MAX.to_string());
    assert_eq!(text::truncate("日本語", 2), "日本…");
}

#[test]
fn items_with_one_index_keep_their_order() {
    assert_eq!(
        order(vec![(2, 'a'), (1, 'b'), (2, 'c'), (0, 'd')]),
        vec![(0, 'd'), (1, 'b'), (2, 'a'), (2, 'c')]
    );
}

#[test]
fn reasoning_is_kept_within_bounds() {
    let mut store = ReasoningStore::default();
    for index in 0..MAX_REASONING_ENTRIES + 1 {
        store.insert(&format!("id-{index}"), "thought");
    }
    assert_eq!(store.get("id-0"), None);
    assert_eq!(store.get("id-1"), Some("thought"));
    let long = "长".repeat(MAX_REASONING_CHARS + 1);
    assert!(ReasoningStore::bounded_content(&long).chars().count() <= MAX_REASONING_CHARS + 1);
    assert_eq!(ReasoningStore::bounded_content("short"), "short");
}

#[test]
fn messages_need_only_their_own_reasoning() {
    let mut store = ReasoningStore::default();
    store.insert("msg_1", "mine");
    store.insert("msg_2", "other");
    let body = Json::parse(
        r#"{"model": "m", "input": [{"type": "message", "id": "msg_1", "role": "assistant", "content": "a"}]}"#,
    )
    .unwrap();
    let whole = responses_to_chat_body(&body, &store);
    let part = responses_to_chat_body(&body, &store.subset(&vec!["msg_1".into()]));
    assert_eq!(whole.render(), part.render());
    assert!(whole.render().unwrap().contains("mine"));
}

#[test]
fn turning_back_leaves_what_was_there() {
    let source = "model = \"own\"\nnote = \"keep\"\n\n[model_providers.other]\nname = \"Other\"\n";
    let mut document = parse_config_document(source).ok().unwrap();
    assert!(apply_custom_fields(&mut document, "N", "https://n.test", &Vec::new(), "m").is_ok());
    let once = document.to_string();
    assert!(apply_custom_fields(&mut document, "N", "https://n.test", &Vec::new(), "m").is_ok());
    assert_eq!(document.to_string(), once);
    assert!(clear_custom_provider_fields(&mut document, None).is_ok());
    assert!(document.get("model_provider").is_none());
    assert!(document["model_providers"].get("custom").is_none());
    assert_eq!(document["model_providers"]["other"]["name"].as_str(), Some("Other"));
    assert_eq!(document["note"].as_str(), Some("keep"));

    let untouched = "note = \"keep\"\n\n[profiles.a]\nsize = 1\n\n[model_providers.other]\nname = \"Other\"\n";
    let mut document = parse_config_document(untouched).ok().unwrap();
    assert!(apply_custom_fields(&mut document, "N", "https://n.test", &Vec::new(), "m").is_ok());
    assert!(clear_custom_provider_fields(&mut document, Some("m")).is_ok());
    assert_eq!(document.to_string(), untouched);
}

#[test]
fn profiles_turn_with_the_configuration() {
    let mut document = "[profiles.a]\nmodel_provider = \"x\"\nmodel = \"own\"\n"
        .parse::<DocumentMut>()
        .unwrap();
    update_managed_model_provider_fields(&mut document, "custom");
    assert_eq!(document["profiles"]["a"]["model_provider"].as_str(), Some("custom"));
    assert_eq!(document["profiles"]["a"]["model"].as_str(), Some("own"));
}

#[test]
fn inline_services_become_a_table() {
    let mut document = "model_providers = { a = { name = \"A\" }, codex_tools_openai_relay = { name = \"R\" } }\n"
        .parse::<DocumentMut>()
        .unwrap();
    normalize_inline_model_providers(&mut document);
    assert!(document["model_providers"].is_table());
    assert!(remove_legacy_openai_relay_provider(&mut document).is_ok());
    assert_eq!(document["model_providers"]["a"]["name"].as_str(), Some("A"));
    assert!(document["model_providers"].get("codex_tools_openai_relay").is_none());
    let mut wrong = "model_providers = 3\n".parse::<DocumentMut>().unwrap();
    assert!(apply_custom_fields(&mut wrong, "N", "u", &Vec::new(), "m").is_err());
}

#[test]
fn configurations_are_inspected() {
    let read = Ok("model_provider = \"mine\"\n[model_providers.custom]\n".into());
    assert_eq!(named_provider(&read).as_deref(), Some("mine"));
    let found = inspect("/codex/config.toml".into(), &read, Some("custom".into()));
    assert_eq!(found.path, "/codex/config.toml");
    assert!(found.valid && found.managed_provider_present);
    assert_eq!(found.active_provider.as_deref(), Some("custom"));
    let unnamed = inspect("c".into(), &Ok("a = 1".into()), Some("custom".into()));
    assert_eq!(unnamed.active_provider, None);
    let wrong = inspect("c".into(), &Ok("a = [".into()), None);
    assert!(!wrong.valid);
    assert!(!wrong.warnings.is_empty());
    assert!(parse_config_document("a = [").is_err());
}

#[test]
fn secrets_are_not_shown() {
    let pairs = vec![("x".to_string(), "tenant".to_string()), ("y".to_string(), "ten".to_string())];
    let hidden = hide_secrets("k=sk-0123456789 t=tenant u=ten", "sk-0123456789", &pairs);
    assert_eq!(hidden, "k=sk-0…6789 t=[REDACTED] u=[REDACTED]");
    assert_eq!(mask_secret(""), "");
    let document = "model = \"m\"\nown = \"tenant\"\n[model_providers.custom]\nname = \"N\"\nsecret = \"s\"\n"
        .parse::<DocumentMut>()
        .unwrap();
    let shown = managed_custom_preview(&document, "key", &pairs);
    assert!(shown.contains("model = \"m\""));
    assert!(shown.contains("name = \"N\""));
    assert!(!shown.contains("own"));
    assert!(!shown.contains("secret"));
}

#[test]
fn headers_name_this_program_once() {
    let merged = merged_headers(&provider().headers, "codex/1");
    assert_eq!(merged.len(), 2);
    assert!(merged.contains(&("X-Tenant".into(), "t-123".into())));
    assert!(merged.iter().any(|(_, value)| value == "codex/1"));
    assert!(!merged.iter().any(|(_, value)| value == "own"));
}

#[test]
fn changes_are_described() {
    let direct = describe_changes("m-1", false);
    let proxied = describe_changes("m-1", true);
    assert!(direct.iter().any(|change| change.contains("m-1")));
    assert_ne!(direct, proxied);
}

#[test]
fn logins_are_written_and_read_back() {
    let written = render_api_key_auth("sk-\"quoted\"\n").ok().unwrap();
    let login = parse_auth_object(&written).ok().unwrap();
    assert_eq!(login.text_at("OPENAI_API_KEY"), Some("sk-\"quoted\"\n"));
    let token = render_token_auth("  pat  ").ok().unwrap();
    match classify_login(&Some(token), None) {
        LoginFile::Token(token) => assert_eq!(token, "pat"),
        _ => panic!("a token was written"),
    }
    assert!(parse_auth_object(b"[]").is_err());
    assert!(parse_auth_object(b"{").is_err());
    assert!(are_blank(b" \n\t"));
    assert!(!are_blank(b" x"));
    assert!(matches!(classify_login(&None, None), LoginFile::Empty));
    assert!(matches!(classify_login(&Some(b"{}\n".to_vec()), None), LoginFile::Empty));
    assert!(matches!(
        classify_login(&Some(b"{\"a\":1}".to_vec()), None),
        LoginFile::Unreadable(AppError::InvalidConfig(_))
    ));
}

#[test]
fn an_empty_list_of_models_is_not_written() {
    assert!(catalog_bytes(Vec::new()).is_none());
    let bytes = catalog_bytes(vec![Json::object()]).unwrap();
    assert_eq!(String::from_utf8(bytes).unwrap(), "{\n  \"models\": [\n    {}\n  ]\n}\n");
}

#[test]
fn files_are_read_within_bounds() {
    assert!(capture(reads(None)).ok().unwrap().same_as(&files(None)));
    let mut long = reads(None);
    long.config = FileRead::TooLong;
    assert!(capture(long).err().unwrap().message().contains("2 MB"));
    let mut long = reads(None);
    long.auth = FileRead::TooLong;
    assert!(capture(long).err().unwrap().message().contains("4 MB"));
    let mut long = reads(None);
    long.catalog = FileRead::TooLong;
    assert!(capture(long).err().unwrap().message().contains("16 MB"));
    let mut gone = reads(None);
    gone.auth = FileRead::Failed("denied".into());
    assert!(capture(gone).err().unwrap().message().contains("denied"));
    assert_eq!(read_config_text(&None).ok().unwrap(), "");
    assert!(read_config_text(&Some(vec![0xff])).is_err());
    assert_eq!(read_optional(TextRead::Absent).ok().unwrap(), "");
    assert_eq!(read_optional(TextRead::Text("a".into())).ok().unwrap(), "a");
    assert!(read_optional(TextRead::Failed("denied".into())).is_err());
    assert_eq!(
        read_optional(TextRead::Unsized("denied".into())).err().unwrap().message(),
        "无法检查 Codex 文件大小，请检查文件权限：denied"
    );
    assert!(same_contents(&None, &None));
    assert!(!same_contents(&None, &Some(Vec::new())));
    assert!(same_contents(&Some(vec![1]), &Some(vec![1])));
}

#[test]
fn a_refused_guard_leaves_the_files_alone() {
    let mut commit = Commit::new(files(None), b"a".to_vec(), b"b".to_vec(), Some(b"c".to_vec()));
    assert!(matches!(commit.task(), Task::Guard));
    commit.report(Report::Failed(AppError::InvalidConfig("running".into())));
    assert!(matches!(commit.task(), Task::Finished));
    assert_eq!(commit.into_outcome().unwrap().err().unwrap().message(), "running");
}

#[test]
fn a_change_that_was_made_can_be_undone() {
    let mut commit = Commit::new(files(Some("old")), b"new".to_vec(), b"{\"a\":1}".to_vec(), None);
    let mut config = Some(b"old".to_vec());
    let mut auth: Option<Vec<u8>> = None;
    for undoing in [false, true] {
        loop {
            let report = match commit.task() {
                Task::Finished => break,
                Task::Guard => Report::Done,
                Task::Compare => Report::Found(config.clone(), auth.clone()),
                Task::Perform(FileStep::Write(CodexFile::Config, bytes)) => {
                    config = Some(bytes);
                    Report::Done
                }
                Task::Perform(FileStep::Write(_, bytes)) => {
                    auth = Some(bytes);
                    Report::Done
                }
                Task::Perform(FileStep::Remove(CodexFile::Auth)) => {
                    auth = None;
                    Report::Done
                }
                Task::Perform(FileStep::Remove(_)) => Report::Done,
            };
            commit.report(report);
        }
        let applied = commit.into_outcome().unwrap().ok().unwrap();
        if undoing {
            assert_eq!(config, Some(b"old".to_vec()));
            assert_eq!(auth, None);
        } else {
            assert_eq!(config, Some(b"new".to_vec()));
            assert_eq!(auth, Some(b"{\"a\":1}".to_vec()));
        }
        commit = Commit::rollback_applied(applied);
    }
}

#[test]
fn a_failure_to_restore_is_told_as_well() {
    let mut commit = Commit::new(files(Some("old")), b"new".to_vec(), b"{}".to_vec(), None);
    loop {
        let report = match commit.task() {
            Task::Finished => break,
            Task::Guard => Report::Done,
            Task::Compare => Report::Found(None, None),
            Task::Perform(_) => Report::Failed(AppError::Internal("disk".into())),
        };
        commit.report(report);
    }
    let message = commit.into_outcome().unwrap().err().unwrap().message();
    assert_eq!(message, "disk；Codex 原配置回滚失败，请手动检查配置文件：disk");
}

#[test]
fn prepared_changes_are_confirmed_once_and_in_time() {
    let mut manager = ConfigManager::default();
    manager.remember(patch("first", 0));
    assert!(manager.apply("first", reads(None)).is_ok());
    assert!(matches!(manager.apply("first", reads(None)), Err(AppError::StaleOperation)));
    manager.remember(patch("old", 0));
    manager.remember(patch("new", PENDING_NANOS + 1));
    assert!(matches!(manager.apply("old", reads(None)), Err(AppError::StaleOperation)));
    assert!(matches!(
        manager.apply("new", reads(Some("model = 1"))),
        Err(AppError::StaleOperation)
    ));
}

#[test]
fn the_oldest_prepared_change_makes_room() {
    let mut manager = ConfigManager::default();
    for index in 0..MAX_PENDING + 1 {
        manager.remember(patch(&format!("id-{index}"), index as u64));
    }
    assert!(matches!(manager.apply("id-0", reads(None)), Err(AppError::StaleOperation)));
    assert!(manager.apply("id-1", reads(None)).is_ok());
}

#[test]
fn the_last_prepared_changes_are_kept() {
    let mut manager = ConfigManager::default();
    let total = MAX_PENDING + 5;
    for index in 0..total {
        manager.remember(patch(&format!("id-{index}"), index as u64));
    }
    for index in 0..total {
        let applied = manager.apply(&format!("id-{index}"), reads(None));
        assert_eq!(applied.is_ok(), index >= total - MAX_PENDING);
    }
}

#[test]
fn the_last_member_of_a_key_is_written() {
    let twice = Json::object()
        .with("b", Json::unsigned(1))
        .with("a", Json::unsigned(2))
        .with("b", Json::Null)
        .with("b", Json::text("last"));
    assert_eq!(twice.render().unwrap(), r#"{"a":2,"b":"last"}"#);
    let mut grown = Json::object().with("a", Json::unsigned(1)).with("c", Json::unsigned(3));
    grown.extend(&twice);
    assert_eq!(grown.render().unwrap(), r#"{"a":2,"b":"last","c":3}"#);
    let schema = Json::object()
        .with("type", Json::text("string"))
        .with("type", Json::text("integer"));
    assert_eq!(schema.schema_accepts(&Json::unsigned(1)), Some(true));
}

#[test]
fn a_change_is_prepared_under_its_identifier() {
    let mut manager = ConfigManager::default();
    let target =
        ActivationTarget { base_url: "https://example.test/v1".into(), proxy_api_key: None };
    let preview = manager
        .preview_custom_with_id(
            "operation".into(),
            reads(Some("model = \"a\"\n")),
            "/codex/config.toml".into(),
            &provider(),
            &target,
            Vec::new(),
            "codex/1",
            0,
        )
        .ok()
        .unwrap();
    assert_eq!(preview.operation_id, "operation");
    assert_eq!(preview.target_path, "/codex/config.toml");
    assert_eq!(
        preview.base_hash,
        "e4d2c48f8cc6ab179a58029368fb3ff75dd2ba95b4387980eb5360c454822265"
    );
}

#[test]
fn models_that_were_added_follow_those_that_are_offered() {
    assert_eq!(candidate_models(&provider()), vec!["b", "a", "c"]);
    let mut chosen = provider();
    chosen.selected_models = Some(vec!["c".into(), "b".into()]);
    assert_eq!(candidate_models(&chosen).len(), 2);
}

#[test]
fn the_home_of_codex_may_be_configured() {
    let given = Some("/given".to_owned());
    let user = Some("/home/me".to_owned());
    assert_eq!(home(" /codex ", given.clone(), user.clone(), '/'), "/codex");
    assert_eq!(home("  ", given, user.clone(), '/'), "/given");
    assert_eq!(home("", None, user, '/'), "/home/me/.codex");
    assert_eq!(standard_home(None, Some("/".into()), '/'), "/.codex");
    assert_eq!(standard_home(None, None, '/'), "./.codex");
    assert_eq!(standard_home(None, Some("C:".into()), '/'), "C:/.codex");
    assert_eq!(standard_home(None, Some("C:".into()), '\\'), "C:.codex");
    assert_eq!(standard_home(None, Some("C:\\".into()), '\\'), "C:\\.codex");
    assert_eq!(standard_home(None, Some("C:\\Users\\me".into()), '\\'), "C:\\Users\\me\\.codex");
    assert_eq!(standard_home(None, Some("C:/Users/me/".into()), '\\'), "C:/Users/me/.codex");
}
