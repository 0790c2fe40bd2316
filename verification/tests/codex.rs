use codex_tools::activation::{
    renewed_credential, OfficialAccountSource, StoredOfficialAccount,
};
use codex_tools::codex_document::{
    apply_custom_fields, clear_custom_provider_fields, effective_provider_model, inspect,
    LEGACY_OPENAI_RELAY_PROVIDER_ID,
};
use codex_tools::codex_files::{
    read_optional, AppliedConfigPatch, CodexFile, CodexFiles, Commit, FileRead, FileReads,
    FileStep, Report, Task, TextRead,
};
use codex_tools::codex_preview::mask_secret;
use codex_tools::config_manager::{
    apply_official_account_patch, classify_login, connections_activate_official_account,
    credential_of_token, prepare_official_account_patch, ConfigManager, ConfigPatchPreview,
    LoginFile,
};
use codex_tools::json::Json;
use codex_tools::models::{
    AppError, CodexAuthCredential, CodexAuthTokens, ProviderApiType, ProviderProfile,
};
use codex_tools::proxy::ActivationTarget;
use codex_tools::quota::ProviderAccountQuota;
use toml_edit::{DocumentMut, Value};

/// The three files of Codex, held in memory.
struct Disk {
    config: Option<Vec<u8>>,
    auth: Option<Vec<u8>>,
    catalog: Option<Vec<u8>>,
    writes: Vec<(CodexFile, Vec<u8>)>,
}

fn read(contents: &Option<Vec<u8>>) -> FileRead {
    match contents {
        Some(bytes) => FileRead::Contents(bytes.clone()),
        None => FileRead::Absent,
    }
}

impl Disk {
    fn empty() -> Disk {
        Disk { config: None, auth: None, catalog: None, writes: Vec::new() }
    }

    fn with(config: &str, auth: &str) -> Disk {
        Disk {
            config: Some(config.as_bytes().to_vec()),
            auth: Some(auth.as_bytes().to_vec()),
            catalog: None,
            writes: Vec::new(),
        }
    }

    fn reads(&self) -> FileReads {
        FileReads {
            config: read(&self.config),
            auth: read(&self.auth),
            catalog: read(&self.catalog),
        }
    }

    fn set(&mut self, file: CodexFile, contents: Option<Vec<u8>>) {
        match file {
            CodexFile::Config => self.config = contents,
            CodexFile::Auth => self.auth = contents,
            CodexFile::Catalog => self.catalog = contents,
        }
    }

    /// Carries a change out. The write with the given number fails.
    fn run(&mut self, mut commit: Commit, failing: Option<usize>) -> Result<AppliedConfigPatch, AppError> {
        let mut count = 0;
        loop {
            let report = match commit.task() {
                Task::Finished => return commit.into_outcome().unwrap(),
                Task::Guard => Report::Done,
                Task::Compare => Report::Found(self.config.clone(), self.auth.clone()),
                Task::Perform(FileStep::Remove(file)) => {
                    self.set(file, None);
                    Report::Done
                }
                Task::Perform(FileStep::Write(file, bytes)) => {
                    count += 1;
                    if failing == Some(count) {
                        Report::Failed(AppError::Internal("simulated config failure".into()))
                    } else {
                        self.writes.push((file, bytes.clone()));
                        self.set(file, Some(bytes));
                        Report::Done
                    }
                }
            };
            commit.report(report);
        }
    }

    fn config_text(&self) -> String {
        String::from_utf8(self.config.clone().unwrap()).unwrap()
    }

    fn document(&self) -> DocumentMut {
        self.config_text().parse().unwrap()
    }

    fn login(&self) -> serde_json::Value {
        serde_json::from_slice(self.auth.as_ref().unwrap()).unwrap()
    }
}

fn provider() -> ProviderProfile {
    ProviderProfile {
        id: "provider".into(),
        name: "Direct Responses".into(),
        base_url: "https://responses.example.test/v1".into(),
        headers: vec![("x-provider".into(), "provider-secret".into())],
        timeout_secs: 30,
        enabled: true,
        active: false,
        model: String::new(),
        available_models: vec!["api-model".into()],
        selected_models: None,
        custom_models: Vec::new(),
        api_type: ProviderApiType::Responses,
        api_key: Some("sk-direct-secret-value".into()),
        has_api_key: false,
        created_at: 0,
        updated_at: 0,
    }
}

fn direct_target(base_url: &str) -> ActivationTarget {
    ActivationTarget { base_url: base_url.into(), proxy_api_key: None }
}

fn catalog_models() -> Vec<Json> {
    vec![Json::parse(r#"{"slug": "api-model"}"#).unwrap()]
}

fn preview(
    manager: &mut ConfigManager,
    disk: &Disk,
    provider: &ProviderProfile,
    target: &ActivationTarget,
) -> Result<ConfigPatchPreview, AppError> {
    manager.preview_custom(
        disk.reads(),
        "/codex/config.toml".into(),
        provider,
        target,
        catalog_models(),
        "codex-tools-test",
        0,
    )
}

fn apply(
    manager: &mut ConfigManager,
    disk: &mut Disk,
    operation_id: &str,
) -> Result<AppliedConfigPatch, AppError> {
    let commit = manager.apply(operation_id, disk.reads())?;
    disk.run(commit, None)
}

fn credential(
    auth_mode: &str,
    tokens: (&str, &str, &str, &str),
    last_refresh: &str,
) -> CodexAuthCredential {
    CodexAuthCredential {
        auth_mode: auth_mode.into(),
        openai_api_key: None,
        tokens: CodexAuthTokens {
            id_token: tokens.0.into(),
            access_token: tokens.1.into(),
            refresh_token: tokens.2.into(),
            account_id: tokens.3.into(),
        },
        last_refresh: last_refresh.into(),
    }
}

fn oauth(last_refresh: &str) -> CodexAuthCredential {
    credential(
        "chatgpt",
        ("id-token", "access-token", "refresh-token", "account-id"),
        last_refresh,
    )
}

fn serialized(credential: &CodexAuthCredential) -> Result<Vec<u8>, String> {
    let key = match &credential.openai_api_key {
        Some(key) => Json::text(key),
        None => Json::Null,
    };
    let document = Json::object()
        .with("auth_mode", Json::text(&credential.auth_mode))
        .with("OPENAI_API_KEY", key)
        .with(
            "tokens",
            Json::object()
                .with("id_token", Json::text(&credential.tokens.id_token))
                .with("access_token", Json::text(&credential.tokens.access_token))
                .with("refresh_token", Json::text(&credential.tokens.refresh_token))
                .with("account_id", Json::text(&credential.tokens.account_id)),
        )
        .with("last_refresh", Json::text(&credential.last_refresh));
    Ok(document.render_pretty().unwrap().into_bytes())
}

fn activate(
    disk: &mut Disk,
    credential: &CodexAuthCredential,
    managed_model: Option<&str>,
) -> Result<AppliedConfigPatch, AppError> {
    let commit = connections_activate_official_account(
        disk.reads(),
        disk.reads(),
        credential,
        serialized(credential),
        None,
        managed_model,
    )?;
    disk.run(commit, None)
}

fn stored_credential(bytes: &[u8]) -> Option<CodexAuthCredential> {
    let login: serde_json::Value = serde_json::from_slice(bytes).ok()?;
    let tokens = login.get("tokens")?;
    Some(credential(
        login.get("auth_mode")?.as_str()?,
        (
            tokens["id_token"].as_str()?,
            tokens["access_token"].as_str()?,
            tokens["refresh_token"].as_str()?,
            tokens["account_id"].as_str()?,
        ),
        login.get("last_refresh")?.as_str()?,
    ))
}

fn read_official_account(disk: &Disk) -> Result<Option<CodexAuthCredential>, AppError> {
    let found = disk.auth.as_ref().and_then(|bytes| stored_credential(bytes));
    match classify_login(&disk.auth, found) {
        LoginFile::Empty => Ok(None),
        LoginFile::Credential(credential) => Ok(Some(credential)),
        LoginFile::Token(token) => Ok(Some(credential_of_token(token, "local".into()))),
        LoginFile::Unreadable(error) => Err(error),
    }
}

#[test]
fn inspection_rejects_oversized_config_files() {
    let inspection = inspect("config.toml".into(), &read_optional(TextRead::TooLong), None);

    assert!(!inspection.valid);
    assert!(inspection.warnings.iter().any(|warning| warning.contains("超过 2 MB")));
}

#[test]
fn custom_config_updates_managed_fields_and_preserves_unknown_toml() {
    let mut document = r#"model = "old-model"
model_provider = "old-root"
user_setting = "keep"
approval_policy = "on-request"

[mcp_servers.private]
command = "server"
env = { model_provider = "mcp-sentinel" }

[model_providers.custom]
name = "old"
wire_api = "responses"
requires_openai_auth = false
base_url = "https://old.example.test"
request_max_retries = 7
experimental_bearer_token = "old-secret"

[model_providers.other]
name = "Other"
base_url = "https://other.example.test"
wire_api = "responses"

[profiles.work]
model_provider = "old-profile"
settings = { model_provider = "old-inline", rules = [{ model_provider = "old-array" }] }
"#
    .parse::<DocumentMut>()
    .unwrap();
    assert!(apply_custom_fields(
        &mut document,
        "Direct Responses",
        "https://responses.example.test/v1",
        &vec![("x-tenant".into(), "tenant-1".into())],
        "api-model",
    )
    .is_ok());
    let text = document.to_string();
    let parsed: DocumentMut = text.parse().unwrap();
    let custom = parsed["model_providers"]["custom"].as_table().unwrap();
    assert_eq!(parsed["model"].as_str(), Some("api-model"));
    assert_eq!(parsed["user_setting"].as_str(), Some("keep"));
    assert_eq!(parsed["model_provider"].as_str(), Some("custom"));
    assert_eq!(
        parsed["model_catalog_json"].as_str(),
        Some("model-catalogs/codex-tools.json")
    );
    assert_eq!(
        parsed["profiles"]["work"]["model_provider"].as_str(),
        Some("custom")
    );
    let settings = parsed["profiles"]["work"]["settings"].as_inline_table().unwrap();
    assert_eq!(
        settings.get("model_provider").and_then(Value::as_str),
        Some("old-inline")
    );
    let rule = settings
        .get("rules")
        .and_then(Value::as_array)
        .and_then(|rules| rules.get(0))
        .and_then(Value::as_inline_table)
        .unwrap();
    assert_eq!(
        rule.get("model_provider").and_then(Value::as_str),
        Some("old-array")
    );
    assert_eq!(parsed["approval_policy"].as_str(), Some("on-request"));
    assert_eq!(
        parsed["mcp_servers"]["private"]["command"].as_str(),
        Some("server")
    );
    assert_eq!(
        parsed["mcp_servers"]["private"]["env"]
            .as_inline_table()
            .and_then(|env| env.get("model_provider"))
            .and_then(Value::as_str),
        Some("mcp-sentinel")
    );
    assert_eq!(
        parsed["model_providers"]["other"]["name"].as_str(),
        Some("Other")
    );
    assert_eq!(custom["name"].as_str(), Some("Direct Responses"));
    assert_eq!(
        custom["base_url"].as_str(),
        Some("https://responses.example.test/v1")
    );
    assert_eq!(custom["wire_api"].as_str(), Some("responses"));
    assert_eq!(custom["requires_openai_auth"].as_bool(), Some(true));
    assert!(custom.get("experimental_bearer_token").is_none());
    assert!(custom.get("request_max_retries").is_none());
    assert_eq!(
        custom["http_headers"]["x-tenant"].as_str(),
        Some("tenant-1")
    );
}

#[test]
fn preview_redacts_direct_credentials_and_rejects_concurrent_change() {
    let mut manager = ConfigManager::default();
    let mut disk = Disk::empty();
    disk.auth = Some(
        br#"{"auth_mode":"chatgpt","tokens":{"access_token":"secret"},"last_refresh":"yesterday","user_setting":{"keep":true}}"#
            .to_vec(),
    );
    let target = direct_target(&provider().base_url);
    let first = preview(&mut manager, &disk, &provider(), &target).ok().unwrap();
    assert!(!first.rendered.contains("sk-direct-secret-value"));
    assert!(!first.rendered.contains("provider-secret"));
    assert!(!first.rendered.contains("account-secret"));
    assert_eq!(first.api_key_masked, "sk-d…alue");
    assert!(apply(&mut manager, &mut disk, &first.operation_id).is_ok());
    let auth = disk.login();
    assert_eq!(auth.as_object().unwrap().len(), 1);
    assert_eq!(auth["OPENAI_API_KEY"], "sk-direct-secret-value");
    assert!(auth.get("user_setting").is_none());
    assert!(auth.get("auth_mode").is_none());
    assert!(auth.get("tokens").is_none());
    assert!(auth.get("last_refresh").is_none());
    let written = disk.config_text();
    assert!(written.contains("https://responses.example.test/v1"));
    assert!(!written.contains("sk-direct-secret-value"));
    assert!(written.contains("requires_openai_auth = true"));
    let second = preview(&mut manager, &disk, &provider(), &target).ok().unwrap();
    disk.config = Some(b"model = \"external\"\n".to_vec());
    assert!(matches!(
        apply(&mut manager, &mut disk, &second.operation_id),
        Err(AppError::StaleOperation)
    ));
}

#[test]
fn unchanged_codex_files_skip_the_commit_sequence() {
    let config = "model_provider = \"custom\"\n";
    let auth = "{\"OPENAI_API_KEY\":\"secret\"}\n";
    let mut disk = Disk::with(config, auth);
    let original = CodexFiles {
        config: disk.config.clone(),
        auth: disk.auth.clone(),
        catalog: None,
    };
    let commit =
        Commit::new(original, config.as_bytes().to_vec(), auth.as_bytes().to_vec(), None);

    assert!(disk.run(commit, None).is_ok());

    assert_eq!(disk.writes.len(), 0);
}

#[test]
fn preview_never_returns_unmanaged_toml_secrets() {
    let mut disk = Disk::empty();
    disk.config = Some(
        br#"model = "official-model"
[mcp_servers.private]
command = "server"
env = { PRIVATE_TOKEN = "must-not-enter-webview" }

[model_providers.custom]
name = "old-custom"
wire_api = "responses"
requires_openai_auth = true
base_url = "https://old.example.test"
private_setting = "must-also-not-enter-webview"
"#
        .to_vec(),
    );

    let mut manager = ConfigManager::default();
    let target = direct_target(&provider().base_url);
    let shown = preview(&mut manager, &disk, &provider(), &target).ok().unwrap();

    assert!(!shown.rendered.contains("must-not-enter-webview"));
    assert!(!shown.rendered.contains("must-also-not-enter-webview"));
    assert!(!shown.rendered.contains("mcp_servers"));
    assert!(shown.rendered.contains("[model_providers.custom]"));
    assert!(apply(&mut manager, &mut disk, &shown.operation_id).is_ok());
    let written = disk.config_text();
    assert!(written.contains("must-not-enter-webview"));
    assert!(!written.contains("must-also-not-enter-webview"));
    assert!(written.contains("mcp_servers"));
    assert!(written.contains("model_provider = \"custom\""));
}

#[test]
fn custom_activation_rejects_concurrent_auth_change() {
    let mut disk = Disk::with("", "{\"before\":true}");
    let mut manager = ConfigManager::default();
    let target = direct_target(&provider().base_url);
    let shown = preview(&mut manager, &disk, &provider(), &target).ok().unwrap();
    disk.auth = Some(b"{\"concurrent\":true}".to_vec());

    assert!(matches!(
        apply(&mut manager, &mut disk, &shown.operation_id),
        Err(AppError::StaleOperation)
    ));
    assert_eq!(disk.auth.unwrap(), b"{\"concurrent\":true}");
    assert!(disk.config.unwrap().is_empty());
}

#[test]
fn failed_apply_restores_config_auth_and_catalog_exactly() {
    let original_config = "model = \"original-model\"\ncustom_setting = true\n";
    let original_auth = r#"{"auth_mode":"chatgpt","token":"original-secret"}"#;
    let mut disk = Disk::with(original_config, original_auth);

    let mut manager = ConfigManager::default();
    let target = direct_target(&provider().base_url);
    let shown = preview(&mut manager, &disk, &provider(), &target).ok().unwrap();
    let commit = manager.apply(&shown.operation_id, disk.reads()).ok().unwrap();
    let error = disk
        .run(commit, Some(2))
        .err()
        .expect("injected failure must abort the apply transaction");

    assert!(error.message().contains("simulated config failure"));
    assert_eq!(disk.config.unwrap(), original_config.as_bytes());
    assert_eq!(disk.auth.unwrap(), original_auth.as_bytes());
    assert!(
        disk.catalog.is_none(),
        "a catalog created before the injected failure must be removed"
    );
    assert_eq!(disk.writes[0].0, CodexFile::Catalog);
}

#[test]
fn custom_activation_rejects_invalid_config_and_replaces_invalid_auth() {
    let mut disk = Disk::empty();
    disk.config = Some(b"model = [\n".to_vec());
    let mut manager = ConfigManager::default();
    let target = direct_target(&provider().base_url);

    assert!(preview(&mut manager, &disk, &provider(), &target).is_err());
    assert_eq!(disk.config.as_ref().unwrap(), b"model = [\n");

    disk.config = Some(b"model = \"valid\"\n".to_vec());
    disk.auth = Some(b"{ invalid json".to_vec());
    let shown = preview(&mut manager, &disk, &provider(), &target).ok().unwrap();
    assert!(apply(&mut manager, &mut disk, &shown.operation_id).is_ok());
    let auth = disk.login();
    assert_eq!(auth.as_object().unwrap().len(), 1);
    assert_eq!(auth["OPENAI_API_KEY"], "sk-direct-secret-value");
    assert_eq!(disk.document()["model_provider"].as_str(), Some("custom"));
}

#[test]
fn preview_custom_uses_custom_model_when_no_available_models() {
    let mut disk = Disk::empty();
    let mut provider = provider();
    provider.available_models = Vec::new();
    provider.custom_models = vec!["my-custom-model".into()];
    let mut manager = ConfigManager::default();

    let target = direct_target(&provider.base_url);
    let shown = preview(&mut manager, &disk, &provider, &target).ok().unwrap();
    assert!(!shown.rendered.is_empty());
    assert!(apply(&mut manager, &mut disk, &shown.operation_id).is_ok());

    assert_eq!(disk.document()["model"].as_str(), Some("my-custom-model"));
}

#[test]
fn chat_proxy_activation_writes_runtime_key_and_proxy_url() {
    let mut disk = Disk::empty();
    let mut provider = provider();
    provider.id = "chat".into();
    provider.name = "DeepSeek".into();
    provider.base_url = "https://api.deepseek.com/v1".into();
    provider.headers = Vec::new();
    provider.available_models = vec!["deepseek-chat".into()];
    provider.api_type = ProviderApiType::Chat;
    provider.api_key = Some("sk-real-provider-key".into());
    let target = ActivationTarget {
        base_url: "http://127.0.0.1:15721/v1".into(),
        proxy_api_key: Some("runtime-key".into()),
    };
    let mut manager = ConfigManager::default();
    let shown = preview(&mut manager, &disk, &provider, &target).ok().unwrap();
    assert!(!shown.rendered.contains("sk-real-provider-key"));
    assert!(apply(&mut manager, &mut disk, &shown.operation_id).is_ok());
    let config = disk.config_text();
    assert!(config.contains(&target.base_url));
    assert!(config.contains("wire_api = \"responses\""));
    assert_eq!(disk.login()["OPENAI_API_KEY"], "runtime-key");

    provider.api_type = ProviderApiType::Responses;
    let direct =
        preview(&mut manager, &disk, &provider, &direct_target("https://api.deepseek.com/v1"))
            .ok()
            .unwrap();
    assert!(apply(&mut manager, &mut disk, &direct.operation_id).is_ok());
    assert_eq!(disk.login()["OPENAI_API_KEY"], "sk-real-provider-key");
}

#[test]
fn official_account_removes_custom_fields_and_rewrites_auth() {
    let mut disk = Disk::with(
        r#"model = "custom-model"
model_provider = "custom"

[model_providers.custom]
name = "Custom"
wire_api = "responses"
requires_openai_auth = true
base_url = "https://custom.example.test/v1"

[model_providers.other]
name = "Other"
wire_api = "responses"
base_url = "https://other.example.test/v1"

[mcp_servers.remove]
command = "server"

[profiles.work]
model_provider = "custom"
settings = { model_provider = "custom" }
"#,
        r#"{"OPENAI_API_KEY":"old-api-key","user_setting":{"keep":true}}"#,
    );

    assert!(activate(&mut disk, &oauth("2026-07-14T00:00:00Z"), None).is_ok());

    let config = disk.config_text();
    let parsed = disk.document();
    assert_eq!(parsed["model"].as_str(), Some("custom-model"));
    assert!(parsed.get("model_provider").is_none());
    assert!(parsed["profiles"]["work"].get("model_provider").is_none());
    assert!(parsed["profiles"]["work"]["settings"]
        .as_inline_table()
        .and_then(|settings| settings.get("model_provider"))
        .is_some_and(|provider| provider.as_str() == Some("custom")));
    assert!(parsed["model_providers"].get("custom").is_none());
    assert_eq!(
        parsed["model_providers"]["other"]["name"].as_str(),
        Some("Other")
    );
    assert!(config.contains("[mcp_servers.remove]"));
    assert!(config.contains("command = \"server\""));
    let written = disk.login();
    assert_eq!(written.as_object().unwrap().len(), 4);
    assert_eq!(written["auth_mode"], "chatgpt");
    assert!(written["OPENAI_API_KEY"].is_null());
    assert!(written.get("user_setting").is_none());
    assert_eq!(
        read_official_account(&disk).ok().unwrap().unwrap().tokens.account_id,
        "account-id"
    );
}

#[test]
fn official_cleanup_preserves_other_inline_providers() {
    let mut document = r#"model_provider = "custom"
model_providers = { custom = { base_url = "https://custom.example.test/v1" }, other = { base_url = "https://other.example.test/v1" } }
"#
    .parse::<DocumentMut>()
    .unwrap();

    assert!(clear_custom_provider_fields(&mut document, None).is_ok());

    let providers = document["model_providers"].as_inline_table().unwrap();
    assert!(providers.get("custom").is_none());
    assert_eq!(
        providers
            .get("other")
            .and_then(Value::as_inline_table)
            .and_then(|other| other.get("base_url"))
            .and_then(Value::as_str),
        Some("https://other.example.test/v1")
    );
}

#[test]
fn official_cleanup_preserves_model_and_unknown_settings() {
    let mut document = r#"model = "custom-model"
model_provider = "custom"
custom_note = "keep"

[model_providers.custom]
base_url = "https://custom.example.test/v1"
"#
    .parse::<DocumentMut>()
    .unwrap();

    assert!(clear_custom_provider_fields(&mut document, None).is_ok());

    assert_eq!(document["model"].as_str(), Some("custom-model"));
    assert_eq!(document["custom_note"].as_str(), Some("keep"));
    assert!(document.get("model_provider").is_none());
    assert!(document.get("model_providers").is_none());
}

#[test]
fn official_cleanup_rejects_invalid_provider_container() {
    let mut document = r#"model_provider = "custom"
model_providers = "invalid"
"#
    .parse::<DocumentMut>()
    .unwrap();

    let error = clear_custom_provider_fields(&mut document, None).err().unwrap();

    assert!(error.message().contains("model_providers"));
    assert_eq!(document["model_providers"].as_str(), Some("invalid"));
}

#[test]
fn custom_activation_accepts_inline_model_providers() {
    let mut document =
        r#"model_providers = { other = { base_url = "https://other.example.test/v1" } }
"#
        .parse::<DocumentMut>()
        .unwrap();

    assert!(apply_custom_fields(
        &mut document,
        "Custom",
        "https://custom.example.test/v1",
        &Vec::new(),
        "api-model",
    )
    .is_ok());

    assert_eq!(
        document["model_providers"]["other"]["base_url"].as_str(),
        Some("https://other.example.test/v1")
    );
    assert_eq!(
        document["model_providers"]["custom"]["base_url"].as_str(),
        Some("https://custom.example.test/v1")
    );
    assert_eq!(document["model"].as_str(), Some("api-model"));
}

#[test]
fn effective_model_preserves_current_api_model_or_uses_first_fallback() {
    let current = r#"model = "api-b""#.parse::<DocumentMut>().unwrap();
    let models = vec!["api-a".into(), "api-b".into()];
    assert_eq!(effective_provider_model(&current, &models).ok().unwrap(), "api-b");

    let stale = r#"model = "other-provider-model""#.parse::<DocumentMut>().unwrap();
    assert_eq!(effective_provider_model(&stale, &models).ok().unwrap(), "api-a");
}

#[test]
fn effective_model_respects_selected_subset() {
    let current = r#"model = "api-b""#.parse::<DocumentMut>().unwrap();
    let selected = vec!["api-a".into(), "api-c".into()];
    assert_eq!(effective_provider_model(&current, &selected).ok().unwrap(), "api-a");

    let current_in_subset = r#"model = "api-c""#.parse::<DocumentMut>().unwrap();
    assert_eq!(
        effective_provider_model(&current_in_subset, &selected).ok().unwrap(),
        "api-c"
    );
}

#[test]
fn effective_model_rejects_an_empty_api_catalog() {
    let document = DocumentMut::new();
    let error = effective_provider_model(&document, &Vec::new()).err().unwrap();
    assert!(error.message().contains("没有可用模型"));
}

#[test]
fn official_switch_removes_only_the_managed_model() {
    let mut document = r#"model = "gpt-5.6-luna"
model_provider = "custom"

[model_providers.custom]
base_url = "https://custom.example.test/v1"
"#
    .parse::<DocumentMut>()
    .unwrap();

    assert!(clear_custom_provider_fields(&mut document, Some("gpt-5.6-luna")).is_ok());
    assert!(document.get("model").is_none());
    assert!(document.get("model_provider").is_none());

    let mut manual = r#"model = "my-personal-model"
model_provider = "custom"

[model_providers.custom]
base_url = "https://custom.example.test/v1"
"#
    .parse::<DocumentMut>()
    .unwrap();
    assert!(clear_custom_provider_fields(&mut manual, Some("gpt-5.6-luna")).is_ok());
    assert_eq!(manual["model"].as_str(), Some("my-personal-model"));
}

#[test]
fn official_activation_clears_the_managed_model_from_disk() {
    let mut disk = Disk::with(
        r#"model = "gpt-5.6-luna"
model_provider = "custom"

[model_providers.custom]
base_url = "https://custom.example.test/v1"
"#,
        "{}",
    );

    assert!(activate(&mut disk, &oauth("2026-07-14T00:00:00Z"), Some("gpt-5.6-luna")).is_ok());

    let parsed = disk.document();
    assert!(parsed.get("model").is_none());
    assert!(parsed.get("model_provider").is_none());
}

#[test]
fn official_activation_rejects_files_changed_after_snapshot() {
    let mut disk = Disk::empty();
    let credential = oauth("2026-08-18T00:00:00Z");
    let patch = prepare_official_account_patch(
        disk.reads(),
        &credential,
        serialized(&credential),
        None,
        None,
    )
    .ok()
    .unwrap();
    let external = "model = \"external-change\"\n";
    disk.config = Some(external.as_bytes().to_vec());

    let error = apply_official_account_patch(patch, disk.reads()).err().unwrap();

    assert!(matches!(error, AppError::StaleOperation));
    assert_eq!(disk.config_text(), external);
}

#[test]
fn credential_commit_neutralizes_auth_before_config_and_final_auth() {
    let mut disk = Disk::empty();
    let original = CodexFiles { config: None, auth: None, catalog: None };
    let commit = Commit::new(
        original,
        b"model_provider = \"custom\"\n".to_vec(),
        br#"{"OPENAI_API_KEY":"secret"}"#.to_vec(),
        None,
    );

    assert!(disk.run(commit, None).is_ok());

    let writes = disk.writes;
    assert_eq!(writes[0], (CodexFile::Auth, b"{}\n".to_vec()));
    assert_eq!(writes[1].0, CodexFile::Config);
    assert_eq!(writes[2].0, CodexFile::Auth);
    assert!(writes[2].1.windows(6).any(|window| window == b"secret"));
}

#[test]
fn failed_config_commit_leaves_auth_neutral() {
    let mut auth = b"official-token".to_vec();
    let original = CodexFiles { config: None, auth: Some(auth.clone()), catalog: None };
    let mut commit = Commit::new(
        original,
        b"model_provider = \"custom\"\n".to_vec(),
        br#"{"OPENAI_API_KEY":"secret"}"#.to_vec(),
        None,
    );
    let mut failed = false;
    while !failed {
        let report = match commit.task() {
            Task::Perform(FileStep::Write(CodexFile::Config, _)) => {
                failed = true;
                Report::Failed(AppError::Internal("simulated config failure".into()))
            }
            Task::Perform(FileStep::Write(CodexFile::Auth, bytes)) => {
                auth = bytes;
                Report::Done
            }
            Task::Compare => Report::Found(None, Some(auth.clone())),
            Task::Guard => Report::Done,
            _ => panic!("nothing else is due"),
        };
        commit.report(report);
    }

    assert!(commit.error.is_some());
    assert_eq!(auth, b"{}\n");
}

#[test]
fn personal_access_token_account_uses_codex_supported_auth_shape() {
    let mut disk = Disk::empty();
    let credential = credential(
        "chatgpt",
        ("", "at-proxy-secret", "", "proxy-local-id"),
        "2026-07-31T00:00:00Z",
    );

    assert!(activate(&mut disk, &credential, None).is_ok());

    let auth = disk.login();
    assert_eq!(auth["OPENAI_API_KEY"], serde_json::Value::Null);
    assert_eq!(auth["personal_access_token"], "at-proxy-secret");
    assert!(auth.get("tokens").is_none());
    assert_eq!(
        read_official_account(&disk).ok().unwrap().unwrap().tokens.access_token,
        "at-proxy-secret"
    );
}

#[test]
fn access_token_only_oauth_account_keeps_tokens_auth_shape() {
    let mut disk = Disk::empty();
    let credential = credential(
        "chatgpt",
        ("", "header.payload.signature", "", "proxy-local-id"),
        "2026-07-31T00:00:00Z",
    );

    assert!(activate(&mut disk, &credential, None).is_ok());

    let auth = disk.login();
    assert_eq!(auth["OPENAI_API_KEY"], serde_json::Value::Null);
    assert_eq!(auth["tokens"]["access_token"], "header.payload.signature");
    assert_eq!(auth["tokens"]["refresh_token"], "");
    assert_eq!(auth["tokens"]["account_id"], "proxy-local-id");
    assert!(auth.get("personal_access_token").is_none());
}

#[test]
fn explicit_personal_access_token_round_trips_without_prefix() {
    let mut disk = Disk::empty();
    let credential = credential(
        "personal_access_token",
        ("", "pat-secret", "", "proxy-local-id"),
        "2026-07-31T00:00:00Z",
    );

    assert!(activate(&mut disk, &credential, None).is_ok());
    let restored = read_official_account(&disk).ok().unwrap().unwrap();

    assert_eq!(restored.auth_mode, "personal_access_token");
    assert_eq!(restored.tokens.access_token, "pat-secret");
}

#[test]
fn official_activation_preserves_a_user_authored_openai_base_url() {
    let mut disk = Disk::empty();
    disk.config = Some(b"openai_base_url = \"https://user.example.test/v1\"\n".to_vec());
    assert!(activate(&mut disk, &oauth("2026-07-31T00:00:00Z"), None).is_ok());
    assert!(disk.config_text().contains("https://user.example.test/v1"));
}

#[test]
fn official_activation_removes_legacy_relay_and_preserves_other_providers() {
    let mut disk = Disk::empty();
    disk.config = Some(
        br#"model_provider = "codex_tools_openai_relay"
[model_providers.other]
name = "Other"
base_url = "https://other.example.test/v1"
[model_providers.codex_tools_openai_relay]
name = "OpenAI"
base_url = "http://127.0.0.1:43123/codex-tools-installation-id/stale"
"#
        .to_vec(),
    );
    assert!(activate(&mut disk, &oauth("2026-07-31T00:00:00Z"), None).is_ok());
    let config = disk.config_text();
    assert!(config.contains("[model_providers.other]"));
    assert!(!config.contains(LEGACY_OPENAI_RELAY_PROVIDER_ID));
}

#[test]
fn legacy_relay_cleanup_accepts_unrelated_inline_provider_tables() {
    let mut disk = Disk::empty();
    disk.config = Some(
        "model_provider = \"codex_tools_openai_relay\"\nmodel_providers = { other = { name = \"Other\", base_url = \"https://other.example.test/v1\" }, codex_tools_openai_relay = { name = \"OpenAI\", base_url = \"http://127.0.0.1:1/stale\" } }\n"
            .into(),
    );
    assert!(activate(&mut disk, &oauth("2026-07-31T00:00:00Z"), None).is_ok());
    let config = disk.document();
    let providers = config["model_providers"].as_table().unwrap();
    assert!(providers.get("other").is_some());
    assert!(providers.get(LEGACY_OPENAI_RELAY_PROVIDER_ID).is_none());
}

#[test]
fn short_secrets_are_fully_masked() {
    assert_eq!(mask_secret("abcde"), "*****");
    assert_eq!(mask_secret("12345678"), "********");
    assert_eq!(mask_secret("123456789"), "1234…6789");
}

fn same_credential(one: &CodexAuthCredential, other: &CodexAuthCredential) -> bool {
    one.auth_mode == other.auth_mode
        && one.openai_api_key == other.openai_api_key
        && one.tokens.id_token == other.tokens.id_token
        && one.tokens.access_token == other.tokens.access_token
        && one.tokens.refresh_token == other.tokens.refresh_token
        && one.tokens.account_id == other.tokens.account_id
        && one.last_refresh == other.last_refresh
}

fn workspace_credential() -> CodexAuthCredential {
    credential(
        "chatgpt",
        ("id-secret", "access-secret", "refresh-secret", "workspace"),
        "2026-07-15T00:00:00Z",
    )
}

#[test]
fn official_sync_repairs_drifted_custom_configuration() {
    let credential = workspace_credential();
    let mut disk = Disk::with(
        "model_provider = \"custom\"\n[model_providers.custom]\nwire_api = \"responses\"\nbase_url = \"https://wrong.example.test/v1\"\n",
        r#"{"OPENAI_API_KEY":"wrong-secret"}"#,
    );

    assert!(activate(&mut disk, &credential, None).is_ok());

    let document = disk.document();
    assert!(document.get("model_provider").is_none());
    assert!(document
        .get("model_providers")
        .and_then(toml_edit::Item::as_table)
        .is_none_or(|providers| providers.get("custom").is_none()));
    let repaired = stored_credential(disk.auth.as_ref().unwrap()).unwrap();
    assert!(disk.login()["OPENAI_API_KEY"].is_null());
    assert!(same_credential(&repaired, &credential));
}

#[test]
fn official_sync_removes_a_stale_relay_from_the_deleted_feature() {
    let credential = workspace_credential();
    let login = String::from_utf8(serialized(&credential).unwrap()).unwrap();
    let mut disk = Disk::with(
        r#"model_provider = "codex_tools_openai_relay"
[model_providers.codex_tools_openai_relay]
name = "OpenAI"
wire_api = "responses"
requires_openai_auth = true
base_url = "http://127.0.0.1:1/codex-tools-installation-id/stale"
"#,
        &login,
    );

    assert!(activate(&mut disk, &credential, None).is_ok());

    let document = disk.document();
    assert!(document.get("model_provider").is_none());
    assert!(document
        .get("model_providers")
        .and_then(toml_edit::Item::as_table)
        .is_none_or(|providers| providers.get(LEGACY_OPENAI_RELAY_PROVIDER_ID).is_none()));
}

#[test]
fn proxy_personal_token_syncs_external_credential_into_store() {
    let account_id = "local-identity";
    let saved = StoredOfficialAccount {
        id: "cookie".into(),
        name: "Cookie".into(),
        remark: String::new(),
        account_id: account_id.into(),
        email: String::new(),
        credential: credential(
            "chatgpt",
            ("", "stale-access", "", account_id),
            "2026-07-31T00:00:00Z",
        ),
        source: OfficialAccountSource::ProxyImport,
        expires_at: None,
        quota: ProviderAccountQuota::default(),
        created_at: 0,
        updated_at: 0,
    };
    let mut disk = Disk::with("", r#"{"personal_access_token":"at-proxy-secret"}"#);
    let token = match classify_login(&disk.auth, None) {
        LoginFile::Token(token) => token,
        _ => panic!("the file holds a token"),
    };
    let found = credential_of_token(token, account_id.into());

    let synced = renewed_credential(found, &saved, true, "2026-08-01T00:00:00Z").unwrap();
    assert_eq!(synced.tokens.access_token, "at-proxy-secret");
    assert_eq!(synced.tokens.account_id, account_id);
    assert_eq!(synced.last_refresh, saved.credential.last_refresh);

    assert!(activate(&mut disk, &synced, None).is_ok());
    assert_eq!(disk.login()["personal_access_token"], "at-proxy-secret");
}
