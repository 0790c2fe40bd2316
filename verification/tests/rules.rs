use codex_tools::accounts::{
    check_room, detected_formats, identifier_for_import, name_for_import,
    MAX_SAVED_OPENAI_ACCOUNTS,
};
use codex_tools::activation::{
    account_to_activate, activation_for_official, activation_for_provider, activation_warning,
    credential_is_strictly_newer, current_activation, managed_model_to_remove, may_write_now,
    repair_incomplete_message, ActiveKind, ActiveState, InUse, OfficialAccountSource,
    RepairResult, StoredOfficialAccount, UsageSourceKind,
};
use codex_tools::codex_document::ConfigInspection;
use codex_tools::models::{
    is_personal_access_token_credential, AppError, CodexAuthCredential, CodexAuthTokens,
    ProviderApiType, ProviderProfile,
};
use codex_tools::providers::{
    describe_model, list_model_names, needs_model_refresh, require_api_key, require_enabled,
    tell_test, ModelDetail, ModelMeta,
};
use codex_tools::quota::{
    apply_failed_quota_snapshot, check_credit, clears_estimates, credit_is_usable,
    end_estimation, estimate_window_ids, refresh_error, snapshot_moment, status_of_error,
    validate_idempotency_key, windows_to_estimate, EstimationStep, ProviderAccountQuota,
    QuotaData, QuotaEstimate, QuotaEstimateWindowResult, QuotaStatus, QuotaWindow,
    RefreshTrouble, ResetCredit, ResetCreditConsumeOutcome,
};
use codex_tools::sessions::{read_session_request, MAX_SESSION_QUERY_CHARS};
use codex_tools::support::{
    build_support_diagnostics, file_diagnostics, redact_home_path, redact_home_text,
    reported_files, usage_database_diagnostics, Connections, KnownPath, SupportPaths,
    UsageDatabase,
};
use codex_tools::usage::{
    add_partial_warning, catalog_view, check_pricing_source, check_pricing_url, pricing_text, read_pricing_answer,
    take_piece, OfficialPricingCatalog, PricingStep, MAX_DOCUMENT_BYTES,
};

fn provider() -> ProviderProfile {
    ProviderProfile {
        id: "p".into(),
        name: "Provider".into(),
        base_url: "https://example.test/v1".into(),
        headers: Vec::new(),
        timeout_secs: 30,
        enabled: true,
        active: false,
        model: String::new(),
        available_models: Vec::new(),
        selected_models: None,
        custom_models: Vec::new(),
        api_type: ProviderApiType::Responses,
        api_key: Some("secret".into()),
        has_api_key: false,
        created_at: 0,
        updated_at: 0,
    }
}

fn credential(last_refresh: &str) -> CodexAuthCredential {
    CodexAuthCredential {
        auth_mode: "chatgpt".into(),
        openai_api_key: None,
        tokens: CodexAuthTokens {
            id_token: "id".into(),
            access_token: "access".into(),
            refresh_token: "refresh".into(),
            account_id: "account".into(),
        },
        last_refresh: last_refresh.into(),
    }
}

fn account(id: &str) -> StoredOfficialAccount {
    StoredOfficialAccount {
        id: id.into(),
        name: id.into(),
        remark: String::new(),
        account_id: "account".into(),
        email: String::new(),
        credential: credential("2026-01-01T00:00:00Z"),
        source: OfficialAccountSource::OpenAiOauth,
        expires_at: None,
        quota: ProviderAccountQuota::default(),
        created_at: 0,
        updated_at: 0,
    }
}

#[test]
fn one_identifier_is_for_one_account() {
    assert_eq!(identifier_for_import(Some(" id "), 1).ok().unwrap(), Some("id".to_string()));
    assert_eq!(identifier_for_import(Some("  "), 3).ok().unwrap(), None);
    assert_eq!(identifier_for_import(None, 3).ok().unwrap(), None);
    let error = identifier_for_import(Some("id"), 2).err().unwrap();
    assert!(matches!(error, AppError::InvalidConfig(_)));
}

#[test]
fn accounts_are_brought_in_while_there_is_room() {
    assert!(check_room(MAX_SAVED_OPENAI_ACCOUNTS - 1, 1, true).is_ok());
    assert!(check_room(MAX_SAVED_OPENAI_ACCOUNTS, 1, true).is_err());
    assert!(check_room(MAX_SAVED_OPENAI_ACCOUNTS, 1, false).is_ok());
    assert!(check_room(usize::MAX, usize::MAX, true).is_err());
}

#[test]
fn every_form_is_told_once() {
    let labels = vec!["cookie".to_string(), "json".to_string(), "cookie".to_string()];
    assert_eq!(detected_formats(&labels), vec!["cookie", "json"]);
}

#[test]
fn several_accounts_get_numbered_names() {
    assert_eq!(name_for_import(Some("工作"), 0, 1).as_deref(), Some("工作"));
    assert_eq!(name_for_import(Some("工作"), 1, 3).as_deref(), Some("工作 #2"));
    assert_eq!(name_for_import(None, 0, 1), None);
}

#[test]
fn sessions_are_asked_for_within_bounds() {
    let request = read_session_request(None, None, None, None).ok().unwrap();
    assert_eq!((request.page, request.page_size, request.archived), (1, 25, false));
    assert_eq!(request.query, "");
    let request =
        read_session_request(Some("找"), Some(0), Some(1000), Some("archived")).ok().unwrap();
    assert_eq!((request.page, request.page_size, request.archived), (1, 100, true));
    let longest = "字".repeat(MAX_SESSION_QUERY_CHARS);
    assert!(read_session_request(Some(&longest), None, Some(0), Some("active")).is_ok());
    let too_long = "字".repeat(MAX_SESSION_QUERY_CHARS + 1);
    assert!(read_session_request(Some(&too_long), None, None, None).is_err());
    assert!(read_session_request(None, None, None, Some("deleted")).is_err());
}

#[test]
fn prices_are_read_from_where_they_are_published() {
    assert!(check_pricing_source(Some("developers.openai.com"), "https").is_ok());
    assert!(check_pricing_source(Some("developers.openai.com"), "http").is_err());
    assert!(check_pricing_source(Some("openai.example.test"), "https").is_err());
    assert!(check_pricing_source(None, "https").is_err());
    assert!(check_pricing_url("https://developers.openai.com/api/docs/pricing.md").is_ok());
    assert!(check_pricing_url("HTTPS://Developers.OpenAI.com").is_ok());
    assert_eq!(
        check_pricing_url("https://developers.openai.com.example.test/").unwrap_err().message(),
        "官方价格地址域名校验失败。"
    );
    assert_eq!(
        check_pricing_url("http://developers.openai.com/").unwrap_err().message(),
        "官方价格地址域名校验失败。"
    );
    assert_eq!(
        check_pricing_url("data:text/plain,developers.openai.com").unwrap_err().message(),
        "官方价格地址域名校验失败。"
    );
    assert_eq!(
        check_pricing_url("developers.openai.com").unwrap_err().message(),
        "官方价格地址无效：relative URL without a base"
    );
    assert!(matches!(read_pricing_answer(304, "304 Not Modified", None), PricingStep::Unchanged));
    assert!(matches!(read_pricing_answer(200, "200 OK", Some(10)), PricingStep::Read));
    match read_pricing_answer(500, "500 Internal Server Error", None) {
        PricingStep::GiveUp(error) => assert!(error.message().contains("500 Internal")),
        _ => panic!("an error was answered"),
    }
    let too_long = Some(MAX_DOCUMENT_BYTES as u64 + 1);
    assert!(matches!(read_pricing_answer(200, "200 OK", too_long), PricingStep::GiveUp(_)));
}

#[test]
fn a_list_of_prices_stays_within_bounds() {
    let mut document = Vec::new();
    assert!(take_piece(&mut document, &vec![b'a'; MAX_DOCUMENT_BYTES]).is_ok());
    assert!(take_piece(&mut document, &Vec::new()).is_ok());
    assert!(take_piece(&mut document, &vec![b'b']).is_err());
    assert_eq!(document.len(), MAX_DOCUMENT_BYTES);
    assert_eq!(pricing_text(&"价格".as_bytes().to_vec()).ok().unwrap(), "价格");
    assert!(pricing_text(&vec![0xff]).is_err());
}

#[test]
fn known_prices_are_shown_as_they_are() {
    let waiting = catalog_view(None, "https://developers.openai.com/pricing");
    assert_eq!(waiting.status, "waiting");
    assert_eq!(waiting.source_url, "https://developers.openai.com/pricing");
    let known = catalog_view(
        Some(OfficialPricingCatalog {
            source_url: "https://developers.openai.com/old".into(),
            version: "1".into(),
            content_sha256: "00".into(),
            fetched_at_ms: 7,
            etag: None,
            last_modified: None,
            models: Vec::new(),
        }),
        "https://developers.openai.com/pricing",
    );
    assert_eq!(known.status, "cached");
    assert_eq!(known.source_url, "https://developers.openai.com/old");
    assert_eq!(known.fetched_at_ms, Some(7));
}

#[test]
fn unfinished_lines_are_told_of() {
    let mut warnings = Vec::new();
    add_partial_warning(&mut warnings, 0);
    assert!(warnings.is_empty());
    add_partial_warning(&mut warnings, 12);
    assert_eq!(warnings[0].message, "有 12 条日志行尚未写完，将在下一次刷新时继续读取。");
}

#[test]
fn the_home_directory_is_not_told() {
    let text = "/home/me/a, /home/me/b";
    assert_eq!(redact_home_text(text, Some("/home/me")), "~/a, ~/b");
    assert_eq!(redact_home_text(text, None), text);
    assert_eq!(redact_home_path("/srv/data", None, "/"), "/srv/data");
    assert_eq!(redact_home_path("C:\\me\\x", Some("x"), "\\"), "~\\x");
}

#[test]
fn support_report_contains_health_without_credentials() {
    let database =
        UsageDatabase { exists: true, opened: true, quick_check: Some("ok".into()) };
    let inspection = ConfigInspection {
        path: "/home/me/.codex/config.toml".into(),
        valid: true,
        active_provider: Some("custom".into()),
        managed_provider_present: true,
        warnings: vec!["see /home/me/.codex".into()],
    };
    let below = |rest: &str| KnownPath {
        path: format!("/home/me/{rest}"),
        below_home: Some(rest.into()),
    };
    let paths = SupportPaths {
        data_directory: KnownPath { path: "/srv/data".into(), below_home: None },
        codex_home: below(".codex"),
        config_file: below(".codex/config.toml"),
    };
    let files = reported_files()
        .into_iter()
        .map(|name| {
            let size = if name == "app.json" { Some(12) } else { None };
            file_diagnostics(name, size, size.is_some())
        })
        .collect();
    let report = build_support_diagnostics(
        &paths,
        inspection,
        &Err("no /home/me/index".into()),
        &database,
        files,
        Connections {
            kind: ActiveKind::Provider,
            provider_count: 2,
            official_account_count: 1,
            active_model: Some("model".into()),
        },
        Some("/home/me"),
        "/",
    );
    assert_eq!(report.data_directory, "/srv/data");
    assert_eq!(report.codex_home, "~/.codex");
    assert_eq!(report.config_file, "~/.codex/config.toml");
    assert_eq!((report.provider_count, report.official_account_count), (2, 1));
    assert_eq!(report.files.len(), 7);
    assert!(report.files[0].exists && report.files[0].readable);
    assert_eq!(report.files[6].name, "cache.json");
    assert!(!report.files[6].exists);
    assert!(report.home_paths_redacted);
    assert_eq!(report.omitted[0], "API keys");
    assert_eq!(report.omitted.len(), 5);
    assert_eq!(report.usage_check, "ok");
    assert_eq!(report.active_kind, "provider");
    assert_eq!(report.warnings, vec!["see ~/.codex", "会话索引读取失败：no ~/index"]);
    assert_eq!(report.indexed_session_count, 0);
}

#[test]
fn trouble_with_the_database_is_told() {
    let mut warnings = Vec::new();
    let missing = UsageDatabase { exists: false, opened: false, quick_check: None };
    assert_eq!(usage_database_diagnostics(&missing, &mut warnings), "missing");
    assert!(warnings.is_empty());
    let locked = UsageDatabase { exists: true, opened: false, quick_check: None };
    assert_eq!(usage_database_diagnostics(&locked, &mut warnings), "unavailable");
    let torn =
        UsageDatabase { exists: true, opened: true, quick_check: Some("page 3".into()) };
    assert_eq!(usage_database_diagnostics(&torn, &mut warnings), "page 3");
    assert_eq!(warnings.len(), 2);
    assert_eq!(warnings[1], "用量数据库快速检查结果：page 3");
}

#[test]
fn a_service_needs_a_key_and_to_be_switched_on() {
    let mut service = provider();
    assert_eq!(require_api_key(&service).ok().unwrap(), "secret");
    assert!(require_enabled(&service).is_ok());
    assert!(needs_model_refresh(&service));
    service.api_key = Some("  ".into());
    service.enabled = false;
    assert!(require_api_key(&service).is_err());
    assert!(require_enabled(&service).is_err());
    assert!(!needs_model_refresh(&service));
}

#[test]
fn a_test_of_a_service_is_told_in_words() {
    let mut service = provider();
    let result = tell_test(&service, "https://example.test/v1/models".into(), 200, true);
    assert!(result.ok && !result.suggest_v1);
    assert!(result.message.contains("Codex 可直接"));
    service.api_type = ProviderApiType::Chat;
    service.base_url = "https://example.test".into();
    assert!(tell_test(&service, String::new(), 200, true).message.contains("转换代理"));
    let result = tell_test(&service, String::new(), 404, false);
    assert!(result.suggest_v1);
    assert!(result.message.contains("HTTP 404"));
}

fn detail(id: &str, context_window: Option<u64>, description: Option<&str>) -> ModelDetail {
    ModelDetail {
        id: id.into(),
        context_window,
        description: description.map(|text| text.to_string()),
    }
}

#[test]
fn models_are_listed_in_order_and_once() {
    let details = vec![
        detail("b", None, None),
        detail("a", Some(1000), None),
        detail("b", Some(2000), Some("second")),
    ];
    assert_eq!(list_model_names(&details), vec!["a", "b"]);
    let listed = ModelMeta { name: Some("A".into()), context_window: Some(9), description: None };
    let (window, meta) = describe_model(&details, "a", Some(listed));
    assert_eq!(window, Some(1000));
    assert_eq!(meta.unwrap().name.as_deref(), Some("A"));
}

#[test]
fn moments_decide_which_credential_is_newer() {
    let old = credential("2026-08-01T00:00:00Z");
    assert!(credential_is_strictly_newer(&credential("2026-08-01T00:00:01Z"), &old));
    assert!(credential_is_strictly_newer(&credential("2026-08-01T01:00:00+00:30"), &old));
    assert!(!credential_is_strictly_newer(&credential("2026-08-01T01:00:00+01:00"), &old));
    assert!(!credential_is_strictly_newer(&credential("yesterday"), &old));
}

#[test]
fn personal_access_tokens_are_told_apart() {
    let mut found = credential("");
    assert!(!is_personal_access_token_credential(&found));
    found.tokens.access_token = "at-1".into();
    assert!(is_personal_access_token_credential(&found));
    found.tokens.access_token = "1".into();
    found.auth_mode = "personal_access_token".into();
    assert!(is_personal_access_token_credential(&found));
}

#[test]
fn only_a_model_that_is_recorded_is_removed() {
    let recorded = || Some("written".to_string());
    assert_eq!(
        managed_model_to_remove(recorded(), Some("model = \"written\"")).as_deref(),
        Some("written")
    );
    assert_eq!(managed_model_to_remove(recorded(), Some("model = \"own\"")), None);
    assert_eq!(managed_model_to_remove(recorded(), Some("model = [")), None);
    assert_eq!(managed_model_to_remove(recorded(), None), None);
    assert_eq!(managed_model_to_remove(None, Some("model = \"own\"")), None);
}

#[test]
fn what_is_in_use_is_found() {
    let accounts = vec![account("a"), account("b")];
    let mut active = ActiveState {
        kind: ActiveKind::Official,
        provider_id: None,
        account_id: Some("b".into()),
    };
    assert!(matches!(
        current_activation(&active, &Vec::new(), &accounts),
        InUse::Account(1)
    ));
    assert_eq!(account_to_activate(&active, &accounts).ok().unwrap(), "b");
    active.account_id = Some("gone".into());
    assert!(matches!(current_activation(&active, &Vec::new(), &accounts), InUse::Nothing));
    active.kind = ActiveKind::Provider;
    active.provider_id = Some("p".into());
    assert!(matches!(
        current_activation(&active, &vec![provider()], &accounts),
        InUse::Provider(0)
    ));
    assert!(account_to_activate(&active, &Vec::new()).is_err());
}

#[test]
fn switches_are_recorded_with_their_source() {
    let official =
        activation_for_official(OfficialAccountSource::OpenAiOauth, "工作", "account", 5);
    assert!(matches!(official.source_kind, UsageSourceKind::Official));
    assert_eq!(official.model_provider, "openai");
    assert_eq!(official.account_id.as_deref(), Some("account"));
    assert_eq!(official.effective_at_ms, 5);
    let service = activation_for_provider(&provider(), 6);
    assert!(matches!(service.source_kind, UsageSourceKind::Provider));
    assert_eq!(service.provider_id.as_deref(), Some("p"));
    assert_eq!(service.display_name_snapshot, "Provider");
}

#[test]
fn sessions_are_written_where_codex_is_stopped_and_still_configured() {
    assert!(may_write_now(false, "custom", "custom"));
    assert!(!may_write_now(true, "custom", "custom"));
    assert!(!may_write_now(false, "openai", "custom"));
}

#[test]
fn repairs_that_are_not_complete_say_why() {
    let mut repair = RepairResult::not_needed("custom".into());
    assert!(repair.repair_complete && repair.verification_passed);
    activation_warning(&mut repair, &AppError::Internal("ledger".into()));
    assert!(repair.warnings[0].contains("ledger"));
    let failed =
        RepairResult::not_made("custom".into(), &AppError::Internal("no cli".into()));
    assert!(!failed.repair_complete);
    let message = repair_incomplete_message(&failed, "连接未切换");
    assert!(message.contains("连接未切换"));
    assert!(message.contains("no cli"));
}

fn windowed(fetched_at: Option<i64>) -> ProviderAccountQuota {
    ProviderAccountQuota {
        status: QuotaStatus::Success,
        data: Some(QuotaData::Windowed {
            primary: Some(QuotaWindow {
                used_percent_bits: (12.5f64).to_bits(),
                remaining_percent_bits: (87.5f64).to_bits(),
                window_seconds: Some(18_000),
                reset_at: Some(100),
            }),
            secondary: None,
        }),
        fetched_at,
        ..Default::default()
    }
}

#[test]
fn quotas_are_estimated_from_a_good_reading() {
    let windows = windows_to_estimate(&windowed(None)).ok().unwrap();
    assert_eq!(windows, vec![(18_000, 100, (12.5f64).to_bits())]);
    assert_eq!(snapshot_moment(&windowed(Some(42))).ok().unwrap(), 42_000);
    assert_eq!(snapshot_moment(&windowed(Some(i64::MAX))).ok().unwrap(), i64::MAX);
    assert!(matches!(snapshot_moment(&windowed(None)), Err(AppError::Internal(_))));
    assert_eq!(estimate_window_ids(&windowed(None)), vec![(18_000, 100)]);
    let mut failed = windowed(Some(1));
    apply_failed_quota_snapshot(
        &mut failed,
        QuotaStatus::RateLimited,
        "慢一点".into(),
        Some("429".into()),
    );
    assert_eq!(failed.status, QuotaStatus::RateLimited);
    assert_eq!(failed.error_code.as_deref(), Some("429"));
    assert_eq!(windows_to_estimate(&failed).err().unwrap().message(), "慢一点");
    let empty = ProviderAccountQuota { status: QuotaStatus::Success, ..Default::default() };
    assert!(matches!(windows_to_estimate(&empty), Err(AppError::InvalidConfig(_))));
}

#[test]
fn estimates_are_made_again_once() {
    let estimate = QuotaEstimate {
        window_seconds: 18_000,
        reset_at: 100,
        estimated_total_microusd: 5,
        estimated_at: 1,
        calculation_version: 1,
    };
    let results = vec![QuotaEstimateWindowResult {
        window_seconds: 18_000,
        reset_at: 100,
        success: true,
        estimate: Some(estimate),
        reason: None,
    }];
    assert!(matches!(end_estimation(&results, true, 100), EstimationStep::Again));
    assert!(matches!(end_estimation(&results, false, 100), EstimationStep::GiveUp(_)));
    match end_estimation(&results, true, 99) {
        EstimationStep::Keep(kept) => assert_eq!(kept, vec![estimate]),
        _ => panic!("the window has not come to its end"),
    }
}

#[test]
fn credits_are_used_once_and_in_time() {
    let credit = |id: &str, status: Option<&str>, expires_at| ResetCredit {
        id: id.into(),
        status: status.map(|status| status.to_string()),
        expires_at,
    };
    assert!(credit_is_usable(&credit("c", Some("available"), None), 10));
    assert!(credit_is_usable(&credit("c", Some("available"), Some(11)), 10));
    assert!(!credit_is_usable(&credit("c", Some("available"), Some(10)), 10));
    assert!(!credit_is_usable(&credit("c", Some("used"), None), 10));
    assert!(!credit_is_usable(&credit("c", None, None), 10));
    let credits = vec![credit("c", Some("available"), None), credit("d", Some("used"), None)];
    assert!(check_credit(&credits, "c", false, 0).is_ok());
    assert!(check_credit(&credits, "c", true, 0).err().unwrap().message().contains("结果未知"));
    assert!(check_credit(&credits, "d", false, 0).err().unwrap().message().contains("已过期"));
    assert!(check_credit(&credits, "e", false, 0).err().unwrap().message().contains("不存在"));
    assert!(clears_estimates(ResetCreditConsumeOutcome::Reset));
    assert!(!clears_estimates(ResetCreditConsumeOutcome::NoCredit));
}

#[test]
fn request_keys_are_long_and_plain() {
    assert!(validate_idempotency_key(" 0123456789abcdef ").is_ok());
    assert!(validate_idempotency_key("0123456789abcde").is_err());
    assert!(validate_idempotency_key(&"a".repeat(256)).is_ok());
    assert!(validate_idempotency_key(&"a".repeat(257)).is_err());
    assert!(validate_idempotency_key("0123456789abcdef é").is_err());
}

#[test]
fn all_troubles_are_told() {
    assert_eq!(refresh_error(&Vec::new()), None);
    let troubles = vec![
        RefreshTrouble::ClearEstimates(AppError::Internal("a".into())),
        RefreshTrouble::ReadEstimates(AppError::Internal("b".into())),
        RefreshTrouble::Details(AppError::Internal("c".into())),
        RefreshTrouble::QuotaStatus(None),
        RefreshTrouble::QuotaStatus(Some("d".into())),
        RefreshTrouble::Quota(AppError::Internal("e".into())),
    ];
    assert_eq!(
        refresh_error(&troubles).as_deref(),
        Some("旧额度估算清理失败：a；旧额度估算读取失败：b；重置卡详情刷新失败：c；额度刷新未成功。；d；额度刷新失败：e")
    );
}

#[test]
fn errors_tell_how_a_quota_could_not_be_read() {
    assert_eq!(status_of_error(&AppError::Internal("HTTP 500".into())), QuotaStatus::Error);
    assert_eq!(
        status_of_error(&AppError::InvalidConfig("no login".into())),
        QuotaStatus::Unauthorized
    );
}
