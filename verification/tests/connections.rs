use codex_tools::activation::{
    ensure_codex_stopped_with, ensure_current_activation, project_active, renewed_credential,
    ActivationClock, ActiveKind, ActiveState, OfficialAccountSource, StoredOfficialAccount,
};
use codex_tools::config_manager::configured_model;
use codex_tools::json::Json;
use codex_tools::maintenance::{
    maintenance_decision, needs_credential_refresh, record_login_verification,
    CredentialRefreshState, CredentialRefreshStatus, LoginVerificationStatus, MaintenanceDecision,
    REFRESH_WINDOW_SECS, UNKNOWN_EXPIRY_RETRY_SECS,
};
use codex_tools::models::{
    AppError, CodexAuthCredential, CodexAuthTokens, ProviderApiType, ProviderProfile,
};
use codex_tools::providers::validate_fresh_activation_models;
use codex_tools::quota::{
    apply_successful_quota_snapshot, clear_estimates_for_current_quota, estimate_windows,
    quota_estimation_crossed_reset, ProviderAccountQuota, QuotaData, QuotaEstimate,
    QuotaEstimateWindowResult, QuotaStatus, QuotaWindow, FIVE_HOURS_SECONDS, SEVEN_DAYS_SECONDS,
};
use codex_tools::support::redact_home_path;

fn account(expires_at: Option<i64>) -> StoredOfficialAccount {
    StoredOfficialAccount {
        id: "account".into(),
        name: "账号".into(),
        remark: String::new(),
        account_id: "workspace".into(),
        email: "account@example.test".into(),
        credential: CodexAuthCredential {
            auth_mode: "chatgpt".into(),
            openai_api_key: None,
            tokens: CodexAuthTokens {
                id_token: "test-id".into(),
                access_token: "test-access".into(),
                refresh_token: "test-refresh".into(),
                account_id: "workspace".into(),
            },
            last_refresh: "2026-01-01T00:00:00Z".into(),
        },
        source: OfficialAccountSource::OpenAiOauth,
        expires_at,
        quota: ProviderAccountQuota::default(),
        created_at: 0,
        updated_at: 0,
    }
}

fn decide(
    account: &StoredOfficialAccount,
    state: &CredentialRefreshState,
    now: i64,
    force: bool,
) -> MaintenanceDecision {
    maintenance_decision(&account.credential, account.expires_at, state, now, force)
}

fn provider(id: &str, base_url: &str, model: &str) -> ProviderProfile {
    ProviderProfile {
        id: id.into(),
        name: "Provider".into(),
        base_url: base_url.into(),
        headers: Vec::new(),
        timeout_secs: 30,
        enabled: true,
        active: false,
        model: String::new(),
        available_models: vec![model.into()],
        selected_models: None,
        custom_models: Vec::new(),
        api_type: ProviderApiType::Responses,
        api_key: Some("secret".into()),
        has_api_key: false,
        created_at: 0,
        updated_at: 0,
    }
}

fn window(used: f64, remaining: f64, seconds: Option<i64>, reset_at: i64) -> Option<QuotaWindow> {
    Some(QuotaWindow {
        used_percent_bits: used.to_bits(),
        remaining_percent_bits: remaining.to_bits(),
        window_seconds: seconds,
        reset_at: Some(reset_at),
    })
}

fn windowed(primary: Option<QuotaWindow>, secondary: Option<QuotaWindow>) -> ProviderAccountQuota {
    ProviderAccountQuota {
        status: QuotaStatus::Success,
        data: Some(QuotaData::Windowed { primary, secondary }),
        ..Default::default()
    }
}

fn estimate(reset_at: i64) -> QuotaEstimate {
    QuotaEstimate {
        window_seconds: FIVE_HOURS_SECONDS,
        reset_at,
        estimated_total_microusd: 100,
        estimated_at: 1,
        calculation_version: 1,
    }
}

fn result(window_seconds: i64, reset_at: i64) -> QuotaEstimateWindowResult {
    QuotaEstimateWindowResult {
        window_seconds,
        reset_at,
        success: true,
        estimate: None,
        reason: None,
    }
}

#[test]
fn codex_mutation_gate_rejects_a_running_app() {
    let error = ensure_codex_stopped_with(true).err().unwrap();
    assert!(error.message().contains("请先退出 Codex"));
}

#[test]
fn codex_mutation_gate_allows_a_stopped_app() {
    assert!(ensure_codex_stopped_with(false).is_ok());
}

#[test]
fn active_sync_only_accepts_a_strictly_newer_oauth_credential() {
    let mut saved = account(None);
    saved.credential.last_refresh = "2026-08-01T00:00:00Z".into();
    let candidate = |last_refresh: &str| CodexAuthCredential {
        auth_mode: "chatgpt".into(),
        openai_api_key: None,
        tokens: CodexAuthTokens {
            id_token: "id-candidate".into(),
            access_token: "access-candidate".into(),
            refresh_token: "refresh-candidate".into(),
            account_id: "workspace".into(),
        },
        last_refresh: last_refresh.into(),
    };
    for last_refresh in ["2026-07-31T23:59:59Z", "2026-08-01T00:00:00Z", "invalid"] {
        let renewed =
            renewed_credential(candidate(last_refresh), &saved, true, "2026-08-02T00:00:00Z");
        assert!(renewed.is_none());
    }

    let renewed = renewed_credential(
        candidate("2026-08-01T00:00:01Z"),
        &saved,
        true,
        "2026-08-02T00:00:00Z",
    )
    .unwrap();
    assert_eq!(renewed.tokens.access_token, "access-candidate");
    assert_eq!(renewed.tokens.refresh_token, "refresh-candidate");
    assert_eq!(renewed.last_refresh, "2026-08-01T00:00:01Z");
}

#[test]
fn active_sync_rejects_a_different_user_in_the_same_workspace() {
    let saved = account(None);
    let mut other = account(None).credential;
    other.tokens.refresh_token = "refresh-user-2".into();
    other.last_refresh = "2026-08-02T00:00:00Z".into();
    assert!(renewed_credential(other, &saved, false, "2026-08-03T00:00:00Z").is_none());
}

#[test]
fn support_paths_hide_the_user_home_directory() {
    let home = "/home/person";
    let redacted = redact_home_path("/home/person/.codex/config.toml", Some(".codex/config.toml"), "/");

    assert!(redacted.starts_with('~'));
    assert!(!redacted.contains(home));
}

#[test]
fn dashboard_projection_identifies_active_provider() {
    let mut saved = provider("saved", "https://example.test/v1", "");
    saved.model = "gpt-5.6-luna".into();
    let active = ActiveState {
        kind: ActiveKind::Provider,
        provider_id: Some("saved".into()),
        account_id: None,
    };

    let projection = project_active(&active, &vec![saved], &Vec::new(), &Vec::new());

    assert!(matches!(projection.active_kind, ActiveKind::Provider));
    assert_eq!(projection.provider_count, 1);
    assert_eq!(projection.active_provider.as_deref(), Some("Provider"));
    assert_eq!(projection.account, None);
}

#[test]
fn dashboard_model_is_read_from_actual_codex_config() {
    assert_eq!(
        configured_model(Some("model = \"api-model\"\n")).as_deref(),
        Some("api-model")
    );
}

#[test]
fn dashboard_projection_labels_active_official_account() {
    let mut saved = account(None);
    saved.name = "工作日账号".into();
    saved.remark = "工作账号备注".into();
    let active = ActiveState {
        kind: ActiveKind::Official,
        provider_id: None,
        account_id: Some("account".into()),
    };
    let names = vec!["工作账号备注".to_string()];

    let projection = project_active(&active, &Vec::new(), &vec![saved], &names);

    assert!(matches!(projection.active_kind, ActiveKind::Official));
    assert_eq!(
        projection.active_provider.as_deref(),
        Some("OpenAI · 工作账号备注")
    );
    assert_eq!(projection.account, Some(0));
}

#[test]
fn stale_account_switch_is_rejected_after_an_async_boundary() {
    let mut activation = ActivationClock::default();
    let older = activation.begin_operation();
    let newer = activation.begin_operation();

    assert!(matches!(
        ensure_current_activation(&activation, older),
        Err(AppError::StaleOperation)
    ));
    assert!(ensure_current_activation(&activation, newer).is_ok());
}

#[test]
fn estimate_windows_uses_explicit_duration_and_never_invents_missing_primary() {
    let quota = windowed(None, window(20.0, 80.0, Some(604_800), 100));
    assert_eq!(
        estimate_windows(&quota),
        vec![(604_800, 100, (20.0f64).to_bits())]
    );
}

#[test]
fn estimate_windows_falls_back_only_for_existing_legacy_slots() {
    let quota = windowed(window(10.0, 90.0, None, 20), window(20.0, 80.0, None, 30));
    assert_eq!(
        estimate_windows(&quota),
        vec![
            (18_000, 20, (10.0f64).to_bits()),
            (604_800, 30, (20.0f64).to_bits())
        ]
    );
}

#[test]
fn quota_estimation_retries_when_any_window_crosses_a_reset() {
    let results = vec![result(FIVE_HOURS_SECONDS, 100), result(SEVEN_DAYS_SECONDS, 200)];
    assert!(quota_estimation_crossed_reset(&results, 100));
    assert!(!quota_estimation_crossed_reset(&results, 99));
}

#[test]
fn each_refreshed_quota_window_clears_its_own_old_estimate_including_retry_window() {
    let old = estimate(100);
    let first_current = estimate(200);
    let retry_current = estimate(300);
    let saved = vec![old, first_current, retry_current];

    let quota_for =
        |reset_at| windowed(window(25.0, 75.0, Some(FIVE_HOURS_SECONDS), reset_at), None);
    let after_first = clear_estimates_for_current_quota(&saved, &quota_for(200));
    assert!(after_first.contains(&old));
    assert!(!after_first.contains(&first_current));
    assert!(after_first.contains(&retry_current));

    let after_retry = clear_estimates_for_current_quota(&after_first, &quota_for(300));
    assert_eq!(after_retry, vec![old]);
}

#[test]
fn successful_quota_refresh_clears_estimates_for_the_refreshed_windows() {
    let mut snapshot = ProviderAccountQuota {
        estimates: vec![estimate(100)],
        error: Some("旧错误".into()),
        ..Default::default()
    };
    apply_successful_quota_snapshot(
        &mut snapshot,
        QuotaData::Windowed {
            primary: window(20.0, 80.0, Some(FIVE_HOURS_SECONDS), 100),
            secondary: None,
        },
        Some("plus".into()),
        Json::Null,
        42,
    );
    assert_eq!(snapshot.status, QuotaStatus::Success);
    assert!(snapshot.estimates.is_empty());
    assert_eq!(snapshot.fetched_at, Some(42));
    assert!(snapshot.error.is_none());
}

#[test]
fn activation_never_falls_back_to_cached_models_after_refresh_failure() {
    let cached = provider("cached", "https://provider.example.test/v1", "cached-model");
    let error = validate_fresh_activation_models(
        Some(AppError::Internal("network down".into())),
        &cached,
    )
    .err()
    .unwrap();

    assert!(error.message().contains("连接未切换"));
    assert!(error.message().contains("network down"));
}

#[test]
fn activation_requires_a_non_empty_fresh_model_list() {
    let blank = provider("blank", "https://provider.example.test/v1", "  ");
    let error = validate_fresh_activation_models(None, &blank).err().unwrap();
    assert!(error.message().contains("没有可用模型"));
    let fresh = provider("fresh", "https://provider.example.test/v1", "fresh-model");
    assert!(validate_fresh_activation_models(None, &fresh).is_ok());
}

#[test]
fn custom_only_provider_can_activate_when_models_endpoint_is_unavailable() {
    let unavailable = || Some(AppError::Internal("models endpoint unavailable".into()));
    let mut custom = provider("custom", "https://provider.example.test/v1", "");
    custom.available_models.clear();
    custom.custom_models = vec!["manual-model".into()];
    assert!(validate_fresh_activation_models(unavailable(), &custom).is_ok());

    custom.available_models = vec!["stale-api-model".into()];
    custom.selected_models = Some(vec!["manual-model".into()]);
    assert!(validate_fresh_activation_models(unavailable(), &custom).is_ok());

    custom.selected_models = Some(Vec::new());
    assert!(validate_fresh_activation_models(unavailable(), &custom).is_err());
}

#[test]
fn two_day_threshold_uses_an_inclusive_boundary() {
    let now = 1_800_000_000;
    assert!(!needs_credential_refresh(Some(now + REFRESH_WINDOW_SECS + 1), now));
    assert!(needs_credential_refresh(Some(now + REFRESH_WINDOW_SECS), now));
    assert!(needs_credential_refresh(Some(now + REFRESH_WINDOW_SECS - 1), now));
    assert!(!needs_credential_refresh(Some(now + 5 * 24 * 60 * 60), now));
}

#[test]
fn unknown_expiry_is_checked_at_most_once_per_day() {
    let now = 1_800_000_000;
    let account = account(None);
    let mut state = CredentialRefreshState {
        last_attempt_at: Some(now - UNKNOWN_EXPIRY_RETRY_SECS + 1),
        ..CredentialRefreshState::default()
    };
    assert_eq!(decide(&account, &state, now, false), MaintenanceDecision::Unchanged);
    state.last_attempt_at = Some(now - UNKNOWN_EXPIRY_RETRY_SECS);
    assert_eq!(decide(&account, &state, now, false), MaintenanceDecision::Refresh);
}

#[test]
fn reauthentication_requirement_is_never_reclassified_as_healthy() {
    let now = 1_800_000_000;
    let account = account(Some(now));
    let state = CredentialRefreshState {
        status: CredentialRefreshStatus::ReauthenticationRequired,
        ..CredentialRefreshState::default()
    };
    assert_eq!(
        decide(&account, &state, now, false),
        MaintenanceDecision::ReauthenticationRequired
    );
}

#[test]
fn manual_refresh_bypasses_expiry_but_keeps_retry_and_reauthentication_gates() {
    let now = 1_800_000_000;
    let account = account(Some(now + 7 * 24 * 60 * 60));
    let mut state = CredentialRefreshState::default();

    assert_eq!(decide(&account, &state, now, true), MaintenanceDecision::Refresh);

    state.next_retry_at = Some(now + 60);
    assert_eq!(decide(&account, &state, now, true), MaintenanceDecision::WaitingRetry);

    state.next_retry_at = None;
    state.status = CredentialRefreshStatus::ReauthenticationRequired;
    assert_eq!(
        decide(&account, &state, now, true),
        MaintenanceDecision::ReauthenticationRequired
    );
}

#[test]
fn online_verification_records_timestamp_without_claiming_refresh_success() {
    let quota = |status, error: Option<&str>| ProviderAccountQuota {
        status,
        error: error.map(|message| message.to_string()),
        ..ProviderAccountQuota::default()
    };
    let mut state = CredentialRefreshState::default();
    for (quota, expected) in [
        (
            quota(QuotaStatus::Unauthorized, Some("HTTP 401")),
            LoginVerificationStatus::Invalid,
        ),
        (
            quota(QuotaStatus::Unauthorized, Some("HTTP 402")),
            LoginVerificationStatus::WorkspaceOrPermission,
        ),
        (
            quota(QuotaStatus::Unauthorized, Some("HTTP 403")),
            LoginVerificationStatus::WorkspaceOrPermission,
        ),
        (quota(QuotaStatus::RateLimited, None), LoginVerificationStatus::CheckFailed),
    ] {
        state = record_login_verification(&state, &quota, 1_800_000_000);
        assert_eq!(state.verification, expected);
        assert!(state.last_check_at.is_some());
        assert!(state.last_refresh_at.is_none());
    }
}
