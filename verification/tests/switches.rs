use codex_tools::activation::RepairResult;
use codex_tools::maintenance::{
    is_checked_online, refreshed_state, retry_state, same_state, CredentialMaintenanceOutcome,
    CredentialRefreshState, CredentialRefreshStatus, Maintenance, MaintenanceEvent,
    MaintenanceTask,
};
use codex_tools::models::{AppError, CodexAuthCredential, CodexAuthTokens};
use codex_tools::providers::{ProviderSave, SaveReport, SaveStep};
use codex_tools::switching::{Route, Switch, SwitchReport, SwitchStep};

fn broken(words: &str) -> AppError {
    AppError::Internal(words.into())
}

/// Carries a switch out. The given steps go wrong, all others go well.
fn carry_out(
    route: Route,
    mut trouble: impl FnMut(SwitchStep) -> Option<SwitchReport>,
) -> (Switch, Vec<SwitchStep>) {
    let mut switch = Switch::new(route);
    let mut steps = Vec::new();
    while switch.step() != SwitchStep::Over {
        steps.push(switch.step());
        let report = match trouble(switch.step()) {
            Some(report) => report,
            None => SwitchReport::Done,
        };
        switch.report(report);
    }
    (switch, steps)
}

fn unrepaired() -> RepairResult {
    RepairResult {
        target_provider: "custom".into(),
        files_modified: 1,
        rows_updated: 0,
        repair_complete: false,
        verification_passed: false,
        warnings: vec!["缺少 CLI".into()],
    }
}

#[test]
fn a_switch_that_goes_well_ends_without_an_error() {
    for route in [
        Route::SyncOfficial,
        Route::SyncProvider,
        Route::ActivateOfficial,
        Route::ActivateProvider,
    ] {
        let (switch, steps) = carry_out(route, |_| None);
        assert!(switch.error().is_none());
        assert!(switch.is_repaired());
        assert!(steps.contains(&SwitchStep::Write));
        assert!(!steps.contains(&SwitchStep::UndoFiles));
        assert!(!steps.contains(&SwitchStep::Compensate));
        assert!(!steps.contains(&SwitchStep::Cancel));
    }
}

#[test]
fn written_files_are_undone_when_the_sessions_are_not_put_right() {
    for route in [
        Route::SyncOfficial,
        Route::SyncProvider,
        Route::ActivateOfficial,
        Route::ActivateProvider,
    ] {
        let (switch, steps) = carry_out(route, |step| match step {
            SwitchStep::Repair => Some(SwitchReport::Unrepaired(unrepaired())),
            _ => None,
        });
        assert!(steps.contains(&SwitchStep::UndoFiles));
        assert!(!switch.is_repaired());
        let error = switch.error().unwrap();
        assert!(error.message().contains("缺少 CLI"));
        assert!(!switch.is_begun() || switch.is_closed());
    }
}

#[test]
fn a_failure_to_undo_is_told_as_well() {
    let (switch, steps) = carry_out(Route::ActivateOfficial, |step| match step {
        SwitchStep::Activate => Some(SwitchReport::Failed(broken("store is full"))),
        SwitchStep::UndoFiles => Some(SwitchReport::Failed(broken("disk is gone"))),
        SwitchStep::Compensate => Some(SwitchReport::Failed(broken("nothing helps"))),
        _ => None,
    });
    assert!(steps.contains(&SwitchStep::Compensate));
    let message = switch.into_error().unwrap().message();
    assert!(message.contains("store is full"));
    assert!(message.contains("disk is gone"));
    assert!(message.contains("nothing helps"));
}

#[test]
fn an_outdated_switch_changes_nothing() {
    for route in [Route::ActivateOfficial, Route::ActivateProvider] {
        let (switch, steps) = carry_out(route, |step| match step {
            SwitchStep::Current => Some(SwitchReport::Outdated),
            _ => None,
        });
        assert!(matches!(switch.error(), Some(AppError::StaleOperation)));
        assert!(!steps.contains(&SwitchStep::Write));
        assert!(!steps.contains(&SwitchStep::Activate));
    }
}

#[test]
fn a_running_codex_stops_a_switch() {
    let (switch, steps) = carry_out(Route::SyncProvider, |step| match step {
        SwitchStep::Guard => Some(SwitchReport::Failed(AppError::InvalidConfig("running".into()))),
        _ => None,
    });
    assert!(!steps.contains(&SwitchStep::Write));
    assert!(matches!(switch.error(), Some(AppError::InvalidConfig(_))));
}

/// Saves a service in use that takes the place of an earlier one.
fn save(
    needs_models: bool,
    mut trouble: impl FnMut(SaveStep) -> SaveReport,
) -> (ProviderSave, Vec<SaveStep>) {
    let mut save = ProviderSave::new(true);
    let mut steps = Vec::new();
    while save.step() != SaveStep::Over {
        steps.push(save.step());
        if save.step() == SaveStep::Save {
            save.describe(true, true, needs_models);
        }
        let report = trouble(save.step());
        save.report(report);
    }
    (save, steps)
}

#[test]
fn a_save_that_goes_well_writes_the_files_of_codex() {
    let (save, steps) = save(true, |step| match step {
        SaveStep::StillActive | SaveStep::SameSource => SaveReport::Answer(true),
        _ => SaveReport::Done,
    });
    assert!(save.error().is_none());
    assert_eq!(
        steps,
        vec![
            SaveStep::Guard,
            SaveStep::Save,
            SaveStep::FetchModels,
            SaveStep::StillActive,
            SaveStep::SameSource,
            SaveStep::SyncModels,
        ]
    );
}

#[test]
fn a_failed_save_is_taken_back() {
    let (saved, steps) = save(false, |step| match step {
        SaveStep::Sync => SaveReport::Failed(broken("no disk")),
        _ => SaveReport::Done,
    });
    assert_eq!(
        steps,
        vec![
            SaveStep::Guard,
            SaveStep::Save,
            SaveStep::Sync,
            SaveStep::Restore,
            SaveStep::SyncBack,
        ]
    );
    assert_eq!(saved.into_error().unwrap().message(), "no disk");

    let (saved, _) = save(true, |step| match step {
        SaveStep::FetchModels => SaveReport::Failed(broken("no models")),
        SaveStep::StillActiveAfterFailure => SaveReport::Answer(true),
        SaveStep::SyncBack => SaveReport::Failed(broken("no disk")),
        _ => SaveReport::Done,
    });
    let message = saved.into_error().unwrap().message();
    assert!(message.contains("已保留原连接"));
    assert!(message.contains("no models"));
    assert!(message.contains("no disk"));
}

#[test]
fn a_later_save_is_not_taken_back() {
    let (saved, steps) = save(true, |step| match step {
        SaveStep::StillActive => SaveReport::Answer(true),
        SaveStep::SameSource => SaveReport::Answer(false),
        _ => SaveReport::Done,
    });
    assert!(matches!(saved.error(), Some(AppError::StaleOperation)));
    assert!(!steps.contains(&SaveStep::Restore));
    assert!(!steps.contains(&SaveStep::SyncModels));

    let (saved, steps) = save(false, |step| match step {
        SaveStep::Sync => SaveReport::Failed(broken("no disk")),
        SaveStep::Restore => SaveReport::Answer(false),
        _ => SaveReport::Done,
    });
    assert!(matches!(saved.error(), Some(AppError::StaleOperation)));
    assert!(!steps.contains(&SaveStep::SyncBack));
}

fn credential() -> CodexAuthCredential {
    CodexAuthCredential {
        auth_mode: "chatgpt".into(),
        openai_api_key: None,
        tokens: CodexAuthTokens {
            id_token: "id".into(),
            access_token: "access".into(),
            refresh_token: "refresh".into(),
            account_id: "account".into(),
        },
        last_refresh: "2026-01-01T00:00:00Z".into(),
    }
}

fn maintain(
    active: bool,
    state: CredentialRefreshState,
    mut event: impl FnMut(&MaintenanceTask) -> MaintenanceEvent,
) -> (CredentialMaintenanceOutcome, CredentialRefreshState) {
    let mut round = Maintenance::new(active, false, 1_800_000_000, state);
    let mut noted = state;
    loop {
        let task = round.task();
        let event = match &task {
            MaintenanceTask::Finished(outcome) => return (*outcome, noted),
            MaintenanceTask::Save(state) => {
                noted = *state;
                MaintenanceEvent::Done
            }
            _ => event(&task),
        };
        round.report(&event);
    }
}

#[test]
fn a_credential_that_expires_soon_is_refreshed() {
    let state = CredentialRefreshState::default();
    let (outcome, noted) = maintain(false, state, |task| match task {
        MaintenanceTask::Load => {
            MaintenanceEvent::Loaded(credential(), Some(1_800_000_000 + 60))
        }
        MaintenanceTask::Refresh(_) => MaintenanceEvent::Answered(true),
        _ => MaintenanceEvent::Done,
    });
    assert_eq!(outcome, CredentialMaintenanceOutcome::Refreshed);
    assert!(same_state(&noted, &refreshed_state(&state, 1_800_000_000)));
    assert_eq!(noted.status, CredentialRefreshStatus::Healthy);
}

#[test]
fn a_refused_refresh_asks_for_a_new_login() {
    let (outcome, noted) = maintain(false, CredentialRefreshState::default(), |task| match task {
        MaintenanceTask::Load => MaintenanceEvent::Loaded(credential(), Some(1_800_000_000)),
        MaintenanceTask::Refresh(_) => MaintenanceEvent::Refused,
        _ => MaintenanceEvent::Done,
    });
    assert_eq!(outcome, CredentialMaintenanceOutcome::ReauthenticationRequired);
    assert_eq!(noted.status, CredentialRefreshStatus::ReauthenticationRequired);

    let (outcome, _) = maintain(false, noted, |task| match task {
        MaintenanceTask::Load => MaintenanceEvent::Loaded(credential(), Some(1_800_000_000)),
        MaintenanceTask::Refresh(_) => panic!("a new login is needed first"),
        _ => MaintenanceEvent::Done,
    });
    assert_eq!(outcome, CredentialMaintenanceOutcome::ReauthenticationRequired);
}

#[test]
fn a_failed_refresh_is_put_off() {
    let (outcome, noted) = maintain(false, CredentialRefreshState::default(), |task| match task {
        MaintenanceTask::Load => MaintenanceEvent::Loaded(credential(), Some(1_800_000_000)),
        MaintenanceTask::Refresh(_) => MaintenanceEvent::Failed,
        _ => MaintenanceEvent::Done,
    });
    assert_eq!(outcome, CredentialMaintenanceOutcome::WaitingRetry);
    assert_eq!(noted.next_retry_at, Some(1_800_000_060));
}

#[test]
fn reauthentication_requirement_persists_until_credentials_are_replaced() {
    let state = CredentialRefreshState {
        status: CredentialRefreshStatus::ReauthenticationRequired,
        last_attempt_at: Some(1),
        ..CredentialRefreshState::default()
    };
    let (outcome, noted) = maintain(false, state, |task| match task {
        MaintenanceTask::Load => MaintenanceEvent::Loaded(credential(), Some(1_800_000_000)),
        MaintenanceTask::Refresh(_) => panic!("a new login is needed first"),
        _ => MaintenanceEvent::Done,
    });

    assert_eq!(outcome, CredentialMaintenanceOutcome::ReauthenticationRequired);
    assert!(same_state(&noted, &state));
}

#[test]
fn running_codex_manages_an_expiring_active_account_without_oauth_or_auth_write() {
    let (outcome, noted) = maintain(true, CredentialRefreshState::default(), |task| match task {
        MaintenanceTask::CheckRunning => MaintenanceEvent::Running(true),
        MaintenanceTask::TakeOver => MaintenanceEvent::TakenOver(false),
        MaintenanceTask::Refresh(_) => panic!("Codex refreshes its own credential"),
        MaintenanceTask::WriteBack => panic!("nothing is written while Codex runs"),
        _ => MaintenanceEvent::Done,
    });
    assert_eq!(outcome, CredentialMaintenanceOutcome::ManagedByCodex);
    assert_eq!(noted.status, CredentialRefreshStatus::ManagedByCodex);
}

#[test]
fn waits_grow_up_to_an_hour() {
    let mut state = CredentialRefreshState::default();
    for wait in [60, 300, 900, 3600, 3600] {
        state = retry_state(&state, 1000);
        assert_eq!(state.next_retry_at, Some(1000 + wait));
        assert_eq!(state.status, CredentialRefreshStatus::WaitingRetry);
    }
    state.retry_count = u8::MAX;
    assert_eq!(retry_state(&state, i64::MAX).next_retry_at, Some(i64::MAX));
    assert_eq!(retry_state(&state, 0).retry_count, u8::MAX);
}

#[test]
fn online_checks_follow_rounds_that_left_a_usable_login() {
    assert!(is_checked_online(CredentialMaintenanceOutcome::Refreshed));
    assert!(!is_checked_online(CredentialMaintenanceOutcome::ReauthenticationRequired));
}
