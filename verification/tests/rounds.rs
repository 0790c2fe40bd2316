use codex_tools::activation::{ActiveKind, ActiveState};
use codex_tools::json::Json;
use codex_tools::models::AppError;
use codex_tools::providers::SaveReport;
use codex_tools::quota::{
    ProviderAccountQuota, QuotaData, QuotaEstimate, QuotaEstimateWindowResult, QuotaStatus,
    QuotaWindow, ResetCredit, ResetCreditConsumeOutcome,
};
use codex_tools::quota_rounds::{
    CreditEvent, CreditPhase, CreditUse, Estimation, EstimationEvent, EstimationPhase, QuotaEvent,
    QuotaRefresh, QuotaTask, ResetCreditOperations,
};
use codex_tools::rounds::{
    is_account_in_use, service_to_preview, service_to_refresh, AccountTurn, Confirmation,
    ConfirmStep, ModelRefresh, ModelStep, TurnStep,
};

fn broken(words: &str) -> AppError {
    AppError::Internal(words.into())
}

fn quota_data(reset_at: i64) -> QuotaData {
    QuotaData::Windowed {
        primary: Some(QuotaWindow {
            used_percent_bits: (50.0f64).to_bits(),
            remaining_percent_bits: (50.0f64).to_bits(),
            window_seconds: Some(18_000),
            reset_at: Some(reset_at),
        }),
        secondary: None,
    }
}

fn estimate(reset_at: i64) -> QuotaEstimate {
    QuotaEstimate {
        window_seconds: 18_000,
        reset_at,
        estimated_total_microusd: 7,
        estimated_at: 1,
        calculation_version: 1,
    }
}

fn known() -> ProviderAccountQuota {
    ProviderAccountQuota {
        status: QuotaStatus::Success,
        data: Some(quota_data(100)),
        fetched_at: Some(1),
        estimates: vec![estimate(100), estimate(200)],
        ..Default::default()
    }
}

#[test]
fn a_quota_is_read_and_its_estimates_go() {
    let mut round = QuotaRefresh::new(known(), false, 9);
    assert_eq!(round.task(), QuotaTask::Account(true));
    round.report(QuotaEvent::Ready);
    assert_eq!(round.task(), QuotaTask::Fetch);
    round.report(QuotaEvent::Fetched(quota_data(200), Some("plus".into()), Json::Null, 10));
    assert_eq!(round.task(), QuotaTask::Save);
    assert_eq!(round.snapshot().estimates, vec![estimate(100)]);
    assert_eq!(round.snapshot().fetched_at, Some(10));
    assert_eq!(round.snapshot().last_attempt_at, Some(9));
    round.report(QuotaEvent::Saved);
    assert_eq!(round.task(), QuotaTask::Finished);
}

#[test]
fn active_account_quota_refresh_does_not_rotate_or_write_credentials() {
    let round = QuotaRefresh::new(known(), true, 9);
    assert_eq!(round.task(), QuotaTask::Account(false));
}

#[test]
fn a_service_is_asked_again_once_and_the_last_quota_is_kept() {
    let mut round = QuotaRefresh::new(known(), false, 9);
    round.report(QuotaEvent::Ready);
    round.report(QuotaEvent::Refused(true, QuotaStatus::Error, "cut".into(), None));
    assert_eq!(round.task(), QuotaTask::FetchAgain);
    round.report(QuotaEvent::Refused(true, QuotaStatus::RateLimited, "slow".into(), None));
    assert_eq!(round.task(), QuotaTask::Save);
    assert_eq!(round.snapshot().status, QuotaStatus::RateLimited);
    assert_eq!(round.snapshot().error.as_deref(), Some("slow"));
    assert_eq!(round.snapshot().fetched_at, Some(1));
    assert_eq!(round.snapshot().estimates.len(), 2);
}

#[test]
fn connections_refresh_all_quota_continues_after_expired_proxy_accounts() {
    let mut round = QuotaRefresh::new(known(), false, 9);
    round.report(QuotaEvent::Unusable(AppError::InvalidConfig("登录已过期".into())));
    assert_eq!(round.task(), QuotaTask::Save);
    assert_eq!(round.snapshot().status, QuotaStatus::Unauthorized);
    assert_eq!(round.snapshot().error.as_deref(), Some("登录已过期"));
}

fn results(reset_at: i64) -> Vec<QuotaEstimateWindowResult> {
    vec![QuotaEstimateWindowResult {
        window_seconds: 18_000,
        reset_at,
        success: true,
        estimate: Some(estimate(reset_at)),
        reason: None,
    }]
}

#[test]
fn an_estimation_is_made_again_once() {
    let mut estimation = Estimation::new();
    estimation.report(EstimationEvent::Done);
    for attempt in 0..2 {
        assert_eq!(estimation.phase(), EstimationPhase::Refresh);
        estimation.report(EstimationEvent::Refreshed(known()));
        assert_eq!(estimation.phase(), EstimationPhase::ClearNew);
        estimation.report(EstimationEvent::Done);
        assert_eq!(estimation.phase(), EstimationPhase::Estimate);
        assert_eq!(*estimation.windows(), vec![(18_000, 100, (50.0f64).to_bits())]);
        estimation.report(EstimationEvent::Estimated(results(100), 100));
        assert_eq!(estimation.error().is_some(), attempt == 1);
    }
    assert_eq!(estimation.phase(), EstimationPhase::Over);
}

#[test]
fn estimates_are_saved_where_there_are_any() {
    let mut estimation = Estimation::new();
    estimation.report(EstimationEvent::Done);
    estimation.report(EstimationEvent::Refreshed(known()));
    estimation.report(EstimationEvent::Done);
    estimation.report(EstimationEvent::Estimated(results(100), 99));
    assert_eq!(estimation.phase(), EstimationPhase::Save);
    assert_eq!(*estimation.estimates(), vec![estimate(100)]);
    estimation.report(EstimationEvent::Done);
    assert_eq!(estimation.phase(), EstimationPhase::Over);
    assert!(estimation.error().is_none());

    let mut undated = known();
    undated.fetched_at = None;
    let mut estimation = Estimation::new();
    estimation.report(EstimationEvent::Done);
    estimation.report(EstimationEvent::Refreshed(undated));
    assert_eq!(estimation.phase(), EstimationPhase::ClearNew);
    estimation.report(EstimationEvent::Done);
    assert!(matches!(estimation.error(), Some(AppError::Internal(_))));
}

const KEY: &str = "0123456789abcdef";

fn credits() -> Vec<ResetCredit> {
    vec![ResetCredit { id: "c".into(), status: Some("available".into()), expires_at: None }]
}

#[test]
fn a_credit_is_used_and_later_trouble_only_told() {
    let mut credit = CreditUse::new("c".into(), KEY);
    assert_eq!(credit.phase(), CreditPhase::List);
    credit.report(CreditEvent::Listed(credits(), false, 0));
    assert_eq!(credit.phase(), CreditPhase::Consume);
    credit.report(CreditEvent::Consumed(ResetCreditConsumeOutcome::Reset));
    assert_eq!(credit.phase(), CreditPhase::ClearEstimates);
    credit.report(CreditEvent::Unread(broken("a")));
    credit.report(CreditEvent::Failed(broken("b")));
    credit.report(CreditEvent::Told(QuotaStatus::Error, Some("c".into())));
    let (outcome, told) = credit.into_outcome().unwrap().ok().unwrap();
    assert_eq!(outcome, ResetCreditConsumeOutcome::Reset);
    assert_eq!(told.as_deref(), Some("旧额度估算读取失败：a；重置卡详情刷新失败：b；c"));
}

#[test]
fn a_credit_in_doubt_is_noted_and_not_used_again() {
    let mut credit = CreditUse::new("c".into(), KEY);
    credit.report(CreditEvent::Listed(credits(), false, 0));
    credit.report(CreditEvent::Failed(AppError::InvalidConfig("超时".into())));
    assert_eq!(credit.phase(), CreditPhase::MarkUnknown);
    credit.report(CreditEvent::Done);
    assert_eq!(credit.into_outcome().unwrap().err().unwrap().message(), "超时");

    let mut credit = CreditUse::new("c".into(), KEY);
    credit.report(CreditEvent::Listed(credits(), true, 0));
    assert_eq!(credit.phase(), CreditPhase::Over);
    assert!(credit.into_outcome().unwrap().is_err());

    let mut credit = CreditUse::new("c".into(), KEY);
    credit.report(CreditEvent::Listed(credits(), false, 0));
    credit.report(CreditEvent::Consumed(ResetCreditConsumeOutcome::Unknown));
    assert_eq!(credit.phase(), CreditPhase::MarkUnknown);
    credit.report(CreditEvent::Done);
    assert_eq!(credit.phase(), CreditPhase::Details);
    credit.report(CreditEvent::Done);
    credit.report(CreditEvent::Told(QuotaStatus::Success, None));
    let (outcome, told) = credit.into_outcome().unwrap().ok().unwrap();
    assert_eq!(outcome, ResetCreditConsumeOutcome::Unknown);
    assert_eq!(told, None);
}

#[test]
fn a_doubt_lasts_for_the_account_and_the_credit() {
    let mut operations = ResetCreditOperations::default();
    assert!(!operations.is_unknown("account", "c"));
    operations.mark_unknown("account", "c");
    operations.mark_unknown("account", "d");
    assert!(operations.is_unknown("account", "c"));
    assert!(operations.is_unknown("account", "d"));
    assert!(!operations.is_unknown("other", "c"));
    assert!(!operations.is_unknown("accountc", ""));
    let mut credit = CreditUse::new("c".into(), "another-request-key-of-the-same-credit");
    credit.report(CreditEvent::Listed(credits(), operations.is_unknown("account", "c"), 0));
    assert_eq!(
        credit.into_outcome().unwrap().err().unwrap().message(),
        "该重置卡此前结果未知；为避免重复消费，本会话不会再次提交。"
    );
}

#[test]
fn a_short_request_key_ends_it_at_once() {
    let credit = CreditUse::new("c".into(), "short");
    assert_eq!(credit.phase(), CreditPhase::Over);
    assert!(credit.into_outcome().unwrap().is_err());
}

#[test]
fn services_are_told_apart_from_accounts() {
    let mut active = ActiveState {
        kind: ActiveKind::Provider,
        provider_id: Some("p".into()),
        account_id: Some("a".into()),
    };
    assert_eq!(service_to_refresh(&active).ok().unwrap(), "p");
    assert_eq!(service_to_preview(&active).ok().unwrap(), "p");
    assert!(!is_account_in_use(&active, "a"));
    active.kind = ActiveKind::Official;
    assert!(service_to_refresh(&active).err().unwrap().message().contains("无需刷新"));
    assert!(service_to_preview(&active).err().unwrap().message().contains("请先添加"));
    assert!(is_account_in_use(&active, "a"));
    assert!(!is_account_in_use(&active, "b"));
}

#[test]
fn a_turn_to_an_account_goes_step_by_step() {
    let mut turn = AccountTurn::new();
    for step in [
        TurnStep::Current,
        TurnStep::Usable,
        TurnStep::Guard,
        TurnStep::TakeOver,
        TurnStep::Renew,
        TurnStep::CurrentAgain,
        TurnStep::Switch,
    ] {
        assert_eq!(turn.step(), step);
        turn.report(SaveReport::Done);
    }
    turn.report(SaveReport::Failed(broken("index")));
    assert_eq!(turn.step(), TurnStep::Rebuild);
    turn.report(SaveReport::Done);
    assert_eq!(turn.step(), TurnStep::Over);
    assert!(turn.error().is_none());

    let mut turn = AccountTurn::new();
    turn.report(SaveReport::Answer(false));
    assert!(matches!(turn.error(), Some(AppError::StaleOperation)));
}

#[test]
fn refresh_started_inactive_never_rolls_back_after_later_activation() {
    let mut refresh = ModelRefresh::new(false, false);
    assert_eq!(refresh.step(), ModelStep::Fetch);
    refresh.report(SaveReport::Done);
    assert_eq!(refresh.step(), ModelStep::Over);
    assert!(refresh.error().is_none());
}

#[test]
fn active_model_refresh_config_failure_restores_previous_cache() {
    let at_sync = || {
        let mut refresh = ModelRefresh::new(true, true);
        refresh.report(SaveReport::Done);
        refresh.report(SaveReport::Done);
        refresh.report(SaveReport::Answer(true));
        assert_eq!(refresh.step(), ModelStep::Sync);
        refresh.report(SaveReport::Failed(broken("no disk")));
        assert_eq!(refresh.step(), ModelStep::Restore);
        refresh
    };
    let mut refresh = at_sync();
    refresh.report(SaveReport::Answer(true));
    assert_eq!(refresh.into_error().unwrap().message(), "no disk");
    let mut refresh = at_sync();
    refresh.report(SaveReport::Answer(false));
    assert!(matches!(refresh.error(), Some(AppError::StaleOperation)));
    let mut refresh = at_sync();
    refresh.report(SaveReport::Failed(broken("locked")));
    assert_eq!(
        refresh.into_error().unwrap().message(),
        "no disk；模型缓存回滚失败，请重新刷新当前服务：locked"
    );
}

#[test]
fn a_confirmed_change_is_undone_where_its_model_cannot_be_noted() {
    let at_undo = || {
        let mut confirmation = Confirmation::new();
        for _ in 0..4 {
            confirmation.report(SaveReport::Done);
        }
        assert_eq!(confirmation.step(), ConfirmStep::Record);
        confirmation.report(SaveReport::Failed(broken("full")));
        assert_eq!(confirmation.step(), ConfirmStep::UndoFiles);
        confirmation
    };
    let mut confirmation = at_undo();
    confirmation.report(SaveReport::Done);
    confirmation.report(SaveReport::Done);
    assert_eq!(confirmation.into_error().unwrap().message(), "full");
    let mut confirmation = at_undo();
    confirmation.report(SaveReport::Failed(broken("files")));
    confirmation.report(SaveReport::Failed(broken("model")));
    assert_eq!(confirmation.into_error().unwrap().message(), "full；Codex 配置回滚失败：files");
    let mut outdated = Confirmation::new();
    outdated.report(SaveReport::Answer(false));
    assert!(matches!(outdated.error(), Some(AppError::StaleOperation)));
}
