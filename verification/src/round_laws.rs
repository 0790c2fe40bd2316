//! The order in which rounds of work are done, and what is said where one fails.

use crate::activation::{ActiveKind, ActiveState, RepairView};
use crate::models::{ErrorView, ProviderApiType};
use crate::providers;
use crate::providers::{SaveReportView, SaveStep, SaveView};
use crate::proxy;
use crate::pump::RunView;
use crate::quota::{QuotaStatus, ResetCreditConsumeOutcome};
use crate::quota_rounds::{CreditEventView, CreditPhase, CreditUseView};
use crate::reasoning;
use crate::reasoning::EntryView;
use crate::rounds;
use crate::rounds::{ConfirmStep, ConfirmView, ModelStep, ModelView, TurnStep, TurnView};
use crate::stream_laws;
use crate::switching;
use crate::switching::{is_activation, Route, SwitchReportView, SwitchStep, SwitchView};
use crate::text;
use vstd::prelude::*;

verus! {

// ---------------------------------------------------------------------------
// Turning to another account or service
// ---------------------------------------------------------------------------

/// The steps of a switch that succeeds, in their order.
pub open spec fn path(route: Route) -> Seq<SwitchStep> {
    match route {
        Route::SyncOfficial => seq![
            SwitchStep::Guard,
            SwitchStep::TakeOver,
            SwitchStep::Load,
            SwitchStep::Write,
            SwitchStep::Previous,
            SwitchStep::Repair,
            SwitchStep::SaveModel,
            SwitchStep::Over,
        ],
        Route::SyncProvider => seq![
            SwitchStep::Guard,
            SwitchStep::Load,
            SwitchStep::Target,
            SwitchStep::Preview,
            SwitchStep::Previous,
            SwitchStep::Write,
            SwitchStep::Record,
            SwitchStep::Repair,
            SwitchStep::Over,
        ],
        Route::ActivateOfficial => seq![
            SwitchStep::Load,
            SwitchStep::Guard,
            SwitchStep::Begin,
            SwitchStep::Current,
            SwitchStep::Previous,
            SwitchStep::Write,
            SwitchStep::PreviousActive,
            SwitchStep::Activate,
            SwitchStep::Repair,
            SwitchStep::Confirm,
            SwitchStep::Over,
        ],
        Route::ActivateProvider => seq![
            SwitchStep::Current,
            SwitchStep::Guard,
            SwitchStep::Load,
            SwitchStep::Refresh,
            SwitchStep::Verify,
            SwitchStep::CurrentAgain,
            SwitchStep::GuardAgain,
            SwitchStep::LoadAgain,
            SwitchStep::Target,
            SwitchStep::CurrentLast,
            SwitchStep::TakeOver,
            SwitchStep::Preview,
            SwitchStep::Begin,
            SwitchStep::Previous,
            SwitchStep::Write,
            SwitchStep::Record,
            SwitchStep::PreviousActive,
            SwitchStep::Activate,
            SwitchStep::Repair,
            SwitchStep::Confirm,
            SwitchStep::Over,
        ],
    }
}

/// A switch that goes well begins with the first step of its path and goes from
/// each to the next. What it changes is written only after Codex was found to be
/// stopped, and it is over only once the sessions were repaired.
pub proof fn law_switch_keeps_to_its_path(switch: SwitchView, i: int)
    requires
        0 <= i < path(switch.route).len() - 1,
        switch.step == path(switch.route)[i],
    ensures
        SwitchView::begun_on(switch.route).step == path(switch.route)[0],
        SwitchView::begun_on(switch.route).error is None,
        ({
            let after = switch.after(SwitchReportView::Done);
            &&& after.step == path(switch.route)[i + 1]
            &&& after.error == switch.error
            &&& after.route == switch.route
            &&& after.begun == (switch.begun || switch.step == SwitchStep::Begin)
            &&& after.activated == (switch.activated || switch.step == SwitchStep::Activate)
            &&& after.repaired == (switch.repaired || switch.step == SwitchStep::Repair)
            &&& after.closed == (switch.closed || switch.step == SwitchStep::Confirm)
        }),
{
}

/// A switch that fails before anything was written changes nothing: it ends with
/// the error, and takes back only that it was begun.
pub proof fn law_early_failures_change_nothing(switch: SwitchView, error: ErrorView)
    requires
        switch.sound(),
        !switch.undoing(),
        switch.step != SwitchStep::Over,
        switch.step != SwitchStep::Confirm,
        switch.step != SwitchStep::Write,
        switch.step != SwitchStep::Record,
        switch.step != SwitchStep::Activate,
        switch.step != SwitchStep::Repair,
    ensures
        ({
            let after = switch.after(SwitchReportView::Failed(error));
            &&& after.error == Some(error)
            &&& switch.begun ==> after.step == SwitchStep::Cancel
            &&& !switch.begun ==> after.step == SwitchStep::Over
        }),
{
}

/// A switch that fails later takes back what it did: the account or service in use
/// where that was changed already, then the files. Where writing the files failed,
/// the earlier connection is set up again.
pub proof fn law_late_failures_are_taken_back(switch: SwitchView, error: ErrorView)
    requires
        switch.sound(),
    ensures
        ({
            let after = switch.after(SwitchReportView::Failed(error));
            &&& switch.step == SwitchStep::Write && is_activation(switch.route) ==> after.step
                == SwitchStep::Compensate && after.error == Some(error)
            &&& switch.step == SwitchStep::Record || switch.step == SwitchStep::Activate
                ==> after.step == SwitchStep::UndoFiles && after.error == Some(error)
            &&& switch.step == SwitchStep::Repair && is_activation(switch.route) ==> after.step
                == SwitchStep::RestoreActive && after.error == Some(error)
            &&& switch.step == SwitchStep::Repair && !is_activation(switch.route) ==> after.step
                == SwitchStep::UndoFiles && after.error == Some(error)
        }),
{
}

/// What is taken back well leaves the error as it was: after the account or service
/// in use the files are taken back, then what was noted of the model, and then the
/// switch is given up.
pub proof fn law_taking_back_keeps_the_error(switch: SwitchView)
    requires
        switch.undoing(),
    ensures
        ({
            let after = switch.after(SwitchReportView::Done);
            &&& switch.undo_error is None ==> after.error == switch.error
            &&& switch.step == SwitchStep::RestoreActive ==> after.step == SwitchStep::UndoFiles
            &&& switch.step == SwitchStep::UndoFiles && (switch.route == Route::SyncProvider
                || switch.route == Route::ActivateProvider) ==> after.step == SwitchStep::UndoModel
            &&& switch.step == SwitchStep::UndoFiles && switch.route == Route::SyncOfficial
                ==> after.step == SwitchStep::UndoModel
            &&& switch.step == SwitchStep::UndoFiles && switch.route == Route::ActivateOfficial
                && switch.activated ==> after.step == SwitchStep::UndoModel
            &&& switch.step == SwitchStep::UndoModel && switch.undo_error is None && switch.begun
                ==> after.step == SwitchStep::Cancel
            &&& switch.step == SwitchStep::UndoModel && switch.undo_error is None && !switch.begun
                ==> after.step == SwitchStep::Over
            &&& switch.step == SwitchStep::Compensate && switch.begun ==> after.step
                == SwitchStep::Cancel
            &&& switch.step == SwitchStep::Cancel ==> after.step == SwitchStep::Over
                && after.closed
        }),
{
}

proof fn lemma_tells_both(error: ErrorView, words: Seq<char>, other: ErrorView)
    ensures
        text::begins_with(switching::worsened(error, words, other).message(), error.message()),
        text::finishes_with(switching::worsened(error, words, other).message(), other.message()),
{
    let message = error.message() + words + other.message();
    assert(message.take(error.message().len() as int) =~= error.message());
    assert(message.skip(message.len() - other.message().len()) =~= other.message());
}

/// Where taking back fails too, what is said begins with the first error and ends
/// with the second.
pub proof fn law_both_errors_are_told(switch: SwitchView, failure: ErrorView)
    requires
        switch.error is Some,
        switch.step == SwitchStep::RestoreActive || switch.step == SwitchStep::Compensate || (
        switch.step == SwitchStep::UndoFiles && (switch.route == Route::SyncOfficial
            || switch.route == Route::ActivateOfficial)),
    ensures
        ({
            let after = switch.after(SwitchReportView::Failed(failure));
            &&& after.error matches Some(error)
            &&& text::begins_with(error.message(), switch.error->0.message())
            &&& text::finishes_with(error.message(), failure.message())
        }),
{
    let first = switch.error->0;
    lemma_tells_both(first, "；恢复原账号状态失败："@, failure);
    lemma_tells_both(first, "；恢复原连接状态失败："@, failure);
    lemma_tells_both(first, "；Codex 配置回滚失败，请手动检查配置文件："@, failure);
    lemma_tells_both(first, "；原来的 Codex 连接也未能恢复，请重新选择账号或服务："@, failure);
}

/// A service whose files or model could not be taken back says so: the error begins
/// with the first one and ends with the first thing that went wrong after it.
pub proof fn law_service_that_cannot_be_taken_back(
    switch: SwitchView,
    files: ErrorView,
    model: ErrorView,
)
    requires
        switch.error is Some,
        switch.step == SwitchStep::UndoFiles,
        switch.route == Route::SyncProvider || switch.route == Route::ActivateProvider,
    ensures
        ({
            let noted = switch.after(SwitchReportView::Failed(files));
            let both = noted.after(SwitchReportView::Failed(model));
            let one = noted.after(SwitchReportView::Done);
            let other = switch.after(SwitchReportView::Done).after(SwitchReportView::Failed(model));
            &&& noted.error == switch.error
            &&& both.error matches Some(error) && text::begins_with(
                error.message(),
                switch.error->0.message(),
            ) && text::finishes_with(error.message(), files.message())
            &&& one.error == both.error
            &&& other.error matches Some(error) && text::begins_with(
                error.message(),
                switch.error->0.message(),
            ) && text::finishes_with(error.message(), model.message())
        }),
{
    let first = switch.error->0;
    lemma_tells_both(first, "；Codex 配置回滚失败："@, files);
    lemma_tells_both(first, "；Codex 配置回滚失败："@, model);
    lemma_tells_both(first, "；第三方配置回滚失败，请手动检查 Codex 配置："@, files);
    lemma_tells_both(first, "；第三方配置回滚失败，请手动检查 Codex 配置："@, model);
}

/// A repair that was not complete fails the switch, with its first warning.
pub proof fn law_incomplete_repair_fails_a_switch(switch: SwitchView, repair: RepairView)
    requires
        switch.step == SwitchStep::Repair,
        repair.warnings.len() > 0,
    ensures
        ({
            let after = switch.after(SwitchReportView::Unrepaired(repair));
            &&& after.step == SwitchStep::RestoreActive || after.step == SwitchStep::UndoFiles
            &&& after.error matches Some(error) && text::finishes_with(
                error.message(),
                repair.warnings[0],
            )
        }),
{
    let words = switching::repair_words(switch.route);
    let message = crate::activation::incomplete_message(repair.warnings, words);
    let reason = repair.warnings[0];
    assert(message.skip(message.len() - reason.len()) =~= reason);
}

// ---------------------------------------------------------------------------
// Other rounds
// ---------------------------------------------------------------------------

/// The steps of turning to an account, where all goes well.
pub open spec fn turn_path() -> Seq<TurnStep> {
    seq![
        TurnStep::Current,
        TurnStep::Usable,
        TurnStep::Guard,
        TurnStep::TakeOver,
        TurnStep::Renew,
        TurnStep::CurrentAgain,
        TurnStep::Switch,
        TurnStep::Index,
        TurnStep::Over,
    ]
}

/// Turning to an account goes from step to step. A step that fails before the end
/// of the switch ends the round with its error, and a refusal ends it as outdated.
pub proof fn law_turn_keeps_to_its_path(turn: TurnView, i: int, error: ErrorView)
    requires
        0 <= i < turn_path().len() - 1,
        turn.step == turn_path()[i],
    ensures
        turn.after(SaveReportView::Done).step == turn_path()[i + 1],
        turn.after(SaveReportView::Done).error == turn.error,
        turn.after(SaveReportView::Answer(true)) == turn.after(SaveReportView::Done),
        i <= 6 ==> turn.after(SaveReportView::Failed(error)) == (TurnView {
            step: TurnStep::Over,
            error: Some(error),
        }),
        i <= 6 ==> turn.after(SaveReportView::Answer(false)) == (TurnView {
            step: TurnStep::Over,
            error: Some(ErrorView::StaleOperation),
        }),
{
}

/// The models of a service are read, and set where the service is in use and still
/// is. A failure ends the round with its error.
pub proof fn law_models_of_the_service_in_use_are_set(refresh: ModelView, error: ErrorView)
    requires
        refresh.sound(),
    ensures
        refresh.step == ModelStep::Guard ==> refresh.after(SaveReportView::Done).step
            == ModelStep::Fetch,
        refresh.step == ModelStep::Fetch && refresh.active ==> refresh.after(
            SaveReportView::Done,
        ).step == ModelStep::StillActive,
        refresh.step == ModelStep::Fetch && !refresh.active ==> refresh.after(
            SaveReportView::Done,
        ).step == ModelStep::Over,
        refresh.step == ModelStep::StillActive ==> refresh.after(
            SaveReportView::Answer(true),
        ).step == ModelStep::Sync && refresh.after(SaveReportView::Answer(false)).step
            == ModelStep::Over && refresh.after(SaveReportView::Answer(false)).error is None,
        refresh.step == ModelStep::Sync ==> refresh.after(SaveReportView::Done).step
            == ModelStep::Over && refresh.after(SaveReportView::Done).error is None,
        refresh.step == ModelStep::Guard || refresh.step == ModelStep::Fetch || refresh.step
            == ModelStep::StillActive ==> refresh.after(SaveReportView::Failed(error)).step
            == ModelStep::Over,
        refresh.step != ModelStep::Over && refresh.step != ModelStep::Restore ==> refresh.after(
            SaveReportView::Failed(error),
        ).error == Some(error),
        refresh.step == ModelStep::Restore ==> refresh.after(SaveReportView::Done).error
            == refresh.error,
        refresh.step == ModelStep::Restore ==> (refresh.after(
            SaveReportView::Failed(error),
        ).error matches Some(worse) && text::begins_with(
            worse.message(),
            refresh.error->0.message(),
        ) && text::finishes_with(worse.message(), error.message())),
{
    if refresh.step == ModelStep::Restore {
        lemma_tells_both(
            refresh.error->0,
            "；模型缓存回滚失败，请重新刷新当前服务："@,
            error,
        );
    }
}

/// The steps of confirming a change, where all goes well.
pub open spec fn confirm_path() -> Seq<ConfirmStep> {
    seq![
        ConfirmStep::Current,
        ConfirmStep::Guard,
        ConfirmStep::Previous,
        ConfirmStep::Write,
        ConfirmStep::Record,
        ConfirmStep::Over,
    ]
}

/// Confirming a change goes from step to step; a failure before the files were
/// written ends it with its error, and one after that is told with what went wrong
/// in taking back.
pub proof fn law_confirmation_keeps_to_its_path(
    confirmation: ConfirmView,
    i: int,
    error: ErrorView,
    files: ErrorView,
)
    requires
        0 <= i < confirm_path().len() - 1,
        confirmation.step == confirm_path()[i],
    ensures
        confirmation.after(SaveReportView::Done).step == confirm_path()[i + 1],
        confirmation.after(SaveReportView::Done).error == confirmation.error,
        i <= 3 ==> confirmation.after(SaveReportView::Failed(error)).step == ConfirmStep::Over,
        confirmation.after(SaveReportView::Failed(error)).error == Some(error),
        confirmation.after(SaveReportView::Answer(false)).error == Some(ErrorView::StaleOperation),
        confirmation.step == ConfirmStep::Record ==> ({
            let failed = confirmation.after(SaveReportView::Failed(error));
            let undone = failed.after(SaveReportView::Done).after(SaveReportView::Done);
            let worse = failed.after(SaveReportView::Failed(files)).after(SaveReportView::Done);
            &&& undone.error == Some(error)
            &&& worse.error matches Some(told) && text::begins_with(told.message(), error.message())
                && text::finishes_with(told.message(), files.message())
        }),
{
    lemma_tells_both(error, "；Codex 配置回滚失败："@, files);
}

/// A credit that was used: the estimates are cleared, then the details and the
/// quota are read again. Trouble on the way does not stop it, and is told, with the
/// error, at the end.
pub proof fn law_use_of_a_credit(credit: CreditUseView, error: ErrorView)
    ensures
        credit.phase == CreditPhase::Consume ==> {
            &&& credit.after(
                CreditEventView::Consumed(ResetCreditConsumeOutcome::Reset),
            ).phase == CreditPhase::ClearEstimates
            &&& credit.after(
                CreditEventView::Consumed(ResetCreditConsumeOutcome::AlreadyRedeemed),
            ).phase == CreditPhase::ClearEstimates
            &&& credit.after(
                CreditEventView::Consumed(ResetCreditConsumeOutcome::Reset),
            ).outcome == Some(ResetCreditConsumeOutcome::Reset)
            &&& credit.after(CreditEventView::Failed(error)).error == Some(error)
        },
        credit.phase == CreditPhase::ClearEstimates ==> {
            &&& credit.after(CreditEventView::Done).phase == CreditPhase::Details
            &&& credit.after(CreditEventView::Done).troubles == credit.troubles
            &&& credit.after(CreditEventView::Failed(error)).phase == CreditPhase::Details
            &&& is_told_last(credit, credit.after(CreditEventView::Failed(error)), error.message())
            &&& is_told_last(credit, credit.after(CreditEventView::Unread(error)), error.message())
        },
        credit.phase == CreditPhase::Details ==> {
            &&& credit.after(CreditEventView::Done).phase == CreditPhase::Quota
            &&& credit.after(CreditEventView::Done).troubles == credit.troubles
            &&& credit.after(CreditEventView::Failed(error)).phase == CreditPhase::Quota
            &&& is_told_last(credit, credit.after(CreditEventView::Failed(error)), error.message())
        },
        credit.phase == CreditPhase::Quota ==> {
            &&& credit.after(CreditEventView::Told(QuotaStatus::Success, None)).phase
                == CreditPhase::Over
            &&& credit.after(CreditEventView::Told(QuotaStatus::Success, None)).troubles
                == credit.troubles
            &&& credit.after(CreditEventView::Failed(error)).phase == CreditPhase::Over
            &&& is_told_last(credit, credit.after(CreditEventView::Failed(error)), error.message())
            &&& is_told_last(
                credit,
                credit.after(
                    CreditEventView::Told(QuotaStatus::Error, Some(error.message())),
                ),
                error.message(),
            )
        },
{
    let message = error.message();
    lemma_ends_with("旧额度估算清理失败："@, message);
    lemma_ends_with("旧额度估算读取失败："@, message);
    lemma_ends_with("重置卡详情刷新失败："@, message);
    lemma_ends_with("额度刷新失败："@, message);
    assert(message.skip(0) =~= message);
    let troubles = credit.troubles;
    assert(forall|told: Seq<char>| #[trigger] troubles.push(told).drop_last() =~= troubles);
}

proof fn lemma_ends_with(words: Seq<char>, message: Seq<char>)
    ensures
        text::finishes_with(words + message, message),
{
    let all = words + message;
    assert(all.skip(all.len() - message.len()) =~= message);
}

/// Whether one more trouble is told, which ends with a message.
pub open spec fn is_told_last(
    before: CreditUseView,
    after: CreditUseView,
    message: Seq<char>,
) -> bool {
    &&& after.troubles.len() == before.troubles.len() + 1
    &&& after.troubles.drop_last() == before.troubles
    &&& text::finishes_with(after.troubles.last(), message)
    &&& after.outcome == before.outcome
}

// ---------------------------------------------------------------------------
// Memory
// ---------------------------------------------------------------------------

/// As long as there is room nothing that is remembered is lost; without room only
/// the oldest is.
pub proof fn law_memory_is_kept(
    entries: Seq<EntryView>,
    id: Seq<char>,
    content: Option<Seq<char>>,
    i: int,
)
    requires
        0 <= i < entries.len(),
        reasoning::distinct(entries),
        entries[i].id != id,
        entries.len() < 2048 || i > 0,
    ensures
        reasoning::recalled(reasoning::remembered(entries, id, content), entries[i].id)
            == entries[i].content,
{
    let after = reasoning::remembered(entries, id, content);
    let place = lemma_position(entries, id);
    lemma_position(entries, entries[i].id);
    let k = if place < entries.len() || entries.len() < 2048 {
        i
    } else {
        i - 1
    };
    assert(after[k] == entries[i]);
    lemma_first_position(after, entries[i].id, k, entries, id, i);
}

proof fn lemma_position(entries: Seq<EntryView>, id: Seq<char>) -> (place: int)
    ensures
        place == reasoning::entry_position(entries, id),
        0 <= place <= entries.len(),
        place < entries.len() ==> entries[place].id == id,
        forall|k: int| 0 <= k < place ==> (#[trigger] entries[k]).id != id,
    decreases entries.len(),
{
    if entries.len() == 0 || entries[0].id == id {
        0
    } else {
        let rest = entries.drop_first();
        let place = lemma_position(rest, id);
        assert forall|k: int| 0 <= k < place + 1 implies (#[trigger] entries[k]).id != id by {
            if k > 0 {
                assert(rest[k - 1] == entries[k]);
            }
        }
        place + 1
    }
}

proof fn lemma_first_position(
    after: Seq<EntryView>,
    wanted: Seq<char>,
    k: int,
    entries: Seq<EntryView>,
    id: Seq<char>,
    i: int,
)
    requires
        0 <= i < entries.len(),
        reasoning::distinct(entries),
        wanted == entries[i].id,
        wanted != id,
        0 <= k < after.len(),
        after[k].id == wanted,
        k == i || k == i - 1,
        forall|j: int|
            0 <= j < after.len() && j != k ==> (#[trigger] after[j]).id == id || (0 <= j + (i - k)
                < entries.len() && after[j].id == entries[j + (i - k)].id),
    ensures
        reasoning::entry_position(after, wanted) == k,
{
    let place = lemma_position(after, wanted);
    if place < k {
        assert(after[place].id == wanted);
        let j = place + (i - k);
        assert(after[place].id == entries[j].id);
        assert(entries[j].id != entries[i].id);
    } else if place > k {
        assert(after[k].id != wanted);
    }
}

/// A stream that has failed is told as failed; one that has not is ended.
pub proof fn law_failed_runs_fail(
    run: RunView,
    entries: Seq<EntryView>,
    keys: Set<Seq<char>>,
    key: Option<Seq<char>>,
)
    ensures
        run.failed ==> ({
            let end = run.concluded(entries, keys, key);
            &&& end.flow.state.has_failed_event
            &&& !run.flow.state.has_failed_event ==> stream_laws::ends_in_failure(end.flow.out)
            &&& end.entries == entries
            &&& end.keys == keys
        }),
        !run.failed ==> ({
            let end = run.concluded(entries, keys, key);
            &&& end.flow == run.flow.finish(entries).flow
            &&& end.entries == run.flow.finish(entries).entries
            &&& key is None ==> end.keys == keys
            &&& !run.flow.finish(entries).completed ==> end.keys == keys
        }),
{
    stream_laws::lemma_fail_advances(run.flow, run.message);
}

// ---------------------------------------------------------------------------
// Saving a service
// ---------------------------------------------------------------------------

/// A service that is saved: where it lacks models they are read, and where it is in
/// use, and still is, the configuration follows. Without either it is only saved.
pub proof fn law_save_keeps_to_its_path(save: SaveView)
    requires
        save.sound(),
    ensures
        ({
            let done = save.after(SaveReportView::Done);
            let yes = save.after(SaveReportView::Answer(true));
            let no = save.after(SaveReportView::Answer(false));
            &&& save.step == SaveStep::Guard ==> done.step == SaveStep::Save
            &&& save.step == SaveStep::Save && save.needs_models ==> done.step
                == SaveStep::FetchModels
            &&& save.step == SaveStep::Save && !save.needs_models && save.active ==> done.step
                == SaveStep::Sync
            &&& save.step == SaveStep::Save && !save.needs_models && !save.active ==> done.step
                == SaveStep::Over && done.error is None
            &&& save.step == SaveStep::Sync ==> done.step == SaveStep::Over && done.error is None
            &&& save.step == SaveStep::FetchModels && save.active ==> done.step
                == SaveStep::StillActive
            &&& save.step == SaveStep::FetchModels && !save.active ==> done.step == SaveStep::Over
                && done.error is None
            &&& save.step == SaveStep::StillActive ==> yes.step == SaveStep::SameSource && no.step
                == SaveStep::Over && no.error is None
            &&& save.step == SaveStep::SameSource ==> yes.step == SaveStep::SyncModels && no.step
                == SaveStep::Over && no.error == Some(ErrorView::StaleOperation)
            &&& save.step == SaveStep::SyncModels ==> done.step == SaveStep::Over
                && done.error is None
            &&& save.step == SaveStep::StillActiveAfterFailure ==> no.step == SaveStep::Over
                && no.error is None
            &&& save.step == SaveStep::Restore ==> done.step == SaveStep::SyncBack && done.error
                == save.error && no.error == Some(ErrorView::StaleOperation)
            &&& save.step == SaveStep::SyncBack ==> done.step == SaveStep::Over && done.error
                == save.error
        }),
{
}

/// What is said where saving a service fails: the error itself, or the first error
/// and what went wrong in taking back. Models that cannot be read do not fail the
/// save of a service that is not in use.
pub proof fn law_failures_of_a_save(save: SaveView, error: ErrorView)
    requires
        save.sound(),
    ensures
        ({
            let failed = save.after(SaveReportView::Failed(error));
            &&& save.step == SaveStep::Guard || save.step == SaveStep::Save || save.step
                == SaveStep::StillActive || save.step == SaveStep::SameSource ==> failed.step
                == SaveStep::Over && failed.error == Some(error)
            &&& (save.step == SaveStep::Sync || save.step == SaveStep::SyncModels)
                ==> failed.error == Some(error) && (!save.replaces ==> failed.step
                == SaveStep::Over)
            &&& save.step == SaveStep::FetchModels && !save.active ==> failed.step
                == SaveStep::Over && failed.error is None
            &&& save.step == SaveStep::FetchModels && save.active ==> failed.step
                == SaveStep::StillActiveAfterFailure && failed.error == Some(error)
            &&& save.step == SaveStep::Restore || save.step == SaveStep::SyncBack ==> failed.step
                == SaveStep::Over && (failed.error matches Some(worse) && text::begins_with(
                worse.message(),
                save.error->0.message(),
            ) && text::finishes_with(worse.message(), error.message()))
            &&& save.step == SaveStep::StillActiveAfterFailure && save.replaces
                && !(save.error->0 is StaleOperation) ==> ({
                let missing = save.after(SaveReportView::Answer(true));
                missing.step == SaveStep::Restore && (missing.error matches Some(told)
                    && text::finishes_with(told.message(), save.error->0.message()))
            })
            &&& save.step == SaveStep::StillActiveAfterFailure && !save.replaces ==> save.after(
                SaveReportView::Answer(true),
            ).error == save.error
        }),
{
    if let Some(first) = save.error {
        lemma_tells_both(first, "；恢复原服务数据失败，请重新选择连接："@, error);
        lemma_tells_both(first, "；原服务配置恢复失败，请重新选择连接："@, error);
        lemma_ends_with("无法从更新后的服务获取模型列表，已保留原连接："@, first.message());
    }
}

// ---------------------------------------------------------------------------
// What is in use
// ---------------------------------------------------------------------------

/// The service in use is the one that the state names, where it names a service.
pub proof fn law_service_in_use(active: ActiveState)
    ensures
        active.kind == ActiveKind::Provider ==> (active.provider_id matches Some(id)
            ==> rounds::service_in_use(active) == Some(id@)),
        active.kind != ActiveKind::Provider ==> rounds::service_in_use(active) is None,
        active.provider_id is None ==> rounds::service_in_use(active) is None,
{
}

/// Reasoning is kept whole up to 262144 characters, and its beginning beyond.
pub proof fn law_reasoning_is_bounded(content: Seq<char>)
    ensures
        content.len() <= 262144 ==> reasoning::bounded(content) == content,
        content.len() > 262144 ==> reasoning::bounded(content).len() == 262144 && text::begins_with(
            content,
            reasoning::bounded(content),
        ),
{
}

/// A test of a service tells its status where it failed; the version is suggested
/// where nothing was found and the address does not end in it.
pub proof fn law_tests_are_told(status: u16, api_type: ProviderApiType, root: Seq<char>)
    ensures
        text::occurs(
            providers::test_message(false, api_type, status),
            text::decimal(status as nat),
        ),
        providers::ends_in_v1(root + "/v1"@),
        root.len() > 0 && root.last() != '1' ==> !providers::ends_in_v1(root),
{
    reveal_strlit("/v1");
    let start = "连接测试未通过（HTTP "@;
    let number = text::decimal(status as nat);
    let message = providers::test_message(false, api_type, status);
    assert(message.subrange(start.len() as int, (start.len() + number.len()) as int) =~= number);
    assert(text::occurs_at(message, number, start.len() as int));
    let versioned = root + "/v1"@;
    assert(versioned.skip(versioned.len() - 3) =~= "/v1"@);
    if providers::ends_in_v1(root) {
        assert(root.skip(root.len() - 3)[2] == root.last());
    }
}

/// The proxy is reached on this machine, under its port and its path.
pub proof fn law_address_of_the_proxy(port: u16)
    ensures
        text::begins_with(proxy::proxy_address(port), "http://127.0.0.1:"@),
        text::occurs(proxy::proxy_address(port), text::decimal(port as nat)),
        text::finishes_with(proxy::proxy_address(port), "/v1"@),
{
    let start = "http://127.0.0.1:"@;
    let number = text::decimal(port as nat);
    let address = proxy::proxy_address(port);
    assert(address.take(start.len() as int) =~= start);
    assert(address.subrange(start.len() as int, (start.len() + number.len()) as int) =~= number);
    assert(text::occurs_at(address, number, start.len() as int));
    assert(address.skip(address.len() - "/v1"@.len()) =~= "/v1"@);
}

} // verus!
