//! Shorter rounds of work on connections: turning to an account that was
//! found, asking a service for its models, and confirming a change that was
//! prepared.

use crate::activation::{ActiveKind, ActiveState};
use crate::codex_files::error_of;
use crate::models::{AppError, ErrorView};
use crate::providers::{SaveReport, SaveReportView};
use crate::switching::{worsen, worsened};
use crate::text;
use vstd::prelude::*;

verus! {

// ---------------------------------------------------------------------------
// The service in use
// ---------------------------------------------------------------------------

/// The service in use, where one is.
pub open spec fn service_in_use(active: ActiveState) -> Option<Seq<char>> {
    if active.kind == ActiveKind::Provider {
        text::string_of(active.provider_id)
    } else {
        None
    }
}

fn find_service_in_use(active: &ActiveState) -> (id: Option<String>)
    ensures
        text::string_of(id) == service_in_use(*active),
{
    match active.kind {
        ActiveKind::Provider => match &active.provider_id {
            Some(id) => Some(id.clone()),
            None => None,
        },
        _ => None,
    }
}

/// The service whose models are asked for again.
pub fn service_to_refresh(active: &ActiveState) -> (outcome: Result<String, AppError>)
    ensures
        match outcome {
            Ok(id) => service_in_use(*active) == Some(id@),
            Err(error) => {
                &&& service_in_use(*active) is None
                &&& error@ == ErrorView::InvalidConfig(
                    "当前不是第三方 API 服务，无需刷新模型列表。"@,
                )
            },
        },
{
    match find_service_in_use(active) {
        Some(id) => Ok(id),
        None => Err(AppError::invalid("当前不是第三方 API 服务，无需刷新模型列表。")),
    }
}

/// The service whose configuration is shown.
pub fn service_to_preview(active: &ActiveState) -> (outcome: Result<String, AppError>)
    ensures
        match outcome {
            Ok(id) => service_in_use(*active) == Some(id@),
            Err(error) => {
                &&& service_in_use(*active) is None
                &&& error@ == ErrorView::InvalidConfig("请先添加并启用一个第三方 API 服务。"@)
            },
        },
{
    match find_service_in_use(active) {
        Some(id) => Ok(id),
        None => Err(AppError::invalid("请先添加并启用一个第三方 API 服务。")),
    }
}

/// Whether an account is the one that Codex uses.
pub fn is_account_in_use(active: &ActiveState, id: &str) -> (answer: bool)
    ensures
        answer == (active.kind == ActiveKind::Official && text::string_of(active.account_id)
            == Some(id@)),
{
    match active.kind {
        ActiveKind::Official => match &active.account_id {
            Some(account) => text::same_text(account.as_str(), id),
            None => false,
        },
        _ => false,
    }
}

// ---------------------------------------------------------------------------
// Turning to an account
// ---------------------------------------------------------------------------

/// The steps of turning to an official account.
#[derive(Clone, Copy, Debug, PartialEq, Eq, Structural)]
pub enum TurnStep {
    /// Find out whether this is still the latest switch that was asked for.
    Current,
    /// Make sure that the account can be used.
    Usable,
    /// Make sure that Codex is not running.
    Guard,
    /// Take over what Codex has renewed.
    TakeOver,
    /// Renew the login of the account.
    Renew,
    /// The same as the first.
    CurrentAgain,
    /// Switch.
    Switch,
    /// Look again at the sessions that were changed.
    Index,
    /// Look again at all sessions.
    Rebuild,
    Over,
}

/// Turning to an official account.
pub struct AccountTurn {
    step: TurnStep,
    error: Option<AppError>,
}

/// Turning to an official account, as a mathematical value.
pub struct TurnView {
    pub step: TurnStep,
    pub error: Option<ErrorView>,
}

impl View for AccountTurn {
    type V = TurnView;

    closed spec fn view(&self) -> TurnView {
        TurnView { step: self.step, error: error_of(self.error) }
    }
}

/// What went wrong, where something did. The answer no means that what was
/// asked for no longer holds.
pub open spec fn failure_in(report: SaveReportView) -> Option<ErrorView> {
    match report {
        SaveReportView::Done => None,
        SaveReportView::Failed(error) => Some(error),
        SaveReportView::Answer(answer) => if answer {
            None
        } else {
            Some(ErrorView::StaleOperation)
        },
    }
}

fn read_failure(report: SaveReport) -> (failure: Option<AppError>)
    ensures
        error_of(failure) == failure_in(report@),
{
    match report {
        SaveReport::Done => None,
        SaveReport::Failed(error) => Some(error),
        SaveReport::Answer(answer) => if answer {
            None
        } else {
            Some(AppError::StaleOperation)
        },
    }
}

/// The step that follows one that went well.
pub open spec fn next_turn(step: TurnStep) -> TurnStep {
    match step {
        TurnStep::Current => TurnStep::Usable,
        TurnStep::Usable => TurnStep::Guard,
        TurnStep::Guard => TurnStep::TakeOver,
        TurnStep::TakeOver => TurnStep::Renew,
        TurnStep::Renew => TurnStep::CurrentAgain,
        TurnStep::CurrentAgain => TurnStep::Switch,
        TurnStep::Switch => TurnStep::Index,
        TurnStep::Index => TurnStep::Over,
        TurnStep::Rebuild => TurnStep::Over,
        TurnStep::Over => TurnStep::Over,
    }
}

impl TurnView {
    /// What follows a step. Once the switch is made, it stays made.
    pub open spec fn after(self, report: SaveReportView) -> TurnView {
        match failure_in(report) {
            None => TurnView { step: next_turn(self.step), ..self },
            Some(error) => match self.step {
                TurnStep::Over => self,
                TurnStep::Index => TurnView { step: TurnStep::Rebuild, ..self },
                TurnStep::Rebuild => TurnView { step: TurnStep::Over, ..self },
                _ => TurnView { step: TurnStep::Over, error: Some(error) },
            },
        }
    }
}

impl AccountTurn {
    /// Before anything is done.
    pub fn new() -> (turn: Self)
        ensures
            turn@ == (TurnView { step: TurnStep::Current, error: None }),
    {
        AccountTurn { step: TurnStep::Current, error: None }
    }

    /// What is to be done next.
    pub fn step(&self) -> (step: TurnStep)
        ensures
            step == self@.step,
    {
        self.step
    }

    /// The error that it ends with so far.
    pub fn error(&self) -> (error: Option<&AppError>)
        ensures
            match error {
                Some(error) => self@.error == Some(error@),
                None => self@.error is None,
            },
    {
        match &self.error {
            Some(error) => Some(error),
            None => None,
        }
    }

    /// The error that it ends with.
    pub fn into_error(self) -> (error: Option<AppError>)
        ensures
            match error {
                Some(error) => self@.error == Some(error@),
                None => self@.error is None,
            },
    {
        self.error
    }

    /// Notes what came of a step.
    pub fn report(&mut self, report: SaveReport)
        ensures
            final(self)@ == old(self)@.after(report@),
    {
        match read_failure(report) {
            None => {
                self.step =
                match self.step {
                    TurnStep::Current => TurnStep::Usable,
                    TurnStep::Usable => TurnStep::Guard,
                    TurnStep::Guard => TurnStep::TakeOver,
                    TurnStep::TakeOver => TurnStep::Renew,
                    TurnStep::Renew => TurnStep::CurrentAgain,
                    TurnStep::CurrentAgain => TurnStep::Switch,
                    TurnStep::Switch => TurnStep::Index,
                    TurnStep::Index => TurnStep::Over,
                    TurnStep::Rebuild => TurnStep::Over,
                    TurnStep::Over => TurnStep::Over,
                };
            },
            Some(error) => match self.step {
                TurnStep::Over => {},
                TurnStep::Index => {
                    self.step = TurnStep::Rebuild;
                },
                TurnStep::Rebuild => {
                    self.step = TurnStep::Over;
                },
                _ => {
                    self.step = TurnStep::Over;
                    self.error = Some(error);
                },
            },
        }
    }
}

/// An account is switched to only once everything before that went well, and
/// the switch was still the latest one when its login had been renewed.
pub proof fn law_switch_comes_last(turn: TurnView, report: SaveReportView)
    requires
        turn.step != TurnStep::Switch,
        turn.after(report).step == TurnStep::Switch,
    ensures
        turn.step == TurnStep::CurrentAgain,
        failure_in(report) is None,
{
}

/// A switch that was made does not fail for the sake of the list of sessions.
pub proof fn law_index_does_not_fail_a_switch(turn: TurnView, report: SaveReportView)
    requires
        turn.step == TurnStep::Index || turn.step == TurnStep::Rebuild,
    ensures
        turn.after(report).error == turn.error,
        turn.step == TurnStep::Index && failure_in(report) is Some ==> turn.after(report).step
            == TurnStep::Rebuild,
{
}

// ---------------------------------------------------------------------------
// Asking a service for its models
// ---------------------------------------------------------------------------

/// The steps of asking a service for its models.
#[derive(Clone, Copy, Debug, PartialEq, Eq, Structural)]
pub enum ModelStep {
    /// Make sure that Codex is not running.
    Guard,
    /// Ask the service, and save its models.
    Fetch,
    /// Find out whether the service is still in use.
    StillActive,
    /// Write the files of Codex for the service and its models.
    Sync,
    /// Save the service as it was, unless it was changed since.
    Restore,
    Over,
}

/// Asking a service for its models. It is known whether the service was in
/// use at the start.
pub struct ModelRefresh {
    active: bool,
    step: ModelStep,
    error: Option<AppError>,
}

/// Asking a service for its models, as a mathematical value.
pub struct ModelView {
    pub active: bool,
    pub step: ModelStep,
    pub error: Option<ErrorView>,
}

impl View for ModelRefresh {
    type V = ModelView;

    closed spec fn view(&self) -> ModelView {
        ModelView { active: self.active, step: self.step, error: error_of(self.error) }
    }
}

impl ModelView {
    /// It ends with an error.
    pub open spec fn ended(self, error: ErrorView) -> ModelView {
        ModelView { step: ModelStep::Over, error: Some(error), ..self }
    }

    /// It goes on.
    pub open spec fn at(self, step: ModelStep) -> ModelView {
        ModelView { step, ..self }
    }

    /// What follows a step.
    pub open spec fn after(self, report: SaveReportView) -> ModelView {
        match (self.step, report) {
            (ModelStep::Over, _) => self,
            (ModelStep::Guard, SaveReportView::Failed(error)) => self.ended(error),
            (ModelStep::Guard, _) => self.at(ModelStep::Fetch),
            (ModelStep::Fetch, SaveReportView::Failed(error)) => self.ended(error),
            (ModelStep::Fetch, _) => self.at(
                if self.active {
                    ModelStep::StillActive
                } else {
                    ModelStep::Over
                },
            ),
            (ModelStep::StillActive, SaveReportView::Failed(error)) => self.ended(error),
            (ModelStep::StillActive, SaveReportView::Answer(false)) => self.at(ModelStep::Over),
            (ModelStep::StillActive, _) => self.at(ModelStep::Sync),
            (ModelStep::Sync, SaveReportView::Failed(error)) => ModelView {
                step: ModelStep::Restore,
                error: Some(error),
                ..self
            },
            (ModelStep::Sync, _) => self.at(ModelStep::Over),
            (ModelStep::Restore, SaveReportView::Failed(failure)) => self.ended(
                worsened(
                    self.error->0,
                    "；模型缓存回滚失败，请重新刷新当前服务："@,
                    failure,
                ),
            ),
            (ModelStep::Restore, SaveReportView::Answer(false)) => self.ended(
                ErrorView::StaleOperation,
            ),
            (ModelStep::Restore, _) => self.at(ModelStep::Over),
        }
    }

    /// Whether an error is there where the steps need one, and only a service
    /// that was in use is written for.
    pub open spec fn sound(self) -> bool {
        &&& self.step == ModelStep::Restore ==> self.error is Some
        &&& self.step != ModelStep::Restore && self.step != ModelStep::Over ==> self.error is None
        &&& self.step == ModelStep::StillActive || self.step == ModelStep::Sync || self.step
            == ModelStep::Restore ==> self.active
    }
}

impl ModelRefresh {
    /// Before anything is done. `guarded` says whether Codex must not run.
    pub fn new(active: bool, guarded: bool) -> (refresh: Self)
        ensures
            refresh@ == (ModelView {
                active,
                step: if guarded {
                    ModelStep::Guard
                } else {
                    ModelStep::Fetch
                },
                error: None,
            }),
            refresh@.sound(),
    {
        ModelRefresh {
            active,
            step: if guarded {
                ModelStep::Guard
            } else {
                ModelStep::Fetch
            },
            error: None,
        }
    }

    /// What is to be done next.
    pub fn step(&self) -> (step: ModelStep)
        ensures
            step == self@.step,
    {
        self.step
    }

    /// The error that it ends with so far.
    pub fn error(&self) -> (error: Option<&AppError>)
        ensures
            match error {
                Some(error) => self@.error == Some(error@),
                None => self@.error is None,
            },
    {
        match &self.error {
            Some(error) => Some(error),
            None => None,
        }
    }

    /// The error that it ends with.
    pub fn into_error(self) -> (error: Option<AppError>)
        ensures
            match error {
                Some(error) => self@.error == Some(error@),
                None => self@.error is None,
            },
    {
        self.error
    }

    fn end(&mut self, error: AppError)
        ensures
            final(self)@ == old(self)@.ended(error@),
    {
        self.step = ModelStep::Over;
        self.error = Some(error);
    }

    fn fail_to_restore(&mut self, failure: &AppError)
        requires
            old(self)@.error is Some,
        ensures
            final(self)@ == old(self)@.ended(
                worsened(
                    old(self)@.error->0,
                    "；模型缓存回滚失败，请重新刷新当前服务："@,
                    failure@,
                ),
            ),
    {
        let worse = match &self.error {
            Some(error) => worsen(
                error,
                "；模型缓存回滚失败，请重新刷新当前服务：",
                failure,
            ),
            None => AppError::StaleOperation,
        };
        self.end(worse);
    }

    /// Notes what came of a step.
    pub fn report(&mut self, report: SaveReport)
        requires
            old(self)@.sound(),
        ensures
            final(self)@ == old(self)@.after(report@),
            final(self)@.sound(),
    {
        match (self.step, report) {
            (ModelStep::Over, _) => {},
            (ModelStep::Restore, SaveReport::Failed(failure)) => self.fail_to_restore(&failure),
            (ModelStep::Sync, SaveReport::Failed(error)) => {
                self.step = ModelStep::Restore;
                self.error = Some(error);
            },
            (_, SaveReport::Failed(error)) => self.end(error),
            (ModelStep::Guard, _) => {
                self.step = ModelStep::Fetch;
            },
            (ModelStep::Fetch, _) => {
                if self.active {
                    self.step = ModelStep::StillActive;
                } else {
                    self.step = ModelStep::Over;
                }
            },
            (ModelStep::StillActive, SaveReport::Answer(false)) => {
                self.step = ModelStep::Over;
            },
            (ModelStep::StillActive, _) => {
                self.step = ModelStep::Sync;
            },
            (ModelStep::Sync, _) => {
                self.step = ModelStep::Over;
            },
            (ModelStep::Restore, SaveReport::Answer(false)) => self.end(AppError::StaleOperation),
            (ModelStep::Restore, _) => {
                self.step = ModelStep::Over;
            },
        }
    }
}

/// A service that was not in use when its models were asked for is never
/// written for and never taken back, even if it came into use since.
pub proof fn law_unused_service_is_left_alone(refresh: ModelView, report: SaveReportView)
    requires
        refresh.sound(),
        !refresh.active,
    ensures
        !refresh.after(report).active,
        refresh.after(report).step != ModelStep::Sync,
        refresh.after(report).step != ModelStep::Restore,
{
}

/// Models for which the files of Codex cannot be written are taken back, and
/// the error is told; where the service was changed since, it is left as it
/// is.
pub proof fn law_models_are_taken_back(refresh: ModelView, report: SaveReportView)
    requires
        refresh.sound(),
    ensures
        refresh.step == ModelStep::Sync && report is Failed ==> refresh.after(report).step
            == ModelStep::Restore,
        refresh.step == ModelStep::Restore ==> refresh.after(report).step == ModelStep::Over
            && refresh.after(report).error is Some,
        refresh.step == ModelStep::Restore && report == SaveReportView::Answer(false)
            ==> refresh.after(report).error == Some(ErrorView::StaleOperation),
{
}

// ---------------------------------------------------------------------------
// Confirming a change
// ---------------------------------------------------------------------------

/// The steps of confirming a change that was prepared.
#[derive(Clone, Copy, Debug, PartialEq, Eq, Structural)]
pub enum ConfirmStep {
    /// Find out whether this is still the latest switch that was asked for.
    Current,
    /// Make sure that Codex is not running.
    Guard,
    /// Note the model that was written last.
    Previous,
    /// Write the files.
    Write,
    /// Note the model that was written.
    Record,
    /// Give the files back what they held.
    UndoFiles,
    /// Note the earlier model again.
    UndoModel,
    Over,
}

/// Confirming a change that was prepared.
pub struct Confirmation {
    step: ConfirmStep,
    error: Option<AppError>,
    undo_error: Option<AppError>,
}

/// Confirming a change that was prepared, as a mathematical value.
pub struct ConfirmView {
    pub step: ConfirmStep,
    pub error: Option<ErrorView>,
    pub undo_error: Option<ErrorView>,
}

impl View for Confirmation {
    type V = ConfirmView;

    closed spec fn view(&self) -> ConfirmView {
        ConfirmView {
            step: self.step,
            error: error_of(self.error),
            undo_error: error_of(self.undo_error),
        }
    }
}

/// The first of two errors, where there is one.
pub open spec fn first_error(one: Option<ErrorView>, other: Option<ErrorView>) -> Option<ErrorView> {
    match one {
        Some(error) => Some(error),
        None => other,
    }
}

impl ConfirmView {
    /// It ends with an error.
    pub open spec fn ended(self, error: ErrorView) -> ConfirmView {
        ConfirmView { step: ConfirmStep::Over, error: Some(error), ..self }
    }

    /// It goes on.
    pub open spec fn at(self, step: ConfirmStep) -> ConfirmView {
        ConfirmView { step, ..self }
    }

    /// What follows a step. What cannot be undone is told as well.
    pub open spec fn after(self, report: SaveReportView) -> ConfirmView {
        let failure = failure_in(report);
        match self.step {
            ConfirmStep::Over => self,
            ConfirmStep::UndoFiles => ConfirmView {
                step: ConfirmStep::UndoModel,
                undo_error: failure,
                ..self
            },
            ConfirmStep::UndoModel => match first_error(self.undo_error, failure) {
                Some(undo) => self.ended(
                    worsened(self.error->0, "；Codex 配置回滚失败："@, undo),
                ),
                None => self.at(ConfirmStep::Over),
            },
            ConfirmStep::Record => match failure {
                Some(error) => ConfirmView {
                    step: ConfirmStep::UndoFiles,
                    error: Some(error),
                    ..self
                },
                None => self.at(ConfirmStep::Over),
            },
            _ => match failure {
                Some(error) => self.ended(error),
                None => self.at(
                    match self.step {
                        ConfirmStep::Current => ConfirmStep::Guard,
                        ConfirmStep::Guard => ConfirmStep::Previous,
                        ConfirmStep::Previous => ConfirmStep::Write,
                        _ => ConfirmStep::Record,
                    },
                ),
            },
        }
    }

    /// Whether an error is there where the steps need one.
    pub open spec fn sound(self) -> bool {
        &&& self.step == ConfirmStep::UndoFiles || self.step == ConfirmStep::UndoModel
            ==> self.error is Some
        &&& self.step != ConfirmStep::UndoFiles && self.step != ConfirmStep::UndoModel && self.step
            != ConfirmStep::Over ==> self.error is None
    }
}

impl Confirmation {
    /// Before anything is done.
    pub fn new() -> (confirmation: Self)
        ensures
            confirmation@ == (ConfirmView {
                step: ConfirmStep::Current,
                error: None,
                undo_error: None,
            }),
            confirmation@.sound(),
    {
        Confirmation { step: ConfirmStep::Current, error: None, undo_error: None }
    }

    /// What is to be done next.
    pub fn step(&self) -> (step: ConfirmStep)
        ensures
            step == self@.step,
    {
        self.step
    }

    /// The error that it ends with so far.
    pub fn error(&self) -> (error: Option<&AppError>)
        ensures
            match error {
                Some(error) => self@.error == Some(error@),
                None => self@.error is None,
            },
    {
        match &self.error {
            Some(error) => Some(error),
            None => None,
        }
    }

    /// The error that it ends with.
    pub fn into_error(self) -> (error: Option<AppError>)
        ensures
            match error {
                Some(error) => self@.error == Some(error@),
                None => self@.error is None,
            },
    {
        self.error
    }

    fn end(&mut self, error: AppError)
        ensures
            final(self)@ == old(self)@.ended(error@),
    {
        self.step = ConfirmStep::Over;
        self.error = Some(error);
    }

    fn undo_model(&mut self, failure: Option<AppError>)
        requires
            old(self)@.step == ConfirmStep::UndoModel,
            old(self)@.error is Some,
        ensures
            final(self)@ == match first_error(old(self)@.undo_error, error_of(failure)) {
                Some(undo) => old(self)@.ended(
                    worsened(old(self)@.error->0, "；Codex 配置回滚失败："@, undo),
                ),
                None => old(self)@.at(ConfirmStep::Over),
            },
    {
        let worse = match (&self.error, &self.undo_error, &failure) {
            (Some(error), Some(undo), _) => Some(
                worsen(error, "；Codex 配置回滚失败：", undo),
            ),
            (Some(error), None, Some(undo)) => Some(
                worsen(error, "；Codex 配置回滚失败：", undo),
            ),
            _ => None,
        };
        match worse {
            Some(worse) => self.end(worse),
            None => {
                self.step = ConfirmStep::Over;
            },
        }
    }

    /// Notes what came of a step.
    pub fn report(&mut self, report: SaveReport)
        requires
            old(self)@.sound(),
        ensures
            final(self)@ == old(self)@.after(report@),
            final(self)@.sound(),
    {
        let failure = read_failure(report);
        match self.step {
            ConfirmStep::Over => {},
            ConfirmStep::UndoFiles => {
                self.step = ConfirmStep::UndoModel;
                self.undo_error = failure;
            },
            ConfirmStep::UndoModel => self.undo_model(failure),
            ConfirmStep::Record => match failure {
                Some(error) => {
                    self.step = ConfirmStep::UndoFiles;
                    self.error = Some(error);
                },
                None => {
                    self.step = ConfirmStep::Over;
                },
            },
            _ => match failure {
                Some(error) => self.end(error),
                None => {
                    self.step =
                    match self.step {
                        ConfirmStep::Current => ConfirmStep::Guard,
                        ConfirmStep::Guard => ConfirmStep::Previous,
                        ConfirmStep::Previous => ConfirmStep::Write,
                        _ => ConfirmStep::Record,
                    };
                },
            },
        }
    }
}

/// Files that were written are undone where the model cannot be noted, and
/// confirming then ends with an error.
pub proof fn law_confirmed_files_are_undone(
    confirmation: ConfirmView,
    report: SaveReportView,
    files: SaveReportView,
    model: SaveReportView,
)
    requires
        confirmation.step == ConfirmStep::Record,
        failure_in(report) is Some,
    ensures
        confirmation.after(report).step == ConfirmStep::UndoFiles,
        confirmation.after(report).after(files).step == ConfirmStep::UndoModel,
        confirmation.after(report).after(files).after(model).step == ConfirmStep::Over,
        confirmation.after(report).after(files).after(model).error is Some,
{
}

} // verus!
