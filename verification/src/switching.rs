//! Switching what Codex is used with: the steps of a switch, and what is
//! undone, in which order, where one of them fails.

use crate::activation;
use crate::activation::{repair_incomplete_message, RepairResult, RepairView};
use crate::codex_files::error_of;
use crate::models::{AppError, ErrorView};
use vstd::prelude::*;

verus! {

/// Which way a switch goes.
#[derive(Clone, Copy, Debug, PartialEq, Eq, Structural)]
pub enum Route {
    /// The files of Codex are written once more for the account in use.
    SyncOfficial,
    /// The files of Codex are written once more for the service in use.
    SyncProvider,
    /// Codex turns to an account.
    ActivateOfficial,
    /// Codex turns to a service.
    ActivateProvider,
}

/// The steps of a switch.
#[derive(Clone, Copy, Debug, PartialEq, Eq, Structural)]
pub enum SwitchStep {
    /// Make sure that no later switch was asked for.
    Current,
    /// Make sure that Codex is not running.
    Guard,
    /// Read the account or the service, and make sure that it can be used.
    Load,
    /// Ask the service for its models.
    Refresh,
    /// Make sure that the service has a model to use.
    Verify,
    CurrentAgain,
    GuardAgain,
    LoadAgain,
    /// Find out where Codex is sent.
    Target,
    CurrentLast,
    /// Take over a credential that Codex has renewed.
    TakeOver,
    /// Prepare the change to the files of Codex.
    Preview,
    /// Note that a switch begins.
    Begin,
    /// Read which model was written last.
    Previous,
    /// Write the files of Codex.
    Write,
    /// Note which model was written.
    Record,
    /// Read what is in use.
    PreviousActive,
    /// Note what is in use now.
    Activate,
    /// Put the sessions of Codex right.
    Repair,
    /// Note that no model is written any more.
    SaveModel,
    /// Note that the switch was made.
    Confirm,
    /// Note again what was in use before.
    RestoreActive,
    /// Give the files of Codex back what they held.
    UndoFiles,
    /// Note again which model was written before.
    UndoModel,
    /// Write the files of Codex once more for what is in use.
    Compensate,
    /// Note that the switch was not made.
    Cancel,
    Over,
}

/// What came of a step.
pub enum SwitchReport {
    Done,
    Failed(AppError),
    /// A later switch was asked for.
    Outdated,
    /// The sessions could not all be put right.
    Unrepaired(RepairResult),
}

/// What came of a step, as a mathematical value.
pub enum SwitchReportView {
    Done,
    Failed(ErrorView),
    Outdated,
    Unrepaired(RepairView),
}

impl View for SwitchReport {
    type V = SwitchReportView;

    open spec fn view(&self) -> SwitchReportView {
        match self {
            SwitchReport::Done => SwitchReportView::Done,
            SwitchReport::Failed(error) => SwitchReportView::Failed(error@),
            SwitchReport::Outdated => SwitchReportView::Outdated,
            SwitchReport::Unrepaired(repair) => SwitchReportView::Unrepaired(repair@),
        }
    }
}

/// A switch that is under way.
pub struct Switch {
    route: Route,
    step: SwitchStep,
    error: Option<AppError>,
    undo_error: Option<AppError>,
    begun: bool,
    activated: bool,
    repaired: bool,
    closed: bool,
}

/// A switch as a mathematical value.
pub struct SwitchView {
    pub route: Route,
    pub step: SwitchStep,
    pub error: Option<ErrorView>,
    pub undo_error: Option<ErrorView>,
    pub begun: bool,
    pub activated: bool,
    pub repaired: bool,
    pub closed: bool,
}

impl View for Switch {
    type V = SwitchView;

    closed spec fn view(&self) -> SwitchView {
        SwitchView {
            route: self.route,
            step: self.step,
            error: error_of(self.error),
            undo_error: error_of(self.undo_error),
            begun: self.begun,
            activated: self.activated,
            repaired: self.repaired,
            closed: self.closed,
        }
    }
}

/// The first step of a switch.
pub open spec fn first_step(route: Route) -> SwitchStep {
    match route {
        Route::SyncOfficial => SwitchStep::Guard,
        Route::SyncProvider => SwitchStep::Guard,
        Route::ActivateOfficial => SwitchStep::Load,
        Route::ActivateProvider => SwitchStep::Current,
    }
}

/// The step that follows one that went well, while nothing has failed.
pub open spec fn next_step(route: Route, step: SwitchStep) -> SwitchStep {
    match route {
        Route::SyncOfficial => match step {
            SwitchStep::Guard => SwitchStep::TakeOver,
            SwitchStep::TakeOver => SwitchStep::Load,
            SwitchStep::Load => SwitchStep::Write,
            SwitchStep::Write => SwitchStep::Previous,
            SwitchStep::Previous => SwitchStep::Repair,
            SwitchStep::Repair => SwitchStep::SaveModel,
            _ => SwitchStep::Over,
        },
        Route::SyncProvider => match step {
            SwitchStep::Guard => SwitchStep::Load,
            SwitchStep::Load => SwitchStep::Target,
            SwitchStep::Target => SwitchStep::Preview,
            SwitchStep::Preview => SwitchStep::Previous,
            SwitchStep::Previous => SwitchStep::Write,
            SwitchStep::Write => SwitchStep::Record,
            SwitchStep::Record => SwitchStep::Repair,
            _ => SwitchStep::Over,
        },
        Route::ActivateOfficial => match step {
            SwitchStep::Load => SwitchStep::Guard,
            SwitchStep::Guard => SwitchStep::Begin,
            SwitchStep::Begin => SwitchStep::Current,
            SwitchStep::Current => SwitchStep::Previous,
            SwitchStep::Previous => SwitchStep::Write,
            SwitchStep::Write => SwitchStep::PreviousActive,
            SwitchStep::PreviousActive => SwitchStep::Activate,
            SwitchStep::Activate => SwitchStep::Repair,
            SwitchStep::Repair => SwitchStep::Confirm,
            _ => SwitchStep::Over,
        },
        Route::ActivateProvider => match step {
            SwitchStep::Current => SwitchStep::Guard,
            SwitchStep::Guard => SwitchStep::Load,
            SwitchStep::Load => SwitchStep::Refresh,
            SwitchStep::Refresh => SwitchStep::Verify,
            SwitchStep::Verify => SwitchStep::CurrentAgain,
            SwitchStep::CurrentAgain => SwitchStep::GuardAgain,
            SwitchStep::GuardAgain => SwitchStep::LoadAgain,
            SwitchStep::LoadAgain => SwitchStep::Target,
            SwitchStep::Target => SwitchStep::CurrentLast,
            SwitchStep::CurrentLast => SwitchStep::TakeOver,
            SwitchStep::TakeOver => SwitchStep::Preview,
            SwitchStep::Preview => SwitchStep::Begin,
            SwitchStep::Begin => SwitchStep::Previous,
            SwitchStep::Previous => SwitchStep::Write,
            SwitchStep::Write => SwitchStep::Record,
            SwitchStep::Record => SwitchStep::PreviousActive,
            SwitchStep::PreviousActive => SwitchStep::Activate,
            SwitchStep::Activate => SwitchStep::Repair,
            SwitchStep::Repair => SwitchStep::Confirm,
            _ => SwitchStep::Over,
        },
    }
}

/// An error that another one has made worse.
pub open spec fn worsened(error: ErrorView, words: Seq<char>, other: ErrorView) -> ErrorView {
    ErrorView::Internal(error.message() + words + other.message())
}

/// What is told of sessions that could not be put right.
pub open spec fn repair_words(route: Route) -> Seq<char> {
    match route {
        Route::SyncOfficial => "Codex 配置同步已回滚"@,
        Route::SyncProvider => "Codex 配置同步已回滚"@,
        Route::ActivateOfficial => "账号切换已回滚"@,
        Route::ActivateProvider => "连接未切换"@,
    }
}

/// Whether a switch turns to something else.
pub open spec fn is_activation(route: Route) -> bool {
    route == Route::ActivateOfficial || route == Route::ActivateProvider
}

impl SwitchView {
    /// A switch before anything is done.
    pub open spec fn begun_on(route: Route) -> SwitchView {
        SwitchView {
            route,
            step: first_step(route),
            error: None,
            undo_error: None,
            begun: false,
            activated: false,
            repaired: false,
            closed: false,
        }
    }

    /// The switch, at the point where it is only left to be told.
    pub open spec fn given_up(self) -> SwitchView {
        SwitchView {
            step: if self.begun {
                SwitchStep::Cancel
            } else {
                SwitchStep::Over
            },
            ..self
        }
    }

    /// The switch after a step forward that failed.
    pub open spec fn turned_back(self, error: ErrorView) -> SwitchView {
        let failed = SwitchView { error: Some(error), ..self };
        match self.step {
            SwitchStep::Write => if is_activation(self.route) {
                SwitchView { step: SwitchStep::Compensate, ..failed }
            } else {
                failed.given_up()
            },
            SwitchStep::Record => SwitchView { step: SwitchStep::UndoFiles, ..failed },
            SwitchStep::Activate => SwitchView { step: SwitchStep::UndoFiles, ..failed },
            SwitchStep::Repair => if is_activation(self.route) {
                SwitchView { step: SwitchStep::RestoreActive, ..failed }
            } else {
                SwitchView { step: SwitchStep::UndoFiles, ..failed }
            },
            _ => failed.given_up(),
        }
    }

    /// The switch after a step forward that went well.
    pub open spec fn went_on(self) -> SwitchView {
        SwitchView {
            step: next_step(self.route, self.step),
            begun: self.begun || self.step == SwitchStep::Begin,
            activated: self.activated || self.step == SwitchStep::Activate,
            repaired: self.repaired || self.step == SwitchStep::Repair,
            ..self
        }
    }

    /// The switch once it is known whether it is noted again what was in use.
    pub open spec fn active_restored(self, failure: Option<ErrorView>) -> SwitchView {
        match failure {
            None => SwitchView { step: SwitchStep::UndoFiles, ..self },
            Some(failure) => if self.route == Route::ActivateOfficial {
                SwitchView {
                    step: SwitchStep::Compensate,
                    error: Some(worsened(self.error->0, "；恢复原账号状态失败："@, failure)),
                    ..self
                }
            } else {
                SwitchView {
                    step: SwitchStep::UndoFiles,
                    error: Some(worsened(self.error->0, "；恢复原连接状态失败："@, failure)),
                    ..self
                }
            },
        }
    }

    /// The switch once it is known whether the files hold again what they
    /// held.
    pub open spec fn files_undone(self, failure: Option<ErrorView>) -> SwitchView {
        match self.route {
            Route::SyncProvider | Route::ActivateProvider => SwitchView {
                step: SwitchStep::UndoModel,
                undo_error: failure,
                ..self
            },
            Route::SyncOfficial | Route::ActivateOfficial => match failure {
                Some(failure) => {
                    let worse = SwitchView {
                        error: Some(
                            worsened(
                                self.error->0,
                                "；Codex 配置回滚失败，请手动检查配置文件："@,
                                failure,
                            ),
                        ),
                        ..self
                    };
                    if self.route == Route::ActivateOfficial {
                        SwitchView { step: SwitchStep::Compensate, ..worse }
                    } else {
                        worse.given_up()
                    }
                },
                None => if self.route == Route::ActivateOfficial && !self.activated {
                    self.given_up()
                } else {
                    SwitchView { step: SwitchStep::UndoModel, ..self }
                },
            },
        }
    }

    /// The switch once it is known whether it is noted again which model was
    /// written.
    pub open spec fn model_undone(self, failure: Option<ErrorView>) -> SwitchView {
        let first = match self.undo_error {
            Some(error) => Some(error),
            None => failure,
        };
        match self.route {
            Route::SyncOfficial | Route::ActivateOfficial => match failure {
                Some(failure) => SwitchView { error: Some(failure), ..self }.given_up(),
                None => self.given_up(),
            },
            Route::SyncProvider => match first {
                Some(first) => SwitchView {
                    error: Some(worsened(self.error->0, "；Codex 配置回滚失败："@, first)),
                    ..self
                }.given_up(),
                None => self.given_up(),
            },
            Route::ActivateProvider => match first {
                Some(first) => SwitchView {
                    step: SwitchStep::Compensate,
                    error: Some(
                        worsened(
                            self.error->0,
                            "；第三方配置回滚失败，请手动检查 Codex 配置："@,
                            first,
                        ),
                    ),
                    ..self
                },
                None => self.given_up(),
            },
        }
    }

    /// The switch once it is known whether the files were written for what is
    /// in use.
    pub open spec fn compensated(self, failure: Option<ErrorView>) -> SwitchView {
        match failure {
            Some(failure) => SwitchView {
                error: Some(
                    worsened(
                        self.error->0,
                        "；原来的 Codex 连接也未能恢复，请重新选择账号或服务："@,
                        failure,
                    ),
                ),
                ..self
            }.given_up(),
            None => self.given_up(),
        }
    }

    /// What failed, where something did.
    pub open spec fn failure(self, report: SwitchReportView) -> Option<ErrorView> {
        match report {
            SwitchReportView::Done => None,
            SwitchReportView::Failed(error) => Some(error),
            SwitchReportView::Outdated => Some(ErrorView::StaleOperation),
            SwitchReportView::Unrepaired(repair) => Some(
                ErrorView::Internal(
                    activation::incomplete_message(repair.warnings, repair_words(self.route)),
                ),
            ),
        }
    }

    /// The switch after a step.
    pub open spec fn after(self, report: SwitchReportView) -> SwitchView {
        let failure = self.failure(report);
        match self.step {
            SwitchStep::Over => self,
            SwitchStep::Confirm | SwitchStep::Cancel => SwitchView {
                step: SwitchStep::Over,
                closed: true,
                ..self
            },
            SwitchStep::RestoreActive => self.active_restored(failure),
            SwitchStep::UndoFiles => self.files_undone(failure),
            SwitchStep::UndoModel => self.model_undone(failure),
            SwitchStep::Compensate => self.compensated(failure),
            _ => match failure {
                Some(error) => self.turned_back(error),
                None => self.went_on(),
            },
        }
    }
}

fn find_next(route: Route, step: SwitchStep) -> (next: SwitchStep)
    ensures
        next == next_step(route, step),
{
    match route {
        Route::SyncOfficial => match step {
            SwitchStep::Guard => SwitchStep::TakeOver,
            SwitchStep::TakeOver => SwitchStep::Load,
            SwitchStep::Load => SwitchStep::Write,
            SwitchStep::Write => SwitchStep::Previous,
            SwitchStep::Previous => SwitchStep::Repair,
            SwitchStep::Repair => SwitchStep::SaveModel,
            _ => SwitchStep::Over,
        },
        Route::SyncProvider => match step {
            SwitchStep::Guard => SwitchStep::Load,
            SwitchStep::Load => SwitchStep::Target,
            SwitchStep::Target => SwitchStep::Preview,
            SwitchStep::Preview => SwitchStep::Previous,
            SwitchStep::Previous => SwitchStep::Write,
            SwitchStep::Write => SwitchStep::Record,
            SwitchStep::Record => SwitchStep::Repair,
            _ => SwitchStep::Over,
        },
        Route::ActivateOfficial => match step {
            SwitchStep::Load => SwitchStep::Guard,
            SwitchStep::Guard => SwitchStep::Begin,
            SwitchStep::Begin => SwitchStep::Current,
            SwitchStep::Current => SwitchStep::Previous,
            SwitchStep::Previous => SwitchStep::Write,
            SwitchStep::Write => SwitchStep::PreviousActive,
            SwitchStep::PreviousActive => SwitchStep::Activate,
            SwitchStep::Activate => SwitchStep::Repair,
            SwitchStep::Repair => SwitchStep::Confirm,
            _ => SwitchStep::Over,
        },
        Route::ActivateProvider => match step {
            SwitchStep::Current => SwitchStep::Guard,
            SwitchStep::Guard => SwitchStep::Load,
            SwitchStep::Load => SwitchStep::Refresh,
            SwitchStep::Refresh => SwitchStep::Verify,
            SwitchStep::Verify => SwitchStep::CurrentAgain,
            SwitchStep::CurrentAgain => SwitchStep::GuardAgain,
            SwitchStep::GuardAgain => SwitchStep::LoadAgain,
            SwitchStep::LoadAgain => SwitchStep::Target,
            SwitchStep::Target => SwitchStep::CurrentLast,
            SwitchStep::CurrentLast => SwitchStep::TakeOver,
            SwitchStep::TakeOver => SwitchStep::Preview,
            SwitchStep::Preview => SwitchStep::Begin,
            SwitchStep::Begin => SwitchStep::Previous,
            SwitchStep::Previous => SwitchStep::Write,
            SwitchStep::Write => SwitchStep::Record,
            SwitchStep::Record => SwitchStep::PreviousActive,
            SwitchStep::PreviousActive => SwitchStep::Activate,
            SwitchStep::Activate => SwitchStep::Repair,
            SwitchStep::Repair => SwitchStep::Confirm,
            _ => SwitchStep::Over,
        },
    }
}

/// An error that another one has made worse.
pub(crate) fn worsen(error: &AppError, words: &str, other: &AppError) -> (worse: AppError)
    ensures
        worse@ == worsened(error@, words@, other@),
{
    let mut message = error.message();
    message.append(words);
    message.append(other.message().as_str());
    AppError::Internal(message)
}

fn turns_elsewhere(route: Route) -> (answer: bool)
    ensures
        answer == is_activation(route),
{
    match route {
        Route::ActivateOfficial | Route::ActivateProvider => true,
        Route::SyncOfficial | Route::SyncProvider => false,
    }
}

impl Switch {
    /// A switch before anything is done.
    pub fn new(route: Route) -> (switch: Self)
        ensures
            switch@ == SwitchView::begun_on(route),
            switch@.sound(),
    {
        let step = match route {
            Route::SyncOfficial => SwitchStep::Guard,
            Route::SyncProvider => SwitchStep::Guard,
            Route::ActivateOfficial => SwitchStep::Load,
            Route::ActivateProvider => SwitchStep::Current,
        };
        Switch {
            route,
            step,
            error: None,
            undo_error: None,
            begun: false,
            activated: false,
            repaired: false,
            closed: false,
        }
    }

    /// What is to be done next.
    pub fn step(&self) -> (step: SwitchStep)
        ensures
            step == self@.step,
    {
        self.step
    }

    /// The error that it ends with so far.
    pub fn error(&self) -> (error: Option<&AppError>)
        ensures
            match error {
                Some(error) => self@.error == Some(error@),
                None => self@.error is None,
            },
    {
        match &self.error {
            Some(error) => Some(error),
            None => None,
        }
    }

    /// The error that it ends with.
    pub fn into_error(self) -> (error: Option<AppError>)
        ensures
            match error {
                Some(error) => self@.error == Some(error@),
                None => self@.error is None,
            },
    {
        self.error
    }

    /// Whether the change of connection was noted as begun.
    pub fn is_begun(&self) -> (answer: bool)
        ensures
            answer == self@.begun,
    {
        self.begun
    }

    /// Whether the sessions were put right.
    pub fn is_repaired(&self) -> (answer: bool)
        ensures
            answer == self@.repaired,
    {
        self.repaired
    }

    /// Whether what was noted as begun was brought to its end.
    pub fn is_closed(&self) -> (answer: bool)
        ensures
            answer == self@.closed,
    {
        self.closed
    }

    fn give_up(&mut self)
        ensures
            final(self)@ == old(self)@.given_up(),
    {
        if self.begun {
            self.step = SwitchStep::Cancel;
        } else {
            self.step = SwitchStep::Over;
        }
    }

    fn make_worse(&mut self, words: &str, other: &AppError)
        requires
            old(self)@.error is Some,
        ensures
            final(self)@ == (SwitchView {
                error: Some(worsened(old(self)@.error->0, words@, other@)),
                ..old(self)@
            }),
    {
        let worse = match &self.error {
            Some(error) => worsen(error, words, other),
            None => AppError::StaleOperation,
        };
        self.error = Some(worse);
    }

    fn turn_back(&mut self, error: AppError)
        ensures
            final(self)@ == old(self)@.turned_back(error@),
    {
        self.error = Some(error);
        match self.step {
            SwitchStep::Write => {
                if turns_elsewhere(self.route) {
                    self.step = SwitchStep::Compensate;
                } else {
                    self.give_up();
                }
            },
            SwitchStep::Record => {
                self.step = SwitchStep::UndoFiles;
            },
            SwitchStep::Activate => {
                self.step = SwitchStep::UndoFiles;
            },
            SwitchStep::Repair => {
                if turns_elsewhere(self.route) {
                    self.step = SwitchStep::RestoreActive;
                } else {
                    self.step = SwitchStep::UndoFiles;
                }
            },
            _ => self.give_up(),
        }
    }

    fn go_on(&mut self)
        ensures
            final(self)@ == old(self)@.went_on(),
    {
        match self.step {
            SwitchStep::Begin => {
                self.begun = true;
            },
            SwitchStep::Activate => {
                self.activated = true;
            },
            SwitchStep::Repair => {
                self.repaired = true;
            },
            _ => {},
        }
        self.step = find_next(self.route, self.step);
    }

    fn restore_active(&mut self, failure: Option<AppError>)
        requires
            old(self)@.error is Some,
        ensures
            final(self)@ == old(self)@.active_restored(error_of(failure)),
    {
        match failure {
            None => {
                self.step = SwitchStep::UndoFiles;
            },
            Some(failure) => match self.route {
                Route::ActivateOfficial => {
                    self.make_worse("；恢复原账号状态失败：", &failure);
                    self.step = SwitchStep::Compensate;
                },
                _ => {
                    self.make_worse("；恢复原连接状态失败：", &failure);
                    self.step = SwitchStep::UndoFiles;
                },
            },
        }
    }

    fn undo_files(&mut self, failure: Option<AppError>)
        requires
            old(self)@.error is Some,
        ensures
            final(self)@ == old(self)@.files_undone(error_of(failure)),
    {
        match self.route {
            Route::SyncProvider | Route::ActivateProvider => {
                self.step = SwitchStep::UndoModel;
                self.undo_error = failure;
            },
            Route::SyncOfficial => match failure {
                Some(failure) => {
                    self.make_worse("；Codex 配置回滚失败，请手动检查配置文件：", &failure);
                    self.give_up();
                },
                None => {
                    self.step = SwitchStep::UndoModel;
                },
            },
            Route::ActivateOfficial => match failure {
                Some(failure) => {
                    self.make_worse("；Codex 配置回滚失败，请手动检查配置文件：", &failure);
                    self.step = SwitchStep::Compensate;
                },
                None => {
                    if self.activated {
                        self.step = SwitchStep::UndoModel;
                    } else {
                        self.give_up();
                    }
                },
            },
        }
    }

    fn undo_model(&mut self, failure: Option<AppError>)
        requires
            old(self)@.error is Some,
        ensures
            final(self)@ == old(self)@.model_undone(error_of(failure)),
    {
        match self.route {
            Route::SyncOfficial | Route::ActivateOfficial => {
                if let Some(failure) = failure {
                    self.error = Some(failure);
                }
                self.give_up();
            },
            Route::SyncProvider | Route::ActivateProvider => {
                let words = match self.route {
                    Route::SyncProvider => "；Codex 配置回滚失败：",
                    _ => "；第三方配置回滚失败，请手动检查 Codex 配置：",
                };
                let worse = match (&self.error, &self.undo_error, &failure) {
                    (Some(error), Some(undo), _) => Some(worsen(error, words, undo)),
                    (Some(error), None, Some(failure)) => Some(worsen(error, words, failure)),
                    _ => None,
                };
                match worse {
                    Some(worse) => {
                        self.error = Some(worse);
                        match self.route {
                            Route::SyncProvider => self.give_up(),
                            _ => {
                                self.step = SwitchStep::Compensate;
                            },
                        }
                    },
                    None => self.give_up(),
                }
            },
        }
    }

    fn compensate(&mut self, failure: Option<AppError>)
        requires
            old(self)@.error is Some,
        ensures
            final(self)@ == old(self)@.compensated(error_of(failure)),
    {
        if let Some(failure) = failure {
            self.make_worse(
                "；原来的 Codex 连接也未能恢复，请重新选择账号或服务：",
                &failure,
            );
        }
        self.give_up();
    }

    fn read_failure(&self, report: SwitchReport) -> (failure: Option<AppError>)
        ensures
            error_of(failure) == self@.failure(report@),
    {
        match report {
            SwitchReport::Done => None,
            SwitchReport::Failed(error) => Some(error),
            SwitchReport::Outdated => Some(AppError::StaleOperation),
            SwitchReport::Unrepaired(repair) => {
                let words = match self.route {
                    Route::SyncOfficial => "Codex 配置同步已回滚",
                    Route::SyncProvider => "Codex 配置同步已回滚",
                    Route::ActivateOfficial => "账号切换已回滚",
                    Route::ActivateProvider => "连接未切换",
                };
                Some(AppError::Internal(repair_incomplete_message(&repair, words)))
            },
        }
    }

    /// Notes what came of a step.
    pub fn report(&mut self, report: SwitchReport)
        requires
            old(self)@.sound(),
        ensures
            final(self)@ == old(self)@.after(report@),
            final(self)@.sound(),
    {
        proof {
            lemma_sound(self@, report@);
        }
        let failure = self.read_failure(report);
        match self.step {
            SwitchStep::Over => {},
            SwitchStep::Confirm | SwitchStep::Cancel => {
                self.step = SwitchStep::Over;
                self.closed = true;
            },
            SwitchStep::RestoreActive => self.restore_active(failure),
            SwitchStep::UndoFiles => self.undo_files(failure),
            SwitchStep::UndoModel => self.undo_model(failure),
            SwitchStep::Compensate => self.compensate(failure),
            _ => match failure {
                Some(error) => self.turn_back(error),
                None => self.go_on(),
            },
        }
    }
}

// ---------------------------------------------------------------------------
// Laws
// ---------------------------------------------------------------------------

impl SwitchView {
    /// Whether a step undoes something.
    pub open spec fn undoing(self) -> bool {
        ||| self.step == SwitchStep::RestoreActive
        ||| self.step == SwitchStep::UndoFiles
        ||| self.step == SwitchStep::UndoModel
        ||| self.step == SwitchStep::Compensate
        ||| self.step == SwitchStep::Cancel
    }

    /// What holds at every step of a switch. Something is undone only where
    /// something failed. A switch that ended without an error has put all
    /// sessions right. A switch whose beginning was noted has had its end
    /// noted as well.
    pub open spec fn sound(self) -> bool {
        &&& self.undoing() ==> self.error is Some
        &&& !self.undoing() && self.step != SwitchStep::Over ==> self.error is None
        &&& self.error is None && (self.step == SwitchStep::Over || self.step
            == SwitchStep::Confirm || self.step == SwitchStep::SaveModel) ==> self.repaired
        &&& self.step == SwitchStep::Over && self.begun ==> self.closed
        &&& self.step == SwitchStep::Cancel || self.step == SwitchStep::Confirm ==> self.begun
        &&& self.step == SwitchStep::SaveModel ==> self.route == Route::SyncOfficial
        &&& !is_activation(self.route) ==> !self.begun
        &&& self.on_route()
    }

    /// Whether the step belongs to the route.
    pub open spec fn on_route(self) -> bool {
        let fits = match self.step {
            SwitchStep::Over => true,
            SwitchStep::UndoFiles | SwitchStep::UndoModel => true,
            SwitchStep::Compensate => is_activation(self.route),
            SwitchStep::RestoreActive => is_activation(self.route),
            SwitchStep::Cancel | SwitchStep::Confirm => is_activation(self.route),
            SwitchStep::SaveModel => self.route == Route::SyncOfficial,
            SwitchStep::Guard | SwitchStep::Load => true,
            SwitchStep::TakeOver => self.route == Route::SyncOfficial || self.route
                == Route::ActivateProvider,
            SwitchStep::Target | SwitchStep::Preview | SwitchStep::Record => self.route
                == Route::SyncProvider || self.route == Route::ActivateProvider,
            SwitchStep::Write | SwitchStep::Previous => is_activation(self.route) ==> self.begun,
            SwitchStep::Repair => is_activation(self.route) ==> self.begun,
            SwitchStep::Begin => is_activation(self.route),
            SwitchStep::PreviousActive | SwitchStep::Activate => is_activation(self.route)
                && self.begun,
            SwitchStep::Current => is_activation(self.route) && (self.route
                == Route::ActivateOfficial ==> self.begun),
            _ => self.route == Route::ActivateProvider,
        };
        &&& fits
        &&& self.step == SwitchStep::Record && self.route == Route::ActivateProvider ==> self.begun
        &&& self.undoing() && is_activation(self.route) ==> self.begun
    }
}

proof fn lemma_sound(switch: SwitchView, report: SwitchReportView)
    requires
        switch.sound(),
    ensures
        switch.after(report).sound(),
{
}

/// A switch keeps to this at every step: it ends without an error only where
/// all sessions were put right, it undoes only where something failed, and
/// what it notes as begun it notes as made or as not made.
pub proof fn law_no_partial_success(route: Route, switch: SwitchView, report: SwitchReportView)
    requires
        switch.sound(),
    ensures
        SwitchView::begun_on(route).sound(),
        switch.after(report).sound(),
        switch.step == SwitchStep::Over && switch.error is None ==> switch.repaired,
{
    lemma_sound(switch, report);
}

/// Where a step fails after the files were written, the files are given back
/// what they held, or are written once more for what is in use.
pub proof fn law_written_files_are_undone(switch: SwitchView, error: ErrorView)
    requires
        switch.sound(),
        switch.step == SwitchStep::Record || switch.step == SwitchStep::Activate || switch.step
            == SwitchStep::Repair,
    ensures
        ({
            let failed = switch.after(SwitchReportView::Failed(error));
            let restored = failed.after(SwitchReportView::Done);
            let unrestored = failed.after(SwitchReportView::Failed(error));
            ||| failed.step == SwitchStep::UndoFiles
            ||| failed.step == SwitchStep::RestoreActive && restored.step
                == SwitchStep::UndoFiles && (unrestored.step == SwitchStep::UndoFiles
                || unrestored.step == SwitchStep::Compensate)
        }),
{
}

/// A switch that a later one was asked for over changes nothing.
pub proof fn law_outdated_switches_change_nothing(switch: SwitchView)
    requires
        switch.sound(),
        switch.step == SwitchStep::Current || switch.step == SwitchStep::CurrentAgain
            || switch.step == SwitchStep::CurrentLast,
    ensures
        ({
            let after = switch.after(SwitchReportView::Outdated);
            &&& after.error == Some(ErrorView::StaleOperation)
            &&& after.step == SwitchStep::Over || after.step == SwitchStep::Cancel
        }),
{
}

} // verus!
