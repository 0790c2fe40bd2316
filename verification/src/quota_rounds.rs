//! Work on quotas that goes back and forth with the service: reading a quota,
//! estimating what its windows are worth, and using a credit that resets it.

use crate::codex_files::error_of;
use crate::json::{Json, JsonView};
use crate::models::{AppError, ErrorView};
use crate::quota;
use crate::quota::{
    apply_failed_quota_snapshot, apply_successful_quota_snapshot, check_credit, clears_estimates,
    end_estimation, refresh_error, snapshot_moment, status_of_error, validate_idempotency_key,
    windows_to_estimate, EstimationStep, ProviderAccountQuota, QuotaData, QuotaEstimate,
    QuotaEstimateWindowResult, QuotaStatus, QuotaView, RefreshTrouble, ResetCredit,
    ResetCreditConsumeOutcome,
};
use crate::text;
use vstd::prelude::*;

verus! {

// ---------------------------------------------------------------------------
// Reading a quota
// ---------------------------------------------------------------------------

/// How far a quota has been read.
#[derive(Clone, Copy, Debug, PartialEq, Eq, Structural)]
pub enum QuotaPhase {
    Account,
    Fetch,
    FetchAgain,
    Save,
    Over,
}

/// What is to be done next to read a quota.
#[derive(Clone, Copy, Debug, PartialEq, Eq, Structural)]
pub enum QuotaTask {
    /// Get the account ready. Its login is renewed only where that is said.
    Account(bool),
    /// Ask the service.
    Fetch,
    /// Ask the service once more, over a new connection.
    FetchAgain,
    /// Save what is known.
    Save,
    Finished,
}

/// What came of a task.
pub enum QuotaEvent {
    Ready,
    /// The account cannot be used.
    Unusable(AppError),
    /// The service gave the quota, the plan and the credits, at that moment.
    Fetched(QuotaData, Option<String>, Json, i64),
    /// The service gave no quota. The first tells whether to ask again.
    Refused(bool, QuotaStatus, String, Option<String>),
    Saved,
    /// The service cannot be asked at all, or nothing can be saved.
    Failed(AppError),
}

/// What came of a task, as a mathematical value.
pub enum QuotaEventView {
    Ready,
    Unusable(ErrorView),
    Fetched(QuotaData, Option<Seq<char>>, JsonView, i64),
    Refused(bool, QuotaStatus, Seq<char>, Option<Seq<char>>),
    Saved,
    Failed(ErrorView),
}

impl View for QuotaEvent {
    type V = QuotaEventView;

    open spec fn view(&self) -> QuotaEventView {
        match self {
            QuotaEvent::Ready => QuotaEventView::Ready,
            QuotaEvent::Unusable(error) => QuotaEventView::Unusable(error@),
            QuotaEvent::Fetched(data, plan, credits, now) => QuotaEventView::Fetched(
                *data,
                text::string_of(*plan),
                credits@,
                *now,
            ),
            QuotaEvent::Refused(again, status, message, code) => QuotaEventView::Refused(
                *again,
                *status,
                message@,
                text::string_of(*code),
            ),
            QuotaEvent::Saved => QuotaEventView::Saved,
            QuotaEvent::Failed(error) => QuotaEventView::Failed(error@),
        }
    }
}

/// Reading the quota of an account.
pub struct QuotaRefresh {
    active: bool,
    snapshot: ProviderAccountQuota,
    phase: QuotaPhase,
    error: Option<AppError>,
}

/// Reading the quota of an account, as a mathematical value.
pub struct QuotaRefreshView {
    pub active: bool,
    pub snapshot: QuotaView,
    pub phase: QuotaPhase,
    pub error: Option<ErrorView>,
}

impl View for QuotaRefresh {
    type V = QuotaRefreshView;

    closed spec fn view(&self) -> QuotaRefreshView {
        QuotaRefreshView {
            active: self.active,
            snapshot: self.snapshot@,
            phase: self.phase,
            error: error_of(self.error),
        }
    }
}

/// What it means for a quota that the account cannot be used.
pub open spec fn error_status(error: ErrorView) -> QuotaStatus {
    if error is InvalidConfig {
        QuotaStatus::Unauthorized
    } else {
        QuotaStatus::Error
    }
}

impl QuotaRefreshView {
    /// What is to be done next. The login of the account in use is left as it
    /// is: Codex uses it.
    pub open spec fn task(self) -> QuotaTask {
        match self.phase {
            QuotaPhase::Account => QuotaTask::Account(!self.active),
            QuotaPhase::Fetch => QuotaTask::Fetch,
            QuotaPhase::FetchAgain => QuotaTask::FetchAgain,
            QuotaPhase::Save => QuotaTask::Save,
            QuotaPhase::Over => QuotaTask::Finished,
        }
    }

    /// What follows a task.
    pub open spec fn after(self, event: QuotaEventView) -> QuotaRefreshView {
        match (self.phase, event) {
            (QuotaPhase::Account, QuotaEventView::Ready) => QuotaRefreshView {
                phase: QuotaPhase::Fetch,
                ..self
            },
            (QuotaPhase::Account, QuotaEventView::Unusable(error)) => QuotaRefreshView {
                snapshot: self.snapshot.with_failure(error_status(error), error.message(), None),
                phase: QuotaPhase::Save,
                ..self
            },
            (
                QuotaPhase::Fetch | QuotaPhase::FetchAgain,
                QuotaEventView::Fetched(data, plan, credits, now),
            ) => QuotaRefreshView {
                snapshot: self.snapshot.with_reading(data, plan, credits, now),
                phase: QuotaPhase::Save,
                ..self
            },
            (
                QuotaPhase::Fetch | QuotaPhase::FetchAgain,
                QuotaEventView::Refused(again, status, message, code),
            ) => if again && self.phase == QuotaPhase::Fetch {
                QuotaRefreshView { phase: QuotaPhase::FetchAgain, ..self }
            } else {
                QuotaRefreshView {
                    snapshot: self.snapshot.with_failure(status, message, code),
                    phase: QuotaPhase::Save,
                    ..self
                }
            },
            (QuotaPhase::Save, QuotaEventView::Saved) => QuotaRefreshView {
                phase: QuotaPhase::Over,
                ..self
            },
            (
                QuotaPhase::Fetch | QuotaPhase::FetchAgain | QuotaPhase::Save,
                QuotaEventView::Failed(error),
            ) => QuotaRefreshView { phase: QuotaPhase::Over, error: Some(error), ..self },
            _ => self,
        }
    }
}

impl QuotaRefresh {
    /// Reading the quota of an account of which something is known already.
    pub fn new(known: ProviderAccountQuota, active: bool, now: i64) -> (round: Self)
        ensures
            round@ == (QuotaRefreshView {
                active,
                snapshot: QuotaView { last_attempt_at: Some(now), ..known@ },
                phase: QuotaPhase::Account,
                error: None,
            }),
    {
        let mut snapshot = known;
        snapshot.last_attempt_at = Some(now);
        QuotaRefresh { active, snapshot, phase: QuotaPhase::Account, error: None }
    }

    /// What is known of the quota.
    pub fn snapshot(&self) -> (snapshot: &ProviderAccountQuota)
        ensures
            snapshot@ == self@.snapshot,
    {
        &self.snapshot
    }

    /// The quota once it was read and saved, or the error.
    pub fn into_outcome(self) -> (end: Option<Result<ProviderAccountQuota, AppError>>)
        ensures
            end is Some <==> self@.phase == QuotaPhase::Over,
            end matches Some(Ok(quota)) ==> quota@ == self@.snapshot && self@.error is None,
            end matches Some(Err(error)) ==> self@.error == Some(error@),
    {
        match self.phase {
            QuotaPhase::Over => match self.error {
                Some(error) => Some(Err(error)),
                None => Some(Ok(self.snapshot)),
            },
            _ => None,
        }
    }

    /// What is to be done next.
    pub fn task(&self) -> (task: QuotaTask)
        ensures
            task == self@.task(),
    {
        match self.phase {
            QuotaPhase::Account => QuotaTask::Account(!self.active),
            QuotaPhase::Fetch => QuotaTask::Fetch,
            QuotaPhase::FetchAgain => QuotaTask::FetchAgain,
            QuotaPhase::Save => QuotaTask::Save,
            QuotaPhase::Over => QuotaTask::Finished,
        }
    }

    /// Notes what came of the task.
    pub fn report(&mut self, event: QuotaEvent)
        ensures
            final(self)@ == old(self)@.after(event@),
    {
        match (self.phase, event) {
            (QuotaPhase::Account, QuotaEvent::Ready) => {
                self.phase = QuotaPhase::Fetch;
            },
            (QuotaPhase::Account, QuotaEvent::Unusable(error)) => {
                let status = status_of_error(&error);
                apply_failed_quota_snapshot(&mut self.snapshot, status, error.message(), None);
                self.phase = QuotaPhase::Save;
            },
            (
                QuotaPhase::Fetch | QuotaPhase::FetchAgain,
                QuotaEvent::Fetched(data, plan, credits, now),
            ) => {
                apply_successful_quota_snapshot(&mut self.snapshot, data, plan, credits, now);
                self.phase = QuotaPhase::Save;
            },
            (
                QuotaPhase::Fetch | QuotaPhase::FetchAgain,
                QuotaEvent::Refused(again, status, message, code),
            ) => {
                if again && self.phase == QuotaPhase::Fetch {
                    self.phase = QuotaPhase::FetchAgain;
                } else {
                    apply_failed_quota_snapshot(&mut self.snapshot, status, message, code);
                    self.phase = QuotaPhase::Save;
                }
            },
            (QuotaPhase::Save, QuotaEvent::Saved) => {
                self.phase = QuotaPhase::Over;
            },
            (
                QuotaPhase::Fetch | QuotaPhase::FetchAgain | QuotaPhase::Save,
                QuotaEvent::Failed(error),
            ) => {
                self.error = Some(error);
                self.phase = QuotaPhase::Over;
            },
            _ => {},
        }
    }
}

/// The login of the account that Codex uses is never renewed in order to read
/// its quota.
pub proof fn law_login_in_use_is_left_alone(round: QuotaRefreshView, event: QuotaEventView)
    requires
        round.active,
    ensures
        round.task() != QuotaTask::Account(true),
        round.after(event).active,
{
}

/// A service is asked for a quota twice at most: once it was asked again, the
/// round comes to its end.
pub proof fn law_quota_is_asked_for_twice(round: QuotaRefreshView, event: QuotaEventView)
    ensures
        round.phase == QuotaPhase::FetchAgain ==> round.after(event).phase != QuotaPhase::Fetch,
        round.phase == QuotaPhase::FetchAgain && (event is Fetched || event is Refused)
            ==> round.after(event).phase == QuotaPhase::Save,
        round.phase == QuotaPhase::Save || round.phase == QuotaPhase::Over ==> round.after(
            event,
        ).phase == QuotaPhase::Save || round.after(event).phase == QuotaPhase::Over,
{
}

/// Where the service cannot be asked at all, nothing is saved.
pub proof fn law_nothing_is_saved_without_a_service(round: QuotaRefreshView, error: ErrorView)
    requires
        round.phase == QuotaPhase::Fetch || round.phase == QuotaPhase::FetchAgain,
    ensures
        round.after(QuotaEventView::Failed(error)).task() == QuotaTask::Finished,
        round.after(QuotaEventView::Failed(error)).error == Some(error),
{
}

/// A quota that cannot be had leaves the last one that could be as it was,
/// with its estimates.
pub proof fn law_last_quota_is_kept(round: QuotaRefreshView, event: QuotaEventView)
    requires
        !(event is Fetched),
    ensures
        round.after(event).snapshot.data == round.snapshot.data,
        round.after(event).snapshot.fetched_at == round.snapshot.fetched_at,
        round.after(event).snapshot.estimates == round.snapshot.estimates,
        round.after(event).snapshot.reset_credits == round.snapshot.reset_credits,
{
}

// ---------------------------------------------------------------------------
// Estimating
// ---------------------------------------------------------------------------

/// How far the windows of a quota have been estimated.
#[derive(Clone, Copy, Debug, PartialEq, Eq, Structural)]
pub enum EstimationPhase {
    /// Let go of the estimates for the windows that are known.
    ClearOld,
    /// Read the quota.
    Refresh,
    /// Let go of the estimates for the windows that were read.
    ClearNew,
    /// Estimate the windows from what was used up to the moment.
    Estimate,
    /// Save the estimates.
    Save,
    Over,
}

/// What came of a step.
pub enum EstimationEvent {
    Done,
    Failed(AppError),
    Refreshed(ProviderAccountQuota),
    /// The results, and the moment at which they came.
    Estimated(Vec<QuotaEstimateWindowResult>, i64),
}

/// What came of a step, as a mathematical value.
pub enum EstimationEventView {
    Done,
    Failed(ErrorView),
    Refreshed(QuotaView),
    Estimated(Seq<QuotaEstimateWindowResult>, i64),
}

impl View for EstimationEvent {
    type V = EstimationEventView;

    open spec fn view(&self) -> EstimationEventView {
        match self {
            EstimationEvent::Done => EstimationEventView::Done,
            EstimationEvent::Failed(error) => EstimationEventView::Failed(error@),
            EstimationEvent::Refreshed(quota) => EstimationEventView::Refreshed(quota@),
            EstimationEvent::Estimated(results, now) => EstimationEventView::Estimated(
                results@,
                *now,
            ),
        }
    }
}

/// Estimating what the windows of a quota are worth.
pub struct Estimation {
    first_attempt: bool,
    phase: EstimationPhase,
    windows: Vec<(i64, i64, u64)>,
    moment: Result<i64, AppError>,
    estimates: Vec<QuotaEstimate>,
    error: Option<AppError>,
}

/// Estimating what the windows of a quota are worth, as a mathematical value.
pub struct EstimationView {
    pub first_attempt: bool,
    pub phase: EstimationPhase,
    pub windows: Seq<(i64, i64, u64)>,
    pub moment: Result<i64, ErrorView>,
    pub estimates: Seq<QuotaEstimate>,
    pub error: Option<ErrorView>,
}

impl View for Estimation {
    type V = EstimationView;

    closed spec fn view(&self) -> EstimationView {
        EstimationView {
            first_attempt: self.first_attempt,
            phase: self.phase,
            windows: self.windows@,
            moment: quota::moment_result(self.moment),
            estimates: self.estimates@,
            error: error_of(self.error),
        }
    }
}

impl EstimationView {
    /// Before anything is done.
    pub open spec fn begun() -> EstimationView {
        EstimationView {
            first_attempt: true,
            phase: EstimationPhase::ClearOld,
            windows: Seq::empty(),
            moment: Ok(0),
            estimates: Seq::empty(),
            error: None,
        }
    }

    /// The estimation ends with an error.
    pub open spec fn ended(self, error: ErrorView) -> EstimationView {
        EstimationView { phase: EstimationPhase::Over, error: Some(error), ..self }
    }

    /// What follows the results. A window that came to its end on the way has
    /// all of it made once more.
    pub open spec fn with_results(
        self,
        results: Seq<QuotaEstimateWindowResult>,
        now: i64,
    ) -> EstimationView {
        let estimates = quota::made_estimates(results);
        if quota::crossed(results, now) {
            if self.first_attempt {
                EstimationView { first_attempt: false, phase: EstimationPhase::Refresh, ..self }
            } else {
                self.ended(
                    ErrorView::InvalidConfig("估算过程中额度周期再次重置，请稍后重新估算。"@),
                )
            }
        } else {
            EstimationView {
                phase: if estimates.len() == 0 {
                    EstimationPhase::Over
                } else {
                    EstimationPhase::Save
                },
                estimates,
                ..self
            }
        }
    }

    /// What follows a step.
    pub open spec fn after(self, event: EstimationEventView) -> EstimationView {
        match (self.phase, event) {
            (EstimationPhase::Over, _) => self,
            (_, EstimationEventView::Failed(error)) => self.ended(error),
            (EstimationPhase::ClearOld, EstimationEventView::Done) => EstimationView {
                phase: EstimationPhase::Refresh,
                ..self
            },
            (EstimationPhase::Refresh, EstimationEventView::Refreshed(read)) => {
                match quota::estimable(read) {
                    Err(error) => self.ended(error),
                    Ok(windows) => EstimationView {
                        phase: EstimationPhase::ClearNew,
                        windows,
                        moment: quota::moment_of(read),
                        ..self
                    },
                }
            },
            (EstimationPhase::ClearNew, EstimationEventView::Done) => match self.moment {
                Err(error) => self.ended(error),
                Ok(_) => EstimationView { phase: EstimationPhase::Estimate, ..self },
            },
            (EstimationPhase::Estimate, EstimationEventView::Estimated(results, now)) => {
                self.with_results(results, now)
            },
            (EstimationPhase::Save, EstimationEventView::Done) => EstimationView {
                phase: EstimationPhase::Over,
                ..self
            },
            _ => self,
        }
    }
}

impl Estimation {
    /// Before anything is done.
    pub fn new() -> (estimation: Self)
        ensures
            estimation@ == EstimationView::begun(),
    {
        let windows: Vec<(i64, i64, u64)> = Vec::new();
        let estimates: Vec<QuotaEstimate> = Vec::new();
        assert(windows@ =~= Seq::<(i64, i64, u64)>::empty());
        assert(estimates@ =~= Seq::<QuotaEstimate>::empty());
        Estimation {
            first_attempt: true,
            phase: EstimationPhase::ClearOld,
            windows,
            moment: Ok(0),
            estimates,
            error: None,
        }
    }

    /// What is to be done next.
    pub fn phase(&self) -> (phase: EstimationPhase)
        ensures
            phase == self@.phase,
    {
        self.phase
    }

    /// The windows that are to be estimated.
    pub fn windows(&self) -> (windows: &Vec<(i64, i64, u64)>)
        ensures
            windows@ == self@.windows,
    {
        &self.windows
    }

    /// The moment up to which they are to be estimated.
    pub fn moment(&self) -> (moment: Option<i64>)
        ensures
            match moment {
                Some(moment) => self@.moment == Ok::<i64, ErrorView>(moment),
                None => self@.moment is Err,
            },
    {
        match &self.moment {
            Ok(moment) => Some(*moment),
            Err(_) => None,
        }
    }

    /// The estimates that are to be saved.
    pub fn estimates(&self) -> (estimates: &Vec<QuotaEstimate>)
        ensures
            estimates@ == self@.estimates,
    {
        &self.estimates
    }

    /// The error that it ends with so far.
    pub fn error(&self) -> (error: Option<&AppError>)
        ensures
            match error {
                Some(error) => self@.error == Some(error@),
                None => self@.error is None,
            },
    {
        match &self.error {
            Some(error) => Some(error),
            None => None,
        }
    }

    /// The error that it ends with.
    pub fn into_error(self) -> (error: Option<AppError>)
        ensures
            match error {
                Some(error) => self@.error == Some(error@),
                None => self@.error is None,
            },
    {
        self.error
    }

    fn end(&mut self, error: AppError)
        ensures
            final(self)@ == old(self)@.ended(error@),
    {
        self.phase = EstimationPhase::Over;
        self.error = Some(error);
    }

    fn take_results(&mut self, results: &Vec<QuotaEstimateWindowResult>, now: i64)
        ensures
            final(self)@ == old(self)@.with_results(results@, now),
    {
        match end_estimation(results, self.first_attempt, now) {
            EstimationStep::Again => {
                self.first_attempt = false;
                self.phase = EstimationPhase::Refresh;
            },
            EstimationStep::GiveUp(error) => self.end(error),
            EstimationStep::Keep(estimates) => {
                if estimates.len() == 0 {
                    self.phase = EstimationPhase::Over;
                } else {
                    self.phase = EstimationPhase::Save;
                }
                self.estimates = estimates;
            },
        }
    }

    fn leave_new(&mut self)
        ensures
            final(self)@ == match old(self)@.moment {
                Err(error) => old(self)@.ended(error),
                Ok(_) => (EstimationView { phase: EstimationPhase::Estimate, ..old(self)@ }),
            },
    {
        let problem = match &self.moment {
            Ok(_) => None,
            Err(error) => Some(error.duplicate()),
        };
        match problem {
            Some(error) => self.end(error),
            None => {
                self.phase = EstimationPhase::Estimate;
            },
        }
    }

    /// Notes what came of a step.
    pub fn report(&mut self, event: EstimationEvent)
        ensures
            final(self)@ == old(self)@.after(event@),
    {
        match (self.phase, event) {
            (EstimationPhase::Over, _) => {},
            (_, EstimationEvent::Failed(error)) => self.end(error),
            (EstimationPhase::ClearOld, EstimationEvent::Done) => {
                self.phase = EstimationPhase::Refresh;
            },
            (EstimationPhase::Refresh, EstimationEvent::Refreshed(read)) => {
                match windows_to_estimate(&read) {
                    Err(error) => self.end(error),
                    Ok(windows) => {
                        self.windows = windows;
                        self.moment = snapshot_moment(&read);
                        self.phase = EstimationPhase::ClearNew;
                    },
                }
            },
            (EstimationPhase::ClearNew, EstimationEvent::Done) => self.leave_new(),
            (EstimationPhase::Estimate, EstimationEvent::Estimated(results, now)) => {
                self.take_results(&results, now)
            },
            (EstimationPhase::Save, EstimationEvent::Done) => {
                self.phase = EstimationPhase::Over;
            },
            _ => {},
        }
    }
}

/// An estimation is made once more at most.
pub proof fn law_estimation_is_made_again_once(
    estimation: EstimationView,
    event: EstimationEventView,
)
    requires
        !estimation.first_attempt,
    ensures
        !estimation.after(event).first_attempt,
        estimation.phase == EstimationPhase::Estimate ==> estimation.after(event).phase
            != EstimationPhase::Refresh,
{
}

/// Windows are estimated only once the estimates that were there for them are
/// gone, and nothing is saved that was not estimated just before.
pub proof fn law_estimates_replace_old_ones(
    estimation: EstimationView,
    event: EstimationEventView,
)
    ensures
        estimation.after(event).phase == EstimationPhase::Estimate ==> estimation.phase
            == EstimationPhase::Estimate || estimation.phase == EstimationPhase::ClearNew,
        estimation.after(event).phase == EstimationPhase::Save ==> estimation.phase
            == EstimationPhase::Save || estimation.phase == EstimationPhase::Estimate,
        estimation.after(event).phase == EstimationPhase::Save && estimation.phase
            == EstimationPhase::Estimate ==> (event matches EstimationEventView::Estimated(
            results,
            now,
        ) && !quota::crossed(results, now) && estimation.after(event).estimates
            == quota::made_estimates(results)),
{
}

// ---------------------------------------------------------------------------
// Using a credit
// ---------------------------------------------------------------------------

/// How far a credit has been used.
#[derive(Clone, Copy, Debug, PartialEq, Eq, Structural)]
pub enum CreditPhase {
    /// Ask the service which credits the account has.
    List,
    /// Use the credit.
    Consume,
    /// Note that it is not known what came of using the credit.
    MarkUnknown,
    /// Let go of the estimates for the windows that are known.
    ClearEstimates,
    /// Ask the service for the credits that are left.
    Details,
    /// Read the quota.
    Quota,
    Over,
}

/// What came of a step.
pub enum CreditEvent {
    Done,
    Failed(AppError),
    /// The credits of the account, whether an earlier use of this one ended in
    /// doubt, and the moment.
    Listed(Vec<ResetCredit>, bool, i64),
    Consumed(ResetCreditConsumeOutcome),
    /// The windows that are known could not be read.
    Unread(AppError),
    /// The quota has that status, with that message where it has one.
    Told(QuotaStatus, Option<String>),
}

/// What came of a step, as a mathematical value.
pub enum CreditEventView {
    Done,
    Failed(ErrorView),
    Listed(Seq<ResetCredit>, bool, i64),
    Consumed(ResetCreditConsumeOutcome),
    Unread(ErrorView),
    Told(QuotaStatus, Option<Seq<char>>),
}

impl View for CreditEvent {
    type V = CreditEventView;

    open spec fn view(&self) -> CreditEventView {
        match self {
            CreditEvent::Done => CreditEventView::Done,
            CreditEvent::Failed(error) => CreditEventView::Failed(error@),
            CreditEvent::Listed(credits, unknown, now) => CreditEventView::Listed(
                credits@,
                *unknown,
                *now,
            ),
            CreditEvent::Consumed(outcome) => CreditEventView::Consumed(*outcome),
            CreditEvent::Unread(error) => CreditEventView::Unread(error@),
            CreditEvent::Told(status, message) => CreditEventView::Told(
                *status,
                text::string_of(*message),
            ),
        }
    }
}

/// The credits whose use ended in doubt, each with its account, for as long as
/// the application runs.
pub struct ResetCreditOperations {
    unknown: Vec<(String, String)>,
}

/// The pairs as mathematical values.
spec fn pair_views(pairs: Seq<(String, String)>) -> Set<(Seq<char>, Seq<char>)> {
    Set::new(
        |pair: (Seq<char>, Seq<char>)|
            exists|i: int|
                0 <= i < pairs.len() && (#[trigger] pairs[i]).0@ == pair.0 && pairs[i].1@ == pair.1,
    )
}

impl View for ResetCreditOperations {
    type V = Set<(Seq<char>, Seq<char>)>;

    closed spec fn view(&self) -> Set<(Seq<char>, Seq<char>)> {
        pair_views(self.unknown@)
    }
}

impl Default for ResetCreditOperations {
    /// No use has ended in doubt.
    fn default() -> (operations: Self)
        ensures
            operations@ == Set::<(Seq<char>, Seq<char>)>::empty(),
    {
        let operations = ResetCreditOperations { unknown: Vec::new() };
        assert(operations@ =~= Set::<(Seq<char>, Seq<char>)>::empty());
        operations
    }
}

impl ResetCreditOperations {
    /// Whether an earlier use of a credit of the account ended in doubt.
    pub fn is_unknown(&self, account_id: &str, credit_id: &str) -> (unknown: bool)
        ensures
            unknown == self@.contains((account_id@, credit_id@)),
    {
        for index in 0..self.unknown.len()
            invariant
                forall|i: int|
                    0 <= i < index ==> !((#[trigger] self.unknown@[i]).0@ == account_id@
                        && self.unknown@[i].1@ == credit_id@),
        {
            if text::same_text(self.unknown[index].0.as_str(), account_id) && text::same_text(
                self.unknown[index].1.as_str(),
                credit_id,
            ) {
                return true;
            }
        }
        false
    }

    /// Notes that it is not known what came of using a credit of the account.
    pub fn mark_unknown(&mut self, account_id: &str, credit_id: &str)
        ensures
            final(self)@ == old(self)@.insert((account_id@, credit_id@)),
    {
        let ghost before = self.unknown@;
        let pair = (account_id.to_owned(), credit_id.to_owned());
        let ghost noted = before.push(pair);
        self.unknown.push(pair);
        proof {
            let whole = pair_views(before).insert((account_id@, credit_id@));
            assert forall|known: (Seq<char>, Seq<char>)| #[trigger] pair_views(noted).contains(
                known,
            ) <==> whole.contains(known) by {
                if pair_views(before).contains(known) {
                    let i = choose|i: int|
                        0 <= i < before.len() && (#[trigger] before[i]).0@ == known.0
                            && before[i].1@ == known.1;
                    assert(noted[i] == before[i]);
                }
                if known == (account_id@, credit_id@) {
                    assert(noted[before.len() as int] == pair);
                }
                if pair_views(noted).contains(known) {
                    let i = choose|i: int|
                        0 <= i < noted.len() && (#[trigger] noted[i]).0@ == known.0
                            && noted[i].1@ == known.1;
                    if i < before.len() {
                        assert(noted[i] == before[i]);
                    }
                }
            }
            assert(pair_views(noted) =~= whole);
        }
    }
}

/// Using a credit.
pub struct CreditUse {
    credit_id: String,
    phase: CreditPhase,
    outcome: Option<ResetCreditConsumeOutcome>,
    troubles: Vec<RefreshTrouble>,
    error: Option<AppError>,
}

/// Using a credit, as a mathematical value. What goes wrong after it was used
/// is kept in words.
pub struct CreditUseView {
    pub credit_id: Seq<char>,
    pub phase: CreditPhase,
    pub outcome: Option<ResetCreditConsumeOutcome>,
    pub troubles: Seq<Seq<char>>,
    pub error: Option<ErrorView>,
}

impl View for CreditUse {
    type V = CreditUseView;

    closed spec fn view(&self) -> CreditUseView {
        CreditUseView {
            credit_id: self.credit_id@,
            phase: self.phase,
            outcome: self.outcome,
            troubles: quota::trouble_messages(self.troubles@),
            error: error_of(self.error),
        }
    }
}

/// Whether the estimates go with what came of using a credit.
pub open spec fn resets(outcome: ResetCreditConsumeOutcome) -> bool {
    outcome == ResetCreditConsumeOutcome::Reset || outcome
        == ResetCreditConsumeOutcome::AlreadyRedeemed
}

impl CreditUseView {
    /// It ends with an error.
    pub open spec fn ended(self, error: ErrorView) -> CreditUseView {
        CreditUseView { phase: CreditPhase::Over, error: Some(error), ..self }
    }

    /// It goes on.
    pub open spec fn at(self, phase: CreditPhase) -> CreditUseView {
        CreditUseView { phase, ..self }
    }

    /// It goes on, with something to tell.
    pub open spec fn troubled(self, message: Seq<char>, phase: CreditPhase) -> CreditUseView {
        CreditUseView { phase, troubles: self.troubles.push(message), ..self }
    }

    /// What follows the use itself.
    pub open spec fn used(self, outcome: ResetCreditConsumeOutcome) -> CreditUseView {
        CreditUseView {
            outcome: Some(outcome),
            phase: if resets(outcome) {
                CreditPhase::ClearEstimates
            } else if outcome == ResetCreditConsumeOutcome::Unknown {
                CreditPhase::MarkUnknown
            } else {
                CreditPhase::Details
            },
            ..self
        }
    }

    /// What follows a step.
    pub open spec fn after(self, event: CreditEventView) -> CreditUseView {
        match (self.phase, event) {
            (CreditPhase::List, CreditEventView::Failed(error)) => self.ended(error),
            (CreditPhase::List, CreditEventView::Listed(credits, unknown, now)) => {
                match quota::credit_problem(credits, self.credit_id, unknown, now) {
                    Some(error) => self.ended(error),
                    None => self.at(CreditPhase::Consume),
                }
            },
            (CreditPhase::Consume, CreditEventView::Failed(error)) => CreditUseView {
                phase: CreditPhase::MarkUnknown,
                error: Some(error),
                ..self
            },
            (CreditPhase::Consume, CreditEventView::Consumed(outcome)) => self.used(outcome),
            (CreditPhase::MarkUnknown, _) => if self.error is Some {
                self.at(CreditPhase::Over)
            } else {
                self.at(CreditPhase::Details)
            },
            (CreditPhase::ClearEstimates, CreditEventView::Failed(error)) => self.troubled(
                "旧额度估算清理失败："@ + error.message(),
                CreditPhase::Details,
            ),
            (CreditPhase::ClearEstimates, CreditEventView::Unread(error)) => self.troubled(
                "旧额度估算读取失败："@ + error.message(),
                CreditPhase::Details,
            ),
            (CreditPhase::ClearEstimates, _) => self.at(CreditPhase::Details),
            (CreditPhase::Details, CreditEventView::Failed(error)) => self.troubled(
                "重置卡详情刷新失败："@ + error.message(),
                CreditPhase::Quota,
            ),
            (CreditPhase::Details, _) => self.at(CreditPhase::Quota),
            (CreditPhase::Quota, CreditEventView::Failed(error)) => self.troubled(
                "额度刷新失败："@ + error.message(),
                CreditPhase::Over,
            ),
            (CreditPhase::Quota, CreditEventView::Told(status, message)) => {
                if status == QuotaStatus::Success {
                    self.at(CreditPhase::Over)
                } else {
                    self.troubled(
                        match message {
                            Some(message) => message,
                            None => "额度刷新未成功。"@,
                        },
                        CreditPhase::Over,
                    )
                }
            },
            (CreditPhase::Quota, _) => self.at(CreditPhase::Over),
            _ => self,
        }
    }

    /// What holds at every step: it is over with an error or with what came
    /// of using the credit, and after the use there is no error.
    pub open spec fn sound(self) -> bool {
        match self.phase {
            CreditPhase::List | CreditPhase::Consume => self.error is None && self.outcome is None,
            CreditPhase::MarkUnknown => self.error is Some <==> self.outcome is None,
            CreditPhase::ClearEstimates | CreditPhase::Details | CreditPhase::Quota => {
                self.error is None && self.outcome is Some
            },
            CreditPhase::Over => self.error is Some <==> self.outcome is None,
        }
    }
}

impl CreditUse {
    /// Using a credit, under a key by which the service knows the request.
    pub fn new(credit_id: String, idempotency_key: &str) -> (credit: Self)
        ensures
            credit@.sound(),
            credit@.credit_id == credit_id@,
            credit@.outcome is None,
            credit@.troubles == Seq::<Seq<char>>::empty(),
            quota::is_request_key(text::trimmed(idempotency_key@)) ==> credit@.phase
                == CreditPhase::List,
            !quota::is_request_key(text::trimmed(idempotency_key@)) ==> credit@.phase
                == CreditPhase::Over && credit@.error == Some(
                ErrorView::InvalidConfig("重置卡请求标识无效；请关闭确认框后重新开始一次操作。"@),
            ),
    {
        let troubles: Vec<RefreshTrouble> = Vec::new();
        assert(quota::trouble_messages(troubles@) =~= Seq::<Seq<char>>::empty());
        match validate_idempotency_key(idempotency_key) {
            Ok(()) => CreditUse {
                credit_id,
                phase: CreditPhase::List,
                outcome: None,
                troubles,
                error: None,
            },
            Err(error) => CreditUse {
                credit_id,
                phase: CreditPhase::Over,
                outcome: None,
                troubles,
                error: Some(error),
            },
        }
    }

    /// What is to be done next.
    pub fn phase(&self) -> (phase: CreditPhase)
        ensures
            phase == self@.phase,
    {
        self.phase
    }

    fn tell(&mut self, trouble: RefreshTrouble, phase: CreditPhase)
        ensures
            final(self)@ == old(self)@.troubled(quota::trouble_message(trouble), phase),
    {
        let ghost before = self.troubles@;
        self.troubles.push(trouble);
        self.phase = phase;
        assert(quota::trouble_messages(self.troubles@) =~= quota::trouble_messages(before).push(
            quota::trouble_message(trouble),
        ));
    }

    fn end(&mut self, error: AppError)
        ensures
            final(self)@ == old(self)@.ended(error@),
    {
        self.phase = CreditPhase::Over;
        self.error = Some(error);
    }

    fn take_list(&mut self, credits: &Vec<ResetCredit>, unknown: bool, now: i64)
        ensures
            final(self)@ == match quota::credit_problem(
                credits@,
                old(self)@.credit_id,
                unknown,
                now,
            ) {
                Some(error) => old(self)@.ended(error),
                None => old(self)@.at(CreditPhase::Consume),
            },
    {
        match check_credit(credits, self.credit_id.as_str(), unknown, now) {
            Ok(()) => {
                self.phase = CreditPhase::Consume;
            },
            Err(error) => self.end(error),
        }
    }

    fn take_outcome(&mut self, outcome: ResetCreditConsumeOutcome)
        ensures
            final(self)@ == old(self)@.used(outcome),
    {
        self.outcome = Some(outcome);
        if clears_estimates(outcome) {
            self.phase = CreditPhase::ClearEstimates;
        } else if outcome == ResetCreditConsumeOutcome::Unknown {
            self.phase = CreditPhase::MarkUnknown;
        } else {
            self.phase = CreditPhase::Details;
        }
    }

    /// Notes what came of a step.
    pub fn report(&mut self, event: CreditEvent)
        requires
            old(self)@.sound(),
        ensures
            final(self)@ == old(self)@.after(event@),
            final(self)@.sound(),
    {
        match (self.phase, event) {
            (CreditPhase::List, CreditEvent::Failed(error)) => self.end(error),
            (CreditPhase::List, CreditEvent::Listed(credits, unknown, now)) => {
                self.take_list(&credits, unknown, now)
            },
            (CreditPhase::Consume, CreditEvent::Failed(error)) => {
                self.phase = CreditPhase::MarkUnknown;
                self.error = Some(error);
            },
            (CreditPhase::Consume, CreditEvent::Consumed(outcome)) => self.take_outcome(outcome),
            (CreditPhase::MarkUnknown, _) => {
                if self.error.is_some() {
                    self.phase = CreditPhase::Over;
                } else {
                    self.phase = CreditPhase::Details;
                }
            },
            (CreditPhase::ClearEstimates, CreditEvent::Failed(error)) => {
                self.tell(RefreshTrouble::ClearEstimates(error), CreditPhase::Details)
            },
            (CreditPhase::ClearEstimates, CreditEvent::Unread(error)) => {
                self.tell(RefreshTrouble::ReadEstimates(error), CreditPhase::Details)
            },
            (CreditPhase::ClearEstimates, _) => {
                self.phase = CreditPhase::Details;
            },
            (CreditPhase::Details, CreditEvent::Failed(error)) => {
                self.tell(RefreshTrouble::Details(error), CreditPhase::Quota)
            },
            (CreditPhase::Details, _) => {
                self.phase = CreditPhase::Quota;
            },
            (CreditPhase::Quota, CreditEvent::Failed(error)) => {
                self.tell(RefreshTrouble::Quota(error), CreditPhase::Over)
            },
            (CreditPhase::Quota, CreditEvent::Told(status, message)) => {
                if status == QuotaStatus::Success {
                    self.phase = CreditPhase::Over;
                } else {
                    self.tell(RefreshTrouble::QuotaStatus(message), CreditPhase::Over)
                }
            },
            (CreditPhase::Quota, _) => {
                self.phase = CreditPhase::Over;
            },
            _ => {},
        }
    }

    /// What came of it, once it is over: what came of using the credit, with
    /// what went wrong afterwards, or the error.
    pub fn into_outcome(self) -> (end: Option<
        Result<(ResetCreditConsumeOutcome, Option<String>), AppError>,
    >)
        requires
            self@.sound(),
        ensures
            end is Some <==> self@.phase == CreditPhase::Over,
            end matches Some(Err(error)) ==> self@.error == Some(error@),
            end matches Some(Ok((outcome, told))) ==> self@.outcome == Some(outcome)
                && text::string_of(told) == if self@.troubles.len() == 0 {
                None
            } else {
                Some(text::joined(self@.troubles, "；"@))
            },
    {
        match self.phase {
            CreditPhase::Over => match self.error {
                Some(error) => Some(Err(error)),
                None => match self.outcome {
                    Some(outcome) => Some(Ok((outcome, refresh_error(&self.troubles)))),
                    None => None,
                },
            },
            _ => None,
        }
    }
}

/// A credit is used only where the service lists it for the account, it can
/// be used, and no earlier use of it ended in doubt.
pub proof fn law_credit_in_doubt_is_not_used(credit: CreditUseView, event: CreditEventView)
    requires
        credit.phase == CreditPhase::List,
        credit.after(event).phase == CreditPhase::Consume,
    ensures
        event matches CreditEventView::Listed(credits, unknown, now) && !unknown
            && quota::credit_with_id(credits, credit.credit_id) is Some && quota::usable(
            quota::credit_with_id(credits, credit.credit_id)->0,
            now,
        ),
{
}

/// A credit whose use failed or ended with an unknown outcome is never used again
/// in the same session, whatever request key is given: the doubt is noted, more
/// notes only add to it, and whoever is to use the credit is refused before the
/// service is asked to use it.
pub proof fn law_credit_in_doubt_is_never_used_again(
    first: CreditUseView,
    event: CreditEventView,
    account_id: Seq<char>,
    noted: Set<(Seq<char>, Seq<char>)>,
    more: Set<(Seq<char>, Seq<char>)>,
    second: CreditUseView,
    told: CreditEventView,
)
    requires
        first.phase == CreditPhase::Consume,
        event is Failed || event == CreditEventView::Consumed(ResetCreditConsumeOutcome::Unknown),
        noted.insert((account_id, first.credit_id)).subset_of(more),
        second.phase == CreditPhase::List,
        second.credit_id == first.credit_id,
        told matches CreditEventView::Listed(_, unknown, _) ==> unknown == more.contains(
            (account_id, second.credit_id),
        ),
    ensures
        first.after(event).phase == CreditPhase::MarkUnknown,
        second.after(told).phase != CreditPhase::Consume,
        second.after(told).outcome == second.outcome,
        told is Listed ==> second.after(told).phase == CreditPhase::Over && second.after(
            told,
        ).error is Some,
{
    assert(noted.insert((account_id, first.credit_id)).contains((account_id, first.credit_id)));
}

/// What came of using a credit stays, whatever goes wrong afterwards.
pub proof fn law_use_is_not_taken_back(credit: CreditUseView, event: CreditEventView)
    requires
        credit.sound(),
        credit.outcome is Some,
    ensures
        credit.after(event).outcome == credit.outcome,
        credit.after(event).error is None,
{
}

} // verus!
