//! Keeping the credentials of official accounts fresh: when one is refreshed,
//! what is noted of it, and who may rotate it.

use crate::models::{AppError, CodexAuthCredential};
use crate::quota::{ProviderAccountQuota, QuotaStatus};
use crate::text;
use vstd::prelude::*;

verus! {

/// How long before it expires a credential is refreshed, in seconds.
pub const REFRESH_WINDOW_SECS: i64 = 172800;

/// How often a credential that tells no expiry is refreshed, in seconds.
pub const UNKNOWN_EXPIRY_RETRY_SECS: i64 = 86400;

/// What is known of the freshness of a credential.
#[derive(Clone, Copy, Debug, PartialEq, Eq, Structural)]
pub enum CredentialRefreshStatus {
    Unknown,
    Healthy,
    WaitingRetry,
    ReauthenticationRequired,
    NotRefreshable,
    ManagedByCodex,
}

/// What an online check found of a login.
#[derive(Clone, Copy, Debug, PartialEq, Eq, Structural)]
pub enum LoginVerificationStatus {
    Never,
    Valid,
    Invalid,
    WorkspaceOrPermission,
    CheckFailed,
}

/// What is noted of the freshness of a credential.
#[derive(Clone, Copy, Debug)]
pub struct CredentialRefreshState {
    pub status: CredentialRefreshStatus,
    pub last_attempt_at: Option<i64>,
    pub last_success_at: Option<i64>,
    pub next_retry_at: Option<i64>,
    pub retry_count: u8,
    pub last_refresh_at: Option<i64>,
    pub last_sync_at: Option<i64>,
    pub last_check_at: Option<i64>,
    pub verification: LoginVerificationStatus,
}

impl Default for CredentialRefreshState {
    /// Nothing is known yet.
    fn default() -> (state: Self)
        ensures
            state == nothing_noted(),
    {
        CredentialRefreshState {
            status: CredentialRefreshStatus::Unknown,
            last_attempt_at: None,
            last_success_at: None,
            next_retry_at: None,
            retry_count: 0,
            last_refresh_at: None,
            last_sync_at: None,
            last_check_at: None,
            verification: LoginVerificationStatus::Never,
        }
    }
}

/// What is noted before anything is known.
pub open spec fn nothing_noted() -> CredentialRefreshState {
    CredentialRefreshState {
        status: CredentialRefreshStatus::Unknown,
        last_attempt_at: None,
        last_success_at: None,
        next_retry_at: None,
        retry_count: 0,
        last_refresh_at: None,
        last_sync_at: None,
        last_check_at: None,
        verification: LoginVerificationStatus::Never,
    }
}

/// What is to be done with a credential.
#[derive(Clone, Copy, Debug, PartialEq, Eq, Structural)]
pub enum MaintenanceDecision {
    NotRefreshable,
    ReauthenticationRequired,
    WaitingRetry,
    Unchanged,
    Refresh,
}

// ---------------------------------------------------------------------------
// Whether to refresh
// ---------------------------------------------------------------------------

/// A number held within the range of a moment.
pub open spec fn clamped(value: int) -> i64 {
    if value > i64::MAX {
        i64::MAX
    } else if value < i64::MIN {
        i64::MIN
    } else {
        value as i64
    }
}

fn add_clamped(one: i64, other: i64) -> (sum: i64)
    ensures
        sum == clamped(one + other),
{
    let sum: i128 = one as i128 + other as i128;
    if sum > i64::MAX as i128 {
        i64::MAX
    } else if sum < i64::MIN as i128 {
        i64::MIN
    } else {
        sum as i64
    }
}

fn subtract_clamped(one: i64, other: i64) -> (difference: i64)
    ensures
        difference == clamped(one - other),
{
    let difference: i128 = one as i128 - other as i128;
    if difference > i64::MAX as i128 {
        i64::MAX
    } else if difference < i64::MIN as i128 {
        i64::MIN
    } else {
        difference as i64
    }
}

/// Whether a credential expires soon enough to be refreshed.
pub open spec fn expires_soon(expires_at: Option<i64>, now: i64) -> bool {
    match expires_at {
        Some(expires_at) => expires_at <= clamped(now + REFRESH_WINDOW_SECS),
        None => false,
    }
}

/// Whether a credential expires soon enough to be refreshed.
pub fn needs_credential_refresh(expires_at: Option<i64>, now: i64) -> (needed: bool)
    ensures
        needed == expires_soon(expires_at, now),
{
    match expires_at {
        Some(expires_at) => expires_at <= add_clamped(now, REFRESH_WINDOW_SECS),
        None => false,
    }
}

/// Whether a credential that tells no expiry is due.
pub open spec fn check_is_due(last_attempt_at: Option<i64>, now: i64) -> bool {
    match last_attempt_at {
        Some(last) => clamped(now - last) >= UNKNOWN_EXPIRY_RETRY_SECS,
        None => true,
    }
}

/// What is to be done with a credential.
pub open spec fn decided(
    refresh_token: Seq<char>,
    expires_at: Option<i64>,
    state: CredentialRefreshState,
    now: i64,
    force: bool,
) -> MaintenanceDecision {
    if text::blank(refresh_token) {
        MaintenanceDecision::NotRefreshable
    } else if state.status == CredentialRefreshStatus::ReauthenticationRequired {
        MaintenanceDecision::ReauthenticationRequired
    } else if state.next_retry_at is Some && state.next_retry_at->0 > now {
        MaintenanceDecision::WaitingRetry
    } else if force || expires_soon(expires_at, now) || (expires_at is None && check_is_due(
        state.last_attempt_at,
        now,
    )) {
        MaintenanceDecision::Refresh
    } else {
        MaintenanceDecision::Unchanged
    }
}

/// What is to be done with a credential. A caller that insists gets past the
/// expiry alone, not past a wait or the need to log in again.
pub fn maintenance_decision(
    credential: &CodexAuthCredential,
    expires_at: Option<i64>,
    state: &CredentialRefreshState,
    now: i64,
    force: bool,
) -> (decision: MaintenanceDecision)
    ensures
        decision == decided(credential@.refresh_token, expires_at, *state, now, force),
{
    if text::is_blank(credential.tokens.refresh_token.as_str()) {
        return MaintenanceDecision::NotRefreshable;
    }
    if state.status == CredentialRefreshStatus::ReauthenticationRequired {
        return MaintenanceDecision::ReauthenticationRequired;
    }
    if let Some(next) = state.next_retry_at {
        if next > now {
            return MaintenanceDecision::WaitingRetry;
        }
    }
    if force || needs_credential_refresh(expires_at, now) {
        return MaintenanceDecision::Refresh;
    }
    let due = match state.last_attempt_at {
        Some(last) => subtract_clamped(now, last) >= UNKNOWN_EXPIRY_RETRY_SECS,
        None => true,
    };
    if expires_at.is_none() && due {
        return MaintenanceDecision::Refresh;
    }
    MaintenanceDecision::Unchanged
}

// ---------------------------------------------------------------------------
// What is noted
// ---------------------------------------------------------------------------

/// What is noted of a credential that was refreshed.
pub open spec fn refreshed(previous: CredentialRefreshState, now: i64) -> CredentialRefreshState {
    CredentialRefreshState {
        status: CredentialRefreshStatus::Healthy,
        last_attempt_at: Some(now),
        last_success_at: Some(now),
        next_retry_at: None,
        retry_count: 0,
        last_refresh_at: Some(now),
        ..previous
    }
}

/// What is noted of a credential that was refreshed.
pub fn refreshed_state(previous: &CredentialRefreshState, now: i64) -> (state:
    CredentialRefreshState)
    ensures
        state == refreshed(*previous, now),
{
    let mut state = *previous;
    state.status = CredentialRefreshStatus::Healthy;
    state.last_attempt_at = Some(now);
    state.last_success_at = Some(now);
    state.next_retry_at = None;
    state.retry_count = 0;
    state.last_refresh_at = Some(now);
    state
}

/// How long to wait after so many failures in a row, in seconds.
pub open spec fn retry_delay(retry_count: u8) -> i64 {
    if retry_count <= 1 {
        60
    } else if retry_count == 2 {
        300
    } else if retry_count == 3 {
        900
    } else {
        3600
    }
}

/// The count of failures after one more.
pub open spec fn one_more(retry_count: u8) -> u8 {
    if retry_count == u8::MAX {
        u8::MAX
    } else {
        (retry_count + 1) as u8
    }
}

/// What is noted of a credential that could not be refreshed for now.
pub open spec fn put_off(previous: CredentialRefreshState, now: i64) -> CredentialRefreshState {
    CredentialRefreshState {
        status: CredentialRefreshStatus::WaitingRetry,
        last_attempt_at: Some(now),
        next_retry_at: Some(clamped(now + retry_delay(one_more(previous.retry_count)))),
        retry_count: one_more(previous.retry_count),
        ..previous
    }
}

/// What is noted of a credential that could not be refreshed for now.
pub fn retry_state(previous: &CredentialRefreshState, now: i64) -> (state: CredentialRefreshState)
    ensures
        state == put_off(*previous, now),
{
    let retry_count: u8 = if previous.retry_count == u8::MAX {
        u8::MAX
    } else {
        previous.retry_count + 1
    };
    let delay: i64 = if retry_count <= 1 {
        60
    } else if retry_count == 2 {
        300
    } else if retry_count == 3 {
        900
    } else {
        3600
    };
    let mut state = *previous;
    state.status = CredentialRefreshStatus::WaitingRetry;
    state.last_attempt_at = Some(now);
    state.next_retry_at = Some(add_clamped(now, delay));
    state.retry_count = retry_count;
    state
}

/// What is noted of a credential that needs a new login.
pub open spec fn to_log_in_again(previous: CredentialRefreshState, now: i64) -> CredentialRefreshState {
    CredentialRefreshState {
        status: CredentialRefreshStatus::ReauthenticationRequired,
        last_attempt_at: Some(now),
        next_retry_at: None,
        ..previous
    }
}

/// What is noted of a credential that needs a new login.
pub fn reauthentication_state(previous: &CredentialRefreshState, now: i64) -> (state:
    CredentialRefreshState)
    ensures
        state == to_log_in_again(*previous, now),
{
    let mut state = *previous;
    state.status = CredentialRefreshStatus::ReauthenticationRequired;
    state.last_attempt_at = Some(now);
    state.next_retry_at = None;
    state
}

/// What is noted of a credential that cannot be refreshed at all.
pub open spec fn fixed(previous: CredentialRefreshState) -> CredentialRefreshState {
    CredentialRefreshState {
        status: CredentialRefreshStatus::NotRefreshable,
        next_retry_at: None,
        retry_count: 0,
        ..previous
    }
}

/// What is noted of a credential that cannot be refreshed at all.
pub fn not_refreshable_state(previous: &CredentialRefreshState) -> (state: CredentialRefreshState)
    ensures
        state == fixed(*previous),
{
    let mut state = *previous;
    state.status = CredentialRefreshStatus::NotRefreshable;
    state.next_retry_at = None;
    state.retry_count = 0;
    state
}

/// What is noted of a credential that Codex is using.
pub open spec fn left_to_codex(
    previous: CredentialRefreshState,
    now: i64,
    synced: bool,
) -> CredentialRefreshState {
    CredentialRefreshState {
        status: CredentialRefreshStatus::ManagedByCodex,
        next_retry_at: None,
        retry_count: 0,
        last_sync_at: if synced {
            Some(now)
        } else {
            previous.last_sync_at
        },
        ..previous
    }
}

/// What is noted of a credential that Codex is using.
pub fn managed_by_codex_state(previous: &CredentialRefreshState, now: i64, synced: bool) -> (state:
    CredentialRefreshState)
    ensures
        state == left_to_codex(*previous, now, synced),
{
    let mut state = *previous;
    state.status = CredentialRefreshStatus::ManagedByCodex;
    state.next_retry_at = None;
    state.retry_count = 0;
    if synced {
        state.last_sync_at = Some(now);
    }
    state
}

fn same_moment(one: Option<i64>, other: Option<i64>) -> (same: bool)
    ensures
        same == (one == other),
{
    match (one, other) {
        (Some(one), Some(other)) => one == other,
        (None, None) => true,
        _ => false,
    }
}

/// Whether two notes are the same.
pub fn same_state(one: &CredentialRefreshState, other: &CredentialRefreshState) -> (same: bool)
    ensures
        same == (*one == *other),
{
    one.status == other.status && same_moment(one.last_attempt_at, other.last_attempt_at)
        && same_moment(one.last_success_at, other.last_success_at) && same_moment(
        one.next_retry_at,
        other.next_retry_at,
    ) && one.retry_count == other.retry_count && same_moment(
        one.last_refresh_at,
        other.last_refresh_at,
    ) && same_moment(one.last_sync_at, other.last_sync_at) && same_moment(
        one.last_check_at,
        other.last_check_at,
    ) && one.verification == other.verification
}

// ---------------------------------------------------------------------------
// One round
// ---------------------------------------------------------------------------

/// What came of looking after a credential.
#[derive(Clone, Copy, Debug, PartialEq, Eq, Structural)]
pub enum CredentialMaintenanceOutcome {
    Unchanged,
    Refreshed,
    SyncedFromCodex,
    ManagedByCodex,
    WaitingRetry,
    ReauthenticationRequired,
    NotRefreshable,
}

/// How far looking after a credential has come.
#[derive(Clone, Copy, Debug, PartialEq, Eq, Structural)]
pub enum MaintenancePhase {
    CheckRunning,
    SyncRunning,
    SaveManaged,
    SyncStopped,
    SaveSynced,
    Load,
    SaveDecision,
    Refresh,
    SaveEnd,
    WriteBack,
    Over,
}

/// What is to be done next.
#[derive(Clone, Copy, Debug)]
pub enum MaintenanceTask {
    /// Find out whether Codex is running.
    CheckRunning,
    /// Take over a newer credential from Codex, where there is one.
    TakeOver,
    /// Note this.
    Save(CredentialRefreshState),
    /// Read the account.
    Load,
    /// Refresh the credential, whether or not it is due.
    Refresh(bool),
    /// Write the credential to the files of Codex.
    WriteBack,
    /// Nothing: this is what came of it.
    Finished(CredentialMaintenanceOutcome),
}

/// What came of a task.
pub enum MaintenanceEvent {
    /// Whether Codex is running.
    Running(bool),
    /// Whether a newer credential was taken over.
    TakenOver(bool),
    /// The account: its credential, and when that expires.
    Loaded(CodexAuthCredential, Option<i64>),
    /// The credential was refreshed, or did not need to be.
    Answered(bool),
    /// The credential was refused.
    Refused,
    /// The credential could not be refreshed for another reason.
    Failed,
    /// It is done.
    Done,
}

/// What it means for a credential that it could not be refreshed: a login that
/// is not accepted has to be made again, and anything else may pass.
pub fn refresh_failure(error: &AppError) -> (event: MaintenanceEvent)
    ensures
        event == if error@ is InvalidConfig {
            MaintenanceEvent::Refused
        } else {
            MaintenanceEvent::Failed
        },
{
    match error {
        AppError::InvalidConfig(_) => MaintenanceEvent::Refused,
        _ => MaintenanceEvent::Failed,
    }
}

/// One round of looking after a credential.
#[derive(Clone, Copy, Debug)]
pub struct Maintenance {
    pub active: bool,
    pub force: bool,
    pub now: i64,
    pub state: CredentialRefreshState,
    pub pending: CredentialRefreshState,
    pub synced: bool,
    pub outcome: CredentialMaintenanceOutcome,
    pub phase: MaintenancePhase,
}

/// What is told where the credential was not refreshed.
pub open spec fn quiet_outcome(
    synced: bool,
    decision: MaintenanceDecision,
) -> CredentialMaintenanceOutcome {
    if synced {
        CredentialMaintenanceOutcome::SyncedFromCodex
    } else {
        match decision {
            MaintenanceDecision::WaitingRetry => CredentialMaintenanceOutcome::WaitingRetry,
            MaintenanceDecision::ReauthenticationRequired => {
                CredentialMaintenanceOutcome::ReauthenticationRequired
            },
            MaintenanceDecision::NotRefreshable => CredentialMaintenanceOutcome::NotRefreshable,
            _ => CredentialMaintenanceOutcome::Unchanged,
        }
    }
}

fn tell_quiet_outcome(synced: bool, decision: MaintenanceDecision) -> (outcome:
    CredentialMaintenanceOutcome)
    ensures
        outcome == quiet_outcome(synced, decision),
{
    if synced {
        return CredentialMaintenanceOutcome::SyncedFromCodex;
    }
    match decision {
        MaintenanceDecision::WaitingRetry => CredentialMaintenanceOutcome::WaitingRetry,
        MaintenanceDecision::ReauthenticationRequired => {
            CredentialMaintenanceOutcome::ReauthenticationRequired
        },
        MaintenanceDecision::NotRefreshable => CredentialMaintenanceOutcome::NotRefreshable,
        _ => CredentialMaintenanceOutcome::Unchanged,
    }
}

impl Maintenance {
    /// A round before anything is done.
    pub open spec fn begun(
        active: bool,
        force: bool,
        now: i64,
        state: CredentialRefreshState,
    ) -> Maintenance {
        Maintenance {
            active,
            force,
            now,
            state,
            pending: state,
            synced: false,
            outcome: CredentialMaintenanceOutcome::Unchanged,
            phase: if active {
                MaintenancePhase::CheckRunning
            } else {
                MaintenancePhase::Load
            },
        }
    }

    /// What is to be done next.
    pub open spec fn next_task(self) -> MaintenanceTask {
        match self.phase {
            MaintenancePhase::CheckRunning => MaintenanceTask::CheckRunning,
            MaintenancePhase::SyncRunning | MaintenancePhase::SyncStopped => {
                MaintenanceTask::TakeOver
            },
            MaintenancePhase::SaveManaged
            | MaintenancePhase::SaveSynced
            | MaintenancePhase::SaveDecision
            | MaintenancePhase::SaveEnd => MaintenanceTask::Save(self.pending),
            MaintenancePhase::Load => MaintenanceTask::Load,
            MaintenancePhase::Refresh => MaintenanceTask::Refresh(self.force),
            MaintenancePhase::WriteBack => MaintenanceTask::WriteBack,
            MaintenancePhase::Over => MaintenanceTask::Finished(self.outcome),
        }
    }

    /// The round, at the point where only the files of Codex are left to
    /// write, and only for the account that it uses.
    pub open spec fn closing(self, outcome: CredentialMaintenanceOutcome) -> Maintenance {
        Maintenance {
            outcome,
            phase: if self.active {
                MaintenancePhase::WriteBack
            } else {
                MaintenancePhase::Over
            },
            ..self
        }
    }

    /// The round once it is known whether a newer credential was taken over
    /// while Codex is running.
    pub open spec fn left_running(self, synced: bool) -> Maintenance {
        let next = left_to_codex(self.state, self.now, synced);
        Maintenance {
            pending: next,
            synced,
            outcome: if synced {
                CredentialMaintenanceOutcome::SyncedFromCodex
            } else {
                CredentialMaintenanceOutcome::ManagedByCodex
            },
            phase: if synced || next != self.state {
                MaintenancePhase::SaveManaged
            } else {
                MaintenancePhase::Over
            },
            ..self
        }
    }

    /// The round once it is known whether a newer credential was taken over
    /// from a Codex that has stopped.
    pub open spec fn taken_over(self, synced: bool) -> Maintenance {
        if synced {
            let next = CredentialRefreshState { last_sync_at: Some(self.now), ..self.state };
            Maintenance {
                pending: next,
                state: next,
                synced: true,
                phase: MaintenancePhase::SaveSynced,
                ..self
            }
        } else {
            Maintenance { phase: MaintenancePhase::Load, ..self }
        }
    }

    /// The round once the account is known.
    pub open spec fn loaded(self, refresh_token: Seq<char>, expires_at: Option<i64>) -> Maintenance {
        let decision = decided(refresh_token, expires_at, self.state, self.now, self.force);
        let quiet = self.closing(quiet_outcome(self.synced, decision));
        match decision {
            MaintenanceDecision::NotRefreshable => if fixed(self.state) != self.state {
                Maintenance {
                    pending: fixed(self.state),
                    outcome: quiet.outcome,
                    phase: MaintenancePhase::SaveDecision,
                    ..self
                }
            } else {
                quiet
            },
            MaintenanceDecision::Refresh => Maintenance {
                pending: CredentialRefreshState { last_attempt_at: Some(self.now), ..self.state },
                outcome: CredentialMaintenanceOutcome::Refreshed,
                phase: MaintenancePhase::SaveDecision,
                ..self
            },
            _ => quiet,
        }
    }

    /// The round once it is known what came of refreshing the credential.
    pub open spec fn refresh_ended(self, event: MaintenanceEvent) -> Maintenance {
        match event {
            MaintenanceEvent::Answered(true) => Maintenance {
                pending: refreshed(self.state, self.now),
                outcome: CredentialMaintenanceOutcome::Refreshed,
                phase: MaintenancePhase::SaveEnd,
                ..self
            },
            MaintenanceEvent::Answered(false) => self.closing(
                quiet_outcome(self.synced, MaintenanceDecision::Refresh),
            ),
            MaintenanceEvent::Refused => Maintenance {
                pending: to_log_in_again(self.state, self.now),
                outcome: CredentialMaintenanceOutcome::ReauthenticationRequired,
                phase: MaintenancePhase::SaveEnd,
                ..self
            },
            _ => Maintenance {
                pending: put_off(self.state, self.now),
                outcome: CredentialMaintenanceOutcome::WaitingRetry,
                phase: MaintenancePhase::SaveEnd,
                ..self
            },
        }
    }

    /// The round after a task. An event that does not belong to the task
    /// leaves it as it is.
    pub open spec fn after(self, event: MaintenanceEvent) -> Maintenance {
        match (self.phase, event) {
            (MaintenancePhase::CheckRunning, MaintenanceEvent::Running(running)) => Maintenance {
                phase: if running {
                    MaintenancePhase::SyncRunning
                } else {
                    MaintenancePhase::SyncStopped
                },
                ..self
            },
            (MaintenancePhase::SyncRunning, MaintenanceEvent::TakenOver(synced)) => {
                self.left_running(synced)
            },
            (MaintenancePhase::SyncStopped, MaintenanceEvent::TakenOver(synced)) => {
                self.taken_over(synced)
            },
            (MaintenancePhase::SaveManaged, MaintenanceEvent::Done) => Maintenance {
                phase: MaintenancePhase::Over,
                ..self
            },
            (MaintenancePhase::SaveSynced, MaintenanceEvent::Done) => Maintenance {
                phase: MaintenancePhase::Load,
                ..self
            },
            (MaintenancePhase::Load, MaintenanceEvent::Loaded(credential, expires_at)) => {
                self.loaded(credential@.refresh_token, expires_at)
            },
            (MaintenancePhase::SaveDecision, MaintenanceEvent::Done) => if self.outcome
                == CredentialMaintenanceOutcome::Refreshed {
                Maintenance { phase: MaintenancePhase::Refresh, ..self }
            } else {
                self.closing(self.outcome)
            },
            (MaintenancePhase::Refresh, MaintenanceEvent::Answered(_)) => self.refresh_ended(event),
            (MaintenancePhase::Refresh, MaintenanceEvent::Refused) => self.refresh_ended(event),
            (MaintenancePhase::Refresh, MaintenanceEvent::Failed) => self.refresh_ended(event),
            (MaintenancePhase::SaveEnd, MaintenanceEvent::Done) => if self.outcome
                == CredentialMaintenanceOutcome::Refreshed {
                self.closing(self.outcome)
            } else {
                Maintenance { phase: MaintenancePhase::Over, ..self }
            },
            (MaintenancePhase::WriteBack, MaintenanceEvent::Done) => Maintenance {
                phase: MaintenancePhase::Over,
                ..self
            },
            _ => self,
        }
    }

    /// A round before anything is done.
    pub fn new(active: bool, force: bool, now: i64, state: CredentialRefreshState) -> (round: Self)
        ensures
            round == Maintenance::begun(active, force, now, state),
    {
        Maintenance {
            active,
            force,
            now,
            state,
            pending: state,
            synced: false,
            outcome: CredentialMaintenanceOutcome::Unchanged,
            phase: if active {
                MaintenancePhase::CheckRunning
            } else {
                MaintenancePhase::Load
            },
        }
    }

    /// What is to be done next.
    pub fn task(&self) -> (task: MaintenanceTask)
        ensures
            task == self.next_task(),
    {
        match self.phase {
            MaintenancePhase::CheckRunning => MaintenanceTask::CheckRunning,
            MaintenancePhase::SyncRunning | MaintenancePhase::SyncStopped => {
                MaintenanceTask::TakeOver
            },
            MaintenancePhase::SaveManaged
            | MaintenancePhase::SaveSynced
            | MaintenancePhase::SaveDecision
            | MaintenancePhase::SaveEnd => MaintenanceTask::Save(self.pending),
            MaintenancePhase::Load => MaintenanceTask::Load,
            MaintenancePhase::Refresh => MaintenanceTask::Refresh(self.force),
            MaintenancePhase::WriteBack => MaintenanceTask::WriteBack,
            MaintenancePhase::Over => MaintenanceTask::Finished(self.outcome),
        }
    }

    fn close(&mut self, outcome: CredentialMaintenanceOutcome)
        ensures
            *final(self) == old(self).closing(outcome),
    {
        self.outcome = outcome;
        self.phase =
        if self.active {
            MaintenancePhase::WriteBack
        } else {
            MaintenancePhase::Over
        };
    }

    fn leave_running(&mut self, synced: bool)
        ensures
            *final(self) == old(self).left_running(synced),
    {
        let next = managed_by_codex_state(&self.state, self.now, synced);
        let changed = !same_state(&next, &self.state);
        self.pending = next;
        self.synced = synced;
        self.outcome =
        if synced {
            CredentialMaintenanceOutcome::SyncedFromCodex
        } else {
            CredentialMaintenanceOutcome::ManagedByCodex
        };
        self.phase =
        if synced || changed {
            MaintenancePhase::SaveManaged
        } else {
            MaintenancePhase::Over
        };
    }

    fn take_over(&mut self, synced: bool)
        ensures
            *final(self) == old(self).taken_over(synced),
    {
        if synced {
            self.state.last_sync_at = Some(self.now);
            self.pending = self.state;
            self.synced = true;
            self.phase = MaintenancePhase::SaveSynced;
        } else {
            self.phase = MaintenancePhase::Load;
        }
    }

    fn load(&mut self, credential: &CodexAuthCredential, expires_at: Option<i64>)
        ensures
            *final(self) == old(self).loaded(credential@.refresh_token, expires_at),
    {
        let decision = maintenance_decision(
            credential,
            expires_at,
            &self.state,
            self.now,
            self.force,
        );
        let quiet = tell_quiet_outcome(self.synced, decision);
        match decision {
            MaintenanceDecision::NotRefreshable => {
                let next = not_refreshable_state(&self.state);
                if same_state(&next, &self.state) {
                    self.close(quiet);
                } else {
                    self.pending = next;
                    self.outcome = quiet;
                    self.phase = MaintenancePhase::SaveDecision;
                }
            },
            MaintenanceDecision::Refresh => {
                self.pending = self.state;
                self.pending.last_attempt_at = Some(self.now);
                self.outcome = CredentialMaintenanceOutcome::Refreshed;
                self.phase = MaintenancePhase::SaveDecision;
            },
            _ => self.close(quiet),
        }
    }

    fn end_refresh(&mut self, event: &MaintenanceEvent)
        ensures
            *final(self) == old(self).refresh_ended(*event),
    {
        match event {
            MaintenanceEvent::Answered(refreshed) => {
                if *refreshed {
                    self.pending = refreshed_state(&self.state, self.now);
                    self.outcome = CredentialMaintenanceOutcome::Refreshed;
                    self.phase = MaintenancePhase::SaveEnd;
                } else {
                    let quiet = tell_quiet_outcome(self.synced, MaintenanceDecision::Refresh);
                    self.close(quiet);
                }
            },
            MaintenanceEvent::Refused => {
                self.pending = reauthentication_state(&self.state, self.now);
                self.outcome = CredentialMaintenanceOutcome::ReauthenticationRequired;
                self.phase = MaintenancePhase::SaveEnd;
            },
            _ => {
                self.pending = retry_state(&self.state, self.now);
                self.outcome = CredentialMaintenanceOutcome::WaitingRetry;
                self.phase = MaintenancePhase::SaveEnd;
            },
        }
    }

    /// Notes what came of the task.
    pub fn report(&mut self, event: &MaintenanceEvent)
        ensures
            *final(self) == old(self).after(*event),
    {
        match (self.phase, event) {
            (MaintenancePhase::CheckRunning, MaintenanceEvent::Running(running)) => {
                self.phase =
                if *running {
                    MaintenancePhase::SyncRunning
                } else {
                    MaintenancePhase::SyncStopped
                };
            },
            (MaintenancePhase::SyncRunning, MaintenanceEvent::TakenOver(synced)) => {
                self.leave_running(*synced);
            },
            (MaintenancePhase::SyncStopped, MaintenanceEvent::TakenOver(synced)) => {
                self.take_over(*synced);
            },
            (MaintenancePhase::SaveManaged, MaintenanceEvent::Done) => {
                self.phase = MaintenancePhase::Over;
            },
            (MaintenancePhase::SaveSynced, MaintenanceEvent::Done) => {
                self.phase = MaintenancePhase::Load;
            },
            (MaintenancePhase::Load, MaintenanceEvent::Loaded(credential, expires_at)) => {
                self.load(credential, *expires_at);
            },
            (MaintenancePhase::SaveDecision, MaintenanceEvent::Done) => {
                if self.outcome == CredentialMaintenanceOutcome::Refreshed {
                    self.phase = MaintenancePhase::Refresh;
                } else {
                    self.close(self.outcome);
                }
            },
            (MaintenancePhase::Refresh, MaintenanceEvent::Answered(_)) => self.end_refresh(event),
            (MaintenancePhase::Refresh, MaintenanceEvent::Refused) => self.end_refresh(event),
            (MaintenancePhase::Refresh, MaintenanceEvent::Failed) => self.end_refresh(event),
            (MaintenancePhase::SaveEnd, MaintenanceEvent::Done) => {
                if self.outcome == CredentialMaintenanceOutcome::Refreshed {
                    self.close(self.outcome);
                } else {
                    self.phase = MaintenancePhase::Over;
                }
            },
            (MaintenancePhase::WriteBack, MaintenanceEvent::Done) => {
                self.phase = MaintenancePhase::Over;
            },
            _ => {},
        }
    }
}

// ---------------------------------------------------------------------------
// Online checks
// ---------------------------------------------------------------------------

/// Whether a text holds another one.
pub open spec fn holds(text: Seq<char>, part: Seq<char>) -> bool {
    exists|at: int|
        0 <= at && at + part.len() <= text.len() && #[trigger] text.subrange(
            at,
            at + part.len(),
        ) == part
}

/// Whether an error tells of a workspace or a permission that is lacking.
pub open spec fn lacks_permission(error: Option<Seq<char>>) -> bool {
    match error {
        Some(error) => holds(error, "HTTP 402"@) || holds(error, "HTTP 403"@),
        None => false,
    }
}

/// What an online check found.
pub open spec fn found_by_check(status: QuotaStatus, error: Option<Seq<char>>) -> LoginVerificationStatus {
    match status {
        QuotaStatus::Success => LoginVerificationStatus::Valid,
        QuotaStatus::Unauthorized => if lacks_permission(error) {
            LoginVerificationStatus::WorkspaceOrPermission
        } else {
            LoginVerificationStatus::Invalid
        },
        _ => LoginVerificationStatus::CheckFailed,
    }
}

fn text_holds(text: &str, part: &str) -> (found: bool)
    ensures
        found == holds(text@, part@),
{
    let chars = text::chars_of(text);
    let wanted = text::chars_of(part);
    let mut at: usize = 0;
    if wanted.len() == 0 {
        assert(text@.subrange(0, 0 + part@.len() as int) =~= part@);
        return true;
    }
    if wanted.len() > chars.len() {
        return false;
    }
    while at <= chars.len() - wanted.len()
        invariant
            chars@ == text@,
            wanted@ == part@,
            0 < wanted.len() <= chars.len(),
            at <= chars.len() - wanted.len() + 1,
            forall|i: int|
                0 <= i < at ==> #[trigger] chars@.subrange(i, i + wanted@.len()) != wanted@,
        decreases chars.len() - at,
    {
        if text::stands_at(&chars, at, &wanted) {
            assert(chars@.skip(at as int).take(wanted.len() as int) =~= chars@.subrange(
                at as int,
                at + wanted@.len(),
            ));
            return true;
        }
        assert(chars@.skip(at as int).take(wanted.len() as int) =~= chars@.subrange(
            at as int,
            at + wanted@.len(),
        ));
        at = at + 1;
    }
    false
}

/// Notes what an online check found. When the credential was refreshed, and
/// when it is to be, stays as it is.
pub fn record_login_verification(
    previous: &CredentialRefreshState,
    quota: &ProviderAccountQuota,
    now: i64,
) -> (state: CredentialRefreshState)
    ensures
        state == (CredentialRefreshState {
            last_check_at: Some(now),
            verification: found_by_check(quota.status, text::string_of(quota.error)),
            ..*previous
        }),
{
    let denied = match &quota.error {
        Some(error) => text_holds(error.as_str(), "HTTP 402") || text_holds(
            error.as_str(),
            "HTTP 403",
        ),
        None => false,
    };
    let verification = match quota.status {
        QuotaStatus::Success => LoginVerificationStatus::Valid,
        QuotaStatus::Unauthorized => if denied {
            LoginVerificationStatus::WorkspaceOrPermission
        } else {
            LoginVerificationStatus::Invalid
        },
        _ => LoginVerificationStatus::CheckFailed,
    };
    let mut state = *previous;
    state.last_check_at = Some(now);
    state.verification = verification;
    state
}

/// Whether a login is checked online after a round: not where it waits or
/// needs a new login.
pub fn is_checked_online(outcome: CredentialMaintenanceOutcome) -> (checked: bool)
    ensures
        checked == !(outcome == CredentialMaintenanceOutcome::WaitingRetry || outcome
            == CredentialMaintenanceOutcome::ReauthenticationRequired),
{
    match outcome {
        CredentialMaintenanceOutcome::WaitingRetry
        | CredentialMaintenanceOutcome::ReauthenticationRequired => false,
        _ => true,
    }
}

// ---------------------------------------------------------------------------
// Laws
// ---------------------------------------------------------------------------

/// A credential that needs a new login is never refreshed, however much a
/// caller insists, and a round leaves the note of that alone.
pub proof fn law_need_to_log_in_stays(
    refresh_token: Seq<char>,
    expires_at: Option<i64>,
    round: Maintenance,
)
    requires
        round.state.status == CredentialRefreshStatus::ReauthenticationRequired,
        !text::blank(refresh_token),
    ensures
        decided(refresh_token, expires_at, round.state, round.now, round.force)
            == MaintenanceDecision::ReauthenticationRequired,
        !(round.loaded(refresh_token, expires_at).next_task() is Save),
        !(round.loaded(refresh_token, expires_at).next_task() is Refresh),
{
}

/// A wait is kept to, however much a caller insists.
pub proof fn law_wait_is_kept(
    refresh_token: Seq<char>,
    expires_at: Option<i64>,
    state: CredentialRefreshState,
    now: i64,
    force: bool,
)
    requires
        state.next_retry_at is Some,
        state.next_retry_at->0 > now,
    ensures
        decided(refresh_token, expires_at, state, now, force) != MaintenanceDecision::Refresh,
{
}

/// The waits grow with the failures, up to an hour.
pub proof fn law_waits_grow(previous: CredentialRefreshState, now: i64)
    requires
        now <= i64::MAX - 3600,
    ensures
        ({
            let first = put_off(previous, now);
            let second = put_off(first, now);
            &&& first.next_retry_at->0 >= now + 60
            &&& first.next_retry_at->0 <= second.next_retry_at->0 <= now + 3600
            &&& first.retry_count >= previous.retry_count
        }),
{
}

/// A failed refresh is followed by a wait.
pub proof fn law_failure_is_followed_by_a_wait(
    refresh_token: Seq<char>,
    expires_at: Option<i64>,
    previous: CredentialRefreshState,
    now: i64,
    force: bool,
)
    requires
        now <= i64::MAX - 3600,
    ensures
        decided(refresh_token, expires_at, put_off(previous, now), now, force)
            != MaintenanceDecision::Refresh,
{
}

/// A credential that was just refreshed is not refreshed again unless it is
/// about to expire or a caller insists.
pub proof fn law_refreshed_credential_rests(
    refresh_token: Seq<char>,
    expires_at: Option<i64>,
    previous: CredentialRefreshState,
    now: i64,
)
    requires
        !expires_soon(expires_at, now),
    ensures
        decided(refresh_token, expires_at, refreshed(previous, now), now, false)
            != MaintenanceDecision::Refresh,
{
}

/// While Codex is running, the credential that it uses is neither refreshed
/// nor written by this application: after at most two more tasks the round is
/// over.
pub proof fn law_running_codex_keeps_its_credential(
    round: Maintenance,
    synced: bool,
)
    requires
        round.phase == MaintenancePhase::CheckRunning,
    ensures
        ({
            let told = round.after(MaintenanceEvent::Running(true));
            let synced = told.after(MaintenanceEvent::TakenOver(synced));
            let saved = synced.after(MaintenanceEvent::Done);
            &&& told.next_task() is TakeOver
            &&& synced.next_task() is Save || synced.next_task() is Finished
            &&& saved.next_task() is Finished
            &&& saved.pending.status == CredentialRefreshStatus::ManagedByCodex
        }),
{
}

/// An online check says nothing about refreshing.
pub proof fn law_check_does_not_claim_a_refresh(
    previous: CredentialRefreshState,
    status: QuotaStatus,
    error: Option<Seq<char>>,
    now: i64,
)
    ensures
        ({
            let state = CredentialRefreshState {
                last_check_at: Some(now),
                verification: found_by_check(status, error),
                ..previous
            };
            &&& state.last_refresh_at == previous.last_refresh_at
            &&& state.last_success_at == previous.last_success_at
            &&& state.status == previous.status
            &&& state.next_retry_at == previous.next_retry_at
        }),
{
}

} // verus!
