//! Which account is in use, and when its credential is refreshed.

use crate::activation;
use crate::activation::{
    account_place, in_use, is_later, latest_account, newer, preferred_account, provider_place,
    ActiveKind, ActiveState, InUse, OfficialAccountSource, StoredOfficialAccount, UsageSourceKind,
};
use crate::codex_document::Entries;
use crate::maintenance;
use crate::maintenance::{
    decided, CredentialMaintenanceOutcome, CredentialRefreshState, CredentialRefreshStatus,
    LoginVerificationStatus, Maintenance, MaintenanceDecision, MaintenanceEvent, MaintenanceTask,
};
use crate::models::{is_personal_token, CodexAuthCredential, CredentialView, ProviderProfile};
use crate::quota::QuotaStatus;
use crate::text;
use crate::toml;
use vstd::prelude::*;

verus! {

// ---------------------------------------------------------------------------
// Places
// ---------------------------------------------------------------------------

/// A service is found at the first place that has its identifier, and is not found
/// only where no place has it.
pub proof fn law_services_are_found(providers: Seq<ProviderProfile>, id: Seq<char>)
    ensures
        provider_place(providers, id) matches Some(place) ==> 0 <= place < providers.len()
            && providers[place].id@ == id && forall|i: int|
            0 <= i < place ==> (#[trigger] providers[i]).id@ != id,
        provider_place(providers, id) is None ==> forall|i: int|
            0 <= i < providers.len() ==> (#[trigger] providers[i]).id@ != id,
    decreases providers.len(),
{
    if providers.len() > 0 {
        let rest = providers.drop_last();
        law_services_are_found(rest, id);
        assert forall|i: int| 0 <= i < rest.len() && (provider_place(rest, id) is None || i
            < provider_place(rest, id)->0) implies (#[trigger] providers[i]).id@ != id by {
            assert(rest[i] == providers[i]);
        }
        if let Some(place) = provider_place(rest, id) {
            assert(rest[place] == providers[place]);
        }
    }
}

/// An account is found at the first place that has its identifier, and is not found
/// only where no place has it.
pub proof fn law_accounts_are_found(accounts: Seq<StoredOfficialAccount>, id: Seq<char>)
    ensures
        account_place(accounts, id) matches Some(place) ==> 0 <= place < accounts.len()
            && accounts[place].id@ == id && forall|i: int|
            0 <= i < place ==> (#[trigger] accounts[i]).id@ != id,
        account_place(accounts, id) is None ==> forall|i: int|
            0 <= i < accounts.len() ==> (#[trigger] accounts[i]).id@ != id,
    decreases accounts.len(),
{
    if accounts.len() > 0 {
        let rest = accounts.drop_last();
        law_accounts_are_found(rest, id);
        assert forall|i: int| 0 <= i < rest.len() && (account_place(rest, id) is None || i
            < account_place(rest, id)->0) implies (#[trigger] accounts[i]).id@ != id by {
            assert(rest[i] == accounts[i]);
        }
        if let Some(place) = account_place(rest, id) {
            assert(rest[place] == accounts[place]);
        }
    }
}

/// The account that is in use is the one that the state names, and the service is
/// the one that the state names; where the one named is not there, nothing is in
/// use.
pub proof fn law_named_one_is_in_use(
    active: ActiveState,
    providers: Seq<ProviderProfile>,
    accounts: Seq<StoredOfficialAccount>,
)
    requires
        providers.len() <= usize::MAX,
        accounts.len() <= usize::MAX,
    ensures
        in_use(active, providers, accounts) matches InUse::Account(place) ==> active.kind
            == ActiveKind::Official && active.account_id is Some && place < accounts.len()
            && accounts[place as int].id@ == active.account_id->0@,
        in_use(active, providers, accounts) matches InUse::Provider(place) ==> active.kind
            == ActiveKind::Provider && active.provider_id is Some && place < providers.len()
            && providers[place as int].id@ == active.provider_id->0@,
        in_use(active, providers, accounts) == InUse::Nothing ==> {
            ||| active.kind == ActiveKind::Unset
            ||| active.kind == ActiveKind::Official && (active.account_id matches Some(id)
                ==> forall|i: int|
                0 <= i < accounts.len() ==> (#[trigger] accounts[i]).id@ != id@)
            ||| active.kind == ActiveKind::Provider && (active.provider_id matches Some(id)
                ==> forall|i: int|
                0 <= i < providers.len() ==> (#[trigger] providers[i]).id@ != id@)
        },
{
    if let Some(id) = active.account_id {
        law_accounts_are_found(accounts, id@);
    }
    if let Some(id) = active.provider_id {
        law_services_are_found(providers, id@);
    }
}

/// The account that was changed last is the latest; of several, the last of them.
pub proof fn law_latest_account(accounts: Seq<StoredOfficialAccount>)
    ensures
        accounts.len() > 0 <==> latest_account(accounts) is Some,
        latest_account(accounts) matches Some(place) ==> {
            &&& 0 <= place < accounts.len()
            &&& forall|i: int|
                0 <= i < accounts.len() ==> (#[trigger] accounts[i]).updated_at
                    <= accounts[place].updated_at
            &&& forall|i: int|
                place < i < accounts.len() ==> (#[trigger] accounts[i]).updated_at
                    < accounts[place].updated_at
        },
    decreases accounts.len(),
{
    if accounts.len() > 0 {
        let rest = accounts.drop_last();
        law_latest_account(rest);
        if let Some(place) = latest_account(rest) {
            let now = latest_account(accounts)->0;
            assert(rest[place] == accounts[place]);
            assert forall|i: int| 0 <= i < accounts.len() implies (#[trigger] accounts[i]).updated_at
                <= accounts[now].updated_at by {
                if i < rest.len() {
                    assert(rest[i] == accounts[i]);
                }
            }
            assert forall|i: int| now < i < accounts.len() implies (
            #[trigger] accounts[i]).updated_at < accounts[now].updated_at by {
                if i < rest.len() {
                    assert(rest[i] == accounts[i]);
                }
            }
        }
    }
}

/// The account to turn to is the one in use, or else the latest.
pub proof fn law_account_to_turn_to(active: ActiveState, accounts: Seq<StoredOfficialAccount>)
    ensures
        active.kind == ActiveKind::Official ==> (active.account_id matches Some(id)
            ==> preferred_account(active, accounts) == Some(id@)),
        active.kind != ActiveKind::Official || active.account_id is None ==> {
            &&& accounts.len() == 0 ==> preferred_account(active, accounts) is None
            &&& accounts.len() > 0 ==> exists|i: int|
                0 <= i < accounts.len() && preferred_account(active, accounts) == Some(
                    (#[trigger] accounts[i]).id@,
                ) && forall|k: int|
                    0 <= k < accounts.len() ==> (#[trigger] accounts[k]).updated_at
                        <= accounts[i].updated_at
        },
{
    law_latest_account(accounts);
    if accounts.len() > 0 {
        let place = latest_account(accounts)->0;
        assert(0 <= place < accounts.len());
        assert(accounts[place].id@ == accounts[place].id@);
    }
}

/// The name that is shown is that of the service that the state names; for an
/// account it ends in the name of the account.
pub proof fn law_name_of_what_is_in_use_is_shown(
    active: ActiveState,
    providers: Seq<ProviderProfile>,
    accounts: Seq<StoredOfficialAccount>,
    names: Seq<Seq<char>>,
)
    requires
        names.len() == accounts.len(),
    ensures
        active.provider_id matches Some(id) ==> forall|i: int|
            0 <= i < providers.len() && (#[trigger] providers[i]).id@ == id@ ==> exists|k: int|
                0 <= k <= i && (#[trigger] providers[k]).id@ == id@ && activation::shown_name(
                    active,
                    providers,
                    accounts,
                    names,
                ) == Some(providers[k].name@),
        active.kind == ActiveKind::Official && active.provider_id is None ==> (
        active.account_id matches Some(id) ==> forall|i: int|
            0 <= i < accounts.len() && (#[trigger] accounts[i]).id@ == id@ ==> exists|k: int|
                0 <= k <= i && (#[trigger] accounts[k]).id@ == id@ && activation::shown_account(
                    active,
                    accounts,
                ) == Some(k) && (activation::shown_name(
                    active,
                    providers,
                    accounts,
                    names,
                ) matches Some(shown) && text::finishes_with(shown, names[k]))),
        active.kind == ActiveKind::Unset && active.provider_id is None ==> activation::shown_name(
            active,
            providers,
            accounts,
            names,
        ) is None,
{
    if let Some(id) = active.provider_id {
        law_services_are_found(providers, id@);
    }
    if let Some(id) = active.account_id {
        law_accounts_are_found(accounts, id@);
        if let Some(place) = account_place(accounts, id@) {
            let shown = "OpenAI · "@ + names[place];
            assert(shown.skip(shown.len() - names[place].len()) =~= names[place]);
        }
    }
}

// ---------------------------------------------------------------------------
// Credentials
// ---------------------------------------------------------------------------

/// Moments are ordered by their seconds, and by what is left of a second where
/// those are the same.
pub proof fn law_moments_are_ordered(one: (i64, u32), other: (i64, u32), third: (i64, u32))
    ensures
        one.0 < other.0 ==> is_later(other, one) && !is_later(one, other),
        one.0 == other.0 && one.1 < other.1 ==> is_later(other, one) && !is_later(one, other),
        !is_later(one, one),
        is_later(one, other) && is_later(other, third) ==> is_later(one, third),
{
}

/// A credential is newer where it was refreshed at a later moment; where one of the
/// moments cannot be read, it is not.
pub proof fn law_later_refresh_is_newer(
    one: CredentialView,
    other: CredentialView,
    early: (i64, u32),
    late: (i64, u32),
)
    requires
        activation::rfc3339_moment(text::trimmed(one.last_refresh)) == Some(early),
        activation::rfc3339_moment(text::trimmed(other.last_refresh)) == Some(late),
        early.0 < late.0,
    ensures
        newer(other, one),
        !newer(one, other),
        !newer(one, one),
{
}

/// A credential that is found keeps its tokens. What it lacks is filled in: the
/// moment of its refresh from the one that is saved, or else from now, and the
/// account, where it was imported, from the one that is saved.
pub proof fn law_found_credential_is_completed(
    found: CredentialView,
    saved: CredentialView,
    saved_account_id: Seq<char>,
    source: OfficialAccountSource,
    now: Seq<char>,
)
    ensures
        ({
            let whole = activation::completed(found, saved, saved_account_id, source, now);
            &&& whole.auth_mode == found.auth_mode
            &&& whole.openai_api_key == found.openai_api_key
            &&& whole.id_token == found.id_token
            &&& whole.access_token == found.access_token
            &&& whole.refresh_token == found.refresh_token
            &&& !text::blank(found.account_id) ==> whole.account_id == found.account_id
            &&& text::blank(found.account_id) && source == OfficialAccountSource::ProxyImport
                ==> whole.account_id == saved_account_id
            &&& !text::blank(found.last_refresh) ==> whole.last_refresh == found.last_refresh
            &&& text::blank(found.last_refresh) && !text::blank(saved.last_refresh)
                ==> whole.last_refresh == saved.last_refresh
            &&& text::blank(found.last_refresh) && text::blank(saved.last_refresh)
                ==> whole.last_refresh == now
        }),
{
}

/// A newer credential takes over.
pub proof fn law_newer_credential_takes_over(
    found: CredentialView,
    saved: CredentialView,
    saved_account_id: Seq<char>,
    source: OfficialAccountSource,
    now: Seq<char>,
    early: (i64, u32),
    late: (i64, u32),
)
    requires
        !text::blank(found.last_refresh),
        activation::rfc3339_moment(text::trimmed(saved.last_refresh)) == Some(early),
        activation::rfc3339_moment(text::trimmed(found.last_refresh)) == Some(late),
        early.0 < late.0,
    ensures
        activation::takes_over(found, saved, saved_account_id, source, now),
{
    let whole = activation::completed(found, saved, saved_account_id, source, now);
    assert(whole.last_refresh == found.last_refresh);
    assert(newer(whole, saved));
    if whole == saved {
        assert(early == late);
    }
}

/// A model goes with a service only where it is the one that was set for the
/// service.
pub proof fn law_model_that_was_set_goes(
    recorded: Seq<char>,
    source: Seq<char>,
    root: Entries,
)
    requires
        toml::parsed_toml(source) == Ok::<Entries, Seq<char>>(root),
        toml::text_entry(root, "model"@) == Some(recorded),
    ensures
        activation::model_to_remove(Some(recorded), Some(source)) == Some(recorded),
        activation::model_to_remove(None, Some(source)) is None,
        activation::model_to_remove(Some(recorded), None) is None,
{
}

/// The record of an account in use names the account and no service; the record of
/// a service in use names the service and no account.
pub proof fn law_records_name_what_is_in_use(
    source: OfficialAccountSource,
    name: Seq<char>,
    id: Seq<char>,
    moment: i64,
)
    ensures
        ({
            let record = activation::official_record(source, name, id, moment);
            &&& record.effective_at_ms == moment
            &&& record.source_kind == UsageSourceKind::Official
            &&& record.account_id == Some(id)
            &&& record.provider_id is None
            &&& record.model_provider == "openai"@
            &&& text::begins_with(record.display_name_snapshot, name)
            &&& source == OfficialAccountSource::OpenAiOauth ==> record.display_name_snapshot
                == name && record.auth_source == "openai_oauth"@
            &&& source == OfficialAccountSource::ProxyImport ==> record.display_name_snapshot
                != name && record.auth_source == "proxy_import"@
        }),
        ({
            let record = activation::provider_record(id, name, moment);
            &&& record.effective_at_ms == moment
            &&& record.source_kind == UsageSourceKind::Provider
            &&& record.provider_id == Some(id)
            &&& record.account_id is None
            &&& record.model_provider == "custom"@
            &&& record.display_name_snapshot == name
            &&& record.auth_source == "api_key"@
        }),
{
    let record = activation::official_record(source, name, id, moment);
    reveal_strlit(" · Cookie 登录");
    let long = name + " · Cookie 登录"@;
    assert(long.take(name.len() as int) =~= name);
    assert(name.take(name.len() as int) =~= name);
    assert(long.len() > name.len());
}

/// What is said of an incomplete repair begins with what was done and ends with the
/// first warning.
pub proof fn law_first_warning_is_told(warnings: Seq<Seq<char>>, action: Seq<char>)
    requires
        warnings.len() > 0,
    ensures
        text::begins_with(activation::incomplete_message(warnings, action), action),
        text::finishes_with(activation::incomplete_message(warnings, action), warnings[0]),
{
    let message = activation::incomplete_message(warnings, action);
    assert(message.take(action.len() as int) =~= action);
    assert(message.skip(message.len() - warnings[0].len()) =~= warnings[0]);
}

// ---------------------------------------------------------------------------
// When a credential is refreshed
// ---------------------------------------------------------------------------

/// A credential is refreshed two days before it expires, or a day after the last
/// attempt where it is not known when it expires, or when that is forced; never
/// without a token, while a login is asked for, or while a retry is waited for.
pub proof fn law_when_a_credential_is_refreshed(
    token: Seq<char>,
    expires_at: Option<i64>,
    state: CredentialRefreshState,
    now: i64,
    force: bool,
)
    requires
        0 <= now <= i64::MAX - 172800,
        state.last_attempt_at matches Some(last) ==> 0 <= last,
    ensures
        ({
            let may = !text::blank(token) && state.status
                != CredentialRefreshStatus::ReauthenticationRequired && (
            state.next_retry_at matches Some(retry) ==> retry <= now);
            let due = force || (expires_at matches Some(end) && end - now <= 172800) || (
            expires_at is None && (state.last_attempt_at matches Some(last) ==> now - last
                >= 86400));
            &&& decided(token, expires_at, state, now, force) == MaintenanceDecision::Refresh <==> may
                && due
            &&& decided(token, expires_at, state, now, force) == MaintenanceDecision::Unchanged
                <==> may && !due
            &&& decided(token, expires_at, state, now, force)
                == MaintenanceDecision::NotRefreshable <==> text::blank(token)
        }),
{
}

/// What is noted of a refresh that succeeded.
pub proof fn law_success_is_noted(previous: CredentialRefreshState, now: i64)
    ensures
        ({
            let state = maintenance::refreshed(previous, now);
            &&& state.status == CredentialRefreshStatus::Healthy
            &&& state.last_attempt_at == Some(now)
            &&& state.last_success_at == Some(now)
            &&& state.last_refresh_at == Some(now)
            &&& state.next_retry_at is None
            &&& state.retry_count == 0
            &&& state.last_sync_at == previous.last_sync_at
            &&& state.last_check_at == previous.last_check_at
            &&& state.verification == previous.verification
        }),
{
}

/// What is noted of a refresh that failed: the next one comes after a minute, then
/// after five, fifteen and sixty minutes. What is known of earlier ones stays.
pub proof fn law_failure_is_noted(previous: CredentialRefreshState, now: i64)
    requires
        now <= i64::MAX - 3600,
        now >= 0,
    ensures
        ({
            let state = maintenance::put_off(previous, now);
            &&& state.status == CredentialRefreshStatus::WaitingRetry
            &&& state.last_attempt_at == Some(now)
            &&& state.last_success_at == previous.last_success_at
            &&& state.last_refresh_at == previous.last_refresh_at
            &&& previous.retry_count < 255 ==> state.retry_count == previous.retry_count + 1
            &&& previous.retry_count == 255 ==> state.retry_count == 255
            &&& previous.retry_count == 0 ==> state.next_retry_at == Some((now + 60) as i64)
            &&& previous.retry_count == 1 ==> state.next_retry_at == Some((now + 300) as i64)
            &&& previous.retry_count == 2 ==> state.next_retry_at == Some((now + 900) as i64)
            &&& previous.retry_count >= 3 ==> state.next_retry_at == Some((now + 3600) as i64)
        }),
{
}

/// What is noted of a login that is asked for, of a credential that cannot be
/// refreshed, and of one that Codex looks after.
pub proof fn law_other_outcomes_are_noted(previous: CredentialRefreshState, now: i64, synced: bool)
    ensures
        ({
            let state = maintenance::to_log_in_again(previous, now);
            &&& state.status == CredentialRefreshStatus::ReauthenticationRequired
            &&& state.last_attempt_at == Some(now)
            &&& state.next_retry_at is None
            &&& state.last_success_at == previous.last_success_at
            &&& state.last_refresh_at == previous.last_refresh_at
        }),
        ({
            let state = maintenance::fixed(previous);
            &&& state.status == CredentialRefreshStatus::NotRefreshable
            &&& state.next_retry_at is None
            &&& state.retry_count == 0
            &&& state.last_attempt_at == previous.last_attempt_at
            &&& state.last_success_at == previous.last_success_at
        }),
        ({
            let state = maintenance::left_to_codex(previous, now, synced);
            &&& state.status == CredentialRefreshStatus::ManagedByCodex
            &&& state.next_retry_at is None
            &&& state.retry_count == 0
            &&& state.last_attempt_at == previous.last_attempt_at
            &&& state.last_success_at == previous.last_success_at
            &&& synced ==> state.last_sync_at == Some(now)
            &&& !synced ==> state.last_sync_at == previous.last_sync_at
        }),
{
}

/// A round for a credential that is due: the attempt is noted before it is made,
/// its outcome after it, and a credential in use is written back where it was
/// refreshed.
pub proof fn law_due_credential_is_refreshed(
    active: bool,
    force: bool,
    now: i64,
    state: CredentialRefreshState,
    credential: CodexAuthCredential,
    expires_at: Option<i64>,
)
    requires
        decided(credential@.refresh_token, expires_at, state, now, force)
            == MaintenanceDecision::Refresh,
    ensures
        ({
            let start = Maintenance::begun(active, force, now, state);
            let ready = if active {
                start.after(MaintenanceEvent::Running(false)).after(
                    MaintenanceEvent::TakenOver(false),
                )
            } else {
                start
            };
            let noted = ready.after(MaintenanceEvent::Loaded(credential, expires_at));
            let asked = noted.after(MaintenanceEvent::Done);
            let answered = asked.after(MaintenanceEvent::Answered(true));
            let refused = asked.after(MaintenanceEvent::Refused);
            let failed = asked.after(MaintenanceEvent::Failed);
            &&& active ==> start.next_task() is CheckRunning
            &&& ready.next_task() is Load
            &&& noted.next_task() matches MaintenanceTask::Save(attempt) && attempt.last_attempt_at
                == Some(now) && attempt.last_success_at == state.last_success_at && attempt.status
                == state.status
            &&& asked.next_task() == MaintenanceTask::Refresh(force)
            &&& answered.next_task() matches MaintenanceTask::Save(saved) && saved.status
                == CredentialRefreshStatus::Healthy && saved.last_success_at == Some(now)
            &&& active ==> answered.after(MaintenanceEvent::Done).next_task() is WriteBack
                && answered.after(MaintenanceEvent::Done).after(
                MaintenanceEvent::Done,
            ).next_task() == MaintenanceTask::Finished(CredentialMaintenanceOutcome::Refreshed)
            &&& !active ==> answered.after(MaintenanceEvent::Done).next_task()
                == MaintenanceTask::Finished(CredentialMaintenanceOutcome::Refreshed)
            &&& refused.next_task() matches MaintenanceTask::Save(saved) && saved.status
                == CredentialRefreshStatus::ReauthenticationRequired
            &&& refused.after(MaintenanceEvent::Done).next_task() == MaintenanceTask::Finished(
                CredentialMaintenanceOutcome::ReauthenticationRequired,
            )
            &&& failed.next_task() matches MaintenanceTask::Save(saved) && saved.status
                == CredentialRefreshStatus::WaitingRetry && saved.next_retry_at is Some
            &&& failed.after(MaintenanceEvent::Done).next_task() == MaintenanceTask::Finished(
                CredentialMaintenanceOutcome::WaitingRetry,
            )
        }),
{
}

/// A credential that Codex renewed while it was stopped is taken over first, and
/// that is noted; the round then goes on with it.
pub proof fn law_renewed_credential_is_taken_over_first(
    force: bool,
    now: i64,
    state: CredentialRefreshState,
    credential: CodexAuthCredential,
    expires_at: Option<i64>,
)
    requires
        decided(
            credential@.refresh_token,
            expires_at,
            (CredentialRefreshState { last_sync_at: Some(now), ..state }),
            now,
            force,
        ) == MaintenanceDecision::Unchanged,
    ensures
        ({
            let start = Maintenance::begun(true, force, now, state);
            let taken = start.after(MaintenanceEvent::Running(false)).after(
                MaintenanceEvent::TakenOver(true),
            );
            let loading = taken.after(MaintenanceEvent::Done);
            let quiet = loading.after(MaintenanceEvent::Loaded(credential, expires_at));
            &&& taken.next_task() matches MaintenanceTask::Save(saved) && saved.last_sync_at == Some(
                now,
            ) && saved.status == state.status
            &&& loading.next_task() is Load
            &&& quiet.next_task() is WriteBack
            &&& quiet.after(MaintenanceEvent::Done).next_task() == MaintenanceTask::Finished(
                CredentialMaintenanceOutcome::SyncedFromCodex,
            )
        }),
{
}

/// A credential that needs nothing is left alone.
pub proof fn law_credential_that_needs_nothing(
    force: bool,
    now: i64,
    state: CredentialRefreshState,
    credential: CodexAuthCredential,
    expires_at: Option<i64>,
)
    ensures
        ({
            let decision = decided(credential@.refresh_token, expires_at, state, now, force);
            let end = Maintenance::begun(false, force, now, state).after(
                MaintenanceEvent::Loaded(credential, expires_at),
            );
            &&& decision == MaintenanceDecision::Unchanged ==> end.next_task()
                == MaintenanceTask::Finished(CredentialMaintenanceOutcome::Unchanged)
            &&& decision == MaintenanceDecision::WaitingRetry ==> end.next_task()
                == MaintenanceTask::Finished(CredentialMaintenanceOutcome::WaitingRetry)
            &&& decision == MaintenanceDecision::ReauthenticationRequired ==> end.next_task()
                == MaintenanceTask::Finished(
                CredentialMaintenanceOutcome::ReauthenticationRequired,
            )
            &&& decision == MaintenanceDecision::NotRefreshable ==> end.next_task()
                == MaintenanceTask::Finished(CredentialMaintenanceOutcome::NotRefreshable) || (
            end.next_task() matches MaintenanceTask::Save(saved) && saved.status
                == CredentialRefreshStatus::NotRefreshable && end.after(
                MaintenanceEvent::Done,
            ).next_task() == MaintenanceTask::Finished(
                CredentialMaintenanceOutcome::NotRefreshable,
            ))
        }),
{
}

/// What a check of the quota shows of a login: it is valid where the quota was
/// read, and invalid where it was refused, unless the refusal tells that it was for
/// want of permission.
pub proof fn law_check_shows_the_login(error: Seq<char>)
    ensures
        maintenance::found_by_check(QuotaStatus::Success, None) == LoginVerificationStatus::Valid,
        maintenance::found_by_check(QuotaStatus::Success, Some(error))
            == LoginVerificationStatus::Valid,
        maintenance::found_by_check(QuotaStatus::Unauthorized, None)
            == LoginVerificationStatus::Invalid,
        text::occurs(error, "HTTP 402"@) || text::occurs(error, "HTTP 403"@)
            ==> maintenance::found_by_check(QuotaStatus::Unauthorized, Some(error))
            == LoginVerificationStatus::WorkspaceOrPermission,
        !text::occurs(error, "HTTP 402"@) && !text::occurs(error, "HTTP 403"@)
            ==> maintenance::found_by_check(QuotaStatus::Unauthorized, Some(error))
            == LoginVerificationStatus::Invalid,
{
    lemma_holds(error, "HTTP 402"@);
    lemma_holds(error, "HTTP 403"@);
}

proof fn lemma_holds(text: Seq<char>, part: Seq<char>)
    ensures
        maintenance::holds(text, part) == text::occurs(text, part),
{
    if maintenance::holds(text, part) {
        let at = choose|at: int|
            0 <= at && at + part.len() <= text.len() && #[trigger] text.subrange(
                at,
                at + part.len(),
            ) == part;
        assert(text::occurs_at(text, part, at));
    }
    if text::occurs(text, part) {
        let at = choose|at: int| #[trigger] text::occurs_at(text, part, at);
        assert(text.subrange(at, at + part.len()) == part);
    }
}

/// An operation has another number than the one before it.
pub proof fn law_operations_have_their_own_number(number: u64)
    ensures
        crate::proxy::next_number(number) != number,
        number < u64::MAX ==> crate::proxy::next_number(number) == number + 1,
{
}

/// A token without a moment of its own that was imported takes over where it is
/// another than the one that is saved.
pub proof fn law_untimed_token_takes_over(
    found: CredentialView,
    saved: CredentialView,
    saved_account_id: Seq<char>,
    now: Seq<char>,
)
    requires
        text::blank(found.last_refresh),
        found.auth_mode == "personal_access_token"@,
        found.access_token != saved.access_token,
    ensures
        activation::takes_over(
            found,
            saved,
            saved_account_id,
            OfficialAccountSource::ProxyImport,
            now,
        ),
{
}

/// A credential is a token where it says so, or where its token is of that form.
pub proof fn law_what_a_token_is(credential: CredentialView, rest: Seq<char>)
    ensures
        credential.auth_mode == "personal_access_token"@ ==> is_personal_token(credential),
        credential.access_token == "at-"@ + rest ==> is_personal_token(credential),
        credential.auth_mode != "personal_access_token"@ && credential.access_token.len() < 3
            ==> !is_personal_token(credential),
        credential.auth_mode != "personal_access_token"@ && credential.access_token.len() >= 3
            && credential.access_token[2] != '-' ==> !is_personal_token(credential),
{
    reveal_strlit("at-");
    let token = "at-"@ + rest;
    assert(token.take(3) =~= "at-"@);
    if credential.access_token.len() >= 3 {
        assert(credential.access_token.take(3)[2] == credential.access_token[2]);
    }
}

/// While Codex runs, its credential is left to it: the round ends by telling whether
/// it was taken over from there.
pub proof fn law_end_of_a_round_while_codex_runs(
    force: bool,
    now: i64,
    state: CredentialRefreshState,
    synced: bool,
)
    ensures
        ({
            let told = Maintenance::begun(true, force, now, state).after(
                MaintenanceEvent::Running(true),
            ).after(MaintenanceEvent::TakenOver(synced));
            let over = told.after(MaintenanceEvent::Done);
            &&& synced ==> over.next_task() == MaintenanceTask::Finished(
                CredentialMaintenanceOutcome::SyncedFromCodex,
            )
            &&& !synced ==> over.next_task() == MaintenanceTask::Finished(
                CredentialMaintenanceOutcome::ManagedByCodex,
            )
            &&& told.next_task() matches MaintenanceTask::Save(saved) ==> saved.status
                == CredentialRefreshStatus::ManagedByCodex && (synced ==> saved.last_sync_at
                == Some(now))
        }),
{
}

} // verus!
