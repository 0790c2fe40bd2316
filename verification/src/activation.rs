//! Which account or service is in use, what is noted of that, and what may be
//! changed while Codex is running.

use crate::codex_document;
use crate::models::{
    is_personal_access_token_credential, AppError, CodexAuthCredential, CredentialView, ErrorView,
    ProviderProfile,
};
use crate::quota::ProviderAccountQuota;
use crate::text;
use crate::text::same_text;
use crate::toml;
use vstd::prelude::*;

verus! {

// ---------------------------------------------------------------------------
// Records
// ---------------------------------------------------------------------------

/// What Codex is used with.
#[derive(Clone, Copy, Debug, PartialEq, Eq, Structural)]
pub enum ActiveKind {
    Unset,
    Official,
    Provider,
}

/// What Codex is used with, and which one.
pub struct ActiveState {
    pub kind: ActiveKind,
    pub provider_id: Option<String>,
    pub account_id: Option<String>,
}

/// Where an official account comes from.
#[derive(Clone, Copy, Debug, PartialEq, Eq, Structural)]
pub enum OfficialAccountSource {
    OpenAiOauth,
    ProxyImport,
}

/// An official account.
pub struct StoredOfficialAccount {
    pub id: String,
    pub name: String,
    pub remark: String,
    pub account_id: String,
    pub email: String,
    pub credential: CodexAuthCredential,
    pub source: OfficialAccountSource,
    pub expires_at: Option<i64>,
    pub quota: ProviderAccountQuota,
    pub created_at: i64,
    pub updated_at: i64,
}

/// What is put right in the sessions of Codex after a switch.
pub struct RepairResult {
    pub target_provider: String,
    pub files_modified: usize,
    pub rows_updated: usize,
    pub repair_complete: bool,
    pub verification_passed: bool,
    pub warnings: Vec<String>,
}

/// What came of putting the sessions right, as a mathematical value.
pub struct RepairView {
    pub target_provider: Seq<char>,
    pub files_modified: usize,
    pub rows_updated: usize,
    pub repair_complete: bool,
    pub verification_passed: bool,
    pub warnings: Seq<Seq<char>>,
}

impl View for RepairResult {
    type V = RepairView;

    open spec fn view(&self) -> RepairView {
        RepairView {
            target_provider: self.target_provider@,
            files_modified: self.files_modified,
            rows_updated: self.rows_updated,
            repair_complete: self.repair_complete,
            verification_passed: self.verification_passed,
            warnings: text::texts(self.warnings@),
        }
    }
}

impl RepairResult {
    /// Nothing was put right, for the given reason.
    pub fn not_made(target_provider: String, error: &AppError) -> (repair: Self)
        ensures
            repair.target_provider == target_provider,
            repair.files_modified == 0,
            repair.rows_updated == 0,
            !repair.repair_complete,
            !repair.verification_passed,
            text::texts(repair.warnings@) == seq!["会话归属未自动修复："@ + error@.message()],
    {
        let warning = text::concat("会话归属未自动修复：", error.message().as_str());
        let ghost told = warning@;
        let mut warnings: Vec<String> = Vec::new();
        warnings.push(warning);
        assert(text::texts(warnings@) =~= seq![told]);
        RepairResult {
            target_provider,
            files_modified: 0,
            rows_updated: 0,
            repair_complete: false,
            verification_passed: false,
            warnings,
        }
    }

    /// Nothing needed to be put right.
    pub fn not_needed(target_provider: String) -> (repair: Self)
        ensures
            repair.target_provider == target_provider,
            repair.files_modified == 0,
            repair.rows_updated == 0,
            repair.repair_complete,
            repair.verification_passed,
            repair.warnings.len() == 0,
    {
        RepairResult {
            target_provider,
            files_modified: 0,
            rows_updated: 0,
            repair_complete: true,
            verification_passed: true,
            warnings: Vec::new(),
        }
    }
}

/// What is told where sessions could not be put right.
pub open spec fn incomplete_message(warnings: Seq<Seq<char>>, action: Seq<char>) -> Seq<char> {
    let reason = if warnings.len() > 0 {
        warnings[0]
    } else {
        "任一会话未能确认修复。"@
    };
    action + "：会话归属修复未完成，"@ + reason
}

/// What is told where sessions could not be put right.
pub fn repair_incomplete_message(repair: &RepairResult, action: &str) -> (message: String)
    ensures
        message@ == incomplete_message(text::texts(repair.warnings@), action@),
{
    let mut message = text::concat(action, "：会话归属修复未完成，");
    if repair.warnings.len() > 0 {
        assert(text::texts(repair.warnings@)[0] == repair.warnings@[0]@);
        message.append(repair.warnings[0].as_str());
    } else {
        message.append("任一会话未能确认修复。");
    }
    message
}

/// Tells that a switch was made and could not be noted.
pub fn activation_warning(repair: &mut RepairResult, error: &AppError)
    ensures
        text::texts(final(repair).warnings@) == text::texts(old(repair).warnings@).push(
            "账号已切换，但用量归属记录失败："@ + error@.message(),
        ),
        final(repair).target_provider == old(repair).target_provider,
        final(repair).files_modified == old(repair).files_modified,
        final(repair).rows_updated == old(repair).rows_updated,
        final(repair).repair_complete == old(repair).repair_complete,
        final(repair).verification_passed == old(repair).verification_passed,
{
    let ghost before = repair.warnings@;
    let warning = text::concat("账号已切换，但用量归属记录失败：", error.message().as_str());
    let ghost told = warning@;
    repair.warnings.push(warning);
    assert(text::texts(repair.warnings@) =~= text::texts(before).push(told));
}

// ---------------------------------------------------------------------------
// Turns
// ---------------------------------------------------------------------------

/// Counts the switches that were asked for, so that only the last one is made.
pub struct ActivationClock {
    pub latest: u64,
}

impl Default for ActivationClock {
    /// No switch was asked for yet.
    fn default() -> (clock: Self)
        ensures
            clock.latest == 0,
    {
        ActivationClock { latest: 0 }
    }
}

impl ActivationClock {
    /// Counts a switch that is asked for, and gives its number.
    pub fn begin_operation(&mut self) -> (operation: u64)
        ensures
            operation == crate::proxy::next_number(old(self).latest),
            final(self).latest == operation,
    {
        self.latest = self.latest.wrapping_add(1);
        self.latest
    }

    /// Whether a switch is the last one that was asked for.
    pub fn is_current(&self, operation: u64) -> (current: bool)
        ensures
            current == (self.latest == operation),
    {
        self.latest == operation
    }
}

/// Makes sure that a switch is the last one that was asked for.
pub fn ensure_current_activation(clock: &ActivationClock, operation: u64) -> (outcome: Result<
    (),
    AppError,
>)
    ensures
        outcome is Ok <==> clock.latest == operation,
        outcome matches Err(error) ==> error@ is StaleOperation,
{
    if clock.is_current(operation) {
        Ok(())
    } else {
        Err(AppError::StaleOperation)
    }
}

/// Makes sure that Codex is not running.
pub fn ensure_codex_stopped_with(running: bool) -> (outcome: Result<(), AppError>)
    ensures
        outcome is Ok <==> !running,
        outcome matches Err(error) ==> error@ == ErrorView::InvalidConfig(
            "请先退出 Codex，再更改账号、连接或会话归属，以免当前会话丢失或认证状态被覆盖。"@,
        ),
{
    if running {
        return Err(
            AppError::invalid(
                "请先退出 Codex，再更改账号、连接或会话归属，以免当前会话丢失或认证状态被覆盖。",
            ),
        );
    }
    Ok(())
}

/// Whether the sessions of Codex may be written now: it is not running, and it
/// still uses the provider that it used when that was decided.
pub fn may_write_now(running: bool, configured: &str, expected: &str) -> (allowed: bool)
    ensures
        allowed == (!running && configured@ == expected@),
{
    if running {
        return false;
    }
    same_text(configured, expected)
}

// ---------------------------------------------------------------------------
// Credentials that Codex has renewed
// ---------------------------------------------------------------------------

/// A moment as RFC 3339 writes it: the seconds since 1970 and the nanoseconds
/// within the second, where the text is one.
pub uninterp spec fn rfc3339_moment(source: Seq<char>) -> Option<(i64, u32)>;

/// `chrono::DateTime::parse_from_rfc3339`, with `timestamp` and
/// `timestamp_subsec_nanos` of what it gives: the moment that a text names.
/// It is a function of the text. By these two numbers, in their order, chrono
/// orders moments.
#[verifier::external_body]
fn read_rfc3339(source: &str) -> (moment: Option<(i64, u32)>)
    ensures
        moment == rfc3339_moment(source@),
{
    chrono::DateTime::parse_from_rfc3339(source).ok().map(
        |moment| (moment.timestamp(), moment.timestamp_subsec_nanos()),
    )
}

/// Whether a moment comes after another one.
pub open spec fn is_later(one: (i64, u32), other: (i64, u32)) -> bool {
    one.0 > other.0 || (one.0 == other.0 && one.1 > other.1)
}

/// Whether a credential was refreshed after another one, as far as both tell.
pub open spec fn newer(candidate: CredentialView, current: CredentialView) -> bool {
    match (
        rfc3339_moment(text::trimmed(candidate.last_refresh)),
        rfc3339_moment(text::trimmed(current.last_refresh)),
    ) {
        (Some(candidate), Some(current)) => is_later(candidate, current),
        _ => false,
    }
}

/// Whether a credential was refreshed after another one, as far as both tell.
pub fn credential_is_strictly_newer(
    candidate: &CodexAuthCredential,
    current: &CodexAuthCredential,
) -> (answer: bool)
    ensures
        answer == newer(candidate@, current@),
{
    let one = text::trim(candidate.last_refresh.as_str());
    let other = text::trim(current.last_refresh.as_str());
    match (read_rfc3339(one.as_str()), read_rfc3339(other.as_str())) {
        (Some(one), Some(other)) => one.0 > other.0 || (one.0 == other.0 && one.1 > other.1),
        _ => false,
    }
}

/// A credential that Codex holds, with what it leaves out filled in from the
/// one that is saved.
pub open spec fn completed(
    found: CredentialView,
    saved: CredentialView,
    saved_account_id: Seq<char>,
    source: OfficialAccountSource,
    now: Seq<char>,
) -> CredentialView {
    CredentialView {
        account_id: if text::blank(found.account_id) && source
            == OfficialAccountSource::ProxyImport {
            saved_account_id
        } else {
            found.account_id
        },
        last_refresh: if !text::blank(found.last_refresh) {
            found.last_refresh
        } else if text::blank(saved.last_refresh) {
            now
        } else {
            saved.last_refresh
        },
        ..found
    }
}

/// Whether a credential that Codex holds takes the place of the saved one: it
/// is another one, and newer, or a personal access token, which tells no time.
pub open spec fn takes_over(
    found: CredentialView,
    saved: CredentialView,
    saved_account_id: Seq<char>,
    source: OfficialAccountSource,
    now: Seq<char>,
) -> bool {
    let whole = completed(found, saved, saved_account_id, source, now);
    let untimed_token = text::blank(found.last_refresh) && source
        == OfficialAccountSource::ProxyImport && crate::models::is_personal_token(whole);
    whole != saved && (untimed_token || newer(whole, saved))
}

fn same_optional(one: &Option<String>, other: &Option<String>) -> (same: bool)
    ensures
        same == (text::string_of(*one) == text::string_of(*other)),
{
    match (one, other) {
        (Some(one), Some(other)) => same_text(one.as_str(), other.as_str()),
        (None, None) => true,
        _ => false,
    }
}

fn same_credential(one: &CodexAuthCredential, other: &CodexAuthCredential) -> (same: bool)
    ensures
        same == (one@ == other@),
{
    same_text(one.auth_mode.as_str(), other.auth_mode.as_str()) && same_optional(
        &one.openai_api_key,
        &other.openai_api_key,
    ) && same_text(one.tokens.id_token.as_str(), other.tokens.id_token.as_str()) && same_text(
        one.tokens.access_token.as_str(),
        other.tokens.access_token.as_str(),
    ) && same_text(one.tokens.refresh_token.as_str(), other.tokens.refresh_token.as_str())
        && same_text(one.tokens.account_id.as_str(), other.tokens.account_id.as_str())
        && same_text(one.last_refresh.as_str(), other.last_refresh.as_str())
}

/// Fills in what a credential that Codex holds leaves out.
pub fn complete_credential(
    found: CodexAuthCredential,
    saved: &StoredOfficialAccount,
    now: &str,
) -> (whole: CodexAuthCredential)
    ensures
        whole@ == completed(found@, saved.credential@, saved.account_id@, saved.source, now@),
{
    let mut whole = found;
    let imported = saved.source == OfficialAccountSource::ProxyImport;
    if text::is_blank(whole.tokens.account_id.as_str()) && imported {
        whole.tokens.account_id = saved.account_id.clone();
    }
    if text::is_blank(whole.last_refresh.as_str()) {
        if text::is_blank(saved.credential.last_refresh.as_str()) {
            whole.last_refresh = now.to_owned();
        } else {
            whole.last_refresh = saved.credential.last_refresh.clone();
        }
    }
    whole
}

/// Says which credential to save in place of the one of an account, where
/// Codex has renewed it. `matches` tells whether the two are of one identity,
/// and is asked about the credential that is given back.
pub fn renewed_credential(
    found: CodexAuthCredential,
    saved: &StoredOfficialAccount,
    matches: bool,
    now: &str,
) -> (renewed: Option<CodexAuthCredential>)
    ensures
        renewed is Some <==> matches && takes_over(
            found@,
            saved.credential@,
            saved.account_id@,
            saved.source,
            now@,
        ),
        renewed matches Some(renewed) ==> renewed@ == completed(
            found@,
            saved.credential@,
            saved.account_id@,
            saved.source,
            now@,
        ),
{
    let untimed = text::is_blank(found.last_refresh.as_str());
    let imported = saved.source == OfficialAccountSource::ProxyImport;
    let whole = complete_credential(found, saved, now);
    if !matches || same_credential(&whole, &saved.credential) {
        return None;
    }
    let untimed_token = untimed && imported && is_personal_access_token_credential(&whole);
    if untimed_token || credential_is_strictly_newer(&whole, &saved.credential) {
        Some(whole)
    } else {
        None
    }
}

/// A credential that is older than the saved one never takes its place, save
/// for a personal access token that tells no time.
pub proof fn law_older_credentials_do_not_take_over(
    found: CredentialView,
    saved: CredentialView,
    saved_account_id: Seq<char>,
    source: OfficialAccountSource,
    now: Seq<char>,
)
    requires
        !text::blank(found.last_refresh),
        newer(saved, found),
    ensures
        !takes_over(found, saved, saved_account_id, source, now),
{
}

/// What has been taken over is not taken over again.
pub proof fn law_taken_over_once(
    found: CredentialView,
    saved: CredentialView,
    saved_account_id: Seq<char>,
    source: OfficialAccountSource,
    now: Seq<char>,
)
    requires
        !text::blank(found.last_refresh),
        !text::blank(found.account_id),
    ensures
        !takes_over(
            found,
            completed(found, saved, saved_account_id, source, now),
            saved_account_id,
            source,
            now,
        ),
{
}

// ---------------------------------------------------------------------------
// The model that was written
// ---------------------------------------------------------------------------

/// The model to take out of a configuration: the one that was written last,
/// where the configuration still names exactly that one.
pub open spec fn model_to_remove(recorded: Option<Seq<char>>, source: Option<Seq<char>>) -> Option<
    Seq<char>,
> {
    let current = match source {
        Some(source) => match toml::parsed_toml(source) {
            Ok(root) => toml::text_entry(root, "model"@),
            Err(_) => None,
        },
        None => None,
    };
    if recorded is Some && current == recorded {
        recorded
    } else {
        None
    }
}

/// The model to take out of a configuration: the one that was written last,
/// where the configuration still names exactly that one.
pub fn managed_model_to_remove(recorded: Option<String>, source: Option<&str>) -> (model: Option<
    String,
>)
    ensures
        text::string_of(model) == model_to_remove(
            text::string_of(recorded),
            text::text_of(source),
        ),
{
    let recorded = match recorded {
        Some(recorded) => recorded,
        None => return None,
    };
    let document = match source {
        Some(source) => match toml::parse_document(source) {
            Ok(document) => document,
            Err(_) => return None,
        },
        None => return None,
    };
    let same = match toml::table_get(toml::root(&document), "model") {
        Some(item) => match toml::item_text(item) {
            Some(current) => same_text(current, recorded.as_str()),
            None => false,
        },
        None => false,
    };
    if same {
        Some(recorded)
    } else {
        None
    }
}

/// A model that the user has set is not taken out of the configuration.
pub proof fn law_own_models_stay(recorded: Seq<char>, source: Seq<char>, root: codex_document::Entries)
    requires
        toml::parsed_toml(source) == Ok::<codex_document::Entries, Seq<char>>(root),
        toml::text_entry(root, "model"@) != Some(recorded),
    ensures
        model_to_remove(Some(recorded), Some(source)) is None,
{
}

// ---------------------------------------------------------------------------
// Whom usage is counted for
// ---------------------------------------------------------------------------

/// What usage is counted for.
#[derive(Clone, Copy, Debug, PartialEq, Eq, Structural)]
pub enum UsageSourceKind {
    Official,
    Provider,
}

/// From when on usage is counted for an account or a service.
pub struct ActivationRecord {
    pub effective_at_ms: i64,
    pub source_kind: UsageSourceKind,
    pub provider_id: Option<String>,
    pub account_id: Option<String>,
    pub model_provider: String,
    pub display_name_snapshot: String,
    pub auth_source: String,
}

/// A record as a mathematical value.
pub struct RecordView {
    pub effective_at_ms: i64,
    pub source_kind: UsageSourceKind,
    pub provider_id: Option<Seq<char>>,
    pub account_id: Option<Seq<char>>,
    pub model_provider: Seq<char>,
    pub display_name_snapshot: Seq<char>,
    pub auth_source: Seq<char>,
}

impl View for ActivationRecord {
    type V = RecordView;

    open spec fn view(&self) -> RecordView {
        RecordView {
            effective_at_ms: self.effective_at_ms,
            source_kind: self.source_kind,
            provider_id: text::string_of(self.provider_id),
            account_id: text::string_of(self.account_id),
            model_provider: self.model_provider@,
            display_name_snapshot: self.display_name_snapshot@,
            auth_source: self.auth_source@,
        }
    }
}

/// The record for an official account.
pub open spec fn official_record(
    source: OfficialAccountSource,
    display_name: Seq<char>,
    canonical_id: Seq<char>,
    effective_at_ms: i64,
) -> RecordView {
    RecordView {
        effective_at_ms,
        source_kind: UsageSourceKind::Official,
        provider_id: None,
        account_id: Some(canonical_id),
        model_provider: "openai"@,
        display_name_snapshot: match source {
            OfficialAccountSource::OpenAiOauth => display_name,
            OfficialAccountSource::ProxyImport => display_name + " · Cookie 登录"@,
        },
        auth_source: match source {
            OfficialAccountSource::OpenAiOauth => "openai_oauth"@,
            OfficialAccountSource::ProxyImport => "proxy_import"@,
        },
    }
}

/// The record for an official account, by the name under which it is shown
/// and the identifier that it has everywhere.
pub fn activation_for_official(
    source: OfficialAccountSource,
    display_name: &str,
    canonical_id: &str,
    effective_at_ms: i64,
) -> (record: ActivationRecord)
    ensures
        record@ == official_record(source, display_name@, canonical_id@, effective_at_ms),
{
    let (shown, auth_source) = match source {
        OfficialAccountSource::OpenAiOauth => (display_name.to_owned(), "openai_oauth"),
        OfficialAccountSource::ProxyImport => (
            text::concat(display_name, " · Cookie 登录"),
            "proxy_import",
        ),
    };
    ActivationRecord {
        effective_at_ms,
        source_kind: UsageSourceKind::Official,
        provider_id: None,
        account_id: Some(canonical_id.to_owned()),
        model_provider: "openai".to_owned(),
        display_name_snapshot: shown,
        auth_source: auth_source.to_owned(),
    }
}

/// The record for a service.
pub open spec fn provider_record(id: Seq<char>, name: Seq<char>, effective_at_ms: i64) -> RecordView {
    RecordView {
        effective_at_ms,
        source_kind: UsageSourceKind::Provider,
        provider_id: Some(id),
        account_id: None,
        model_provider: "custom"@,
        display_name_snapshot: name,
        auth_source: "api_key"@,
    }
}

/// The record for a service.
pub fn activation_for_provider(provider: &ProviderProfile, effective_at_ms: i64) -> (record:
    ActivationRecord)
    ensures
        record@ == provider_record(provider.id@, provider.name@, effective_at_ms),
{
    ActivationRecord {
        effective_at_ms,
        source_kind: UsageSourceKind::Provider,
        provider_id: Some(provider.id.clone()),
        account_id: None,
        model_provider: "custom".to_owned(),
        display_name_snapshot: provider.name.clone(),
        auth_source: "api_key".to_owned(),
    }
}

/// Where the first service with an identifier stands.
pub open spec fn provider_place(providers: Seq<ProviderProfile>, id: Seq<char>) -> Option<int>
    decreases providers.len(),
{
    if providers.len() == 0 {
        None
    } else {
        match provider_place(providers.drop_last(), id) {
            Some(place) => Some(place),
            None => if providers.last().id@ == id {
                Some(providers.len() - 1)
            } else {
                None
            },
        }
    }
}

/// Where the first account with an identifier stands.
pub open spec fn account_place(accounts: Seq<StoredOfficialAccount>, id: Seq<char>) -> Option<int>
    decreases accounts.len(),
{
    if accounts.len() == 0 {
        None
    } else {
        match account_place(accounts.drop_last(), id) {
            Some(place) => Some(place),
            None => if accounts.last().id@ == id {
                Some(accounts.len() - 1)
            } else {
                None
            },
        }
    }
}

/// Finds the first service with an identifier.
pub fn find_provider(providers: &Vec<ProviderProfile>, id: &str) -> (place: Option<usize>)
    ensures
        match place {
            Some(place) => provider_place(providers@, id@) == Some(place as int) && place
                < providers.len() && providers@[place as int].id@ == id@,
            None => provider_place(providers@, id@) is None,
        },
{
    let mut found: Option<usize> = None;
    assert(providers@.take(0) =~= Seq::<ProviderProfile>::empty());
    for index in 0..providers.len()
        invariant
            match found {
                Some(place) => provider_place(providers@.take(index as int), id@) == Some(
                    place as int,
                ) && place < index && providers@[place as int].id@ == id@,
                None => provider_place(providers@.take(index as int), id@) is None,
            },
    {
        proof {
            assert(providers@.take(index + 1).drop_last() =~= providers@.take(index as int));
            assert(providers@.take(index + 1).last() == providers@[index as int]);
        }
        if found.is_none() && same_text(providers[index].id.as_str(), id) {
            found = Some(index);
        }
    }
    assert(providers@.take(providers.len() as int) =~= providers@);
    found
}

/// Finds the first account with an identifier.
pub fn find_account(accounts: &Vec<StoredOfficialAccount>, id: &str) -> (place: Option<usize>)
    ensures
        match place {
            Some(place) => account_place(accounts@, id@) == Some(place as int) && place
                < accounts.len() && accounts@[place as int].id@ == id@,
            None => account_place(accounts@, id@) is None,
        },
{
    let mut found: Option<usize> = None;
    assert(accounts@.take(0) =~= Seq::<StoredOfficialAccount>::empty());
    for index in 0..accounts.len()
        invariant
            match found {
                Some(place) => account_place(accounts@.take(index as int), id@) == Some(
                    place as int,
                ) && place < index && accounts@[place as int].id@ == id@,
                None => account_place(accounts@.take(index as int), id@) is None,
            },
    {
        proof {
            assert(accounts@.take(index + 1).drop_last() =~= accounts@.take(index as int));
            assert(accounts@.take(index + 1).last() == accounts@[index as int]);
        }
        if found.is_none() && same_text(accounts[index].id.as_str(), id) {
            found = Some(index);
        }
    }
    assert(accounts@.take(accounts.len() as int) =~= accounts@);
    found
}

/// What is in use: nothing, or the account or the service at a place.
#[derive(Clone, Copy, Debug, PartialEq, Eq, Structural)]
pub enum InUse {
    Nothing,
    Account(usize),
    Provider(usize),
}

/// What is in use, where it is known.
pub open spec fn in_use(
    active: ActiveState,
    providers: Seq<ProviderProfile>,
    accounts: Seq<StoredOfficialAccount>,
) -> InUse {
    match active.kind {
        ActiveKind::Official => match active.account_id {
            Some(id) => match account_place(accounts, id@) {
                Some(place) => InUse::Account(place as usize),
                None => InUse::Nothing,
            },
            None => InUse::Nothing,
        },
        ActiveKind::Provider => match active.provider_id {
            Some(id) => match provider_place(providers, id@) {
                Some(place) => InUse::Provider(place as usize),
                None => InUse::Nothing,
            },
            None => InUse::Nothing,
        },
        ActiveKind::Unset => InUse::Nothing,
    }
}

/// Says what is in use, where it is known.
pub fn current_activation(
    active: &ActiveState,
    providers: &Vec<ProviderProfile>,
    accounts: &Vec<StoredOfficialAccount>,
) -> (used: InUse)
    ensures
        used == in_use(*active, providers@, accounts@),
        used matches InUse::Account(place) ==> place < accounts.len(),
        used matches InUse::Provider(place) ==> place < providers.len(),
{
    match active.kind {
        ActiveKind::Official => match &active.account_id {
            Some(id) => match find_account(accounts, id.as_str()) {
                Some(place) => InUse::Account(place),
                None => InUse::Nothing,
            },
            None => InUse::Nothing,
        },
        ActiveKind::Provider => match &active.provider_id {
            Some(id) => match find_provider(providers, id.as_str()) {
                Some(place) => InUse::Provider(place),
                None => InUse::Nothing,
            },
            None => InUse::Nothing,
        },
        ActiveKind::Unset => InUse::Nothing,
    }
}

/// Where the last of the accounts that were changed last stands.
pub open spec fn latest_account(accounts: Seq<StoredOfficialAccount>) -> Option<int>
    decreases accounts.len(),
{
    if accounts.len() == 0 {
        None
    } else {
        match latest_account(accounts.drop_last()) {
            Some(place) => if accounts.last().updated_at >= accounts[place].updated_at {
                Some(accounts.len() - 1)
            } else {
                Some(place)
            },
            None => Some(0),
        }
    }
}

/// The account to turn to where none is named: the one in use, otherwise the
/// one that was changed last.
pub open spec fn preferred_account(
    active: ActiveState,
    accounts: Seq<StoredOfficialAccount>,
) -> Option<Seq<char>> {
    if active.kind == ActiveKind::Official && active.account_id is Some {
        text::string_of(active.account_id)
    } else {
        match latest_account(accounts) {
            Some(place) => Some(accounts[place].id@),
            None => None,
        }
    }
}

fn find_latest(accounts: &Vec<StoredOfficialAccount>) -> (place: Option<usize>)
    ensures
        match place {
            Some(place) => latest_account(accounts@) == Some(place as int) && place
                < accounts.len(),
            None => latest_account(accounts@) is None,
        },
{
    let mut found: Option<usize> = None;
    assert(accounts@.take(0) =~= Seq::<StoredOfficialAccount>::empty());
    for index in 0..accounts.len()
        invariant
            match found {
                Some(place) => latest_account(accounts@.take(index as int)) == Some(place as int)
                    && place < index,
                None => latest_account(accounts@.take(index as int)) is None && index == 0,
            },
    {
        proof {
            assert(accounts@.take(index + 1).drop_last() =~= accounts@.take(index as int));
            assert(accounts@.take(index + 1).last() == accounts@[index as int]);
        }
        let later = match found {
            Some(place) => accounts[index].updated_at >= accounts[place].updated_at,
            None => true,
        };
        if later {
            found = Some(index);
        }
    }
    assert(accounts@.take(accounts.len() as int) =~= accounts@);
    found
}

/// The account to turn to where none is named.
pub fn account_to_activate(
    active: &ActiveState,
    accounts: &Vec<StoredOfficialAccount>,
) -> (outcome: Result<String, AppError>)
    ensures
        match outcome {
            Ok(id) => preferred_account(*active, accounts@) == Some(id@),
            Err(error) => {
                &&& preferred_account(*active, accounts@) is None
                &&& error@ == ErrorView::InvalidConfig(
                    "请先在“账号与服务”中登录 OpenAI。"@,
                )
            },
        },
{
    if active.kind == ActiveKind::Official {
        if let Some(id) = &active.account_id {
            return Ok(id.clone());
        }
    }
    match find_latest(accounts) {
        Some(place) => Ok(accounts[place].id.clone()),
        None => Err(AppError::invalid("请先在“账号与服务”中登录 OpenAI。")),
    }
}

// ---------------------------------------------------------------------------
// What is shown of what is in use
// ---------------------------------------------------------------------------

/// What is shown of what is in use.
pub struct ActiveProjection {
    pub provider_count: usize,
    pub active_provider: Option<String>,
    pub active_kind: ActiveKind,
    pub account: Option<usize>,
}

/// The name under which an account is shown. `display_names` are those of the
/// accounts, in their order.
pub open spec fn shown_name(
    active: ActiveState,
    providers: Seq<ProviderProfile>,
    accounts: Seq<StoredOfficialAccount>,
    display_names: Seq<Seq<char>>,
) -> Option<Seq<char>> {
    let provider = match active.provider_id {
        Some(id) => provider_place(providers, id@),
        None => None,
    };
    match provider {
        Some(place) => Some(providers[place].name@),
        None => if active.kind != ActiveKind::Official {
            None
        } else {
            match shown_account(active, accounts) {
                Some(place) => Some("OpenAI · "@ + display_names[place]),
                None => Some("OpenAI 账号"@),
            }
        },
    }
}

/// Where the account that is shown stands.
pub open spec fn shown_account(
    active: ActiveState,
    accounts: Seq<StoredOfficialAccount>,
) -> Option<int> {
    match active.account_id {
        Some(id) => if active.kind == ActiveKind::Official {
            account_place(accounts, id@)
        } else {
            None
        },
        None => None,
    }
}

/// Says what is shown of what is in use.
pub fn project_active(
    active: &ActiveState,
    providers: &Vec<ProviderProfile>,
    accounts: &Vec<StoredOfficialAccount>,
    display_names: &Vec<String>,
) -> (projection: ActiveProjection)
    requires
        display_names.len() == accounts.len(),
    ensures
        projection.provider_count == providers.len(),
        projection.active_kind == active.kind,
        text::string_of(projection.active_provider) == shown_name(
            *active,
            providers@,
            accounts@,
            text::texts(display_names@),
        ),
        match projection.account {
            Some(place) => shown_account(*active, accounts@) == Some(place as int) && place
                < accounts.len(),
            None => shown_account(*active, accounts@) is None,
        },
{
    let provider = match &active.provider_id {
        Some(id) => find_provider(providers, id.as_str()),
        None => None,
    };
    let official = active.kind == ActiveKind::Official;
    let account = match &active.account_id {
        Some(id) => if official {
            find_account(accounts, id.as_str())
        } else {
            None
        },
        None => None,
    };
    let active_provider = match provider {
        Some(place) => Some(providers[place].name.clone()),
        None => if !official {
            None
        } else {
            match account {
                Some(place) => {
                    assert(text::texts(display_names@)[place as int]
                        == display_names@[place as int]@);
                    Some(text::concat("OpenAI · ", display_names[place].as_str()))
                },
                None => Some("OpenAI 账号".to_owned()),
            }
        },
    };
    ActiveProjection {
        provider_count: providers.len(),
        active_provider,
        active_kind: active.kind,
        account,
    }
}

} // verus!
