//! Quotas of official accounts: their windows, the estimates that belong to
//! them, and the credits that reset them.

use crate::json;
use crate::json::{Json, JsonView};
use crate::models::{AppError, ErrorView};
use crate::text;
use crate::text::same_text;
use vstd::prelude::*;

verus! {

/// Five hours, in seconds.
pub const FIVE_HOURS_SECONDS: i64 = 18000;

/// Seven days, in seconds.
pub const SEVEN_DAYS_SECONDS: i64 = 604800;

/// What came of asking for a quota.
#[derive(Clone, Copy, Debug, PartialEq, Eq, Structural)]
pub enum QuotaStatus {
    Never,
    Success,
    Unauthorized,
    RateLimited,
    Error,
    Unsupported,
}

/// A window of a quota. The percentages are kept as the bits of the numbers
/// that the service gives.
#[derive(Clone, Copy, Debug)]
pub struct QuotaWindow {
    pub used_percent_bits: u64,
    pub remaining_percent_bits: u64,
    pub window_seconds: Option<i64>,
    pub reset_at: Option<i64>,
}

/// A quota as the service gives it: two windows, or something else.
pub enum QuotaData {
    Windowed { primary: Option<QuotaWindow>, secondary: Option<QuotaWindow> },
    Other(Json),
}

/// What a window is estimated to be worth.
#[derive(Clone, Copy, Debug, PartialEq, Eq, Structural)]
pub struct QuotaEstimate {
    pub window_seconds: i64,
    pub reset_at: i64,
    pub estimated_total_microusd: u64,
    pub estimated_at: i64,
    pub calculation_version: u32,
}

/// What is known of the quota of an account.
pub struct ProviderAccountQuota {
    pub status: QuotaStatus,
    pub data: Option<QuotaData>,
    pub plan_type: Option<String>,
    pub fetched_at: Option<i64>,
    pub last_attempt_at: Option<i64>,
    pub error: Option<String>,
    pub error_code: Option<String>,
    pub reset_credits: Json,
    pub estimates: Vec<QuotaEstimate>,
}

/// What is known of the quota of an account, as a mathematical value.
pub struct QuotaView {
    pub status: QuotaStatus,
    pub data: Option<QuotaData>,
    pub plan_type: Option<Seq<char>>,
    pub fetched_at: Option<i64>,
    pub last_attempt_at: Option<i64>,
    pub error: Option<Seq<char>>,
    pub error_code: Option<Seq<char>>,
    pub reset_credits: JsonView,
    pub estimates: Seq<QuotaEstimate>,
}

impl View for ProviderAccountQuota {
    type V = QuotaView;

    open spec fn view(&self) -> QuotaView {
        QuotaView {
            status: self.status,
            data: self.data,
            plan_type: text::string_of(self.plan_type),
            fetched_at: self.fetched_at,
            last_attempt_at: self.last_attempt_at,
            error: text::string_of(self.error),
            error_code: text::string_of(self.error_code),
            reset_credits: self.reset_credits@,
            estimates: self.estimates@,
        }
    }
}

impl Default for ProviderAccountQuota {
    /// Nothing is known yet.
    fn default() -> (quota: Self)
        ensures
            quota.status == QuotaStatus::Never,
            quota.data is None,
            quota.plan_type is None,
            quota.fetched_at is None,
            quota.last_attempt_at is None,
            quota.error is None,
            quota.error_code is None,
            quota.reset_credits@ == json::empty_object(),
            quota.estimates.len() == 0,
    {
        ProviderAccountQuota {
            status: QuotaStatus::Never,
            data: None,
            plan_type: None,
            fetched_at: None,
            last_attempt_at: None,
            error: None,
            error_code: None,
            reset_credits: Json::object(),
            estimates: Vec::new(),
        }
    }
}

// ---------------------------------------------------------------------------
// Windows
// ---------------------------------------------------------------------------

/// A window that can be told apart from others: its length, its end, and the
/// share of it that is used.
pub open spec fn known_window(window: Option<QuotaWindow>, fallback_seconds: i64) -> Option<
    (i64, i64, u64),
> {
    match window {
        Some(window) => match window.reset_at {
            Some(reset_at) => {
                let seconds = match window.window_seconds {
                    Some(seconds) => seconds,
                    None => fallback_seconds,
                };
                if seconds > 0 && reset_at > 0 {
                    Some((seconds, reset_at, window.used_percent_bits))
                } else {
                    None
                }
            },
            None => None,
        },
        None => None,
    }
}

/// The windows of a quota that can be told apart, each once.
pub open spec fn known_windows(data: Option<QuotaData>) -> Seq<(i64, i64, u64)> {
    match data {
        Some(QuotaData::Windowed { primary, secondary }) => {
            let first = known_window(primary, FIVE_HOURS_SECONDS);
            let second = known_window(secondary, SEVEN_DAYS_SECONDS);
            match (first, second) {
                (Some(first), Some(second)) => if first.0 == second.0 && first.1 == second.1 {
                    seq![first]
                } else {
                    seq![first, second]
                },
                (Some(first), None) => seq![first],
                (None, Some(second)) => seq![second],
                (None, None) => Seq::empty(),
            }
        },
        _ => Seq::empty(),
    }
}

fn find_window(window: &Option<QuotaWindow>, fallback_seconds: i64) -> (found: Option<
    (i64, i64, u64),
>)
    ensures
        found == known_window(*window, fallback_seconds),
{
    let window = match window {
        Some(window) => window,
        None => return None,
    };
    let reset_at: i64 = match window.reset_at {
        Some(reset_at) => reset_at,
        None => return None,
    };
    let seconds: i64 = match window.window_seconds {
        Some(seconds) => seconds,
        None => fallback_seconds,
    };
    if seconds > 0 && reset_at > 0 {
        Some((seconds, reset_at, window.used_percent_bits))
    } else {
        None
    }
}

/// The windows of a quota that can be told apart, each once. The length that
/// the service gives counts; a window that it does not give is not made up.
pub fn estimate_windows(quota: &ProviderAccountQuota) -> (windows: Vec<(i64, i64, u64)>)
    ensures
        windows@ == known_windows(quota.data),
{
    let mut windows: Vec<(i64, i64, u64)> = Vec::new();
    if let Some(QuotaData::Windowed { primary, secondary }) = &quota.data {
        let first = find_window(primary, FIVE_HOURS_SECONDS);
        let second = find_window(secondary, SEVEN_DAYS_SECONDS);
        if let Some(window) = first {
            windows.push(window);
        }
        if let Some(window) = second {
            let known = match first {
                Some(first) => first.0 == window.0 && first.1 == window.1,
                None => false,
            };
            if !known {
                windows.push(window);
            }
        }
    }
    assert(windows@ =~= known_windows(quota.data));
    windows
}

/// The windows of a quota, by their length and their end.
pub open spec fn window_ids(data: Option<QuotaData>) -> Seq<(i64, i64)> {
    known_windows(data).map_values(|window: (i64, i64, u64)| (window.0, window.1))
}

/// The windows of a quota, by their length and their end.
pub fn estimate_window_ids(quota: &ProviderAccountQuota) -> (ids: Vec<(i64, i64)>)
    ensures
        ids@ == window_ids(quota.data),
{
    let windows = estimate_windows(quota);
    let mut ids: Vec<(i64, i64)> = Vec::new();
    for index in 0..windows.len()
        invariant
            windows@ == known_windows(quota.data),
            ids@ == window_ids(quota.data).take(index as int),
    {
        ids.push((windows[index].0, windows[index].1));
        assert(ids@ =~= window_ids(quota.data).take(index + 1));
    }
    assert(window_ids(quota.data).take(windows.len() as int) =~= window_ids(quota.data));
    ids
}

/// No window is counted twice.
pub proof fn law_windows_are_distinct(data: Option<QuotaData>, i: int, j: int)
    requires
        0 <= i < j < window_ids(data).len(),
    ensures
        window_ids(data)[i] != window_ids(data)[j],
{
}

// ---------------------------------------------------------------------------
// Estimates
// ---------------------------------------------------------------------------

/// Whether an estimate belongs to one of the windows.
pub open spec fn belongs_to(estimate: QuotaEstimate, windows: Seq<(i64, i64)>) -> bool {
    windows.contains((estimate.window_seconds, estimate.reset_at))
}

/// The estimates that belong to none of the windows.
pub open spec fn estimates_without(
    estimates: Seq<QuotaEstimate>,
    windows: Seq<(i64, i64)>,
) -> Seq<QuotaEstimate>
    decreases estimates.len(),
{
    if estimates.len() == 0 {
        Seq::empty()
    } else {
        let earlier = estimates_without(estimates.drop_last(), windows);
        if belongs_to(estimates.last(), windows) {
            earlier
        } else {
            earlier.push(estimates.last())
        }
    }
}

fn is_of_window(estimate: &QuotaEstimate, windows: &Vec<(i64, i64)>) -> (found: bool)
    ensures
        found == belongs_to(*estimate, windows@),
{
    for index in 0..windows.len()
        invariant
            forall|i: int|
                0 <= i < index ==> #[trigger] windows@[i] != (
                    estimate.window_seconds,
                    estimate.reset_at,
                ),
    {
        if windows[index].0 == estimate.window_seconds && windows[index].1 == estimate.reset_at {
            assert(windows@[index as int] == (estimate.window_seconds, estimate.reset_at));
            return true;
        }
    }
    false
}

/// Lets go of the estimates for windows.
pub fn clear_estimates(estimates: &Vec<QuotaEstimate>, windows: &Vec<(i64, i64)>) -> (kept: Vec<
    QuotaEstimate,
>)
    ensures
        kept@ == estimates_without(estimates@, windows@),
{
    let mut kept: Vec<QuotaEstimate> = Vec::new();
    assert(estimates@.take(0) =~= Seq::<QuotaEstimate>::empty());
    for index in 0..estimates.len()
        invariant
            kept@ == estimates_without(estimates@.take(index as int), windows@),
    {
        proof {
            assert(estimates@.take(index + 1).drop_last() =~= estimates@.take(index as int));
            assert(estimates@.take(index + 1).last() == estimates@[index as int]);
        }
        if !is_of_window(&estimates[index], windows) {
            kept.push(estimates[index]);
        }
    }
    assert(estimates@.take(estimates.len() as int) =~= estimates@);
    kept
}

/// Lets go of the estimates for the windows of a quota.
pub fn clear_estimates_for_current_quota(
    estimates: &Vec<QuotaEstimate>,
    quota: &ProviderAccountQuota,
) -> (kept: Vec<QuotaEstimate>)
    ensures
        kept@ == estimates_without(estimates@, window_ids(quota.data)),
{
    let windows = estimate_window_ids(quota);
    clear_estimates(estimates, &windows)
}

impl QuotaView {
    /// What is known once the service gave a quota. The estimates for its
    /// windows go, since they go with another share of use.
    pub open spec fn with_reading(
        self,
        data: QuotaData,
        plan_type: Option<Seq<char>>,
        reset_credits: JsonView,
        now: i64,
    ) -> QuotaView {
        QuotaView {
            status: QuotaStatus::Success,
            data: Some(data),
            plan_type,
            fetched_at: Some(now),
            last_attempt_at: self.last_attempt_at,
            error: None,
            error_code: None,
            reset_credits,
            estimates: estimates_without(self.estimates, window_ids(Some(data))),
        }
    }

    /// What is known once a quota could not be had.
    pub open spec fn with_failure(
        self,
        status: QuotaStatus,
        message: Seq<char>,
        code: Option<Seq<char>>,
    ) -> QuotaView {
        QuotaView { status, error: Some(message), error_code: code, ..self }
    }
}

/// Takes in a quota that the service gave. The estimates for its windows go,
/// since they go with another share of use.
pub fn apply_successful_quota_snapshot(
    snapshot: &mut ProviderAccountQuota,
    data: QuotaData,
    plan_type: Option<String>,
    reset_credits: Json,
    now: i64,
)
    ensures
        final(snapshot)@ == old(snapshot)@.with_reading(
            data,
            text::string_of(plan_type),
            reset_credits@,
            now,
        ),
        final(snapshot).data == Some(data),
        final(snapshot).plan_type == plan_type,
        final(snapshot).reset_credits == reset_credits,
        final(snapshot).fetched_at == Some(now),
        final(snapshot).last_attempt_at == old(snapshot).last_attempt_at,
{
    snapshot.status = QuotaStatus::Success;
    snapshot.data = Some(data);
    snapshot.plan_type = plan_type;
    snapshot.fetched_at = Some(now);
    snapshot.error = None;
    snapshot.error_code = None;
    snapshot.reset_credits = reset_credits;
    let kept = clear_estimates_for_current_quota(&snapshot.estimates, snapshot);
    snapshot.estimates = kept;
}

/// Notes that a quota could not be had.
pub fn apply_failed_quota_snapshot(
    snapshot: &mut ProviderAccountQuota,
    status: QuotaStatus,
    message: String,
    code: Option<String>,
)
    ensures
        final(snapshot)@ == old(snapshot)@.with_failure(status, message@, text::string_of(code)),
{
    snapshot.status = status;
    snapshot.error = Some(message);
    snapshot.error_code = code;
}

/// What it means for a quota that the account cannot be used.
pub fn status_of_error(error: &AppError) -> (status: QuotaStatus)
    ensures
        status == if error@ is InvalidConfig {
            QuotaStatus::Unauthorized
        } else {
            QuotaStatus::Error
        },
{
    match error {
        AppError::InvalidConfig(_) => QuotaStatus::Unauthorized,
        AppError::StaleOperation | AppError::Internal(_) => QuotaStatus::Error,
    }
}

/// After a quota was taken in, no estimate is left for a window of it, and
/// those for other windows are all there.
pub proof fn law_no_estimate_outlives_its_window(
    estimates: Seq<QuotaEstimate>,
    windows: Seq<(i64, i64)>,
    estimate: QuotaEstimate,
)
    ensures
        estimates_without(estimates, windows).contains(estimate) <==> estimates.contains(estimate)
            && !belongs_to(estimate, windows),
    decreases estimates.len(),
{
    if estimates.len() > 0 {
        let rest = estimates.drop_last();
        let last = estimates.last();
        law_no_estimate_outlives_its_window(rest, windows, estimate);
        let earlier = estimates_without(rest, windows);
        let kept = estimates_without(estimates, windows);
        if estimates.contains(estimate) {
            let k = choose|k: int| 0 <= k < estimates.len() && estimates[k] == estimate;
            if k < rest.len() {
                assert(rest[k] == estimate);
            }
        }
        if rest.contains(estimate) {
            let k = choose|k: int| 0 <= k < rest.len() && rest[k] == estimate;
            assert(estimates[k] == estimate);
        }
        assert(estimates[estimates.len() - 1] == last);
        if !belongs_to(last, windows) {
            assert(kept[kept.len() - 1] == last);
            if earlier.contains(estimate) {
                let k = choose|k: int| 0 <= k < earlier.len() && earlier[k] == estimate;
                assert(kept[k] == estimate);
            }
            if kept.contains(estimate) {
                let k = choose|k: int| 0 <= k < kept.len() && kept[k] == estimate;
                if k < earlier.len() {
                    assert(earlier[k] == estimate);
                }
            }
        }
    }
}

// ---------------------------------------------------------------------------
// Estimating
// ---------------------------------------------------------------------------

/// What estimating a window led to.
pub struct QuotaEstimateWindowResult {
    pub window_seconds: i64,
    pub reset_at: i64,
    pub success: bool,
    pub estimate: Option<QuotaEstimate>,
    pub reason: Option<String>,
}

/// Whether a window came to its end while it was estimated.
pub open spec fn crossed(results: Seq<QuotaEstimateWindowResult>, now: i64) -> bool {
    exists|i: int| 0 <= i < results.len() && now >= (#[trigger] results[i]).reset_at
}

/// Whether a window came to its end while it was estimated.
pub fn quota_estimation_crossed_reset(
    results: &Vec<QuotaEstimateWindowResult>,
    now: i64,
) -> (crossed_reset: bool)
    ensures
        crossed_reset == crossed(results@, now),
{
    for index in 0..results.len()
        invariant
            forall|i: int| 0 <= i < index ==> now < (#[trigger] results@[i]).reset_at,
    {
        if now >= results[index].reset_at {
            return true;
        }
    }
    false
}

/// The estimates that came out.
pub open spec fn made_estimates(results: Seq<QuotaEstimateWindowResult>) -> Seq<QuotaEstimate>
    decreases results.len(),
{
    if results.len() == 0 {
        Seq::empty()
    } else {
        let earlier = made_estimates(results.drop_last());
        match results.last().estimate {
            Some(estimate) => if results.last().success {
                earlier.push(estimate)
            } else {
                earlier
            },
            None => earlier,
        }
    }
}

fn list_estimates(results: &Vec<QuotaEstimateWindowResult>) -> (estimates: Vec<QuotaEstimate>)
    ensures
        estimates@ == made_estimates(results@),
{
    let mut estimates: Vec<QuotaEstimate> = Vec::new();
    assert(results@.take(0) =~= Seq::<QuotaEstimateWindowResult>::empty());
    for index in 0..results.len()
        invariant
            estimates@ == made_estimates(results@.take(index as int)),
    {
        proof {
            assert(results@.take(index + 1).drop_last() =~= results@.take(index as int));
            assert(results@.take(index + 1).last() == results@[index as int]);
        }
        if results[index].success {
            if let Some(estimate) = results[index].estimate {
                estimates.push(estimate);
            }
        }
    }
    assert(results@.take(results.len() as int) =~= results@);
    estimates
}

/// The windows of a quota that can be estimated, or why there are none.
pub open spec fn estimable(quota: QuotaView) -> Result<Seq<(i64, i64, u64)>, ErrorView> {
    if quota.status != QuotaStatus::Success {
        Err(
            ErrorView::InvalidConfig(
                match quota.error {
                    Some(error) => error,
                    None => "刷新额度失败，暂无法估算。"@,
                },
            ),
        )
    } else if known_windows(quota.data).len() == 0 {
        Err(
            ErrorView::InvalidConfig(
                "当前额度窗口缺少可识别的时长或重置时间，暂无法估算。"@,
            ),
        )
    } else {
        Ok(known_windows(quota.data))
    }
}

/// The windows of a quota that can be estimated, or why there are none.
pub fn windows_to_estimate(quota: &ProviderAccountQuota) -> (outcome: Result<
    Vec<(i64, i64, u64)>,
    AppError,
>)
    ensures
        match outcome {
            Ok(windows) => estimable(quota@) == Ok::<Seq<(i64, i64, u64)>, ErrorView>(windows@),
            Err(error) => estimable(quota@) == Err::<Seq<(i64, i64, u64)>, ErrorView>(error@),
        },
{
    if quota.status != QuotaStatus::Success {
        return Err(
            match &quota.error {
                Some(error) => AppError::InvalidConfig(error.clone()),
                None => AppError::invalid("刷新额度失败，暂无法估算。"),
            },
        );
    }
    let windows = estimate_windows(quota);
    if windows.len() == 0 {
        return Err(
            AppError::invalid("当前额度窗口缺少可识别的时长或重置时间，暂无法估算。"),
        );
    }
    Ok(windows)
}

/// The moment that a quota stands for, in milliseconds.
pub open spec fn moment_of(quota: QuotaView) -> Result<i64, ErrorView> {
    match quota.fetched_at {
        Some(fetched_at) => Ok(crate::maintenance::clamped(fetched_at * 1000)),
        None => Err(ErrorView::Internal("刷新额度后缺少快照时间，无法安全估算。"@)),
    }
}

/// The moment, or the error.
pub open spec fn moment_result(outcome: Result<i64, AppError>) -> Result<i64, ErrorView> {
    match outcome {
        Ok(moment) => Ok(moment),
        Err(error) => Err(error@),
    }
}

/// The moment that a quota stands for, in milliseconds.
pub fn snapshot_moment(quota: &ProviderAccountQuota) -> (outcome: Result<i64, AppError>)
    ensures
        moment_result(outcome) == moment_of(quota@),
{
    match quota.fetched_at {
        Some(fetched_at) => Ok(to_milliseconds(fetched_at)),
        None => Err(AppError::internal("刷新额度后缺少快照时间，无法安全估算。")),
    }
}

fn to_milliseconds(seconds: i64) -> (milliseconds: i64)
    ensures
        milliseconds == crate::maintenance::clamped(seconds * 1000),
{
    let milliseconds: i128 = seconds as i128 * 1000;
    if milliseconds > i64::MAX as i128 {
        i64::MAX
    } else if milliseconds < i64::MIN as i128 {
        i64::MIN
    } else {
        milliseconds as i64
    }
}

/// What follows an estimation.
pub enum EstimationStep {
    /// Estimate once more.
    Again,
    /// Keep these estimates, and tell the results.
    Keep(Vec<QuotaEstimate>),
    /// Give up.
    GiveUp(AppError),
}

/// What follows an estimation: a window that came to its end on the way has
/// it made once more, and only once.
pub fn end_estimation(
    results: &Vec<QuotaEstimateWindowResult>,
    first_attempt: bool,
    now: i64,
) -> (step: EstimationStep)
    ensures
        crossed(results@, now) && first_attempt ==> step is Again,
        crossed(results@, now) && !first_attempt ==> (step matches EstimationStep::GiveUp(error)
            && error@ == ErrorView::InvalidConfig(
            "估算过程中额度周期再次重置，请稍后重新估算。"@,
        )),
        !crossed(results@, now) ==> (step matches EstimationStep::Keep(estimates) && estimates@
            == made_estimates(results@)),
{
    if quota_estimation_crossed_reset(results, now) {
        if first_attempt {
            return EstimationStep::Again;
        }
        return EstimationStep::GiveUp(
            AppError::invalid("估算过程中额度周期再次重置，请稍后重新估算。"),
        );
    }
    EstimationStep::Keep(list_estimates(results))
}

// ---------------------------------------------------------------------------
// Credits
// ---------------------------------------------------------------------------

/// A credit that resets a quota.
pub struct ResetCredit {
    pub id: String,
    pub status: Option<String>,
    pub expires_at: Option<i64>,
}

/// Whether a credit can be used.
pub open spec fn usable(credit: ResetCredit, now: i64) -> bool {
    &&& text::string_of(credit.status) == Some("available"@)
    &&& credit.expires_at matches Some(expires_at) ==> expires_at > now
}

/// Whether a credit can be used.
pub fn credit_is_usable(credit: &ResetCredit, now: i64) -> (answer: bool)
    ensures
        answer == usable(*credit, now),
{
    let available = match &credit.status {
        Some(status) => same_text(status.as_str(), "available"),
        None => false,
    };
    let current = match credit.expires_at {
        Some(expires_at) => expires_at > now,
        None => true,
    };
    available && current
}

/// Whether a character may stand in the key of a request.
pub open spec fn is_key_char(c: char) -> bool {
    ||| 'a' <= c <= 'z'
    ||| 'A' <= c <= 'Z'
    ||| '0' <= c <= '9'
    ||| c == '-'
    ||| c == '_'
    ||| c == '.'
}

/// Whether a text may be the key of a request.
pub open spec fn is_request_key(key: Seq<char>) -> bool {
    &&& 16 <= key.len() <= 256
    &&& forall|i: int| 0 <= i < key.len() ==> is_key_char(#[trigger] key[i])
}

/// Makes sure that a text, but for what is around it, may be the key of a
/// request.
pub fn validate_idempotency_key(value: &str) -> (outcome: Result<(), AppError>)
    ensures
        match outcome {
            Ok(()) => is_request_key(text::trimmed(value@)),
            Err(error) => {
                &&& !is_request_key(text::trimmed(value@))
                &&& error@ == ErrorView::InvalidConfig(
                    "重置卡请求标识无效；请关闭确认框后重新开始一次操作。"@,
                )
            },
        },
{
    let key = text::trim(value);
    let chars = text::chars_of(key.as_str());
    if chars.len() < 16 || chars.len() > 256 {
        return Err(AppError::invalid("重置卡请求标识无效；请关闭确认框后重新开始一次操作。"));
    }
    for index in 0..chars.len()
        invariant
            chars@ == text::trimmed(value@),
            forall|i: int| 0 <= i < index ==> is_key_char(#[trigger] chars@[i]),
    {
        let c = chars[index];
        let allowed = (c >= 'a' && c <= 'z') || (c >= 'A' && c <= 'Z') || (c >= '0' && c <= '9')
            || c == '-' || c == '_' || c == '.';
        if !allowed {
            assert(!is_key_char(text::trimmed(value@)[index as int]));
            return Err(
                AppError::invalid("重置卡请求标识无效；请关闭确认框后重新开始一次操作。"),
            );
        }
    }
    Ok(())
}

/// The first credit with an identifier.
pub open spec fn credit_with_id(credits: Seq<ResetCredit>, id: Seq<char>) -> Option<ResetCredit>
    decreases credits.len(),
{
    if credits.len() == 0 {
        None
    } else if credits[0].id@ == id {
        Some(credits[0])
    } else {
        credit_with_id(credits.drop_first(), id)
    }
}

/// Why a credit may not be used.
pub open spec fn credit_problem(
    credits: Seq<ResetCredit>,
    id: Seq<char>,
    unknown: bool,
    now: i64,
) -> Option<ErrorView> {
    match credit_with_id(credits, id) {
        None => Some(
            ErrorView::InvalidConfig("重置卡不存在、已不属于该账号，或详情尚未完整提供该卡。"@),
        ),
        Some(credit) => if !usable(credit, now) {
            Some(
                ErrorView::InvalidConfig(
                    "该重置卡已过期、正在使用、已使用或状态未知，不能再次提交。"@,
                ),
            )
        } else if unknown {
            Some(
                ErrorView::InvalidConfig(
                    "该重置卡此前结果未知；为避免重复消费，本会话不会再次提交。"@,
                ),
            )
        } else {
            None
        },
    }
}

fn find_credit<'a>(credits: &'a Vec<ResetCredit>, id: &str) -> (credit: Option<&'a ResetCredit>)
    ensures
        match credit {
            Some(credit) => credit_with_id(credits@, id@) == Some(*credit),
            None => credit_with_id(credits@, id@) is None,
        },
{
    assert(credits@.skip(0) =~= credits@);
    for index in 0..credits.len()
        invariant
            credit_with_id(credits@, id@) == credit_with_id(credits@.skip(index as int), id@),
    {
        proof {
            assert(credits@.skip(index as int)[0] == credits@[index as int]);
            assert(credits@.skip(index as int).drop_first() =~= credits@.skip(index + 1));
        }
        if same_text(credits[index].id.as_str(), id) {
            return Some(&credits[index]);
        }
    }
    assert(credits@.skip(credits.len() as int).len() == 0);
    None
}

/// Makes sure that a credit may be used: the service lists it for the
/// account, it is available, and no earlier use of it ended in doubt.
pub fn check_credit(
    credits: &Vec<ResetCredit>,
    id: &str,
    unknown: bool,
    now: i64,
) -> (outcome: Result<(), AppError>)
    ensures
        match outcome {
            Ok(()) => credit_problem(credits@, id@, unknown, now) is None,
            Err(error) => credit_problem(credits@, id@, unknown, now) == Some(error@),
        },
{
    match find_credit(credits, id) {
        None => Err(
            AppError::invalid("重置卡不存在、已不属于该账号，或详情尚未完整提供该卡。"),
        ),
        Some(credit) => if !credit_is_usable(credit, now) {
            Err(
                AppError::invalid(
                    "该重置卡已过期、正在使用、已使用或状态未知，不能再次提交。",
                ),
            )
        } else if unknown {
            Err(
                AppError::invalid(
                    "该重置卡此前结果未知；为避免重复消费，本会话不会再次提交。",
                ),
            )
        } else {
            Ok(())
        },
    }
}

/// What came of using a credit.
#[derive(Clone, Copy, Debug, PartialEq, Eq, Structural)]
pub enum ResetCreditConsumeOutcome {
    Reset,
    AlreadyRedeemed,
    NothingToReset,
    NoCredit,
    Unknown,
}

/// What went wrong after a credit was used.
pub enum RefreshTrouble {
    ClearEstimates(AppError),
    ReadEstimates(AppError),
    Details(AppError),
    QuotaStatus(Option<String>),
    Quota(AppError),
}

/// What went wrong, in words.
pub open spec fn trouble_message(trouble: RefreshTrouble) -> Seq<char> {
    match trouble {
        RefreshTrouble::ClearEstimates(error) => "旧额度估算清理失败："@ + error@.message(),
        RefreshTrouble::ReadEstimates(error) => "旧额度估算读取失败："@ + error@.message(),
        RefreshTrouble::Details(error) => "重置卡详情刷新失败："@ + error@.message(),
        RefreshTrouble::QuotaStatus(Some(message)) => message@,
        RefreshTrouble::QuotaStatus(None) => "额度刷新未成功。"@,
        RefreshTrouble::Quota(error) => "额度刷新失败："@ + error@.message(),
    }
}

fn tell_trouble(trouble: &RefreshTrouble) -> (message: String)
    ensures
        message@ == trouble_message(*trouble),
{
    match trouble {
        RefreshTrouble::ClearEstimates(error) => text::concat(
            "旧额度估算清理失败：",
            error.message().as_str(),
        ),
        RefreshTrouble::ReadEstimates(error) => text::concat(
            "旧额度估算读取失败：",
            error.message().as_str(),
        ),
        RefreshTrouble::Details(error) => text::concat(
            "重置卡详情刷新失败：",
            error.message().as_str(),
        ),
        RefreshTrouble::QuotaStatus(Some(message)) => message.clone(),
        RefreshTrouble::QuotaStatus(None) => "额度刷新未成功。".to_owned(),
        RefreshTrouble::Quota(error) => text::concat(
            "额度刷新失败：",
            error.message().as_str(),
        ),
    }
}

/// All that went wrong, in words.
pub open spec fn trouble_messages(troubles: Seq<RefreshTrouble>) -> Seq<Seq<char>> {
    troubles.map_values(|trouble: RefreshTrouble| trouble_message(trouble))
}

/// Tells what went wrong after a credit was used. That never changes what
/// came of using it.
pub fn refresh_error(troubles: &Vec<RefreshTrouble>) -> (error: Option<String>)
    ensures
        text::string_of(error) == if troubles.len() == 0 {
            None
        } else {
            Some(text::joined(trouble_messages(troubles@), "；"@))
        },
{
    if troubles.len() == 0 {
        return None;
    }
    let mut messages: Vec<String> = Vec::new();
    for index in 0..troubles.len()
        invariant
            text::texts(messages@) == trouble_messages(troubles@).take(index as int),
    {
        let ghost before = messages@;
        messages.push(tell_trouble(&troubles[index]));
        proof {
            let all = trouble_messages(troubles@);
            assert(all[index as int] == trouble_message(troubles@[index as int]));
            assert(text::texts(messages@) =~= text::texts(before).push(all[index as int]));
            assert(all.take(index + 1) =~= all.take(index as int).push(all[index as int]));
        }
    }
    assert(trouble_messages(troubles@).take(troubles.len() as int) =~= trouble_messages(troubles@));
    Some(text::join(&messages, "；"))
}

/// Whether the estimates of an account go with a credit that was used.
pub fn clears_estimates(outcome: ResetCreditConsumeOutcome) -> (cleared: bool)
    ensures
        cleared == (outcome == ResetCreditConsumeOutcome::Reset || outcome
            == ResetCreditConsumeOutcome::AlreadyRedeemed),
{
    match outcome {
        ResetCreditConsumeOutcome::Reset | ResetCreditConsumeOutcome::AlreadyRedeemed => true,
        _ => false,
    }
}

} // verus!
