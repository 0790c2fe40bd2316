//! What holds of quotas and models that were read: they are kept as they came.

use crate::models::{ErrorView, ProviderProfile};
use crate::providers;
use crate::providers::{MetaView, ModelDetail};
use crate::quota;
use crate::quota::{
    QuotaData, QuotaEstimate, QuotaEstimateWindowResult, QuotaStatus, QuotaView, QuotaWindow,
    ResetCredit,
};
use crate::json::JsonView;
use crate::quota_rounds::{
    EstimationEventView, EstimationPhase, EstimationView, QuotaEventView, QuotaPhase,
    QuotaRefreshView, QuotaTask,
};
use crate::text;
use vstd::prelude::*;

verus! {

// ---------------------------------------------------------------------------
// Reading a quota
// ---------------------------------------------------------------------------

/// What a service gave is what is saved next, and what the round ends with: the
/// quota, the plan, the credits and the moment, with no error left from before.
pub proof fn law_quota_that_was_read_is_saved(
    round: QuotaRefreshView,
    data: QuotaData,
    plan: Option<Seq<char>>,
    credits: JsonView,
    now: i64,
)
    requires
        round.phase == QuotaPhase::Fetch || round.phase == QuotaPhase::FetchAgain,
    ensures
        ({
            let read = round.after(QuotaEventView::Fetched(data, plan, credits, now));
            let over = read.after(QuotaEventView::Saved);
            &&& read.task() == QuotaTask::Save
            &&& read.snapshot.status == QuotaStatus::Success
            &&& read.snapshot.data == Some(data)
            &&& read.snapshot.plan_type == plan
            &&& read.snapshot.reset_credits == credits
            &&& read.snapshot.fetched_at == Some(now)
            &&& read.snapshot.last_attempt_at == round.snapshot.last_attempt_at
            &&& read.snapshot.error is None
            &&& read.snapshot.error_code is None
            &&& over.task() == QuotaTask::Finished
            &&& over.snapshot == read.snapshot
            &&& over.error == round.error
        }),
{
}

/// A quota that could not be had tells why, and is saved with that.
pub proof fn law_refusal_of_a_quota_is_told(
    round: QuotaRefreshView,
    status: QuotaStatus,
    message: Seq<char>,
    code: Option<Seq<char>>,
    error: ErrorView,
)
    ensures
        round.phase == QuotaPhase::Fetch || round.phase == QuotaPhase::FetchAgain ==> ({
            let refused = round.after(QuotaEventView::Refused(false, status, message, code));
            &&& refused.task() == QuotaTask::Save
            &&& refused.snapshot.status == status
            &&& refused.snapshot.error == Some(message)
            &&& refused.snapshot.error_code == code
            &&& refused.snapshot.plan_type == round.snapshot.plan_type
        }),
        round.phase == QuotaPhase::Account ==> ({
            let unusable = round.after(QuotaEventView::Unusable(error));
            &&& unusable.task() == QuotaTask::Save
            &&& unusable.snapshot.error_code is None
            &&& error matches ErrorView::InvalidConfig(words) ==> unusable.snapshot.status
                == QuotaStatus::Unauthorized && unusable.snapshot.error == Some(words)
            &&& !(error is InvalidConfig) ==> unusable.snapshot.status == QuotaStatus::Error
        }),
        round.phase == QuotaPhase::Account ==> round.after(QuotaEventView::Ready).task()
            == QuotaTask::Fetch,
        round.phase == QuotaPhase::Fetch ==> round.after(
            QuotaEventView::Refused(true, status, message, code),
        ).task() == QuotaTask::FetchAgain,
        round.phase == QuotaPhase::Account ==> round.task() == QuotaTask::Account(!round.active),
{
}

/// Whether a window that can be told by its end is the given one.
pub open spec fn is_window(window: Option<QuotaWindow>, fallback: i64, found: (i64, i64, u64)) -> bool {
    &&& window matches Some(window)
    &&& window.reset_at == Some(found.1)
    &&& window.used_percent_bits == found.2
    &&& match window.window_seconds {
        Some(seconds) => found.0 == seconds,
        None => found.0 == fallback,
    }
    &&& found.0 > 0
    &&& found.1 > 0
}

/// The windows of a quota are its first window and its second one, as far as
/// their length and their end are known. A first window is taken to be five
/// hours long, a second one seven days, where the service does not say.
pub proof fn law_windows_are_those_of_the_quota(
    primary: Option<QuotaWindow>,
    secondary: Option<QuotaWindow>,
    found: (i64, i64, u64),
)
    ensures
        ({
            let windows = quota::known_windows(Some(QuotaData::Windowed { primary, secondary }));
            &&& windows.contains(found) ==> is_window(primary, 18000, found) || is_window(
                secondary,
                604800,
                found,
            )
            &&& is_window(primary, 18000, found) ==> windows.len() > 0 && windows[0] == found
            &&& is_window(secondary, 604800, found) ==> exists|i: int|
                0 <= i < windows.len() && (#[trigger] windows[i]).0 == found.0 && windows[i].1
                    == found.1
            &&& is_window(secondary, 604800, found) && (primary is None || primary->0.reset_at
                != Some(found.1)) ==> windows.contains(found)
        }),
{
    let windows = quota::known_windows(Some(QuotaData::Windowed { primary, secondary }));
    if windows.len() > 0 {
        assert(windows[0] == windows[0]);
    }
    if windows.len() > 1 {
        assert(windows[1] == windows[1]);
    }
}

/// The windows that are estimated after a quota was read are those of that very
/// quota, from the moment at which it was read.
pub proof fn law_read_windows_are_estimated(
    estimation: EstimationView,
    round: QuotaRefreshView,
    data: QuotaData,
    plan: Option<Seq<char>>,
    credits: JsonView,
    now: i64,
)
    requires
        estimation.phase == EstimationPhase::Refresh,
        round.phase == QuotaPhase::Fetch || round.phase == QuotaPhase::FetchAgain,
        0 <= now <= 9223372036854775,
    ensures
        ({
            let read = round.after(QuotaEventView::Fetched(data, plan, credits, now)).snapshot;
            let next = estimation.after(EstimationEventView::Refreshed(read));
            let windows = quota::known_windows(Some(data));
            if windows.len() == 0 {
                next.phase == EstimationPhase::Over && next.error is Some
            } else {
                &&& next.phase == EstimationPhase::ClearNew
                &&& next.windows == windows
                &&& next.moment == Ok::<i64, ErrorView>((now * 1000) as i64)
                &&& next.after(EstimationEventView::Done).phase == EstimationPhase::Estimate
            }
        }),
{
}

/// A quota that could not be read is not estimated, and its trouble is told.
pub proof fn law_unread_quota_is_not_estimated(estimation: EstimationView, read: QuotaView)
    requires
        estimation.phase == EstimationPhase::Refresh,
        read.status != QuotaStatus::Success,
    ensures
        ({
            let next = estimation.after(EstimationEventView::Refreshed(read));
            &&& next.phase == EstimationPhase::Over
            &&& read.error matches Some(words) ==> next.error == Some(
                ErrorView::InvalidConfig(words),
            )
            &&& next.error is Some
        }),
{
}

/// The estimates of results that were successful are made, in their order, and
/// no others.
pub proof fn law_successful_estimates_are_made(
    results: Seq<QuotaEstimateWindowResult>,
    estimate: QuotaEstimate,
)
    ensures
        quota::made_estimates(results).contains(estimate) <==> exists|i: int|
            0 <= i < results.len() && (#[trigger] results[i]).success && results[i].estimate
                == Some(estimate),
        quota::made_estimates(results).len() <= results.len(),
        (forall|i: int| 0 <= i < results.len() ==> (#[trigger] results[i]).success
            && results[i].estimate is Some) ==> quota::made_estimates(results).len()
            == results.len() && forall|i: int|
            0 <= i < results.len() ==> (#[trigger] results[i]).estimate == Some(
                quota::made_estimates(results)[i],
            ),
    decreases results.len(),
{
    if results.len() > 0 {
        let rest = results.drop_last();
        let last = results.len() - 1;
        law_successful_estimates_are_made(rest, estimate);
        let earlier = quota::made_estimates(rest);
        let made = quota::made_estimates(results);
        if made.contains(estimate) {
            let k = choose|k: int| 0 <= k < made.len() && made[k] == estimate;
            if k < earlier.len() {
                assert(earlier[k] == estimate);
                let i = choose|i: int|
                    0 <= i < rest.len() && (#[trigger] rest[i]).success && rest[i].estimate
                        == Some(estimate);
                assert(results[i] == rest[i]);
            } else {
                assert(results[last].success && results[last].estimate == Some(estimate));
            }
        }
        if exists|i: int|
            0 <= i < results.len() && (#[trigger] results[i]).success && results[i].estimate
                == Some(estimate) {
            let i = choose|i: int|
                0 <= i < results.len() && (#[trigger] results[i]).success && results[i].estimate
                    == Some(estimate);
            if i < rest.len() {
                assert(rest[i] == results[i]);
                let k = choose|k: int| 0 <= k < earlier.len() && earlier[k] == estimate;
                assert(made[k] == estimate);
            } else {
                assert(made[made.len() - 1] == estimate);
            }
        }
        if forall|i: int| 0 <= i < results.len() ==> (#[trigger] results[i]).success
            && results[i].estimate is Some {
            assert forall|i: int| 0 <= i < rest.len() implies (#[trigger] rest[i]).success
                && rest[i].estimate is Some by {
                assert(results[i].success);
            }
            assert(results[last].success);
            assert forall|i: int| 0 <= i < results.len() implies (#[trigger] results[i]).estimate
                == Some(made[i]) by {
                if i < rest.len() {
                    assert(rest[i].estimate == Some(earlier[i]));
                }
            }
        }
    }
}

/// Estimates that came in time are saved, and where there are none the
/// estimation is over. Those that came too late are made once more, and then
/// given up.
pub proof fn law_estimates_in_time_are_saved(
    estimation: EstimationView,
    results: Seq<QuotaEstimateWindowResult>,
    now: i64,
)
    requires
        estimation.phase == EstimationPhase::Estimate,
    ensures
        ({
            let next = estimation.after(EstimationEventView::Estimated(results, now));
            let late = exists|i: int|
                0 <= i < results.len() && (#[trigger] results[i]).reset_at <= now;
            &&& !late ==> next.estimates == quota::made_estimates(results)
            &&& !late && quota::made_estimates(results).len() > 0 ==> next.phase
                == EstimationPhase::Save && next.error == estimation.error
            &&& !late && quota::made_estimates(results).len() == 0 ==> next.phase
                == EstimationPhase::Over && next.error == estimation.error
            &&& late && estimation.first_attempt ==> next.phase == EstimationPhase::Refresh
                && !next.first_attempt
            &&& late && !estimation.first_attempt ==> next.phase == EstimationPhase::Over
                && next.error is Some
        }),
{
}

// ---------------------------------------------------------------------------
// Credits
// ---------------------------------------------------------------------------

/// A credit is found by its identifier, and it is the first one that has it.
pub proof fn law_credit_is_found_by_its_identifier(credits: Seq<ResetCredit>, id: Seq<char>)
    ensures
        match quota::credit_with_id(credits, id) {
            Some(credit) => credit.id@ == id && exists|i: int|
                0 <= i < credits.len() && #[trigger] credits[i] == credit && forall|j: int|
                    0 <= j < i ==> (#[trigger] credits[j]).id@ != id,
            None => forall|i: int| 0 <= i < credits.len() ==> (#[trigger] credits[i]).id@ != id,
        },
    decreases credits.len(),
{
    if credits.len() > 0 {
        if credits[0].id@ == id {
            assert(credits[0] == quota::credit_with_id(credits, id)->0);
        } else {
            let rest = credits.drop_first();
            law_credit_is_found_by_its_identifier(rest, id);
            match quota::credit_with_id(rest, id) {
                Some(credit) => {
                    let k = choose|k: int|
                        0 <= k < rest.len() && #[trigger] rest[k] == credit && forall|j: int|
                            0 <= j < k ==> (#[trigger] rest[j]).id@ != id;
                    assert(credits[k + 1] == credit);
                    assert forall|j: int| 0 <= j < k + 1 implies (#[trigger] credits[j]).id@
                        != id by {
                        if j > 0 {
                            assert(rest[j - 1].id@ != id);
                        }
                    }
                },
                None => {
                    assert forall|i: int| 0 <= i < credits.len() implies (
                    #[trigger] credits[i]).id@ != id by {
                        if i > 0 {
                            assert(rest[i - 1].id@ != id);
                        }
                    }
                },
            }
        }
    }
}

/// A credit may be used exactly where it is listed, is available, has not run
/// out, and no earlier use of it ended in doubt.
pub proof fn law_usable_credits_may_be_used(
    credits: Seq<ResetCredit>,
    id: Seq<char>,
    unknown: bool,
    now: i64,
)
    ensures
        quota::credit_problem(credits, id, unknown, now) is None <==> !unknown && (
        quota::credit_with_id(credits, id) matches Some(credit) && text::string_of(credit.status)
            == Some("available"@) && (credit.expires_at is None || credit.expires_at->0 > now)),
{
}

/// A key by which a request is known has sixteen characters or more, and no
/// character but ASCII letters and digits, hyphens, underscores and dots.
pub proof fn law_request_keys(key: Seq<char>, i: int)
    ensures
        quota::is_request_key(key) && 0 <= i < key.len() ==> {
            let code = key[i] as int;
            48 <= code <= 57 || 65 <= code <= 90 || 97 <= code <= 122 || code == 45 || code == 46
                || code == 95
        },
        quota::is_request_key(key) ==> 16 <= key.len() <= 256,
        16 <= key.len() <= 256 && (forall|k: int|
            0 <= k < key.len() ==> {
                let code = #[trigger] key[k] as int;
                48 <= code <= 57 || 65 <= code <= 90 || 97 <= code <= 122 || code == 45 || code
                    == 46 || code == 95
            }) ==> quota::is_request_key(key),
{
}

// ---------------------------------------------------------------------------
// Models
// ---------------------------------------------------------------------------

/// Whether an entry is the last one in which a service describes a model.
pub open spec fn describes_last(details: Seq<ModelDetail>, name: Seq<char>, i: int) -> bool {
    &&& 0 <= i < details.len()
    &&& details[i].id@ == name
    &&& details[i].description is Some
    &&& forall|j: int|
        i < j < details.len() ==> !((#[trigger] details[j]).id@ == name
            && details[j].description is Some)
}

/// Whether an entry is the last one in which a service tells the window of a
/// model.
pub open spec fn tells_window_last(details: Seq<ModelDetail>, name: Seq<char>, i: int) -> bool {
    &&& 0 <= i < details.len()
    &&& details[i].id@ == name
    &&& details[i].context_window is Some
    &&& forall|j: int|
        i < j < details.len() ==> !((#[trigger] details[j]).id@ == name
            && details[j].context_window is Some)
}

/// A service describes a model by the last description that it gives under the
/// name of the model, and does not where it gives none.
pub proof fn law_services_describe_their_models(
    details: Seq<ModelDetail>,
    name: Seq<char>,
    i: int,
)
    ensures
        describes_last(details, name, i) ==> providers::description_of(details, name)
            == text::string_of(details[i].description),
        (forall|j: int|
            0 <= j < details.len() ==> !((#[trigger] details[j]).id@ == name
                && details[j].description is Some)) ==> providers::description_of(details, name)
            is None,
    decreases details.len(),
{
    if details.len() > 0 {
        let rest = details.drop_last();
        let last = details.len() - 1;
        law_services_describe_their_models(rest, name, i);
        if describes_last(details, name, i) && i < last {
            assert(!(details[last].id@ == name && details[last].description is Some));
            assert forall|j: int| i < j < rest.len() implies !((#[trigger] rest[j]).id@ == name
                && rest[j].description is Some) by {
                assert(rest[j] == details[j]);
            }
            assert(describes_last(rest, name, i));
        }
        if forall|j: int|
            0 <= j < details.len() ==> !((#[trigger] details[j]).id@ == name
                && details[j].description is Some) {
            assert(!(details[last].id@ == name && details[last].description is Some));
            assert forall|j: int| 0 <= j < rest.len() implies !((#[trigger] rest[j]).id@ == name
                && rest[j].description is Some) by {
                assert(rest[j] == details[j]);
            }
        }
    }
}

/// The window of a model is the last one that its service tells under the name
/// of the model; it is not known where the service tells none.
pub proof fn law_services_tell_windows(details: Seq<ModelDetail>, name: Seq<char>, i: int)
    ensures
        tells_window_last(details, name, i) ==> providers::window_of(details, name)
            == details[i].context_window,
        (forall|j: int|
            0 <= j < details.len() ==> !((#[trigger] details[j]).id@ == name
                && details[j].context_window is Some)) ==> providers::window_of(details, name)
            is None,
    decreases details.len(),
{
    if details.len() > 0 {
        let rest = details.drop_last();
        let last = details.len() - 1;
        law_services_tell_windows(rest, name, i);
        if tells_window_last(details, name, i) && i < last {
            assert(!(details[last].id@ == name && details[last].context_window is Some));
            assert forall|j: int| i < j < rest.len() implies !((#[trigger] rest[j]).id@ == name
                && rest[j].context_window is Some) by {
                assert(rest[j] == details[j]);
            }
            assert(tells_window_last(rest, name, i));
        }
        if forall|j: int|
            0 <= j < details.len() ==> !((#[trigger] details[j]).id@ == name
                && details[j].context_window is Some) {
            assert(!(details[last].id@ == name && details[last].context_window is Some));
            assert forall|j: int| 0 <= j < rest.len() implies !((#[trigger] rest[j]).id@ == name
                && rest[j].context_window is Some) by {
                assert(rest[j] == details[j]);
            }
        }
    }
}

/// What is known of a model that is listed: its listed name and window, and
/// the description that its service gives last, or else the listed one.
pub proof fn law_listed_models_are_described(
    details: Seq<ModelDetail>,
    name: Seq<char>,
    listed: MetaView,
    i: int,
)
    ensures
        providers::known_meta(details, name, Some(listed)) matches Some(meta) && {
            &&& meta.name == listed.name
            &&& meta.context_window == listed.context_window
            &&& describes_last(details, name, i) ==> meta.description == text::string_of(
                details[i].description,
            )
            &&& (forall|j: int|
                0 <= j < details.len() ==> !((#[trigger] details[j]).id@ == name
                    && details[j].description is Some)) ==> meta.description == listed.description
        },
{
    law_services_describe_their_models(details, name, i);
}

/// What is known of a model that is not listed: the description that its
/// service gives last, and nothing else.
pub proof fn law_unlisted_models_are_described(
    details: Seq<ModelDetail>,
    name: Seq<char>,
    i: int,
)
    ensures
        describes_last(details, name, i) ==> (providers::known_meta(details, name, None) matches Some(
            meta,
        ) && meta.name is None && meta.context_window is None && meta.description
            == text::string_of(details[i].description)),
        (forall|j: int|
            0 <= j < details.len() ==> !((#[trigger] details[j]).id@ == name
                && details[j].description is Some)) ==> providers::known_meta(details, name, None)
            is None,
{
    law_services_describe_their_models(details, name, i);
}

/// The estimates that stay are those of no window that is cleared, in their order,
/// each as often as it was there.
pub proof fn law_other_estimates_stay(estimates: Seq<QuotaEstimate>, windows: Seq<(i64, i64)>)
    ensures
        quota::estimates_without(estimates, windows) == estimates.filter(
            |estimate: QuotaEstimate|
                !windows.contains((estimate.window_seconds, estimate.reset_at)),
        ),
    decreases estimates.len(),
{
    reveal(Seq::filter);
    if estimates.len() > 0 {
        law_other_estimates_stay(estimates.drop_last(), windows);
    } else {
        assert(quota::estimates_without(estimates, windows) =~= estimates);
    }
}

/// The moment of a quota is that at which it was read, in milliseconds.
pub proof fn law_moment_of_a_quota(quota: QuotaView, seconds: i64)
    requires
        quota.fetched_at == Some(seconds),
        0 <= seconds <= 9223372036854775,
    ensures
        quota::moment_of(quota) == Ok::<i64, ErrorView>((seconds * 1000) as i64),
{
}

/// A service can be turned to where a model that is offered or was added is
/// selected. Where the models could not be read anew, only models that were added
/// count; without any the error is told.
pub proof fn law_service_needs_a_model(provider: ProviderProfile, error: ErrorView)
    ensures
        provider.selected_models is None && (exists|i: int|
            0 <= i < provider.available_models.len() && !text::blank(
                (#[trigger] provider.available_models@[i])@,
            )) ==> providers::model_problem(None, provider) is None,
        provider.available_models.len() == 0 && provider.custom_models.len() == 0
            ==> providers::model_problem(None, provider) is Some,
        provider.custom_models.len() == 0 && !(error is StaleOperation) ==> (
        providers::model_problem(Some(error), provider) matches Some(told) && text::finishes_with(
            told.message(),
            error.message(),
        )),
        error is StaleOperation ==> providers::model_problem(Some(error), provider) == Some(error),
{
    let offered = text::texts(provider.available_models@);
    let added = text::texts(provider.custom_models@);
    let all = "无法获取此服务的最新模型，连接未切换；已保留原有模型缓存："@ + error.message();
    assert(all.skip(all.len() - error.message().len()) =~= error.message());
    if exists|i: int|
        0 <= i < provider.available_models.len() && !text::blank(
            (#[trigger] provider.available_models@[i])@,
        ) {
        let i = choose|i: int|
            0 <= i < provider.available_models.len() && !text::blank(
                (#[trigger] provider.available_models@[i])@,
            );
        assert(!text::blank(offered[i]));
    }
}

} // verus!
