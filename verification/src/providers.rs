//! Third-party services: whether they can be used, which models they have,
//! and how a change to the one in use is saved.

use crate::codex_files::error_of;
use crate::config_manager::usable_key;
use crate::models::{AppError, ErrorView, ProviderApiType, ProviderProfile};
use crate::reasoning::is_among;
use crate::switching::worsened;
use crate::text;
use crate::text::same_text;
use vstd::prelude::*;

verus! {

// ---------------------------------------------------------------------------
// Whether a service can be used
// ---------------------------------------------------------------------------

/// The key of a service, which has to have one.
pub fn require_api_key(provider: &ProviderProfile) -> (outcome: Result<&str, AppError>)
    ensures
        match outcome {
            Ok(key) => usable_key(*provider) == Some(key@),
            Err(error) => {
                &&& usable_key(*provider) is None
                &&& error@ == ErrorView::InvalidConfig(
                    "此服务还没有 API Key，请先编辑并填写。"@,
                )
            },
        },
{
    if let Some(key) = &provider.api_key {
        if !text::is_blank(key.as_str()) {
            return Ok(key.as_str());
        }
    }
    Err(AppError::invalid("此服务还没有 API Key，请先编辑并填写。"))
}

/// Makes sure that a service is switched on.
pub fn require_enabled(provider: &ProviderProfile) -> (outcome: Result<(), AppError>)
    ensures
        outcome is Ok <==> provider.enabled,
        outcome matches Err(error) ==> error@ == ErrorView::InvalidConfig(
            "所选第三方 API 服务已停用，请检查后重试。"@,
        ),
{
    if provider.enabled {
        Ok(())
    } else {
        Err(AppError::invalid("所选第三方 API 服务已停用，请检查后重试。"))
    }
}

/// Whether a model is selected. Without a selection every model is.
pub open spec fn is_selected(selected: Option<Seq<Seq<char>>>, model: Seq<char>) -> bool {
    match selected {
        Some(selected) => selected.contains(model),
        None => true,
    }
}

/// Whether one of the models has a name and is selected.
pub open spec fn some_selected(models: Seq<Seq<char>>, selected: Option<Seq<Seq<char>>>) -> bool {
    exists|i: int|
        0 <= i < models.len() && !text::blank(#[trigger] models[i]) && is_selected(
            selected,
            models[i],
        )
}

/// Whether something is selected, and nothing but models that were added.
pub open spec fn only_added_selected(
    added: Seq<Seq<char>>,
    selected: Option<Seq<Seq<char>>>,
) -> bool {
    match selected {
        Some(selected) => selected.len() > 0 && forall|i: int|
            0 <= i < selected.len() ==> !text::blank(#[trigger] selected[i]) && added.contains(
                selected[i],
            ),
        None => false,
    }
}

/// The names in an optional list.
pub open spec fn names_of(names: Option<Vec<String>>) -> Option<Seq<Seq<char>>> {
    match names {
        Some(names) => Some(text::texts(names@)),
        None => None,
    }
}

/// The selection of a service.
pub open spec fn selection(provider: ProviderProfile) -> Option<Seq<Seq<char>>> {
    names_of(provider.selected_models)
}

/// Why a service has no model to be used with, once it was asked for them.
pub open spec fn model_problem(
    refresh_error: Option<ErrorView>,
    provider: ProviderProfile,
) -> Option<ErrorView> {
    let selected = selection(provider);
    let added = text::texts(provider.custom_models@);
    let offered = text::texts(provider.available_models@);
    match refresh_error {
        Some(error) => if error is StaleOperation {
            Some(error)
        } else if some_selected(added, selected) && (offered.len() == 0 || only_added_selected(
            added,
            selected,
        )) {
            None
        } else {
            Some(
                ErrorView::InvalidConfig(
                    "无法获取此服务的最新模型，连接未切换；已保留原有模型缓存："@
                        + error.message(),
                ),
            )
        },
        None => if some_selected(offered, selected) || some_selected(added, selected) {
            None
        } else {
            Some(
                ErrorView::InvalidConfig("此服务没有可用模型，无法激活。请检查 /models 接口后重试"@),
            )
        },
    }
}

fn has_selected(models: &Vec<String>, selected: &Option<Vec<String>>) -> (found: bool)
    ensures
        found == some_selected(
            text::texts(models@),
            names_of(*selected),
        ),
{
    let ghost views = text::texts(models@);
    let ghost wanted = names_of(*selected);
    for index in 0..models.len()
        invariant
            views == text::texts(models@),
            wanted == names_of(*selected),
            forall|i: int|
                0 <= i < index ==> text::blank(#[trigger] views[i]) || !is_selected(
                    wanted,
                    views[i],
                ),
    {
        assert(views[index as int] == models[index as int]@);
        let chosen = match selected {
            Some(selected) => is_among(models[index].as_str(), selected),
            None => true,
        };
        if chosen && !text::is_blank(models[index].as_str()) {
            return true;
        }
    }
    false
}

fn has_only_added(added: &Vec<String>, selected: &Option<Vec<String>>) -> (answer: bool)
    ensures
        answer == only_added_selected(
            text::texts(added@),
            names_of(*selected),
        ),
{
    let chosen = match selected {
        Some(chosen) => chosen,
        None => return false,
    };
    if chosen.len() == 0 {
        return false;
    }
    let ghost views = text::texts(chosen@);
    for index in 0..chosen.len()
        invariant
            views == text::texts(chosen@),
            *selected == Some(*chosen),
            forall|i: int|
                0 <= i < index ==> !text::blank(#[trigger] views[i]) && text::texts(
                    added@,
                ).contains(views[i]),
    {
        assert(views[index as int] == chosen[index as int]@);
        if text::is_blank(chosen[index].as_str()) || !is_among(chosen[index].as_str(), added) {
            assert(text::blank(views[index as int]) || !text::texts(added@).contains(
                views[index as int],
            ));
            return false;
        }
    }
    true
}

/// Makes sure that a service has a model to be used with. What it offered
/// earlier does not count once it could not be asked; models that were added
/// by hand do.
pub fn validate_fresh_activation_models(
    refresh_error: Option<AppError>,
    provider: &ProviderProfile,
) -> (outcome: Result<(), AppError>)
    ensures
        match outcome {
            Ok(()) => model_problem(error_of(refresh_error), *provider) is None,
            Err(error) => model_problem(error_of(refresh_error), *provider) == Some(error@),
        },
{
    let custom_selected = has_selected(&provider.custom_models, &provider.selected_models);
    if let Some(error) = refresh_error {
        if error.is_stale() {
            return Err(error);
        }
        if custom_selected && (provider.available_models.len() == 0 || has_only_added(
            &provider.custom_models,
            &provider.selected_models,
        )) {
            return Ok(());
        }
        return Err(
            AppError::InvalidConfig(
                text::concat(
                    "无法获取此服务的最新模型，连接未切换；已保留原有模型缓存：",
                    error.message().as_str(),
                ),
            ),
        );
    }
    if custom_selected || has_selected(&provider.available_models, &provider.selected_models) {
        Ok(())
    } else {
        Err(AppError::invalid("此服务没有可用模型，无法激活。请检查 /models 接口后重试"))
    }
}

/// Once a service could not be asked for its models, those that it offered
/// earlier are never what makes it usable.
pub proof fn law_earlier_models_do_not_count(error: ErrorView, provider: ProviderProfile)
    requires
        provider.custom_models.len() == 0,
    ensures
        model_problem(Some(error), provider) is Some,
{
}

// ---------------------------------------------------------------------------
// Trying a service
// ---------------------------------------------------------------------------

/// What came of trying a service.
pub struct ProviderTestResult {
    pub ok: bool,
    pub status: u16,
    pub endpoint: String,
    pub message: String,
    pub suggest_v1: bool,
}

/// What is told of a service that was tried.
pub open spec fn test_message(ok: bool, api_type: ProviderApiType, status: u16) -> Seq<char> {
    if !ok {
        "连接测试未通过（HTTP "@ + text::decimal(status as nat)
            + "），请检查 API 地址、API Key 和服务状态。"@
    } else if api_type is Chat {
        "模型列表接口可以访问，本机转换代理可正常接入该服务。"@
    } else {
        "模型列表接口可以访问，Codex 可直接从此服务读取模型。"@
    }
}

/// Whether an address ends in its first version.
pub open spec fn ends_in_v1(base_url: Seq<char>) -> bool {
    base_url.len() >= 3 && base_url.skip(base_url.len() - 3) == "/v1"@
}

fn has_v1(base_url: &str) -> (answer: bool)
    ensures
        answer == ends_in_v1(base_url@),
{
    let chars = text::chars_of(base_url);
    if chars.len() < 3 {
        return false;
    }
    let end = text::string_from(&chars, chars.len() - 3, chars.len());
    assert(chars@.subrange(chars.len() - 3, chars.len() as int) =~= base_url@.skip(
        base_url@.len() - 3,
    ));
    same_text(end.as_str(), "/v1")
}

/// Tells what came of trying a service. `ok` is whether its answer, with that
/// status, counts as one.
pub fn tell_test(provider: &ProviderProfile, endpoint: String, status: u16, ok: bool) -> (result:
    ProviderTestResult)
    ensures
        result.ok == ok,
        result.status == status,
        result.endpoint == endpoint,
        result.message@ == test_message(ok, provider.api_type, status),
        result.suggest_v1 == (status == 404 && !ends_in_v1(provider.base_url@)),
{
    let message = if !ok {
        let mut message = "连接测试未通过（HTTP ".to_owned();
        message.append(text::decimal_text(status as u128).as_str());
        message.append("），请检查 API 地址、API Key 和服务状态。");
        message
    } else {
        match provider.api_type {
            ProviderApiType::Chat => {
                "模型列表接口可以访问，本机转换代理可正常接入该服务。".to_owned()
            },
            ProviderApiType::Responses => {
                "模型列表接口可以访问，Codex 可直接从此服务读取模型。".to_owned()
            },
        }
    };
    let suggest_v1 = status == 404 && !has_v1(provider.base_url.as_str());
    ProviderTestResult { ok, status, endpoint, message, suggest_v1 }
}

// ---------------------------------------------------------------------------
// The models of a service
// ---------------------------------------------------------------------------

/// A model as a service describes it.
pub struct ModelDetail {
    pub id: String,
    pub context_window: Option<u64>,
    pub description: Option<String>,
}

/// What is known of a model.
pub struct ModelMeta {
    pub name: Option<String>,
    pub context_window: Option<u64>,
    pub description: Option<String>,
}

/// What is known of a model, as a mathematical value.
pub struct MetaView {
    pub name: Option<Seq<char>>,
    pub context_window: Option<u64>,
    pub description: Option<Seq<char>>,
}

impl View for ModelMeta {
    type V = MetaView;

    open spec fn view(&self) -> MetaView {
        MetaView {
            name: text::string_of(self.name),
            context_window: self.context_window,
            description: text::string_of(self.description),
        }
    }
}

/// How many of the names at the start come before a name.
pub open spec fn rank_of(names: Seq<Seq<char>>, name: Seq<char>) -> int
    decreases names.len(),
{
    if names.len() == 0 || !text::precedes(names[0], name) {
        0
    } else {
        1 + rank_of(names.drop_first(), name)
    }
}

/// Names in their order, with another one among them.
pub open spec fn with_name(names: Seq<Seq<char>>, name: Seq<char>) -> Seq<Seq<char>> {
    if names.contains(name) {
        names
    } else {
        names.insert(rank_of(names, name), name)
    }
}

/// The names of the models in their order, each once.
pub open spec fn model_names(details: Seq<ModelDetail>) -> Seq<Seq<char>>
    decreases details.len(),
{
    if details.len() == 0 {
        Seq::empty()
    } else {
        with_name(model_names(details.drop_last()), details.last().id@)
    }
}

/// Whether names stand in their order, each once.
pub open spec fn in_order(names: Seq<Seq<char>>) -> bool {
    forall|i: int, j: int|
        0 <= i < j < names.len() ==> text::precedes(#[trigger] names[i], #[trigger] names[j])
}

proof fn lemma_rank_of(names: Seq<Seq<char>>, name: Seq<char>)
    ensures
        0 <= rank_of(names, name) <= names.len(),
        forall|i: int|
            0 <= i < rank_of(names, name) ==> text::precedes(#[trigger] names[i], name),
        rank_of(names, name) < names.len() ==> !text::precedes(
            names[rank_of(names, name)],
            name,
        ),
    decreases names.len(),
{
    if names.len() > 0 && text::precedes(names[0], name) {
        let rest = names.drop_first();
        lemma_rank_of(rest, name);
        assert forall|i: int| 0 <= i < rank_of(names, name) implies text::precedes(
            #[trigger] names[i],
            name,
        ) by {
            if i > 0 {
                assert(text::precedes(rest[i - 1], name));
            }
        }
    }
}

proof fn lemma_rank_unique(names: Seq<Seq<char>>, name: Seq<char>, rank: int)
    requires
        0 <= rank <= names.len(),
        forall|i: int| 0 <= i < rank ==> text::precedes(#[trigger] names[i], name),
        rank < names.len() ==> !text::precedes(names[rank], name),
    ensures
        rank_of(names, name) == rank,
{
    lemma_rank_of(names, name);
    let found = rank_of(names, name);
    if found < rank {
        assert(text::precedes(names[found], name));
    }
    if rank < found {
        assert(text::precedes(names[rank], name));
    }
}

/// The names of models come out in their order, each once, and exactly those
/// that the service gave.
pub proof fn law_model_names(details: Seq<ModelDetail>, name: Seq<char>)
    ensures
        in_order(model_names(details)),
        model_names(details).contains(name) <==> (exists|i: int|
            0 <= i < details.len() && (#[trigger] details[i]).id@ == name),
    decreases details.len(),
{
    if details.len() > 0 {
        let rest = details.drop_last();
        let last = details.last().id@;
        let earlier = model_names(rest);
        let all = model_names(details);
        law_model_names(rest, name);
        law_model_names(rest, last);
        lemma_rank_of(earlier, last);
        let rank = rank_of(earlier, last);
        if !earlier.contains(last) {
            if rank < earlier.len() {
                text::lemma_precedes_total(earlier[rank], last);
                assert(earlier[rank] != last);
            }
            assert forall|i: int, j: int| 0 <= i < j < all.len() implies text::precedes(
                #[trigger] all[i],
                #[trigger] all[j],
            ) by {
                let a = if i < rank { i } else { i - 1 };
                let b = if j < rank { j } else { j - 1 };
                if i != rank && j != rank {
                    assert(text::precedes(earlier[a], earlier[b]));
                } else if j == rank {
                    assert(text::precedes(earlier[i], last));
                } else if b > rank {
                    assert(text::precedes(earlier[rank], earlier[b]));
                    text::lemma_precedes_transitive(last, earlier[rank], earlier[b]);
                }
            }
            if earlier.contains(name) {
                let k = choose|k: int| 0 <= k < earlier.len() && earlier[k] == name;
                assert(all[if k < rank { k } else { k + 1 }] == name);
            }
            assert(all[rank] == last);
            if all.contains(name) && name != last {
                let k = choose|k: int| 0 <= k < all.len() && all[k] == name;
                assert(earlier[if k < rank { k } else { k - 1 }] == name);
            }
        }
        if exists|i: int| 0 <= i < rest.len() && (#[trigger] rest[i]).id@ == name {
            let i = choose|i: int| 0 <= i < rest.len() && (#[trigger] rest[i]).id@ == name;
            assert(details[i].id@ == name);
        }
        if exists|i: int| 0 <= i < details.len() && (#[trigger] details[i]).id@ == name {
            let i = choose|i: int| 0 <= i < details.len() && (#[trigger] details[i]).id@ == name;
            if i < rest.len() {
                assert(rest[i].id@ == name);
            }
        }
        assert(details[details.len() - 1].id@ == last);
    }
}

/// The names of the models in their order, each once.
pub fn list_model_names(details: &Vec<ModelDetail>) -> (names: Vec<String>)
    ensures
        text::texts(names@) == model_names(details@),
{
    let mut names: Vec<String> = Vec::new();
    assert(details@.take(0) =~= Seq::<ModelDetail>::empty());
    assert(text::texts(names@) =~= Seq::<Seq<char>>::empty());
    for index in 0..details.len()
        invariant
            text::texts(names@) == model_names(details@.take(index as int)),
    {
        let ghost earlier = text::texts(names@);
        let ghost name = details@[index as int].id@;
        proof {
            assert(details@.take(index + 1).drop_last() =~= details@.take(index as int));
            assert(details@.take(index + 1).last() == details@[index as int]);
        }
        if !is_among(details[index].id.as_str(), &names) {
            let mut rank: usize = 0;
            while rank < names.len() && text::comes_before(
                names[rank].as_str(),
                details[index].id.as_str(),
            )
                invariant
                    index < details.len(),
                    name == details@[index as int].id@,
                    earlier == text::texts(names@),
                    rank <= names.len(),
                    forall|i: int| 0 <= i < rank ==> text::precedes(#[trigger] earlier[i], name),
                decreases names.len() - rank,
            {
                assert(earlier[rank as int] == names@[rank as int]@);
                rank = rank + 1;
            }
            proof {
                if rank < names.len() {
                    assert(earlier[rank as int] == names@[rank as int]@);
                }
                lemma_rank_unique(earlier, name, rank as int);
            }
            let ghost before = names@;
            names.insert(rank, details[index].id.clone());
            assert(text::texts(names@) =~= earlier.insert(rank as int, name)) by {
                assert forall|i: int| 0 <= i < names@.len() implies #[trigger] text::texts(
                    names@,
                )[i] == earlier.insert(rank as int, name)[i] by {
                    if i < rank {
                        assert(names@[i] == before[i]);
                        assert(earlier[i] == before[i]@);
                    } else if i > rank {
                        assert(names@[i] == before[i - 1]);
                        assert(earlier[i - 1] == before[i - 1]@);
                    }
                }
            }
        }
    }
    assert(details@.take(details.len() as int) =~= details@);
    names
}

/// The window that a service gives for a model; of two, the later.
pub open spec fn window_of(details: Seq<ModelDetail>, name: Seq<char>) -> Option<u64>
    decreases details.len(),
{
    if details.len() == 0 {
        None
    } else if details.last().id@ == name && details.last().context_window is Some {
        details.last().context_window
    } else {
        window_of(details.drop_last(), name)
    }
}

/// The description that a service gives for a model; of two, the later.
pub open spec fn description_of(details: Seq<ModelDetail>, name: Seq<char>) -> Option<Seq<char>>
    decreases details.len(),
{
    if details.len() == 0 {
        None
    } else if details.last().id@ == name && details.last().description is Some {
        text::string_of(details.last().description)
    } else {
        description_of(details.drop_last(), name)
    }
}

/// What is known of a model: what the service says of it, and otherwise what
/// a catalogue does.
pub open spec fn known_meta(
    details: Seq<ModelDetail>,
    name: Seq<char>,
    listed: Option<MetaView>,
) -> Option<MetaView> {
    let own = description_of(details, name);
    match listed {
        Some(listed) => Some(
            MetaView {
                name: listed.name,
                context_window: listed.context_window,
                description: match own {
                    Some(description) => Some(description),
                    None => listed.description,
                },
            },
        ),
        None => match own {
            Some(description) => Some(
                MetaView { name: None, context_window: None, description: Some(description) },
            ),
            None => None,
        },
    }
}

fn find_window(details: &Vec<ModelDetail>, name: &str) -> (window: Option<u64>)
    ensures
        window == window_of(details@, name@),
{
    let mut window: Option<u64> = None;
    assert(details@.take(0) =~= Seq::<ModelDetail>::empty());
    for index in 0..details.len()
        invariant
            window == window_of(details@.take(index as int), name@),
    {
        proof {
            assert(details@.take(index + 1).drop_last() =~= details@.take(index as int));
            assert(details@.take(index + 1).last() == details@[index as int]);
        }
        if details[index].context_window.is_some() && same_text(details[index].id.as_str(), name) {
            window = details[index].context_window;
        }
    }
    assert(details@.take(details.len() as int) =~= details@);
    window
}

fn find_description(details: &Vec<ModelDetail>, name: &str) -> (description: Option<String>)
    ensures
        text::string_of(description) == description_of(details@, name@),
{
    let mut found: Option<String> = None;
    assert(details@.take(0) =~= Seq::<ModelDetail>::empty());
    for index in 0..details.len()
        invariant
            text::string_of(found) == description_of(details@.take(index as int), name@),
    {
        proof {
            assert(details@.take(index + 1).drop_last() =~= details@.take(index as int));
            assert(details@.take(index + 1).last() == details@[index as int]);
        }
        if let Some(description) = &details[index].description {
            if same_text(details[index].id.as_str(), name) {
                found = Some(description.clone());
            }
        }
    }
    assert(details@.take(details.len() as int) =~= details@);
    found
}

/// The optional note.
pub open spec fn meta_of(meta: Option<ModelMeta>) -> Option<MetaView> {
    match meta {
        Some(meta) => Some(meta@),
        None => None,
    }
}

/// What is known of a model: its window, and the rest.
pub fn describe_model(
    details: &Vec<ModelDetail>,
    name: &str,
    listed: Option<ModelMeta>,
) -> (known: (Option<u64>, Option<ModelMeta>))
    ensures
        known.0 == window_of(details@, name@),
        meta_of(known.1) == known_meta(details@, name@, meta_of(listed)),
        listed matches Some(listed) ==> (known.1 matches Some(meta) && meta.name == listed.name
            && meta.context_window == listed.context_window),
{
    let window = find_window(details, name);
    let own = find_description(details, name);
    let meta = match listed {
        Some(listed) => Some(
            ModelMeta {
                name: listed.name,
                context_window: listed.context_window,
                description: match own {
                    Some(description) => Some(description),
                    None => listed.description,
                },
            },
        ),
        None => match own {
            Some(description) => Some(
                ModelMeta { name: None, context_window: None, description: Some(description) },
            ),
            None => None,
        },
    };
    (window, meta)
}

/// Whether a service that was saved has to be asked for its models: none are
/// known, and it has a key.
pub fn needs_model_refresh(saved: &ProviderProfile) -> (needed: bool)
    ensures
        needed == (saved.available_models.len() == 0 && usable_key(*saved) is Some),
{
    let keyed = match &saved.api_key {
        Some(key) => !text::is_blank(key.as_str()),
        None => false,
    };
    saved.available_models.len() == 0 && keyed
}

// ---------------------------------------------------------------------------
// Saving a change
// ---------------------------------------------------------------------------

/// The steps of saving a service.
#[derive(Clone, Copy, Debug, PartialEq, Eq, Structural)]
pub enum SaveStep {
    /// Make sure that Codex is not running.
    Guard,
    /// Save the service.
    Save,
    /// Write the files of Codex for the service.
    Sync,
    /// Ask the service for its models, and save them.
    FetchModels,
    /// Find out whether the service is still in use.
    StillActive,
    /// Find out whether the service is still reached in the same way.
    SameSource,
    /// The same, after its models could not be had.
    StillActiveAfterFailure,
    /// Write the files of Codex for the service and its models.
    SyncModels,
    /// Save the service as it was, unless it was changed since.
    Restore,
    /// Write the files of Codex for the service as it was.
    SyncBack,
    Over,
}

/// What came of a step.
pub enum SaveReport {
    Done,
    Failed(AppError),
    /// An answer to a question.
    Answer(bool),
}

/// What came of a step, as a mathematical value.
pub enum SaveReportView {
    Done,
    Failed(ErrorView),
    Answer(bool),
}

impl View for SaveReport {
    type V = SaveReportView;

    open spec fn view(&self) -> SaveReportView {
        match self {
            SaveReport::Done => SaveReportView::Done,
            SaveReport::Failed(error) => SaveReportView::Failed(error@),
            SaveReport::Answer(answer) => SaveReportView::Answer(*answer),
        }
    }
}

/// Saving a service.
pub struct ProviderSave {
    active: bool,
    replaces: bool,
    needs_models: bool,
    step: SaveStep,
    error: Option<AppError>,
}

/// Saving a service, as a mathematical value. It is known whether the service
/// is in use; once it is saved, whether it takes the place of an earlier one
/// and whether it has to be asked for its models.
pub struct SaveView {
    pub active: bool,
    pub replaces: bool,
    pub needs_models: bool,
    pub step: SaveStep,
    pub error: Option<ErrorView>,
}

impl View for ProviderSave {
    type V = SaveView;

    closed spec fn view(&self) -> SaveView {
        SaveView {
            active: self.active,
            replaces: self.replaces,
            needs_models: self.needs_models,
            step: self.step,
            error: error_of(self.error),
        }
    }
}

impl SaveView {
    /// Saving ends with an error.
    pub open spec fn ended(self, error: ErrorView) -> SaveView {
        SaveView { step: SaveStep::Over, error: Some(error), ..self }
    }

    /// Saving ends well.
    pub open spec fn done(self) -> SaveView {
        SaveView { step: SaveStep::Over, error: None, ..self }
    }

    /// What follows an error that the service as it was can be saved after.
    pub open spec fn taken_back(self, error: ErrorView) -> SaveView {
        if self.replaces {
            SaveView { step: SaveStep::Restore, error: Some(error), ..self }
        } else {
            self.ended(error)
        }
    }

    /// What follows once the service is saved.
    pub open spec fn saved(self) -> SaveView {
        if self.needs_models {
            SaveView { step: SaveStep::FetchModels, ..self }
        } else if self.active {
            SaveView { step: SaveStep::Sync, ..self }
        } else {
            self.done()
        }
    }

    /// What follows once it is known that models could not be had for a
    /// service that is still in use.
    pub open spec fn models_missing(self) -> SaveView {
        let error = self.error->0;
        if !self.replaces || error is StaleOperation {
            self.ended(error)
        } else {
            SaveView {
                step: SaveStep::Restore,
                error: Some(
                    ErrorView::InvalidConfig(
                        "无法从更新后的服务获取模型列表，已保留原连接："@ + error.message(),
                    ),
                ),
                ..self
            }
        }
    }

    /// What follows a step.
    pub open spec fn after(self, report: SaveReportView) -> SaveView {
        match (self.step, report) {
            (SaveStep::Guard, SaveReportView::Failed(error)) => self.ended(error),
            (SaveStep::Guard, _) => SaveView { step: SaveStep::Save, ..self },
            (SaveStep::Save, SaveReportView::Failed(error)) => self.ended(error),
            (SaveStep::Save, _) => self.saved(),
            (SaveStep::Sync, SaveReportView::Failed(error)) => self.taken_back(error),
            (SaveStep::Sync, _) => self.done(),
            (SaveStep::FetchModels, SaveReportView::Failed(error)) => if self.active {
                SaveView {
                    step: SaveStep::StillActiveAfterFailure,
                    error: Some(error),
                    ..self
                }
            } else {
                self.done()
            },
            (SaveStep::FetchModels, _) => if self.active {
                SaveView { step: SaveStep::StillActive, ..self }
            } else {
                self.done()
            },
            (SaveStep::StillActive, SaveReportView::Failed(error)) => self.ended(error),
            (SaveStep::StillActive, SaveReportView::Answer(false)) => self.done(),
            (SaveStep::StillActive, _) => SaveView { step: SaveStep::SameSource, ..self },
            (SaveStep::SameSource, SaveReportView::Failed(error)) => self.ended(error),
            (SaveStep::SameSource, SaveReportView::Answer(false)) => self.ended(
                ErrorView::StaleOperation,
            ),
            (SaveStep::SameSource, _) => SaveView { step: SaveStep::SyncModels, ..self },
            (SaveStep::SyncModels, SaveReportView::Failed(error)) => self.taken_back(error),
            (SaveStep::SyncModels, _) => self.done(),
            (SaveStep::StillActiveAfterFailure, SaveReportView::Failed(error)) => self.ended(error),
            (SaveStep::StillActiveAfterFailure, SaveReportView::Answer(false)) => self.done(),
            (SaveStep::StillActiveAfterFailure, _) => self.models_missing(),
            (SaveStep::Restore, SaveReportView::Failed(failure)) => self.ended(
                worsened(
                    self.error->0,
                    "；恢复原服务数据失败，请重新选择连接："@,
                    failure,
                ),
            ),
            (SaveStep::Restore, SaveReportView::Answer(false)) => self.ended(
                ErrorView::StaleOperation,
            ),
            (SaveStep::Restore, _) => SaveView { step: SaveStep::SyncBack, ..self },
            (SaveStep::SyncBack, SaveReportView::Failed(failure)) => self.ended(
                worsened(
                    self.error->0,
                    "；原服务配置恢复失败，请重新选择连接："@,
                    failure,
                ),
            ),
            (SaveStep::SyncBack, _) => self.ended(self.error->0),
            (SaveStep::Over, _) => self,
        }
    }

    /// Whether an error is there where the steps need one.
    pub open spec fn sound(self) -> bool {
        match self.step {
            SaveStep::StillActiveAfterFailure => self.error is Some && self.active,
            SaveStep::Restore | SaveStep::SyncBack => self.error is Some && self.replaces
                && self.active,
            SaveStep::Sync | SaveStep::StillActive | SaveStep::SameSource | SaveStep::SyncModels => {
                self.active && self.error is None
            },
            SaveStep::Over => true,
            _ => self.error is None,
        }
    }
}

impl ProviderSave {
    /// Saving before anything is done. A service in use is saved only while
    /// Codex is not running.
    pub fn new(active: bool) -> (save: Self)
        ensures
            save@ == (SaveView {
                active,
                replaces: false,
                needs_models: false,
                step: if active {
                    SaveStep::Guard
                } else {
                    SaveStep::Save
                },
                error: None,
            }),
            save@.sound(),
    {
        ProviderSave {
            active,
            replaces: false,
            needs_models: false,
            step: if active {
                SaveStep::Guard
            } else {
                SaveStep::Save
            },
            error: None,
        }
    }

    /// What is to be done next.
    pub fn step(&self) -> (step: SaveStep)
        ensures
            step == self@.step,
    {
        self.step
    }

    /// The error that it ends with so far.
    pub fn error(&self) -> (error: Option<&AppError>)
        ensures
            match error {
                Some(error) => self@.error == Some(error@),
                None => self@.error is None,
            },
    {
        match &self.error {
            Some(error) => Some(error),
            None => None,
        }
    }

    /// The error that it ends with.
    pub fn into_error(self) -> (error: Option<AppError>)
        ensures
            match error {
                Some(error) => self@.error == Some(error@),
                None => self@.error is None,
            },
    {
        self.error
    }

    /// Notes what the service that was saved is like.
    pub fn describe(&mut self, active: bool, replaces: bool, needs_models: bool)
        requires
            old(self)@.step == SaveStep::Save,
            old(self)@.sound(),
        ensures
            final(self)@ == (SaveView { active, replaces, needs_models, ..old(self)@ }),
            final(self)@.sound(),
    {
        self.active = active;
        self.replaces = replaces;
        self.needs_models = needs_models;
    }

    fn end(&mut self, error: AppError)
        ensures
            final(self)@ == old(self)@.ended(error@),
    {
        self.step = SaveStep::Over;
        self.error = Some(error);
    }

    fn finish(&mut self)
        ensures
            final(self)@ == old(self)@.done(),
    {
        self.step = SaveStep::Over;
        self.error = None;
    }

    fn take_back(&mut self, error: AppError)
        ensures
            final(self)@ == old(self)@.taken_back(error@),
    {
        if self.replaces {
            self.step = SaveStep::Restore;
            self.error = Some(error);
        } else {
            self.end(error);
        }
    }

    fn end_worse(&mut self, words: &str, failure: &AppError)
        requires
            old(self)@.error is Some,
        ensures
            final(self)@ == old(self)@.ended(worsened(old(self)@.error->0, words@, failure@)),
    {
        let mut message = match &self.error {
            Some(error) => error.message(),
            None => String::new(),
        };
        message.append(words);
        message.append(failure.message().as_str());
        self.end(AppError::Internal(message));
    }

    fn miss_models(&mut self)
        requires
            old(self)@.error is Some,
        ensures
            final(self)@ == old(self)@.models_missing(),
    {
        let told = match &self.error {
            Some(error) => if error.is_stale() {
                None
            } else {
                Some(
                    text::concat(
                        "无法从更新后的服务获取模型列表，已保留原连接：",
                        error.message().as_str(),
                    ),
                )
            },
            None => None,
        };
        match told {
            Some(message) => {
                if self.replaces {
                    self.step = SaveStep::Restore;
                    self.error = Some(AppError::InvalidConfig(message));
                } else {
                    self.step = SaveStep::Over;
                }
            },
            None => {
                self.step = SaveStep::Over;
            },
        }
    }

    /// Notes what came of a step.
    pub fn report(&mut self, report: SaveReport)
        requires
            old(self)@.sound(),
        ensures
            final(self)@ == old(self)@.after(report@),
            final(self)@.sound(),
    {
        match (self.step, report) {
            (SaveStep::Guard, SaveReport::Failed(error)) => self.end(error),
            (SaveStep::Guard, _) => {
                self.step = SaveStep::Save;
            },
            (SaveStep::Save, SaveReport::Failed(error)) => self.end(error),
            (SaveStep::Save, _) => {
                if self.needs_models {
                    self.step = SaveStep::FetchModels;
                } else if self.active {
                    self.step = SaveStep::Sync;
                } else {
                    self.finish();
                }
            },
            (SaveStep::Sync, SaveReport::Failed(error)) => self.take_back(error),
            (SaveStep::Sync, _) => self.finish(),
            (SaveStep::FetchModels, SaveReport::Failed(error)) => {
                if self.active {
                    self.step = SaveStep::StillActiveAfterFailure;
                    self.error = Some(error);
                } else {
                    self.finish();
                }
            },
            (SaveStep::FetchModels, _) => {
                if self.active {
                    self.step = SaveStep::StillActive;
                } else {
                    self.finish();
                }
            },
            (SaveStep::StillActive, SaveReport::Failed(error)) => self.end(error),
            (SaveStep::StillActive, SaveReport::Answer(false)) => self.finish(),
            (SaveStep::StillActive, _) => {
                self.step = SaveStep::SameSource;
            },
            (SaveStep::SameSource, SaveReport::Failed(error)) => self.end(error),
            (SaveStep::SameSource, SaveReport::Answer(false)) => self.end(
                AppError::StaleOperation,
            ),
            (SaveStep::SameSource, _) => {
                self.step = SaveStep::SyncModels;
            },
            (SaveStep::SyncModels, SaveReport::Failed(error)) => self.take_back(error),
            (SaveStep::SyncModels, _) => self.finish(),
            (SaveStep::StillActiveAfterFailure, SaveReport::Failed(error)) => self.end(error),
            (SaveStep::StillActiveAfterFailure, SaveReport::Answer(false)) => self.finish(),
            (SaveStep::StillActiveAfterFailure, _) => self.miss_models(),
            (SaveStep::Restore, SaveReport::Failed(failure)) => self.end_worse(
                "；恢复原服务数据失败，请重新选择连接：",
                &failure,
            ),
            (SaveStep::Restore, SaveReport::Answer(false)) => self.end(AppError::StaleOperation),
            (SaveStep::Restore, _) => {
                self.step = SaveStep::SyncBack;
            },
            (SaveStep::SyncBack, SaveReport::Failed(failure)) => self.end_worse(
                "；原服务配置恢复失败，请重新选择连接：",
                &failure,
            ),
            (SaveStep::SyncBack, _) => {
                self.step = SaveStep::Over;
            },
            (SaveStep::Over, _) => {},
        }
    }
}

/// Where the files of Codex could not be written for a service that took the
/// place of an earlier one, the earlier one is saved again; and saving never
/// ends well after that.
pub proof fn law_failed_saves_are_taken_back(save: SaveView, error: ErrorView, report: SaveReportView)
    requires
        save.sound(),
    ensures
        (save.step == SaveStep::Sync || save.step == SaveStep::SyncModels) && save.replaces
            ==> save.after(SaveReportView::Failed(error)).step == SaveStep::Restore,
        (save.step == SaveStep::Restore || save.step == SaveStep::SyncBack) ==> save.after(
            report,
        ).error is Some,
{
}

/// A service that was changed again in the meantime is never overwritten: that
/// it was is told, and nothing more is done.
pub proof fn law_later_saves_win(save: SaveView)
    requires
        save.step == SaveStep::SameSource || save.step == SaveStep::Restore,
    ensures
        ({
            let after = save.after(SaveReportView::Answer(false));
            &&& after.step == SaveStep::Over
            &&& after.error == Some(ErrorView::StaleOperation)
        }),
{
}

} // verus!
