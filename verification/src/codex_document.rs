//! The configuration of Codex, as a TOML document: how it is turned to a
//! third-party service, and how it is turned back.

use crate::models::{AppError, ErrorView};
use crate::text;
use crate::text::same_text;
use crate::toml;
use crate::toml::{document_view, entry, item_view, table_entry, table_view, text_entry, TomlView};
use vstd::prelude::*;

verus! {

/// The name under which a third-party service stands in the configuration.
pub const MANAGED_PROVIDER_ID: &'static str = "custom";

/// A name that earlier versions wrote. It leads nowhere any more.
pub const LEGACY_OPENAI_RELAY_PROVIDER_ID: &'static str = "codex_tools_openai_relay";

/// Where the list of models stands, seen from the configuration.
pub const MODEL_CATALOG_PATH: &'static str = "model-catalogs/codex-tools.json";

/// The entries of a table.
pub type Entries = Map<Seq<char>, TomlView>;

pub(crate) proof fn lemma_keys_differ()
    ensures
        "model_providers"@.len() == 15,
        "model_provider"@.len() == 14,
        "model"@.len() == 5,
        "profiles"@.len() == 8,
        "model_catalog_json"@.len() == 18,
{
    reveal_strlit("model_providers");
    reveal_strlit("model_provider");
    reveal_strlit("model");
    reveal_strlit("profiles");
    reveal_strlit("model_catalog_json");
}

// ---------------------------------------------------------------------------
// Profiles
// ---------------------------------------------------------------------------

/// The entries of a profile that is told about a provider. A profile that
/// names none is not made to name one.
pub open spec fn profile_entries(entries: Entries, provider: Option<Seq<char>>) -> Entries {
    match provider {
        Some(provider) => if entries.contains_key("model_provider"@) {
            entries.insert("model_provider"@, TomlView::Text(provider))
        } else {
            entries
        },
        None => entries.remove("model_provider"@),
    }
}

/// A profile that is told about a provider.
pub open spec fn told_profile(profile: TomlView, provider: Option<Seq<char>>) -> TomlView {
    match profile {
        TomlView::Table(entries) => TomlView::Table(profile_entries(entries, provider)),
        TomlView::Inline(entries) => TomlView::Inline(profile_entries(entries, provider)),
        _ => profile,
    }
}

/// Profiles that are told about a provider.
pub open spec fn told_profiles(profiles: Entries, provider: Option<Seq<char>>) -> Entries {
    Map::new(
        |key: Seq<char>| profiles.contains_key(key),
        |key: Seq<char>| told_profile(profiles[key], provider),
    )
}

/// A configuration whose profiles are told about a provider.
pub open spec fn with_told_profiles(root: Entries, provider: Option<Seq<char>>) -> Entries {
    match table_entry(root, "profiles"@) {
        Some(profiles) => root.insert(
            "profiles"@,
            TomlView::Table(told_profiles(profiles, provider)),
        ),
        None => root,
    }
}

/// Tells a profile about a provider.
pub(crate) fn update_profile_model_provider(profile: &mut toml_edit::Item, provider: Option<&str>)
    ensures
        item_view(*final(profile)) == told_profile(
            item_view(*old(profile)),
            text::text_of(provider),
        ),
{
    if let Some(entries) = toml::item_table_mut(profile) {
        match provider {
            Some(provider) => {
                if toml::table_contains(entries, "model_provider") {
                    toml::table_set(entries, "model_provider", toml::text_item(provider));
                }
            },
            None => toml::table_remove(entries, "model_provider"),
        }
        return;
    }
    if let Some(entries) = toml::item_inline_mut(profile) {
        match provider {
            Some(provider) => {
                if toml::inline_contains(entries, "model_provider") {
                    toml::inline_insert_text(entries, "model_provider", provider);
                }
            },
            None => toml::inline_remove(entries, "model_provider"),
        }
    }
}

/// The profiles of which the first ones are told about a provider.
spec fn partly_told(
    profiles: Entries,
    keys: Seq<String>,
    count: int,
    provider: Option<Seq<char>>,
) -> Entries {
    Map::new(
        |key: Seq<char>| profiles.contains_key(key),
        |key: Seq<char>|
            if exists|i: int| 0 <= i < count && #[trigger] keys[i]@ == key {
                told_profile(profiles[key], provider)
            } else {
                profiles[key]
            },
    )
}

fn tell_table(profiles: &mut toml_edit::Table, provider: Option<&str>)
    ensures
        table_view(*final(profiles)) == told_profiles(
            table_view(*old(profiles)),
            text::text_of(provider),
        ),
{
    let keys = toml::table_keys(profiles);
    let ghost before = table_view(*profiles);
    let ghost told = text::text_of(provider);
    assert(before =~= partly_told(before, keys@, 0, told));
    for index in 0..keys.len()
        invariant
            told == text::text_of(provider),
            forall|i: int| 0 <= i < keys.len() ==> before.contains_key(#[trigger] keys@[i]@),
            forall|i: int, j: int|
                0 <= i < j < keys.len() ==> #[trigger] keys@[i]@ != #[trigger] keys@[j]@,
            table_view(*profiles) == partly_told(before, keys@, index as int, told),
    {
        let ghost reached = table_view(*profiles);
        let ghost key = keys@[index as int]@;
        proof {
            assert(reached.contains_key(key));
            assert(reached[key] == before[key]) by {
                assert forall|i: int| 0 <= i < index implies #[trigger] keys@[i]@ != key by {}
            }
        }
        if let Some(profile) = toml::table_get_mut(profiles, keys[index].as_str()) {
            update_profile_model_provider(profile, provider);
        }
        proof {
            let after = partly_told(before, keys@, index + 1, told);
            assert(!(told_profile(before[key], told) is Nothing));
            assert(reached.insert(key, told_profile(before[key], told)) =~= after) by {
                assert forall|other: Seq<char>| #[trigger] after.contains_key(other) && other
                    != key implies after[other] == reached[other] by {
                    if exists|i: int| 0 <= i < index + 1 && #[trigger] keys@[i]@ == other {
                        let i = choose|i: int| 0 <= i < index + 1 && #[trigger] keys@[i]@ == other;
                        assert(i < index);
                        assert(keys@[i]@ == other);
                    }
                }
                assert(keys@[index as int]@ == key);
            }
        }
    }
    proof {
        let all = partly_told(before, keys@, keys.len() as int, told);
        assert(all =~= told_profiles(before, told)) by {
            assert forall|key: Seq<char>| #[trigger] before.contains_key(key) implies all[key]
                == told_profile(before[key], told) by {
                let i = choose|i: int| 0 <= i < keys.len() && #[trigger] keys@[i]@ == key;
                assert(keys@[i]@ == key);
            }
        }
    }
}

fn tell_profiles(root: &mut toml_edit::Table, provider: Option<&str>)
    ensures
        table_view(*final(root)) == with_told_profiles(
            table_view(*old(root)),
            text::text_of(provider),
        ),
{
    let ghost before = table_view(*root);
    if let Some(item) = toml::table_get_mut(root, "profiles") {
        if let Some(profiles) = toml::item_table_mut(item) {
            tell_table(profiles, provider);
        } else {
            assert(before.insert("profiles"@, before["profiles"@]) =~= before);
        }
    }
}

// ---------------------------------------------------------------------------
// Providers
// ---------------------------------------------------------------------------

/// A configuration whose providers stand in a table of their own where they
/// stood in an inline table.
pub open spec fn with_table_of_providers(root: Entries) -> Entries {
    match entry(root, "model_providers"@) {
        Some(TomlView::Inline(providers)) => root.insert(
            "model_providers"@,
            TomlView::Table(providers),
        ),
        _ => root,
    }
}

/// Puts the entries in a table of their own.
fn make_table(entries: Vec<(String, toml_edit::Item)>, Ghost(held): Ghost<Entries>) -> (table:
    toml_edit::Table)
    requires
        forall|i: int|
            0 <= i < entries.len() ==> held.contains_key(#[trigger] entries@[i].0@)
                && held[entries@[i].0@] == item_view(entries@[i].1),
        forall|i: int|
            0 <= i < entries.len() ==> !(item_view((#[trigger] entries@[i]).1) is Nothing),
        forall|key: Seq<char>| #[trigger]
            held.contains_key(key) ==> (exists|i: int|
                0 <= i < entries.len() && #[trigger] entries@[i].0@ == key),
    ensures
        table_view(table) == held,
{
    let mut table = toml::new_table();
    for index in 0..entries.len()
        invariant
            forall|i: int|
                0 <= i < entries.len() ==> held.contains_key(#[trigger] entries@[i].0@)
                    && held[entries@[i].0@] == item_view(entries@[i].1),
            forall|i: int|
                0 <= i < entries.len() ==> !(item_view((#[trigger] entries@[i]).1) is Nothing),
            forall|i: int|
                0 <= i < index ==> table_view(table).contains_key(#[trigger] entries@[i].0@),
            forall|key: Seq<char>| #[trigger]
                table_view(table).contains_key(key) ==> held.contains_key(key) && table_view(
                    table,
                )[key] == held[key],
    {
        let ghost reached = table_view(table);
        assert(held.contains_key(entries@[index as int].0@));
        toml::table_insert(
            &mut table,
            entries[index].0.as_str(),
            toml::clone_item(&entries[index].1),
        );
    }
    proof {
        assert forall|key: Seq<char>| held.contains_key(key) implies #[trigger] table_view(
            table,
        ).contains_key(key) by {
            let i = choose|i: int| 0 <= i < entries.len() && #[trigger] entries@[i].0@ == key;
            assert(entries@[i].0@ == key);
        }
        assert(table_view(table) =~= held);
    }
    table
}

/// Puts the providers of a configuration in a table of their own where they
/// stand in an inline table.
pub fn normalize_inline_model_providers(document: &mut toml_edit::DocumentMut)
    ensures
        document_view(*final(document)) == with_table_of_providers(document_view(*old(document))),
{
    let ghost before = document_view(*document);
    let table = match toml::table_get(toml::root(document), "model_providers") {
        Some(item) => match toml::item_inline(item) {
            Some(inline) => Some(
                make_table(toml::inline_entries(inline), Ghost(toml::inline_view(*inline))),
            ),
            None => None,
        },
        None => None,
    };
    if let Some(table) = table {
        let root = toml::root_mut(document);
        toml::table_set(root, "model_providers", toml::table_item(table));
    }
}

/// A configuration that uses a provider.
pub open spec fn with_provider(root: Entries, provider: Seq<char>) -> Entries {
    with_told_profiles(
        root.insert("model_provider"@, TomlView::Text(provider)),
        Some(provider),
    )
}

/// Makes a configuration use a provider, and its profiles as well where they
/// name one.
pub fn update_managed_model_provider_fields(
    document: &mut toml_edit::DocumentMut,
    provider: &str,
)
    ensures
        document_view(*final(document)) == with_provider(
            document_view(*old(document)),
            provider@,
        ),
{
    let root = toml::root_mut(document);
    toml::table_set(root, "model_provider", toml::text_item(provider));
    tell_profiles(root, Some(provider));
}

// ---------------------------------------------------------------------------
// Turning to a third-party service
// ---------------------------------------------------------------------------

/// The texts as the entries of a table. Of two with one name the later holds.
pub open spec fn text_entries(pairs: Seq<(Seq<char>, Seq<char>)>) -> Entries
    decreases pairs.len(),
{
    if pairs.len() == 0 {
        toml::no_entries()
    } else {
        text_entries(pairs.drop_last()).insert(pairs.last().0, TomlView::Text(pairs.last().1))
    }
}

/// What the configuration says of a third-party service.
pub open spec fn service_entries(
    name: Seq<char>,
    base_url: Seq<char>,
    headers: Seq<(Seq<char>, Seq<char>)>,
) -> Entries {
    let plain = toml::no_entries().insert("name"@, TomlView::Text(text::trimmed(name))).insert(
        "wire_api"@,
        TomlView::Text("responses"@),
    ).insert("requires_openai_auth"@, TomlView::Bool(true)).insert(
        "base_url"@,
        TomlView::Text(text::without_trailing(text::trimmed(base_url), '/')),
    );
    if headers.len() == 0 {
        plain
    } else {
        plain.insert("http_headers"@, TomlView::Table(text_entries(headers)))
    }
}

/// A configuration that names a service and its model, before the service is
/// described.
pub open spec fn with_service_named(root: Entries, model: Seq<char>) -> Entries {
    let named = with_table_of_providers(
        with_provider(root, "custom"@).insert("model"@, TomlView::Text(text::trimmed(model))),
    );
    if named.contains_key("model_providers"@) {
        named
    } else {
        named.insert("model_providers"@, TomlView::Table(toml::no_entries()))
    }
}

/// A configuration that uses a third-party service.
pub open spec fn with_service(
    root: Entries,
    name: Seq<char>,
    base_url: Seq<char>,
    headers: Seq<(Seq<char>, Seq<char>)>,
    model: Seq<char>,
) -> Entries {
    let named = with_service_named(root, model);
    named.insert(
        "model_providers"@,
        TomlView::Table(
            (named["model_providers"@]->Table_0).insert(
                "custom"@,
                TomlView::Table(service_entries(name, base_url, headers)),
            ),
        ),
    ).insert("model_catalog_json"@, TomlView::Text("model-catalogs/codex-tools.json"@))
}

/// Why a configuration cannot use a third-party service.
pub open spec fn service_problem(root: Entries, model: Seq<char>) -> Option<ErrorView> {
    if text::blank(model) {
        Some(ErrorView::InvalidConfig("此服务没有可用模型，请先刷新模型列表后再激活。"@))
    } else if !(with_service_named(root, model)["model_providers"@] is Table) {
        Some(
            ErrorView::InvalidConfig(
                "Codex 配置中的 model_providers 格式不正确，需要手动修复后再试。"@,
            ),
        )
    } else {
        None
    }
}

fn make_text_table(pairs: &Vec<(String, String)>) -> (table: toml_edit::Table)
    ensures
        table_view(table) == text_entries(crate::headers::pair_texts(pairs@)),
{
    let mut table = toml::new_table();
    let ghost views = crate::headers::pair_texts(pairs@);
    assert(views.take(0) =~= Seq::<(Seq<char>, Seq<char>)>::empty());
    for index in 0..pairs.len()
        invariant
            views == crate::headers::pair_texts(pairs@),
            table_view(table) == text_entries(views.take(index as int)),
    {
        proof {
            assert(views[index as int] == (pairs[index as int].0@, pairs[index as int].1@));
            assert(views.take(index + 1).drop_last() =~= views.take(index as int));
            assert(views.take(index + 1).last() == views[index as int]);
        }
        toml::table_set(
            &mut table,
            pairs[index].0.as_str(),
            toml::text_item(pairs[index].1.as_str()),
        );
    }
    assert(views.take(pairs.len() as int) =~= views);
    table
}

fn make_service(name: &str, base_url: &str, headers: &Vec<(String, String)>) -> (table:
    toml_edit::Table)
    ensures
        table_view(table) == service_entries(
            name@,
            base_url@,
            crate::headers::pair_texts(headers@),
        ),
{
    let mut table = toml::new_table();
    let name = text::trim(name);
    let base_url = text::trim(base_url);
    let base_url = text::trim_end_char(base_url.as_str(), '/');
    toml::table_set(&mut table, "name", toml::text_item(name.as_str()));
    toml::table_set(&mut table, "wire_api", toml::text_item("responses"));
    toml::table_set(&mut table, "requires_openai_auth", toml::bool_item(true));
    toml::table_set(&mut table, "base_url", toml::text_item(base_url.as_str()));
    if headers.len() > 0 {
        toml::table_set(
            &mut table,
            "http_headers",
            toml::table_item(make_text_table(headers)),
        );
    }
    table
}

fn put_service(root: &mut toml_edit::Table, service: toml_edit::Table) -> (done: bool)
    requires
        table_view(*old(root)).contains_key("model_providers"@),
    ensures
        done == (table_view(*old(root))["model_providers"@] is Table),
        done ==> table_view(*final(root)) == table_view(*old(root)).insert(
            "model_providers"@,
            TomlView::Table(
                (table_view(*old(root))["model_providers"@]->Table_0).insert(
                    "custom"@,
                    TomlView::Table(table_view(service)),
                ),
            ),
        ),
        !done ==> table_view(*final(root)) == table_view(*old(root)),
{
    let ghost before = table_view(*root);
    match toml::table_get_mut(root, "model_providers") {
        Some(item) => match toml::item_table_mut(item) {
            Some(providers) => {
                toml::table_insert(providers, "custom", toml::table_item(service));
                true
            },
            None => {
                assert(before.insert("model_providers"@, before["model_providers"@]) =~= before);
                false
            },
        },
        None => false,
    }
}

/// Makes a configuration use a third-party service. Everything that is not
/// about it stays.
pub fn apply_custom_fields(
    document: &mut toml_edit::DocumentMut,
    provider_name: &str,
    base_url: &str,
    headers: &Vec<(String, String)>,
    model: &str,
) -> (outcome: Result<(), AppError>)
    ensures
        match outcome {
            Ok(()) => {
                &&& service_problem(document_view(*old(document)), model@) is None
                &&& document_view(*final(document)) == with_service(
                    document_view(*old(document)),
                    provider_name@,
                    base_url@,
                    crate::headers::pair_texts(headers@),
                    model@,
                )
            },
            Err(error) => {
                &&& service_problem(document_view(*old(document)), model@) == Some(error@)
                &&& document_view(*final(document)) == if text::blank(model@) {
                    document_view(*old(document))
                } else {
                    with_service_named(document_view(*old(document)), model@)
                }
            },
        },
{
    if text::is_blank(model) {
        return Err(AppError::invalid("此服务没有可用模型，请先刷新模型列表后再激活。"));
    }
    let model = text::trim(model);
    update_managed_model_provider_fields(document, "custom");
    toml::table_set(toml::root_mut(document), "model", toml::text_item(model.as_str()));
    normalize_inline_model_providers(document);
    let root = toml::root_mut(document);
    if !toml::table_contains(root, "model_providers") {
        toml::table_set(root, "model_providers", toml::table_item(toml::new_table()));
    }
    let service = make_service(provider_name, base_url, headers);
    if !put_service(root, service) {
        return Err(
            AppError::invalid(
                "Codex 配置中的 model_providers 格式不正确，需要手动修复后再试。",
            ),
        );
    }
    toml::table_set(
        root,
        "model_catalog_json",
        toml::text_item("model-catalogs/codex-tools.json"),
    );
    Ok(())
}

// ---------------------------------------------------------------------------
// Which model is used
// ---------------------------------------------------------------------------

/// The model that a configuration names, where it names one.
pub open spec fn named_model(root: Entries) -> Option<Seq<char>> {
    match text_entry(root, "model"@) {
        Some(model) => if text::blank(model) {
            None
        } else {
            Some(text::trimmed(model))
        },
        None => None,
    }
}

/// The first model that has a name.
pub open spec fn first_model(models: Seq<Seq<char>>) -> Option<Seq<char>>
    decreases models.len(),
{
    if models.len() == 0 {
        None
    } else if text::blank(models[0]) {
        first_model(models.drop_first())
    } else {
        Some(text::trimmed(models[0]))
    }
}

/// Whether a model is among others.
pub open spec fn offers(models: Seq<Seq<char>>, model: Seq<char>) -> bool {
    exists|i: int| 0 <= i < models.len() && text::trimmed(#[trigger] models[i]) == model
}

/// The model to use: the one that is in use where it is offered, otherwise
/// the first that is.
pub open spec fn effective_model(root: Entries, models: Seq<Seq<char>>) -> Option<Seq<char>> {
    match named_model(root) {
        Some(model) => if offers(models, model) {
            Some(model)
        } else {
            first_model(models)
        },
        None => first_model(models),
    }
}

pub(crate) fn read_model(document: &toml_edit::DocumentMut) -> (model: Option<String>)
    ensures
        text::string_of(model) == named_model(document_view(*document)),
{
    let found = match toml::table_get(toml::root(document), "model") {
        Some(item) => toml::item_text(item),
        None => None,
    };
    match found {
        Some(model) => if text::is_blank(model) {
            None
        } else {
            Some(text::trim(model))
        },
        None => None,
    }
}

fn is_offered(models: &Vec<String>, model: &str) -> (found: bool)
    ensures
        found == offers(text::texts(models@), model@),
{
    let ghost views = text::texts(models@);
    for index in 0..models.len()
        invariant
            views == text::texts(models@),
            forall|i: int| 0 <= i < index ==> text::trimmed(#[trigger] views[i]) != model@,
    {
        assert(views[index as int] == models[index as int]@);
        let name = text::trim(models[index].as_str());
        if same_text(name.as_str(), model) {
            return true;
        }
    }
    false
}

fn find_model(models: &Vec<String>) -> (model: Option<String>)
    ensures
        text::string_of(model) == first_model(text::texts(models@)),
{
    let ghost views = text::texts(models@);
    assert(views.skip(0) =~= views);
    for index in 0..models.len()
        invariant
            views == text::texts(models@),
            first_model(views) == first_model(views.skip(index as int)),
    {
        proof {
            assert(views.skip(index as int)[0] == models[index as int]@);
            assert(views.skip(index as int).drop_first() =~= views.skip(index + 1));
        }
        if !text::is_blank(models[index].as_str()) {
            return Some(text::trim(models[index].as_str()));
        }
    }
    assert(views.skip(models.len() as int).len() == 0);
    None
}

/// The model to use with a service that offers the given ones.
pub fn effective_provider_model(document: &toml_edit::DocumentMut, models: &Vec<String>) -> (outcome:
    Result<String, AppError>)
    ensures
        match outcome {
            Ok(model) => effective_model(document_view(*document), text::texts(models@)) == Some(
                model@,
            ),
            Err(error) => {
                &&& effective_model(document_view(*document), text::texts(models@)) is None
                &&& error@ == ErrorView::InvalidConfig(
                    "此服务没有可用模型，请先刷新模型列表后再激活。"@,
                )
            },
        },
{
    if let Some(model) = read_model(document) {
        if is_offered(models, model.as_str()) {
            return Ok(model);
        }
    }
    match find_model(models) {
        Some(model) => Ok(model),
        None => Err(AppError::invalid("此服务没有可用模型，请先刷新模型列表后再激活。")),
    }
}

// ---------------------------------------------------------------------------
// Turning back to an official account
// ---------------------------------------------------------------------------

/// A configuration without the model that was written for a service, where it
/// still names that one.
pub open spec fn without_managed_model(root: Entries, managed: Option<Seq<char>>) -> Entries {
    match managed {
        Some(managed) => if !text::blank(managed) && text_entry(root, "model"@) == Some(
            text::trimmed(managed),
        ) {
            root.remove("model"@)
        } else {
            root
        },
        None => root,
    }
}

/// A configuration that names no provider and no model of a service.
pub open spec fn with_service_unnamed(root: Entries, managed: Option<Seq<char>>) -> Entries {
    with_told_profiles(without_managed_model(root.remove("model_provider"@), managed), None)
}

/// A configuration that does not describe a service.
pub open spec fn without_service_table(root: Entries) -> Entries {
    match entry(root, "model_providers"@) {
        Some(TomlView::Table(providers)) => if providers.remove("custom"@)
            == toml::no_entries() {
            root.remove("model_providers"@)
        } else {
            root.insert("model_providers"@, TomlView::Table(providers.remove("custom"@)))
        },
        Some(TomlView::Inline(providers)) => if providers.remove("custom"@)
            == toml::no_entries() {
            root.remove("model_providers"@)
        } else {
            root.insert("model_providers"@, TomlView::Inline(providers.remove("custom"@)))
        },
        _ => root,
    }
}

/// A configuration that does not point to the list of models that was written
/// for a service.
pub open spec fn without_catalog(root: Entries) -> Entries {
    if text_entry(root, "model_catalog_json"@) == Some("model-catalogs/codex-tools.json"@) {
        root.remove("model_catalog_json"@)
    } else {
        root
    }
}

/// A configuration without a service.
pub open spec fn without_service(root: Entries, managed: Option<Seq<char>>) -> Entries {
    without_catalog(without_service_table(with_service_unnamed(root, managed)))
}

/// Whether the providers of a configuration are something other than a table.
pub open spec fn providers_malformed(root: Entries) -> bool {
    match entry(root, "model_providers"@) {
        Some(TomlView::Table(_)) => false,
        Some(TomlView::Inline(_)) => false,
        Some(_) => true,
        None => false,
    }
}

fn drop_managed_model(root: &mut toml_edit::Table, managed: Option<&str>)
    ensures
        table_view(*final(root)) == without_managed_model(
            table_view(*old(root)),
            text::text_of(managed),
        ),
{
    let managed = match managed {
        Some(managed) => managed,
        None => return,
    };
    if text::is_blank(managed) {
        return;
    }
    let managed = text::trim(managed);
    let current = match toml::table_get(root, "model") {
        Some(item) => toml::item_text(item),
        None => None,
    };
    let same = match current {
        Some(current) => same_text(current, managed.as_str()),
        None => false,
    };
    if same {
        toml::table_remove(root, "model");
    }
}

/// Takes the service out of the table of providers. Gives whether the table
/// is empty then, and nothing where it is no table.
fn drop_service(root: &mut toml_edit::Table) -> (emptied: Option<bool>)
    ensures
        emptied is None <==> providers_malformed(table_view(*old(root))),
        emptied is None ==> table_view(*final(root)) == table_view(*old(root)),
        emptied == Some(true) ==> table_view(*final(root)).remove("model_providers"@)
            == without_service_table(table_view(*old(root))),
        emptied == Some(false) ==> table_view(*final(root)) == without_service_table(
            table_view(*old(root)),
        ),
{
    let ghost before = table_view(*root);
    match toml::table_get_mut(root, "model_providers") {
        Some(item) => {
            if let Some(providers) = toml::item_table_mut(item) {
                toml::table_remove(providers, "custom");
                let ghost kept = table_view(*providers);
                assert(before.insert("model_providers"@, TomlView::Table(kept)).remove(
                    "model_providers"@,
                ) =~= before.remove("model_providers"@));
                return Some(toml::table_is_empty(providers));
            }
            if let Some(providers) = toml::item_inline_mut(item) {
                toml::inline_remove(providers, "custom");
                let ghost kept = toml::inline_view(*providers);
                assert(before.insert("model_providers"@, TomlView::Inline(kept)).remove(
                    "model_providers"@,
                ) =~= before.remove("model_providers"@));
                return Some(toml::inline_is_empty(providers));
            }
            assert(before.insert("model_providers"@, before["model_providers"@]) =~= before);
            None
        },
        None => Some(false),
    }
}

/// Turns a configuration away from a third-party service. What was not
/// written for it stays.
pub fn clear_custom_provider_fields(
    document: &mut toml_edit::DocumentMut,
    managed_model: Option<&str>,
) -> (outcome: Result<(), AppError>)
    ensures
        match outcome {
            Ok(()) => {
                &&& !providers_malformed(document_view(*old(document)))
                &&& document_view(*final(document)) == without_service(
                    document_view(*old(document)),
                    text::text_of(managed_model),
                )
            },
            Err(error) => {
                &&& providers_malformed(document_view(*old(document)))
                &&& error@ == ErrorView::InvalidConfig(
                    "Codex 配置中的 model_providers 格式不正确，需要手动修复后再切换账号。"@,
                )
                &&& document_view(*final(document)) == with_service_unnamed(
                    document_view(*old(document)),
                    text::text_of(managed_model),
                )
            },
        },
{
    proof {
        lemma_keys_differ();
    }
    let root = toml::root_mut(document);
    toml::table_remove(root, "model_provider");
    drop_managed_model(root, managed_model);
    tell_profiles(root, None);
    match drop_service(root) {
        Some(emptied) => {
            if emptied {
                toml::table_remove(root, "model_providers");
            }
        },
        None => return Err(
            AppError::invalid(
                "Codex 配置中的 model_providers 格式不正确，需要手动修复后再切换账号。",
            ),
        ),
    }
    let pointer = match toml::table_get(root, "model_catalog_json") {
        Some(item) => toml::item_text(item),
        None => None,
    };
    let ours = match pointer {
        Some(pointer) => same_text(pointer, "model-catalogs/codex-tools.json"),
        None => false,
    };
    if ours {
        toml::table_remove(root, "model_catalog_json");
    }
    Ok(())
}

/// A configuration that does not name the relay of earlier versions.
pub open spec fn without_relay_named(root: Entries) -> Entries {
    if text_entry(root, "model_provider"@) == Some("codex_tools_openai_relay"@) {
        root.remove("model_provider"@)
    } else {
        root
    }
}

/// A configuration without the relay of earlier versions.
pub open spec fn without_relay(root: Entries) -> Entries {
    let unnamed = without_relay_named(root);
    match table_entry(unnamed, "model_providers"@) {
        Some(providers) => unnamed.insert(
            "model_providers"@,
            TomlView::Table(providers.remove("codex_tools_openai_relay"@)),
        ),
        None => unnamed,
    }
}

/// Takes the relay of earlier versions out of a configuration.
pub fn remove_legacy_openai_relay_provider(document: &mut toml_edit::DocumentMut) -> (outcome:
    Result<(), AppError>)
    ensures
        match outcome {
            Ok(()) => {
                &&& entry(document_view(*old(document)), "model_providers"@) matches Some(item)
                    ==> item is Table
                &&& document_view(*final(document)) == without_relay(
                    document_view(*old(document)),
                )
            },
            Err(error) => {
                &&& entry(document_view(*old(document)), "model_providers"@) matches Some(item)
                    && !(item is Table)
                &&& error@ == ErrorView::InvalidConfig(
                    "Codex 配置中的 model_providers 格式不正确，需要手动修复后再试。"@,
                )
                &&& document_view(*final(document)) == without_relay_named(
                    document_view(*old(document)),
                )
            },
        },
{
    proof {
        lemma_keys_differ();
    }
    let root = toml::root_mut(document);
    let current = match toml::table_get(root, "model_provider") {
        Some(item) => toml::item_text(item),
        None => None,
    };
    let relayed = match current {
        Some(current) => same_text(current, "codex_tools_openai_relay"),
        None => false,
    };
    if relayed {
        toml::table_remove(root, "model_provider");
    }
    let ghost before = table_view(*root);
    if let Some(item) = toml::table_get_mut(root, "model_providers") {
        match toml::item_table_mut(item) {
            Some(providers) => toml::table_remove(providers, "codex_tools_openai_relay"),
            None => {
                assert(before.insert("model_providers"@, before["model_providers"@]) =~= before);
                return Err(
                    AppError::invalid(
                        "Codex 配置中的 model_providers 格式不正确，需要手动修复后再试。",
                    ),
                );
            },
        }
    }
    Ok(())
}

// ---------------------------------------------------------------------------
// Reading
// ---------------------------------------------------------------------------

/// What a text holds as a configuration, or what is wrong with it. A blank
/// one holds nothing.
pub open spec fn configuration(source: Seq<char>) -> Result<Entries, ErrorView> {
    if text::blank(source) {
        Ok(toml::no_entries())
    } else {
        match toml::parsed_toml(source) {
            Ok(entries) => Ok(entries),
            Err(message) => Err(
                ErrorView::InvalidConfig(
                    "Codex 配置文件格式有误，请修复 config.toml 后再试："@ + message,
                ),
            ),
        }
    }
}

/// What a document holds, or the error.
pub open spec fn configuration_result(
    outcome: Result<toml_edit::DocumentMut, AppError>,
) -> Result<Entries, ErrorView> {
    match outcome {
        Ok(document) => Ok(document_view(document)),
        Err(error) => Err(error@),
    }
}

/// Reads a configuration. A blank text is an empty one.
pub fn parse_config_document(source: &str) -> (outcome: Result<toml_edit::DocumentMut, AppError>)
    ensures
        configuration_result(outcome) == configuration(source@),
{
    if text::is_blank(source) {
        return Ok(toml::new_document());
    }
    match toml::parse_document(source) {
        Ok(document) => Ok(document),
        Err(message) => Err(
            AppError::InvalidConfig(
                text::concat(
                    "Codex 配置文件格式有误，请修复 config.toml 后再试：",
                    message.as_str(),
                ),
            ),
        ),
    }
}

/// What can be told of a configuration file.
pub struct ConfigInspection {
    pub path: String,
    pub valid: bool,
    pub active_provider: Option<String>,
    pub managed_provider_present: bool,
    pub warnings: Vec<String>,
}

/// Whether a configuration describes a service.
pub open spec fn describes_service(root: Entries) -> bool {
    match table_entry(root, "model_providers"@) {
        Some(providers) => table_entry(providers, "custom"@) is Some,
        None => false,
    }
}

fn has_service(document: &toml_edit::DocumentMut) -> (found: bool)
    ensures
        found == describes_service(document_view(*document)),
{
    let providers = match toml::table_get(toml::root(document), "model_providers") {
        Some(item) => toml::item_table(item),
        None => None,
    };
    match providers {
        Some(providers) => match toml::table_get(providers, "custom") {
            Some(item) => toml::item_table(item).is_some(),
            None => false,
        },
        None => false,
    }
}

/// The provider that a configuration file names, where it can be read.
pub open spec fn provider_in(read: Result<String, AppError>) -> Option<Seq<char>> {
    match read {
        Ok(source) => match toml::parsed_toml(source@) {
            Ok(root) => text_entry(root, "model_provider"@),
            Err(_) => None,
        },
        Err(_) => None,
    }
}

/// The provider that a configuration file names, as it is written there.
pub fn named_provider(read: &Result<String, AppError>) -> (provider: Option<String>)
    ensures
        text::string_of(provider) == provider_in(*read),
{
    match read {
        Ok(source) => match toml::parse_document(source.as_str()) {
            Ok(document) => read_provider(&document),
            Err(_) => None,
        },
        Err(_) => None,
    }
}

fn read_provider(document: &toml_edit::DocumentMut) -> (provider: Option<String>)
    ensures
        text::string_of(provider) == text_entry(document_view(*document), "model_provider"@),
{
    match toml::table_get(toml::root(document), "model_provider") {
        Some(item) => match toml::item_text(item) {
            Some(provider) => Some(provider.to_owned()),
            None => None,
        },
        None => None,
    }
}

/// Tells of a configuration file that was read, or of why it was not.
/// `normalized` is the name that stands for the provider that the file names,
/// and does not count where the file names none.
pub fn inspect(
    path: String,
    read: &Result<String, AppError>,
    normalized: Option<String>,
) -> (inspection: ConfigInspection)
    ensures
        inspection.path@ == path@,
        match read {
            Err(error) => {
                &&& !inspection.valid
                &&& inspection.active_provider is None
                &&& !inspection.managed_provider_present
                &&& text::texts(inspection.warnings@) == seq![error@.message()]
            },
            Ok(source) => match toml::parsed_toml(source@) {
                Ok(root) => {
                    &&& inspection.valid
                    &&& text::string_of(inspection.active_provider) == if text_entry(
                        root,
                        "model_provider"@,
                    ) is Some {
                        text::string_of(normalized)
                    } else {
                        None
                    }
                    &&& inspection.managed_provider_present == describes_service(root)
                    &&& inspection.warnings.len() == 0
                },
                Err(message) => {
                    &&& !inspection.valid
                    &&& inspection.active_provider is None
                    &&& !inspection.managed_provider_present
                    &&& text::texts(inspection.warnings@) == seq![
                        "Codex 配置文件格式有误："@ + message,
                    ]
                },
            },
        },
{
    let source = match read {
        Ok(source) => source,
        Err(error) => {
            let mut warnings: Vec<String> = Vec::new();
            warnings.push(error.message());
            assert(text::texts(warnings@) =~= seq![error@.message()]);
            return ConfigInspection {
                path,
                valid: false,
                active_provider: None,
                managed_provider_present: false,
                warnings,
            };
        },
    };
    match toml::parse_document(source.as_str()) {
        Ok(document) => {
            let provider = if read_provider(&document).is_some() {
                normalized
            } else {
                None
            };
            ConfigInspection {
                path,
                valid: true,
                active_provider: provider,
                managed_provider_present: has_service(&document),
                warnings: Vec::new(),
            }
        },
        Err(message) => {
            let mut warnings: Vec<String> = Vec::new();
            let warning = text::concat("Codex 配置文件格式有误：", message.as_str());
            let ghost told = warning@;
            warnings.push(warning);
            assert(text::texts(warnings@) =~= seq![told]);
            ConfigInspection {
                path,
                valid: false,
                active_provider: None,
                managed_provider_present: false,
                warnings,
            }
        },
    }
}

// ---------------------------------------------------------------------------
// Laws
// ---------------------------------------------------------------------------

/// Whether an entry of the configuration is one that this application writes.
pub open spec fn is_managed_key(key: Seq<char>) -> bool {
    ||| key == "model"@
    ||| key == "model_provider"@
    ||| key == "model_providers"@
    ||| key == "profiles"@
    ||| key == "model_catalog_json"@
}

/// Turning to a service and turning back keep every setting that this
/// application does not write.
pub proof fn law_other_settings_are_kept(
    root: Entries,
    name: Seq<char>,
    base_url: Seq<char>,
    headers: Seq<(Seq<char>, Seq<char>)>,
    model: Seq<char>,
    managed: Option<Seq<char>>,
    key: Seq<char>,
)
    requires
        !is_managed_key(key),
    ensures
        entry(with_service(root, name, base_url, headers, model), key) == entry(root, key),
        entry(without_service(root, managed), key) == entry(root, key),
        entry(without_relay(root), key) == entry(root, key),
        entry(with_table_of_providers(root), key) == entry(root, key),
{
}

/// Turning to a service and turning back keep every other provider that the
/// configuration describes.
pub proof fn law_other_providers_are_kept(
    root: Entries,
    name: Seq<char>,
    base_url: Seq<char>,
    headers: Seq<(Seq<char>, Seq<char>)>,
    model: Seq<char>,
    managed: Option<Seq<char>>,
    providers: Entries,
    provider: Seq<char>,
)
    requires
        table_entry(root, "model_providers"@) == Some(providers),
        providers.contains_key(provider),
        provider != "custom"@,
        provider != "codex_tools_openai_relay"@,
    ensures
        table_entry(with_service(root, name, base_url, headers, model), "model_providers"@)
            matches Some(kept) && entry(kept, provider) == entry(providers, provider),
        table_entry(without_relay(without_service(root, managed)), "model_providers"@) matches Some(
            kept,
        ) && entry(kept, provider) == entry(providers, provider),
{
    lemma_keys_differ();
    assert(providers.remove("custom"@).contains_key(provider));
    assert(providers.remove("custom"@) != toml::no_entries());
}

/// Every profile keeps everything but the provider that it names.
pub proof fn law_profiles_keep_their_settings(
    entries: Entries,
    provider: Option<Seq<char>>,
    key: Seq<char>,
)
    requires
        key != "model_provider"@,
    ensures
        entry(profile_entries(entries, provider), key) == entry(entries, key),
{
}

/// Whether a profile names a provider.
pub open spec fn names_provider(profile: TomlView) -> bool {
    match profile {
        TomlView::Table(entries) => entries.contains_key("model_provider"@),
        TomlView::Inline(entries) => entries.contains_key("model_provider"@),
        _ => false,
    }
}

/// Whether a configuration holds nothing that this application writes, nor
/// anything that it would write over: it names no model, no provider and no
/// list of models, its profiles name no provider, and its providers, where it
/// describes any, stand in a table of their own, without a service.
pub open spec fn is_untouched(root: Entries) -> bool {
    &&& !root.contains_key("model"@)
    &&& !root.contains_key("model_provider"@)
    &&& !root.contains_key("model_catalog_json"@)
    &&& root.contains_key("model_providers"@) ==> {
        &&& root["model_providers"@] matches TomlView::Table(providers)
        &&& providers != toml::no_entries()
        &&& !providers.contains_key("custom"@)
    }
    &&& table_entry(root, "profiles"@) matches Some(profiles) ==> forall|key: Seq<char>|
        #[trigger] profiles.contains_key(key) ==> !names_provider(profiles[key])
}

/// Profiles that name no provider stay as they are.
proof fn lemma_silent_profiles(profiles: Entries, provider: Option<Seq<char>>)
    requires
        forall|key: Seq<char>| #[trigger]
            profiles.contains_key(key) ==> !names_provider(profiles[key]),
    ensures
        told_profiles(profiles, provider) == profiles,
{
    assert forall|key: Seq<char>| #[trigger] profiles.contains_key(key) implies told_profile(
        profiles[key],
        provider,
    ) == profiles[key] by {
        match profiles[key] {
            TomlView::Table(entries) => {
                assert(profile_entries(entries, provider) =~= entries);
            },
            TomlView::Inline(entries) => {
                assert(profile_entries(entries, provider) =~= entries);
            },
            _ => {},
        }
    }
    assert(told_profiles(profiles, provider) =~= profiles);
}

/// Turning back leaves nothing of what turning to a service wrote. A
/// configuration that held nothing of the kind before comes back as it was.
pub proof fn law_turning_back(
    root: Entries,
    name: Seq<char>,
    base_url: Seq<char>,
    headers: Seq<(Seq<char>, Seq<char>)>,
    model: Seq<char>,
)
    requires
        service_problem(root, model) is None,
    ensures
        ({
            let turned = with_service(root, name, base_url, headers, model);
            let back = without_service(turned, Some(model));
            &&& !providers_malformed(turned)
            &&& !back.contains_key("model"@)
            &&& !back.contains_key("model_provider"@)
            &&& !back.contains_key("model_catalog_json"@)
            &&& !describes_service(back)
            &&& is_untouched(root) ==> back == root
        }),
{
    text::lemma_trimmed(model);
    lemma_keys_differ();
    if is_untouched(root) {
        let turned = with_service(root, name, base_url, headers, model);
        let back = without_service(turned, Some(model));
        if let Some(profiles) = table_entry(root, "profiles"@) {
            lemma_silent_profiles(profiles, Some("custom"@));
            lemma_silent_profiles(profiles, None);
        }
        let service = TomlView::Table(service_entries(name, base_url, headers));
        if root.contains_key("model_providers"@) {
            let providers = root["model_providers"@]->Table_0;
            assert(providers.insert("custom"@, service).remove("custom"@) =~= providers);
        } else {
            assert(toml::no_entries().insert("custom"@, service).remove("custom"@)
                =~= toml::no_entries());
        }
        assert(back =~= root);
    }
}

/// Turning to a service a second time changes nothing.
pub proof fn law_turning_twice(
    root: Entries,
    name: Seq<char>,
    base_url: Seq<char>,
    headers: Seq<(Seq<char>, Seq<char>)>,
    model: Seq<char>,
)
    requires
        service_problem(root, model) is None,
    ensures
        ({
            let turned = with_service(root, name, base_url, headers, model);
            with_service(turned, name, base_url, headers, model) == turned
        }),
{
    lemma_keys_differ();
    let turned = with_service(root, name, base_url, headers, model);
    let again = with_service(turned, name, base_url, headers, model);
    let provider = Some("custom"@);
    if let Some(profiles) = table_entry(turned, "profiles"@) {
        let first = table_entry(root, "profiles"@)->0;
        assert(profiles == told_profiles(first, provider));
        assert(told_profiles(profiles, provider) =~= profiles) by {
            assert forall|key: Seq<char>| #[trigger] profiles.contains_key(key) implies told_profile(
                profiles[key],
                provider,
            ) == profiles[key] by {
                let profile = first[key];
                match profile {
                    TomlView::Table(entries) => {
                        assert(profile_entries(profile_entries(entries, provider), provider)
                            =~= profile_entries(entries, provider));
                    },
                    TomlView::Inline(entries) => {
                        assert(profile_entries(profile_entries(entries, provider), provider)
                            =~= profile_entries(entries, provider));
                    },
                    _ => {},
                }
            }
        }
    }
    let providers = turned["model_providers"@]->Table_0;
    assert(providers.insert(
        "custom"@,
        TomlView::Table(service_entries(name, base_url, headers)),
    ) =~= providers);
    assert(again =~= turned);
}

} // verus!
