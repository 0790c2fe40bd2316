//! What a configuration says once Codex was turned to a service or back to an
//! account, entry by entry.

use crate::codex_document;
use crate::codex_document::Entries;
use crate::codex_files::{FileRead, FileReads, FilesView};
use crate::codex_files;
use crate::codex_preview;
use crate::config_manager;
use crate::config_manager::PendingView;
use crate::json;
use crate::json::JsonView;
use crate::models::{ErrorView, ProviderProfile};
use crate::proxy::ActivationTarget;
use crate::text;
use crate::toml::{entry, table_entry, text_entry, TomlView};
use vstd::prelude::*;

verus! {

proof fn lemma_entry_names()
    ensures
        "model"@.len() == 5,
        "model_provider"@.len() == 14,
        "model_providers"@.len() == 15,
        "model_catalog_json"@.len() == 18,
        "profiles"@.len() == 8,
        "name"@.len() == 4,
        "wire_api"@.len() == 8,
        "requires_openai_auth"@.len() == 20,
        "base_url"@.len() == 8,
        "http_headers"@.len() == 12,
        "custom"@.len() == 6,
        "codex_tools_openai_relay"@.len() == 24,
        "OPENAI_API_KEY"@.len() == 14,
        "personal_access_token"@.len() == 21,
        "models"@.len() == 6,
        "model_provider"@ != "OPENAI_API_KEY"@,
        "profiles"@ != "wire_api"@,
        "profiles"@ != "base_url"@,
        "wire_api"@ != "base_url"@,
        "custom"@ != "models"@,
{
    reveal_strlit("model");
    reveal_strlit("model_provider");
    reveal_strlit("model_providers");
    reveal_strlit("model_catalog_json");
    reveal_strlit("profiles");
    reveal_strlit("name");
    reveal_strlit("wire_api");
    reveal_strlit("requires_openai_auth");
    reveal_strlit("base_url");
    reveal_strlit("http_headers");
    reveal_strlit("custom");
    reveal_strlit("codex_tools_openai_relay");
    reveal_strlit("OPENAI_API_KEY");
    reveal_strlit("personal_access_token");
    reveal_strlit("models");
    assert("model_provider"@[0] != "OPENAI_API_KEY"@[0]);
    assert("profiles"@[0] != "wire_api"@[0]);
    assert("profiles"@[0] != "base_url"@[0]);
    assert("wire_api"@[0] != "base_url"@[0]);
    assert("custom"@[0] != "models"@[0]);
}

// ---------------------------------------------------------------------------
// The headers of a service
// ---------------------------------------------------------------------------

/// Every header is written under its name with its value, and no other. Of two
/// with one name the later one is.
pub proof fn law_headers_are_all_written(pairs: Seq<(Seq<char>, Seq<char>)>, i: int)
    ensures
        0 <= i < pairs.len() && (forall|j: int|
            i < j < pairs.len() ==> (#[trigger] pairs[j]).0 != pairs[i].0) ==> text_entry(
            codex_document::text_entries(pairs),
            pairs[i].0,
        ) == Some(pairs[i].1),
        forall|name: Seq<char>| #[trigger]
            codex_document::text_entries(pairs).contains_key(name) ==> exists|k: int|
                0 <= k < pairs.len() && (#[trigger] pairs[k]).0 == name,
    decreases pairs.len(),
{
    if pairs.len() > 0 {
        let rest = pairs.drop_last();
        let last = pairs.len() - 1;
        law_headers_are_all_written(rest, i);
        if 0 <= i < last && (forall|j: int|
            i < j < pairs.len() ==> (#[trigger] pairs[j]).0 != pairs[i].0) {
            assert(pairs[last].0 != pairs[i].0);
            assert(rest[i] == pairs[i]);
            assert forall|j: int| i < j < rest.len() implies (#[trigger] rest[j]).0
                != rest[i].0 by {
                assert(pairs[j].0 != pairs[i].0);
            }
        }
        assert forall|name: Seq<char>| #[trigger]
            codex_document::text_entries(pairs).contains_key(name) implies exists|k: int|
            0 <= k < pairs.len() && (#[trigger] pairs[k]).0 == name by {
            if name == pairs[last].0 {
                assert(pairs[last].0 == name);
            } else {
                assert(codex_document::text_entries(rest).contains_key(name));
                let k = choose|k: int| 0 <= k < rest.len() && (#[trigger] rest[k]).0 == name;
                assert(pairs[k].0 == name);
            }
        }
    }
}

/// The headers of a service are those of its settings and the name of this
/// program. Settings that name the program otherwise are left out.
pub proof fn law_headers_of_a_service(
    pairs: Seq<(Seq<char>, Seq<char>)>,
    user_agent: Seq<char>,
    pair: (Seq<char>, Seq<char>),
)
    ensures
        codex_preview::service_headers(pairs, user_agent).contains(pair) <==> pair == (
            "User-Agent"@,
            user_agent,
        ) || pairs.contains(pair) && text::lowered(pair.0) != text::lowered("User-Agent"@),
{
    lemma_kept_headers(pairs, pair);
    lemma_lower_names();
    let kept = codex_preview::without_user_agent(pairs);
    let place = codex_preview::place_of(kept, "User-Agent"@);
    lemma_place(kept, "User-Agent"@);
    let all = codex_preview::service_headers(pairs, user_agent);
    assert(all == kept.insert(place, ("User-Agent"@, user_agent)));
    if all.contains(pair) {
        let k = choose|k: int| 0 <= k < all.len() && all[k] == pair;
        if k < place {
            assert(kept[k] == pair);
        } else if k > place {
            assert(kept[k - 1] == pair);
        }
    }
    if kept.contains(pair) {
        let k = choose|k: int| 0 <= k < kept.len() && kept[k] == pair;
        if k < place {
            assert(all[k] == pair);
        } else {
            assert(all[k + 1] == pair);
        }
    }
    assert(all[place] == ("User-Agent"@, user_agent));
}

proof fn lemma_place(pairs: Seq<(Seq<char>, Seq<char>)>, name: Seq<char>)
    ensures
        0 <= codex_preview::place_of(pairs, name) <= pairs.len(),
    decreases pairs.len(),
{
    if pairs.len() > 0 && text::precedes(pairs[0].0, name) {
        lemma_place(pairs.drop_first(), name);
    }
}

proof fn lemma_lower_names()
    ensures
        text::lowered("User-Agent"@) == text::lowered("user-agent"@),
{
    reveal_strlit("User-Agent");
    reveal_strlit("user-agent");
    assert(text::lowered("User-Agent"@) =~= text::lowered("user-agent"@));
}

proof fn lemma_kept_headers(pairs: Seq<(Seq<char>, Seq<char>)>, pair: (Seq<char>, Seq<char>))
    ensures
        codex_preview::without_user_agent(pairs).contains(pair) <==> pairs.contains(pair)
            && text::lowered(pair.0) != text::lowered("user-agent"@),
    decreases pairs.len(),
{
    if pairs.len() > 0 {
        let rest = pairs.drop_last();
        let last = pairs.len() - 1;
        lemma_kept_headers(rest, pair);
        let earlier = codex_preview::without_user_agent(rest);
        let kept = codex_preview::without_user_agent(pairs);
        if pairs.contains(pair) {
            let k = choose|k: int| 0 <= k < pairs.len() && pairs[k] == pair;
            if k < last {
                assert(rest[k] == pair);
            }
        }
        if rest.contains(pair) {
            let k = choose|k: int| 0 <= k < rest.len() && rest[k] == pair;
            assert(pairs[k] == pair);
        }
        if kept.contains(pair) {
            let k = choose|k: int| 0 <= k < kept.len() && kept[k] == pair;
            if k < earlier.len() {
                assert(earlier[k] == pair);
            } else {
                assert(pairs[last] == pair);
            }
        }
        if earlier.contains(pair) {
            let k = choose|k: int| 0 <= k < earlier.len() && earlier[k] == pair;
            assert(kept[k] == pair);
        }
        if pairs[last] == pair && text::lowered(pair.0) != text::lowered("user-agent"@) {
            assert(kept[kept.len() - 1] == pair);
        }
    }
}

// ---------------------------------------------------------------------------
// The configuration of a service
// ---------------------------------------------------------------------------

/// An address without the slashes at its end: nothing but slashes is gone, and
/// none is left at the end.
pub proof fn law_trailing_slashes_go(address: Seq<char>, c: char)
    ensures
        ({
            let kept = text::without_trailing(address, c);
            &&& kept.len() <= address.len()
            &&& kept == address.take(kept.len() as int)
            &&& kept.len() > 0 ==> kept.last() != c
            &&& forall|i: int| kept.len() <= i < address.len() ==> #[trigger] address[i] == c
        }),
    decreases address.len(),
{
    if address.len() > 0 && address.last() == c {
        let rest = address.drop_last();
        law_trailing_slashes_go(rest, c);
        let kept = text::without_trailing(address, c);
        assert(rest.take(kept.len() as int) =~= address.take(kept.len() as int));
        assert forall|i: int| kept.len() <= i < address.len() implies #[trigger] address[i] == c by {
            if i < rest.len() {
                assert(rest[i] == address[i]);
            }
        }
    } else {
        assert(address.take(address.len() as int) =~= address);
    }
}

/// A text without the white space around it: nothing but white space is gone,
/// and none is left at either end.
pub proof fn law_white_space_goes(given: Seq<char>)
    ensures
        exists|from: int, to: int|
            0 <= from <= to <= given.len() && #[trigger] given.subrange(from, to) == text::trimmed(
                given,
            ) && (forall|i: int| 0 <= i < from ==> text::is_white_space(#[trigger] given[i]))
                && forall|i: int|
                to <= i < given.len() ==> text::is_white_space(#[trigger] given[i]),
        text::trimmed(given).len() > 0 ==> !text::is_white_space(text::trimmed(given)[0])
            && !text::is_white_space(text::trimmed(given).last()),
{
    lemma_start_goes(given);
    let rest = text::trimmed_start(given);
    lemma_end_goes(rest);
    let from = given.len() - rest.len();
    let to = from + text::trimmed(given).len();
    assert(given.subrange(from, to) =~= text::trimmed(given));
    assert forall|i: int| to <= i < given.len() implies text::is_white_space(
        #[trigger] given[i],
    ) by {
        assert(rest[i - from] == given[i]);
    }
}

proof fn lemma_start_goes(given: Seq<char>)
    ensures
        ({
            let rest = text::trimmed_start(given);
            &&& rest.len() <= given.len()
            &&& rest == given.skip(given.len() - rest.len())
            &&& rest.len() > 0 ==> !text::is_white_space(rest[0])
            &&& forall|i: int|
                0 <= i < given.len() - rest.len() ==> text::is_white_space(#[trigger] given[i])
        }),
    decreases given.len(),
{
    if given.len() > 0 && text::is_white_space(given[0]) {
        let shorter = given.drop_first();
        lemma_start_goes(shorter);
        let rest = text::trimmed_start(given);
        assert(shorter.skip(shorter.len() - rest.len()) =~= given.skip(given.len() - rest.len()));
        assert forall|i: int| 0 <= i < given.len() - rest.len() implies text::is_white_space(
            #[trigger] given[i],
        ) by {
            if i > 0 {
                assert(shorter[i - 1] == given[i]);
            }
        }
    } else {
        assert(given.skip(0) =~= given);
    }
}

proof fn lemma_end_goes(given: Seq<char>)
    ensures
        ({
            let rest = text::trimmed_end(given);
            &&& rest.len() <= given.len()
            &&& rest == given.take(rest.len() as int)
            &&& rest.len() > 0 ==> !text::is_white_space(rest.last())
            &&& forall|i: int|
                rest.len() <= i < given.len() ==> text::is_white_space(#[trigger] given[i])
        }),
    decreases given.len(),
{
    if given.len() > 0 && text::is_white_space(given.last()) {
        let shorter = given.drop_last();
        lemma_end_goes(shorter);
        let rest = text::trimmed_end(given);
        assert(shorter.take(rest.len() as int) =~= given.take(rest.len() as int));
        assert forall|i: int| rest.len() <= i < given.len() implies text::is_white_space(
            #[trigger] given[i],
        ) by {
            if i < shorter.len() {
                assert(shorter[i] == given[i]);
            }
        }
    } else {
        assert(given.take(given.len() as int) =~= given);
    }
}

/// The entries that a configuration holds of the service that it was turned to.
pub open spec fn service_in(root: Entries) -> Option<Entries> {
    match table_entry(root, "model_providers"@) {
        Some(providers) => table_entry(providers, "custom"@),
        None => None,
    }
}

/// A configuration that is turned to a service names the service, its model and
/// the list of its models, and describes the service: its name, its address, its
/// protocol, that it takes a key, and its headers.
pub proof fn law_service_is_described(
    root: Entries,
    name: Seq<char>,
    base_url: Seq<char>,
    headers: Seq<(Seq<char>, Seq<char>)>,
    model: Seq<char>,
)
    requires
        codex_document::service_problem(root, model) is None,
    ensures
        ({
            let turned = codex_document::with_service(root, name, base_url, headers, model);
            &&& text_entry(turned, "model_provider"@) == Some("custom"@)
            &&& text_entry(turned, "model"@) == Some(text::trimmed(model))
            &&& text_entry(turned, "model_catalog_json"@) == Some(
                "model-catalogs/codex-tools.json"@,
            )
            &&& service_in(turned) matches Some(service)
            &&& text_entry(service, "name"@) == Some(text::trimmed(name))
            &&& text_entry(service, "base_url"@) == Some(
                text::without_trailing(text::trimmed(base_url), '/'),
            )
            &&& text_entry(service, "wire_api"@) == Some("responses"@)
            &&& entry(service, "requires_openai_auth"@) == Some(TomlView::Bool(true))
            &&& headers.len() == 0 ==> !service.contains_key("http_headers"@)
            &&& headers.len() > 0 ==> table_entry(service, "http_headers"@) == Some(
                codex_document::text_entries(headers),
            )
            &&& forall|key: Seq<char>| #[trigger]
                service.contains_key(key) ==> key == "name"@ || key == "base_url"@ || key
                    == "wire_api"@ || key == "requires_openai_auth"@ || key == "http_headers"@
        }),
{
    lemma_entry_names();
    text::lemma_trimmed(model);
}

/// Every header of a service stands in the configuration that was turned to it,
/// under its name with its value, and no other does.
pub proof fn law_headers_of_a_service_are_written(
    root: Entries,
    name: Seq<char>,
    base_url: Seq<char>,
    headers: Seq<(Seq<char>, Seq<char>)>,
    model: Seq<char>,
    i: int,
)
    requires
        codex_document::service_problem(root, model) is None,
        forall|j: int, k: int|
            0 <= j < k < headers.len() ==> (#[trigger] headers[j]).0 != (#[trigger] headers[k]).0,
        0 <= i < headers.len(),
    ensures
        ({
            let turned = codex_document::with_service(root, name, base_url, headers, model);
            &&& service_in(turned) matches Some(service)
            &&& table_entry(service, "http_headers"@) matches Some(written)
            &&& text_entry(written, headers[i].0) == Some(headers[i].1)
            &&& forall|key: Seq<char>| #[trigger]
                written.contains_key(key) ==> exists|k: int|
                    0 <= k < headers.len() && (#[trigger] headers[k]).0 == key
        }),
{
    law_service_is_described(root, name, base_url, headers, model);
    assert forall|j: int| i < j < headers.len() implies (#[trigger] headers[j]).0
        != headers[i].0 by {
        assert(headers[i].0 != headers[j].0);
    }
    law_headers_are_all_written(headers, i);
}

/// A configuration can be turned to a service exactly where there is a model, and
/// its providers, where it has any, stand in a table.
pub proof fn law_when_a_service_can_be_used(root: Entries, model: Seq<char>)
    ensures
        codex_document::service_problem(root, model) is None <==> !text::blank(model) && (
        entry(root, "model_providers"@) matches Some(item) ==> item is Table || item is Inline),
{
    lemma_entry_names();
}

/// Profiles that name a provider come to name the new one; once Codex is turned
/// back they name none. A profile that names none is not made to name one.
pub proof fn law_profiles_follow(profiles: Entries, provider: Seq<char>, key: Seq<char>)
    requires
        profiles.contains_key(key),
    ensures
        ({
            let turned = codex_document::told_profiles(profiles, Some(provider));
            let back = codex_document::told_profiles(profiles, None);
            &&& turned.contains_key(key) && back.contains_key(key)
            &&& table_entry(profiles, key) matches Some(profile) ==> {
                &&& table_entry(turned, key) matches Some(new)
                &&& table_entry(back, key) matches Some(old)
                &&& profile.contains_key("model_provider"@) ==> text_entry(
                    new,
                    "model_provider"@,
                ) == Some(provider)
                &&& !profile.contains_key("model_provider"@) ==> new == profile
                &&& !old.contains_key("model_provider"@)
            }
        }),
        forall|other: Seq<char>| #[trigger]
            codex_document::told_profiles(profiles, Some(provider)).contains_key(other)
                ==> profiles.contains_key(other),
{
}

/// The profiles of the whole configuration follow where it is turned to.
pub proof fn law_profiles_of_a_configuration_follow(
    root: Entries,
    name: Seq<char>,
    base_url: Seq<char>,
    headers: Seq<(Seq<char>, Seq<char>)>,
    model: Seq<char>,
    managed: Option<Seq<char>>,
    profiles: Entries,
)
    requires
        table_entry(root, "profiles"@) == Some(profiles),
    ensures
        table_entry(
            codex_document::with_service(root, name, base_url, headers, model),
            "profiles"@,
        ) == Some(codex_document::told_profiles(profiles, Some("custom"@))),
        table_entry(codex_document::without_service(root, managed), "profiles"@) == Some(
            codex_document::told_profiles(profiles, None),
        ),
{
    lemma_entry_names();
}

// ---------------------------------------------------------------------------
// Back to an account
// ---------------------------------------------------------------------------

/// A configuration for an official account names no provider and describes
/// neither the service nor the relay of earlier days. It loses the model that was
/// written for a service and the list of its models, and keeps any other model.
pub proof fn law_official_configuration(root: Entries, managed: Option<Seq<char>>)
    ensures
        match config_manager::official_root(root, managed) {
            Ok(turned) => {
                &&& !turned.contains_key("model_provider"@)
                &&& text_entry(turned, "model_catalog_json"@) != Some(
                    "model-catalogs/codex-tools.json"@,
                )
                &&& table_entry(turned, "model_providers"@) matches Some(providers)
                    ==> !providers.contains_key("custom"@) && !providers.contains_key(
                    "codex_tools_openai_relay"@,
                )
                &&& managed is None ==> entry(turned, "model"@) == entry(root, "model"@)
                &&& managed matches Some(managed) ==> {
                    let own = text_entry(root, "model"@) == Some(text::trimmed(managed));
                    &&& !own ==> entry(turned, "model"@) == entry(root, "model"@)
                    &&& own && !text::blank(managed) ==> !turned.contains_key("model"@)
                }
                &&& entry(root, "model_catalog_json"@) matches Some(item) ==> (item
                    != TomlView::Text("model-catalogs/codex-tools.json"@) ==> entry(
                    turned,
                    "model_catalog_json"@,
                ) == Some(item))
            },
            Err(_) => entry(root, "model_providers"@) matches Some(item) && !(item is Table)
                && !(item is Inline),
        },
{
    lemma_entry_names();
}

/// The login of an account with a personal access token holds that token and no
/// key.
pub proof fn law_token_login(token: Seq<char>)
    ensures
        codex_preview::token_login(token).text_at("personal_access_token"@) == Some(token),
        codex_preview::token_login(token).get("OPENAI_API_KEY"@) == Some(JsonView::Null),
        forall|key: Seq<char>| #[trigger]
            codex_preview::token_login(token).has(key) ==> key == "personal_access_token"@ || key
                == "OPENAI_API_KEY"@,
{
    lemma_entry_names();
}

// ---------------------------------------------------------------------------
// Models
// ---------------------------------------------------------------------------

/// The models that a service may be used with: those that were selected, or else
/// those that it offers, followed by those that were added.
pub proof fn law_candidates(models: Seq<Seq<char>>, others: Seq<Seq<char>>, model: Seq<char>)
    ensures
        ({
            let all = config_manager::with_missing(models, others);
            &&& all.contains(model) <==> models.contains(model) || others.contains(model)
            &&& all.len() >= models.len()
            &&& all.take(models.len() as int) == models
        }),
    decreases others.len(),
{
    let all = config_manager::with_missing(models, others);
    if others.len() == 0 {
        assert(models.take(models.len() as int) =~= models);
    } else {
        let rest = others.drop_last();
        law_candidates(models, rest, model);
        law_candidates(models, rest, others.last());
        let earlier = config_manager::with_missing(models, rest);
        assert(all.take(models.len() as int) =~= earlier.take(models.len() as int));
        if others.contains(model) {
            let k = choose|k: int| 0 <= k < others.len() && others[k] == model;
            if k < rest.len() {
                assert(rest[k] == model);
            }
        }
        if rest.contains(model) {
            let k = choose|k: int| 0 <= k < rest.len() && rest[k] == model;
            assert(others[k] == model);
        }
        if all.contains(model) {
            let k = choose|k: int| 0 <= k < all.len() && all[k] == model;
            if k < earlier.len() {
                assert(earlier[k] == model);
            } else {
                assert(others[others.len() - 1] == model);
            }
        }
        if earlier.contains(model) {
            let k = choose|k: int| 0 <= k < earlier.len() && earlier[k] == model;
            assert(all[k] == model);
        }
        if others.last() == model && !earlier.contains(model) {
            assert(all[all.len() - 1] == model);
        }
    }
}

/// Models that were selected are used as they are; without a selection every
/// model that is offered or was added may be used.
pub proof fn law_selected_models(provider: ProviderProfile, model: Seq<char>)
    ensures
        provider.selected_models matches Some(selected) ==> config_manager::candidates(provider)
            == text::texts(selected@),
        provider.selected_models is None ==> (config_manager::candidates(provider).contains(model)
            <==> text::texts(provider.available_models@).contains(model) || text::texts(
            provider.custom_models@,
        ).contains(model)),
{
    law_candidates(
        text::texts(provider.available_models@),
        text::texts(provider.custom_models@),
        model,
    );
}

/// The model that is used is the one that the configuration names, where the
/// service offers it, and otherwise the first one that the service offers. There
/// is none only where the service offers nothing but blanks.
pub proof fn law_model_in_use(root: Entries, models: Seq<Seq<char>>, i: int)
    ensures
        codex_document::effective_model(root, models) is None <==> forall|k: int|
            0 <= k < models.len() ==> text::blank(#[trigger] models[k]),
        codex_document::effective_model(root, models) matches Some(model) ==> exists|k: int|
            0 <= k < models.len() && text::trimmed(#[trigger] models[k]) == model && model.len() > 0,
        0 <= i < models.len() && !text::blank(models[i]) && (text_entry(
            root,
            "model"@,
        ) matches Some(named) && text::trimmed(named) == text::trimmed(models[i]))
            ==> codex_document::effective_model(
            root,
            models,
        ) == Some(text::trimmed(models[i])),
        0 <= i < models.len() && !text::blank(models[i]) && (forall|k: int|
            0 <= k < i ==> text::blank(#[trigger] models[k])) && text_entry(root, "model"@) is None
            ==> codex_document::effective_model(root, models) == Some(text::trimmed(models[i])),
{
    lemma_first_model(models);
    if 0 <= i < models.len() {
        text::lemma_trimmed(models[i]);
    }
    if let Some(named) = text_entry(root, "model"@) {
        text::lemma_trimmed(named);
        if 0 <= i < models.len() && text::trimmed(named) == text::trimmed(models[i]) {
            assert(codex_document::offers(models, text::trimmed(models[i])));
        }
        if codex_document::offers(models, text::trimmed(named)) && !text::blank(named) {
            let k = choose|k: int|
                0 <= k < models.len() && text::trimmed(#[trigger] models[k]) == text::trimmed(
                    named,
                );
            text::lemma_trimmed(models[k]);
            assert(!text::blank(models[k]));
        }
    }
}

proof fn lemma_first_model(models: Seq<Seq<char>>)
    ensures
        codex_document::first_model(models) is None <==> forall|k: int|
            0 <= k < models.len() ==> text::blank(#[trigger] models[k]),
        codex_document::first_model(models) matches Some(model) ==> exists|k: int|
            0 <= k < models.len() && text::trimmed(#[trigger] models[k]) == model && model.len() > 0,
        forall|i: int|
            0 <= i < models.len() && !text::blank(#[trigger] models[i]) && (forall|k: int|
                0 <= k < i ==> text::blank(#[trigger] models[k])) ==> codex_document::first_model(
                models,
            ) == Some(text::trimmed(models[i])),
    decreases models.len(),
{
    if models.len() > 0 {
        text::lemma_trimmed(models[0]);
        if text::blank(models[0]) {
            let rest = models.drop_first();
            lemma_first_model(rest);
            assert forall|i: int|
                0 <= i < models.len() && !text::blank(#[trigger] models[i]) && (forall|k: int|
                    0 <= k < i ==> text::blank(#[trigger] models[k])) implies codex_document::first_model(
                models,
            ) == Some(text::trimmed(models[i])) by {
                assert(rest[i - 1] == models[i]);
                assert forall|k: int| 0 <= k < i - 1 implies text::blank(#[trigger] rest[k]) by {
                    assert(rest[k] == models[k + 1]);
                }
            }
            if codex_document::first_model(models) is None {
                assert forall|k: int| 0 <= k < models.len() implies text::blank(
                    #[trigger] models[k],
                ) by {
                    if k > 0 {
                        assert(rest[k - 1] == models[k]);
                    }
                }
            }
            if forall|k: int| 0 <= k < models.len() ==> text::blank(#[trigger] models[k]) {
                assert forall|k: int| 0 <= k < rest.len() implies text::blank(
                    #[trigger] rest[k],
                ) by {
                    assert(rest[k] == models[k + 1]);
                }
            }
            if let Some(model) = codex_document::first_model(models) {
                let k = choose|k: int|
                    0 <= k < rest.len() && text::trimmed(#[trigger] rest[k]) == model
                        && model.len() > 0;
                assert(models[k + 1] == rest[k]);
            }
        } else {
            assert(text::trimmed(models[0]).len() > 0);
            assert forall|i: int|
                0 <= i < models.len() && !text::blank(#[trigger] models[i]) && (forall|k: int|
                    0 <= k < i ==> text::blank(#[trigger] models[k])) implies codex_document::first_model(
                models,
            ) == Some(text::trimmed(models[i])) by {
                if i > 0 {
                    assert(text::blank(models[0]));
                }
            }
        }
    }
}

// ---------------------------------------------------------------------------
// What is written
// ---------------------------------------------------------------------------

/// Whether bytes are a document in JSON, printed with indents and ended by a line
/// feed.
pub open spec fn is_file_of(bytes: Seq<u8>, document: JsonView) -> bool {
    exists|printed: Seq<char>|
        json::pretty_text(document) == Some(printed) && bytes == #[trigger] text::bytes_of_text(
            printed + "\n"@,
        )
}

/// A change to a service writes what it promises: the configuration that is
/// turned to the service at its address, for the model in use; a login with the
/// key of the proxy, or else that of the service, and nothing else; and the list
/// of the models, where there are any. It is based on the files as they were read.
pub proof fn law_change_to_a_service(
    reads: FileReads,
    provider: ProviderProfile,
    target: ActivationTarget,
    models: Seq<JsonView>,
    user_agent: Seq<char>,
)
    ensures
        config_manager::planned(reads, provider, target, models, user_agent) matches Ok(plan) ==> {
            &&& service_in(plan.root) matches Some(service)
            &&& text_entry(service, "base_url"@) == Some(
                text::without_trailing(text::trimmed(target.base_url@), '/'),
            )
            &&& text_entry(service, "name"@) == Some(text::trimmed(provider.name@))
            &&& table_entry(service, "http_headers"@) matches Some(written) && text_entry(
                written,
                "User-Agent"@,
            ) is Some
            &&& text_entry(plan.root, "model"@) == Some(text::trimmed(plan.model))
            &&& provider.api_key matches Some(key)
            &&& !text::blank(key@)
            &&& exists|login: JsonView| #[trigger]
                is_file_of(plan.login, login) && login.text_at("OPENAI_API_KEY"@) == Some(
                    match target.proxy_api_key {
                        Some(proxy_key) => proxy_key@,
                        None => key@,
                    },
                ) && forall|member: Seq<char>| #[trigger]
                    login.has(member) ==> member == "OPENAI_API_KEY"@
            &&& models.len() == 0 ==> plan.catalog is None
            &&& models.len() > 0 ==> (plan.catalog matches Some(bytes) && exists|list: JsonView|
             {
                &&& list.array_at("models"@) == Some(models)
                &&& (json::pretty_text(list) is Some ==> #[trigger] is_file_of(bytes, list))
                &&& forall|member: Seq<char>| #[trigger] list.has(member) ==> member == "models"@
            })
            &&& codex_files::captured_files(reads) == Ok::<FilesView, ErrorView>(plan.original)
        },
{
    lemma_entry_names();
    if let Ok(plan) = config_manager::planned(reads, provider, target, models, user_agent) {
        let (original, source, root) = config_manager::starting_point(reads, provider)->Ok_0;
        let pairs = codex_preview::service_headers(
            crate::headers::pair_texts(provider.headers@),
            user_agent,
        );
        law_service_is_described(root, provider.name@, target.base_url@, pairs, plan.model);
        let own = ("User-Agent"@, user_agent);
        law_headers_of_a_service(crate::headers::pair_texts(provider.headers@), user_agent, own);
        assert(pairs.contains(own));
        lemma_written_somehow(pairs, "User-Agent"@);
        let login = codex_preview::key_login(config_manager::login_key(provider, target));
        let printed = json::pretty_text(login)->0;
        assert(plan.login == text::bytes_of_text(printed + "\n"@));
        assert(is_file_of(plan.login, login));
        assert(login.text_at("OPENAI_API_KEY"@) == Some(
            config_manager::login_key(provider, target),
        ));
        if models.len() > 0 {
            let list = json::empty_object().with("models"@, JsonView::Array(models));
            assert(list.array_at("models"@) == Some(models));
            let bytes = plan.catalog->0;
            if let Some(printed) = json::pretty_text(list) {
                assert(bytes == text::bytes_of_text(printed + "\n"@));
                assert(is_file_of(bytes, list));
            }
            assert(forall|member: Seq<char>| #[trigger] list.has(member) ==> member == "models"@);
        }
    }
}

proof fn lemma_written_somehow(pairs: Seq<(Seq<char>, Seq<char>)>, name: Seq<char>)
    requires
        exists|i: int| 0 <= i < pairs.len() && (#[trigger] pairs[i]).0 == name,
    ensures
        text_entry(codex_document::text_entries(pairs), name) is Some,
    decreases pairs.len(),
{
    let i = choose|i: int| 0 <= i < pairs.len() && (#[trigger] pairs[i]).0 == name;
    if i < pairs.len() - 1 && pairs.last().0 != name {
        let rest = pairs.drop_last();
        assert(rest[i].0 == name);
        lemma_written_somehow(rest, name);
    }
}

/// A change that is confirmed writes what was prepared, over the files as they
/// were when it was prepared.
pub proof fn law_confirmed_change_is_the_prepared_one(patch: PendingView, reads: FileReads)
    ensures
        config_manager::confirmed(patch, reads) matches Ok(commit) ==> {
            &&& commit.original == patch.original
            &&& commit.config == text::bytes_of_text(patch.rendered)
            &&& commit.auth == patch.auth_rendered
            &&& commit.catalog == patch.catalog
            &&& commit.error is None
            &&& commit.task() is Guard
            &&& codex_files::captured_files(reads) == Ok::<FilesView, ErrorView>(patch.original)
        },
{
}

/// Files are taken as they are, as long as none is too long.
pub proof fn law_files_are_captured(reads: FileReads)
    ensures
        codex_files::captured_files(reads) matches Ok(files) ==> {
            &&& reads.config matches FileRead::Contents(bytes) ==> files.config == Some(bytes@)
                && bytes.len() <= 2097152
            &&& reads.auth matches FileRead::Contents(bytes) ==> files.auth == Some(bytes@)
                && bytes.len() <= 4194304
            &&& reads.catalog matches FileRead::Contents(bytes) ==> files.catalog == Some(bytes@)
                && bytes.len() <= 16777216
            &&& reads.config is Absent ==> files.config is None
            &&& reads.auth is Absent ==> files.auth is None
            &&& reads.catalog is Absent ==> files.catalog is None
            &&& !(reads.config is TooLong) && !(reads.config is Failed)
            &&& !(reads.auth is TooLong) && !(reads.auth is Failed)
            &&& !(reads.catalog is TooLong) && !(reads.catalog is Failed)
        },
        (reads.config is Absent || (reads.config matches FileRead::Contents(bytes) && bytes.len()
            <= 2097152)) && (reads.auth is Absent || (reads.auth matches FileRead::Contents(bytes)
            && bytes.len() <= 4194304)) && (reads.catalog is Absent || (
        reads.catalog matches FileRead::Contents(bytes) && bytes.len() <= 16777216))
            ==> codex_files::captured_files(reads) is Ok,
{
}

/// A secret that is shown in part shows its first four characters and its last
/// four, with a mark between them.
pub proof fn law_long_secrets_are_shown_in_part(secret: Seq<char>)
    requires
        secret.len() > 8,
    ensures
        codex_preview::masked(secret).len() == 9,
        codex_preview::masked(secret).take(4) == secret.take(4),
        codex_preview::masked(secret)[4] == '…',
        codex_preview::masked(secret).skip(5) == secret.skip(secret.len() - 4),
{
    reveal_strlit("…");
    let shown = codex_preview::masked(secret);
    assert(shown.take(4) =~= secret.take(4));
    assert(shown.skip(5) =~= secret.skip(secret.len() - 4));
}

/// What is shown of a configuration is what it holds of the entries that this
/// application writes.
pub proof fn law_managed_settings_are_shown(root: Entries, service: Entries)
    requires
        service_in(root) == Some(service),
    ensures
        ({
            let shown = codex_preview::shown_part(root);
            &&& entry(shown, "model"@) == entry(root, "model"@)
            &&& entry(shown, "model_provider"@) == entry(root, "model_provider"@)
            &&& entry(shown, "model_catalog_json"@) == entry(root, "model_catalog_json"@)
            &&& service_in(shown) matches Some(part)
            &&& entry(part, "name"@) == entry(service, "name"@)
            &&& entry(part, "wire_api"@) == entry(service, "wire_api"@)
            &&& entry(part, "base_url"@) == entry(service, "base_url"@)
            &&& entry(part, "requires_openai_auth"@) == entry(service, "requires_openai_auth"@)
            &&& entry(part, "http_headers"@) == entry(service, "http_headers"@)
        }),
{
    lemma_entry_names();
    let keys = codex_preview::shown_keys();
    assert(keys[0] == "model"@ && keys[1] == "model_provider"@ && keys[2]
        == "model_catalog_json"@);
    assert(keys.to_set().contains("model"@));
    assert(keys.to_set().contains("model_provider"@));
    assert(keys.to_set().contains("model_catalog_json"@));
    let names = codex_preview::shown_service_keys();
    assert(names[0] == "name"@ && names[1] == "wire_api"@ && names[2] == "requires_openai_auth"@
        && names[3] == "base_url"@ && names[4] == "http_headers"@);
    assert(names.to_set().contains("name"@));
    assert(names.to_set().contains("wire_api"@));
    assert(names.to_set().contains("requires_openai_auth"@));
    assert(names.to_set().contains("base_url"@));
    assert(names.to_set().contains("http_headers"@));
}

/// The changes that are told of name the model that will be used, the list of
/// models, and whether the proxy of this application stands between.
pub proof fn law_changes_that_are_told(model: Seq<char>)
    ensures
        ({
            let direct = codex_preview::told_changes(model, false);
            let proxied = codex_preview::told_changes(model, true);
            &&& direct.contains("使用服务 API 返回的模型 "@ + text::trimmed(model))
            &&& direct.contains("写入 Responses API 地址"@)
            &&& proxied.contains(
                "写入本机转换代理地址（Chat Completions API 自动转为 Responses API）"@,
            )
            &&& direct.contains("更新 Codex 使用的 API Key"@)
            &&& direct.contains("保留现有的其他 Codex 设置"@)
            &&& direct.len() == 6 && proxied.len() == 6
            &&& forall|i: int| 0 <= i < 6 && i != 2 ==> #[trigger] direct[i] == proxied[i]
        }),
{
    let direct = codex_preview::told_changes(model, false);
    let proxied = codex_preview::told_changes(model, true);
    assert(direct[4] == "使用服务 API 返回的模型 "@ + text::trimmed(model));
    assert(direct[2] == "写入 Responses API 地址"@);
    assert(proxied[2] == "写入本机转换代理地址（Chat Completions API 自动转为 Responses API）"@);
    assert(direct[3] == "更新 Codex 使用的 API Key"@);
    assert(direct[0] == "保留现有的其他 Codex 设置"@);
}

/// Codex keeps its files where the environment says, or else in a directory of
/// its own below the home of the user.
pub proof fn law_home_of_codex(home: Seq<char>, path: Seq<char>)
    requires
        home.len() > 0,
        home.last() != '/',
    ensures
        config_manager::standard_place(Some(path), Some(home), '/') == path,
        config_manager::standard_place(None, Some(home), '/') == home + "/.codex"@,
        config_manager::standard_place(None, None, '/') == "./.codex"@,
{
    reveal_strlit(".codex");
    reveal_strlit("/.codex");
    reveal_strlit(".");
    reveal_strlit("./.codex");
    assert(config_manager::standard_place(None, Some(home), '/') =~= home + "/.codex"@);
    assert(config_manager::standard_place(None, None, '/') =~= "./.codex"@);
}

} // verus!
