//! What is shown of a change to the configuration of Codex, and the files
//! that are written with it.

use crate::codex_document::Entries;
use crate::headers;
use crate::json;
use crate::json::{Json, JsonView};
use crate::models::{AppError, ErrorView};
use crate::order;
use crate::order::{lemma_ordered_map, ordered};
use crate::text;
use crate::toml;
use crate::toml::{document_text, document_view, entry, table_entry, table_view, TomlView};
use vstd::prelude::*;

verus! {

// ---------------------------------------------------------------------------
// Secrets
// ---------------------------------------------------------------------------

/// A secret in the form in which it may be shown: the ends of a long one, and
/// nothing but the length of a short one.
pub open spec fn masked(secret: Seq<char>) -> Seq<char> {
    if secret.len() == 0 {
        Seq::empty()
    } else if secret.len() <= 8 {
        text::repeated('*', secret.len())
    } else {
        secret.take(4) + "…"@ + secret.skip(secret.len() - 4)
    }
}

/// A secret in the form in which it may be shown.
pub fn mask_secret(secret: &str) -> (shown: String)
    ensures
        shown@ == masked(secret@),
{
    let chars = text::chars_of(secret);
    if chars.len() == 0 {
        return String::new();
    }
    if chars.len() <= 8 {
        return text::repeat('*', chars.len());
    }
    let mut shown = text::string_from(&chars, 0, 4);
    shown.append("…");
    let end = text::string_from(&chars, chars.len() - 4, chars.len());
    shown.append(end.as_str());
    assert(chars@.subrange(0, 4) =~= secret@.take(4));
    assert(chars@.subrange(chars.len() - 4, chars.len() as int) =~= secret@.skip(
        secret@.len() - 4,
    ));
    shown
}

/// No more than eight characters of a secret are ever shown, and none of a
/// short one.
pub proof fn law_short_secrets_are_not_shown(secret: Seq<char>)
    ensures
        secret.len() <= 8 ==> masked(secret) == text::repeated('*', secret.len()),
        secret.len() > 8 ==> masked(secret).len() == 9,
{
    reveal_strlit("…");
    if secret.len() == 0 {
        assert(text::repeated('*', 0) =~= Seq::<char>::empty());
    }
}

// ---------------------------------------------------------------------------
// Headers
// ---------------------------------------------------------------------------

/// Whether a header is the one that names the program.
pub open spec fn is_user_agent(name: Seq<char>) -> bool {
    text::lowered(name) == text::lowered("user-agent"@)
}

/// The headers but for the one that names the program.
pub open spec fn without_user_agent(pairs: Seq<(Seq<char>, Seq<char>)>) -> Seq<
    (Seq<char>, Seq<char>),
>
    decreases pairs.len(),
{
    if pairs.len() == 0 {
        Seq::empty()
    } else {
        let earlier = without_user_agent(pairs.drop_last());
        if is_user_agent(pairs.last().0) {
            earlier
        } else {
            earlier.push(pairs.last())
        }
    }
}

/// How many headers at the start have a name that comes before `name`.
pub open spec fn place_of(pairs: Seq<(Seq<char>, Seq<char>)>, name: Seq<char>) -> int
    decreases pairs.len(),
{
    if pairs.len() == 0 || !text::precedes(pairs[0].0, name) {
        0
    } else {
        1 + place_of(pairs.drop_first(), name)
    }
}

/// The headers of a service, with the name of the program in its place.
pub open spec fn service_headers(
    pairs: Seq<(Seq<char>, Seq<char>)>,
    user_agent: Seq<char>,
) -> Seq<(Seq<char>, Seq<char>)> {
    let kept = without_user_agent(pairs);
    kept.insert(place_of(kept, "User-Agent"@), ("User-Agent"@, user_agent))
}

proof fn lemma_place(pairs: Seq<(Seq<char>, Seq<char>)>, name: Seq<char>, place: int)
    requires
        0 <= place <= pairs.len(),
        forall|i: int| 0 <= i < place ==> text::precedes((#[trigger] pairs[i]).0, name),
        place < pairs.len() ==> !text::precedes(pairs[place].0, name),
    ensures
        place_of(pairs, name) == place,
    decreases pairs.len(),
{
    if place > 0 {
        let rest = pairs.drop_first();
        assert(text::precedes(pairs[0].0, name));
        assert forall|i: int| 0 <= i < place - 1 implies text::precedes(
            (#[trigger] rest[i]).0,
            name,
        ) by {
            assert(text::precedes(pairs[i + 1].0, name));
        }
        lemma_place(rest, name, place - 1);
    }
}

fn drop_user_agent(pairs: &Vec<(String, String)>) -> (kept: Vec<(String, String)>)
    ensures
        headers::pair_texts(kept@) == without_user_agent(headers::pair_texts(pairs@)),
{
    let mut kept: Vec<(String, String)> = Vec::new();
    let ghost views = headers::pair_texts(pairs@);
    assert(views.take(0) =~= Seq::<(Seq<char>, Seq<char>)>::empty());
    assert(headers::pair_texts(kept@) =~= Seq::<(Seq<char>, Seq<char>)>::empty());
    for index in 0..pairs.len()
        invariant
            views == headers::pair_texts(pairs@),
            headers::pair_texts(kept@) == without_user_agent(views.take(index as int)),
    {
        let ghost before = kept@;
        proof {
            assert(views[index as int] == (pairs[index as int].0@, pairs[index as int].1@));
            assert(views.take(index + 1).drop_last() =~= views.take(index as int));
            assert(views.take(index + 1).last() == views[index as int]);
        }
        if !text::same_ignoring_case(pairs[index].0.as_str(), "user-agent") {
            kept.push((pairs[index].0.clone(), pairs[index].1.clone()));
            assert(headers::pair_texts(kept@) =~= headers::pair_texts(before).push(
                views[index as int],
            ));
        }
    }
    assert(views.take(pairs.len() as int) =~= views);
    kept
}

/// The headers of a service, with the name of the program in its place.
pub fn merged_headers(pairs: &Vec<(String, String)>, user_agent: &str) -> (merged: Vec<
    (String, String),
>)
    ensures
        headers::pair_texts(merged@) == service_headers(
            headers::pair_texts(pairs@),
            user_agent@,
        ),
{
    let mut merged = drop_user_agent(pairs);
    let ghost kept = headers::pair_texts(merged@);
    let mut place: usize = 0;
    while place < merged.len() && text::comes_before(merged[place].0.as_str(), "User-Agent")
        invariant
            place <= merged.len(),
            kept == headers::pair_texts(merged@),
            forall|i: int| 0 <= i < place ==> text::precedes((#[trigger] kept[i]).0, "User-Agent"@),
        decreases merged.len() - place,
    {
        assert(kept[place as int].0 == merged[place as int].0@);
        place = place + 1;
    }
    proof {
        if place < merged.len() {
            assert(kept[place as int].0 == merged[place as int].0@);
        }
        lemma_place(kept, "User-Agent"@, place as int);
    }
    let ghost before = merged@;
    merged.insert(place, ("User-Agent".to_owned(), user_agent.to_owned()));
    proof {
        let expected = kept.insert(place as int, ("User-Agent"@, user_agent@));
        assert(headers::pair_texts(merged@).len() == expected.len());
        assert forall|i: int| 0 <= i < expected.len() implies #[trigger] headers::pair_texts(
            merged@,
        )[i] == expected[i] by {
            if i < place {
                assert(merged@[i] == before[i]);
                assert(kept[i] == (before[i].0@, before[i].1@));
            } else if i > place {
                assert(merged@[i] == before[i - 1]);
                assert(kept[i - 1] == (before[i - 1].0@, before[i - 1].1@));
            }
        }
        assert(headers::pair_texts(merged@) =~= expected);
    }
    merged
}

/// Whether headers stand in the order of their names, each name once.
pub open spec fn in_name_order(pairs: Seq<(Seq<char>, Seq<char>)>) -> bool {
    forall|i: int, j: int|
        0 <= i < j < pairs.len() ==> text::precedes(
            (#[trigger] pairs[i]).0,
            (#[trigger] pairs[j]).0,
        )
}

proof fn lemma_kept_headers(pairs: Seq<(Seq<char>, Seq<char>)>)
    requires
        in_name_order(pairs),
    ensures
        in_name_order(without_user_agent(pairs)),
        forall|i: int|
            0 <= i < without_user_agent(pairs).len() ==> {
                &&& pairs.contains(#[trigger] without_user_agent(pairs)[i])
                &&& !is_user_agent(without_user_agent(pairs)[i].0)
            },
    decreases pairs.len(),
{
    if pairs.len() > 0 {
        let rest = pairs.drop_last();
        lemma_kept_headers(rest);
        let earlier = without_user_agent(rest);
        let kept = without_user_agent(pairs);
        assert forall|i: int| 0 <= i < kept.len() implies {
            &&& pairs.contains(#[trigger] kept[i])
            &&& !is_user_agent(kept[i].0)
        } by {
            if i < earlier.len() {
                let k = choose|k: int| 0 <= k < rest.len() && rest[k] == earlier[i];
                assert(pairs[k] == earlier[i]);
            } else {
                assert(pairs[pairs.len() - 1] == kept[i]);
            }
        }
        assert forall|i: int, j: int| 0 <= i < j < kept.len() implies text::precedes(
            (#[trigger] kept[i]).0,
            (#[trigger] kept[j]).0,
        ) by {
            if j == earlier.len() {
                let k = choose|k: int| 0 <= k < rest.len() && rest[k] == earlier[i];
                assert(pairs[k] == earlier[i]);
                assert(text::precedes(pairs[k].0, pairs[pairs.len() - 1].0));
            }
        }
    }
}

proof fn lemma_place_bounds(pairs: Seq<(Seq<char>, Seq<char>)>, name: Seq<char>)
    ensures
        0 <= place_of(pairs, name) <= pairs.len(),
        forall|i: int|
            0 <= i < place_of(pairs, name) ==> text::precedes((#[trigger] pairs[i]).0, name),
        place_of(pairs, name) < pairs.len() ==> !text::precedes(
            pairs[place_of(pairs, name)].0,
            name,
        ),
    decreases pairs.len(),
{
    if pairs.len() > 0 && text::precedes(pairs[0].0, name) {
        let rest = pairs.drop_first();
        lemma_place_bounds(rest, name);
        assert forall|i: int| 0 <= i < place_of(pairs, name) implies text::precedes(
            (#[trigger] pairs[i]).0,
            name,
        ) by {
            if i > 0 {
                assert(text::precedes(rest[i - 1].0, name));
            }
        }
    }
}

/// Headers in the order of their names stay in it once the program is named
/// among them, and the program is named once.
pub proof fn law_headers_stay_in_order(
    pairs: Seq<(Seq<char>, Seq<char>)>,
    user_agent: Seq<char>,
)
    requires
        in_name_order(pairs),
    ensures
        in_name_order(service_headers(pairs, user_agent)),
{
    let kept = without_user_agent(pairs);
    let name = "User-Agent"@;
    let place = place_of(kept, name);
    let all = service_headers(pairs, user_agent);
    lemma_kept_headers(pairs);
    lemma_place_bounds(kept, name);
    assert(is_user_agent(name)) by {
        reveal_strlit("User-Agent");
        reveal_strlit("user-agent");
        assert(text::lowered(name) =~= text::lowered("user-agent"@));
    }
    if place < kept.len() {
        assert(!is_user_agent(kept[place].0));
        text::lemma_precedes_total(kept[place].0, name);
    }
    assert forall|i: int, j: int| 0 <= i < j < all.len() implies text::precedes(
        (#[trigger] all[i]).0,
        (#[trigger] all[j]).0,
    ) by {
        let a = if i < place { i } else { i - 1 };
        let b = if j < place { j } else { j - 1 };
        if i != place && j != place {
            assert(text::precedes(kept[a].0, kept[b].0));
        } else if j == place {
            assert(text::precedes(kept[i].0, name));
        } else if b > place {
            assert(text::precedes(kept[place].0, kept[b].0));
            text::lemma_precedes_transitive(name, kept[place].0, kept[b].0);
        }
    }
}

// ---------------------------------------------------------------------------
// What is shown
// ---------------------------------------------------------------------------

/// What is told of a change to the configuration.
pub open spec fn told_changes(model: Seq<char>, chat_proxy: bool) -> Seq<Seq<char>> {
    seq![
        "保留现有的其他 Codex 设置"@,
        "将 Codex 切换到所选第三方 API 服务"@,
        if chat_proxy {
            "写入本机转换代理地址（Chat Completions API 自动转为 Responses API）"@
        } else {
            "写入 Responses API 地址"@
        },
        "更新 Codex 使用的 API Key"@,
        "使用服务 API 返回的模型 "@ + text::trimmed(model),
        "写入模型目录 model-catalogs/codex-tools.json，供模型选择器列出服务 API 返回的模型"@,
    ]
}

/// What is told of a change to the configuration.
pub fn describe_changes(model: &str, chat_proxy: bool) -> (changes: Vec<String>)
    ensures
        text::texts(changes@) == told_changes(model@, chat_proxy),
{
    let mut changes: Vec<String> = Vec::new();
    changes.push("保留现有的其他 Codex 设置".to_owned());
    changes.push("将 Codex 切换到所选第三方 API 服务".to_owned());
    if chat_proxy {
        changes.push(
            "写入本机转换代理地址（Chat Completions API 自动转为 Responses API）".to_owned(),
        );
    } else {
        changes.push("写入 Responses API 地址".to_owned());
    }
    changes.push("更新 Codex 使用的 API Key".to_owned());
    let name = text::trim(model);
    changes.push(text::concat("使用服务 API 返回的模型 ", name.as_str()));
    changes.push(
        "写入模型目录 model-catalogs/codex-tools.json，供模型选择器列出服务 API 返回的模型".to_owned(),
    );
    assert(text::texts(changes@) =~= told_changes(model@, chat_proxy));
    changes
}

/// The entries under the given keys, where there are any.
pub open spec fn only_keys(entries: Entries, keys: Seq<Seq<char>>) -> Entries {
    entries.restrict(keys.to_set())
}

/// The keys that are shown of a configuration.
pub open spec fn shown_keys() -> Seq<Seq<char>> {
    seq!["model"@, "model_provider"@, "model_catalog_json"@]
}

/// The keys that are shown of a service.
pub open spec fn shown_service_keys() -> Seq<Seq<char>> {
    seq!["name"@, "wire_api"@, "requires_openai_auth"@, "base_url"@, "http_headers"@]
}

/// The entries of the service that a configuration describes.
pub open spec fn described_service(root: Entries) -> Option<Entries> {
    match table_entry(root, "model_providers"@) {
        Some(providers) => table_entry(providers, "custom"@),
        None => None,
    }
}

/// What is shown of a configuration: what this application writes.
pub open spec fn shown_part(root: Entries) -> Entries {
    let plain = only_keys(root, shown_keys());
    match described_service(root) {
        Some(service) => plain.insert(
            "model_providers"@,
            TomlView::Table(
                toml::no_entries().insert(
                    "custom"@,
                    TomlView::Table(only_keys(service, shown_service_keys())),
                ),
            ),
        ),
        None => plain,
    }
}

/// Copies the entry under a key, where there is one.
fn copy_shown(source: &toml_edit::Table, target: &mut toml_edit::Table, key: &str, in_layout: bool)
    ensures
        table_view(*final(target)) == match entry(table_view(*source), key@) {
            Some(item) => table_view(*old(target)).insert(key@, item),
            None => table_view(*old(target)),
        },
{
    if let Some(item) = toml::table_get(source, key) {
        let copy = toml::clone_item(item);
        if in_layout {
            toml::table_insert(target, key, copy);
        } else {
            toml::table_set(target, key, copy);
        }
    }
}

/// Copies the entries under the given keys.
fn copy_keys(
    source: &toml_edit::Table,
    target: &mut toml_edit::Table,
    keys: &Vec<&'static str>,
    in_layout: bool,
)
    requires
        table_view(*old(target)) == toml::no_entries(),
    ensures
        table_view(*final(target)) == only_keys(
            table_view(*source),
            keys@.map_values(|key: &'static str| key@),
        ),
{
    let ghost views = keys@.map_values(|key: &'static str| key@);
    assert(only_keys(table_view(*source), views.take(0)) =~= toml::no_entries());
    for index in 0..keys.len()
        invariant
            views == keys@.map_values(|key: &'static str| key@),
            table_view(*target) == only_keys(table_view(*source), views.take(index as int)),
    {
        let ghost before = table_view(*target);
        let ghost all = table_view(*source);
        let ghost key = views[index as int];
        copy_shown(source, target, keys[index], in_layout);
        proof {
            let earlier = views.take(index as int);
            let longer = views.take(index + 1);
            assert(longer =~= earlier.push(key));
            assert(longer.to_set() =~= earlier.to_set().insert(key)) by {
                broadcast use vstd::seq_lib::group_seq_properties;

            }
            if all.contains_key(key) {
                assert(before.insert(key, all[key]) =~= only_keys(all, longer));
            } else {
                assert(before =~= only_keys(all, longer));
            }
        }
    }
    assert(views.take(keys.len() as int) =~= views);
}

fn find_service(root: &toml_edit::Table) -> (service: Option<&toml_edit::Table>)
    ensures
        match service {
            Some(service) => described_service(table_view(*root)) == Some(table_view(*service)),
            None => described_service(table_view(*root)) is None,
        },
{
    let providers = match toml::table_get(root, "model_providers") {
        Some(item) => toml::item_table(item),
        None => None,
    };
    match providers {
        Some(providers) => match toml::table_get(providers, "custom") {
            Some(item) => toml::item_table(item),
            None => None,
        },
        None => None,
    }
}

fn make_shown_part(document: &toml_edit::DocumentMut) -> (preview: toml_edit::DocumentMut)
    ensures
        document_view(preview) == shown_part(document_view(*document)),
{
    let mut preview = toml::new_document();
    let source = toml::root(document);
    let target = toml::root_mut(&mut preview);
    let keys: Vec<&'static str> = vec!["model", "model_provider", "model_catalog_json"];
    assert(keys@.map_values(|key: &'static str| key@) =~= shown_keys());
    copy_keys(source, target, &keys, false);
    if let Some(service) = find_service(source) {
        let mut shown = toml::new_table();
        let keys: Vec<&'static str> = vec![
            "name",
            "wire_api",
            "requires_openai_auth",
            "base_url",
            "http_headers",
        ];
        assert(keys@.map_values(|key: &'static str| key@) =~= shown_service_keys());
        copy_keys(service, &mut shown, &keys, true);
        let mut providers = toml::new_table();
        toml::table_insert(&mut providers, "custom", toml::table_item(shown));
        toml::table_set(target, "model_providers", toml::table_item(providers));
    }
    preview
}

/// The values that are not shown: those of the headers, the longest first.
pub open spec fn hidden_values(pairs: Seq<(Seq<char>, Seq<char>)>) -> Seq<(usize, Seq<char>)> {
    ordered(keyed_values(pairs))
}

/// The values of the headers, each with what puts the longest first.
pub open spec fn keyed_values(pairs: Seq<(Seq<char>, Seq<char>)>) -> Seq<(usize, Seq<char>)>
    decreases pairs.len(),
{
    if pairs.len() == 0 {
        Seq::empty()
    } else {
        let earlier = keyed_values(pairs.drop_last());
        let value = pairs.last().1;
        if value.len() == 0 {
            earlier
        } else {
            earlier.push(((usize::MAX - text::byte_count(value)) as usize, value))
        }
    }
}

/// A text in which the values are written as a mark, in their order.
pub open spec fn redacted(shown: Seq<char>, values: Seq<(usize, Seq<char>)>) -> Seq<char>
    decreases values.len(),
{
    if values.len() == 0 {
        shown
    } else {
        text::replaced(redacted(shown, values.drop_last()), values.last().1, "[REDACTED]"@)
    }
}

/// A text without the key of a service and without the values of its headers.
pub open spec fn without_secrets(
    shown: Seq<char>,
    api_key: Seq<char>,
    pairs: Seq<(Seq<char>, Seq<char>)>,
) -> Seq<char> {
    redacted(text::replaced(shown, api_key, masked(api_key)), hidden_values(pairs))
}

/// An item with its text as a mathematical value.
pub open spec fn keyed_texts(items: Seq<(usize, String)>) -> Seq<(usize, Seq<char>)> {
    items.map_values(|item: (usize, String)| (item.0, item.1@))
}

fn list_hidden(pairs: &Vec<(String, String)>) -> (values: Vec<(usize, String)>)
    ensures
        keyed_texts(values@) == hidden_values(headers::pair_texts(pairs@)),
{
    let mut values: Vec<(usize, String)> = Vec::new();
    let ghost views = headers::pair_texts(pairs@);
    assert(views.take(0) =~= Seq::<(Seq<char>, Seq<char>)>::empty());
    assert(keyed_texts(values@) =~= Seq::<(usize, Seq<char>)>::empty());
    for index in 0..pairs.len()
        invariant
            views == headers::pair_texts(pairs@),
            keyed_texts(values@) == keyed_values(views.take(index as int)),
    {
        let ghost before = values@;
        proof {
            assert(views[index as int] == (pairs[index as int].0@, pairs[index as int].1@));
            assert(views.take(index + 1).drop_last() =~= views.take(index as int));
            assert(views.take(index + 1).last() == views[index as int]);
        }
        if !pairs[index].1.as_str().is_empty() {
            let length: usize = text::byte_len(pairs[index].1.as_str());
            values.push((usize::MAX - length, pairs[index].1.clone()));
            assert(keyed_texts(values@) =~= keyed_texts(before).push(
                ((usize::MAX - length) as usize, views[index as int].1),
            ));
        }
    }
    assert(views.take(pairs.len() as int) =~= views);
    let ghost unordered = values@;
    let sorted = order::order(values);
    proof {
        let f = |value: String| value@;
        let g = |item: (usize, String)| (item.0, f(item.1));
        lemma_ordered_map(unordered, f);
        assert(keyed_texts(unordered) =~= unordered.map_values(g));
        assert(keyed_texts(sorted@) =~= sorted@.map_values(g));
    }
    sorted
}

/// Writes the key of a service and the values of its headers in a form in
/// which they may be shown.
pub fn hide_secrets(shown: &str, api_key: &str, pairs: &Vec<(String, String)>) -> (hidden: String)
    ensures
        hidden@ == without_secrets(shown@, api_key@, headers::pair_texts(pairs@)),
{
    let mask = mask_secret(api_key);
    let mut hidden = text::replace(shown, api_key, mask.as_str());
    let values = list_hidden(pairs);
    let ghost start = hidden@;
    let ghost views = keyed_texts(values@);
    assert(views.take(0) =~= Seq::<(usize, Seq<char>)>::empty());
    for index in 0..values.len()
        invariant
            views == keyed_texts(values@),
            hidden@ == redacted(start, views.take(index as int)),
    {
        proof {
            assert(views[index as int] == (values[index as int].0, values[index as int].1@));
            assert(views.take(index + 1).drop_last() =~= views.take(index as int));
            assert(views.take(index + 1).last() == views[index as int]);
        }
        hidden = text::replace(hidden.as_str(), values[index].1.as_str(), "[REDACTED]");
    }
    assert(views.take(values.len() as int) =~= views);
    hidden
}

/// What stands between the ends of a key that is shown.
pub open spec fn mask_mark(api_key: Seq<char>) -> Seq<char> {
    if api_key.len() <= 8 {
        masked(api_key)
    } else {
        "…"@
    }
}

/// The key of a service stands nowhere in what is shown, where its
/// occurrences did not overlap, and where it is not itself like the marks that
/// stand in place of secrets.
pub proof fn law_key_is_not_shown(
    shown: Seq<char>,
    api_key: Seq<char>,
    pairs: Seq<(Seq<char>, Seq<char>)>,
)
    requires
        api_key.len() > 0,
        api_key.len() > 8 ==> text::apart(shown, api_key),
        text::clash(api_key, mask_mark(api_key)),
        text::clash(api_key, "[REDACTED]"@),
    ensures
        !text::occurs(without_secrets(shown, api_key, pairs), api_key),
{
    reveal_strlit("…");
    let nothing = Seq::<char>::empty();
    if api_key.len() <= 8 {
        assert(nothing + masked(api_key) + nothing =~= masked(api_key));
        assert(api_key.take(0) =~= nothing);
        assert(api_key.skip(api_key.len() as int) =~= nothing);
        text::lemma_replaced_is_gone(shown, api_key, (nothing, masked(api_key), nothing));
    } else {
        text::lemma_replaced_is_gone(
            shown,
            api_key,
            (api_key.take(4), "…"@, api_key.skip(api_key.len() - 4)),
        );
    }
    lemma_redacted_stays_gone(
        text::replaced(shown, api_key, masked(api_key)),
        hidden_values(pairs),
        api_key,
    );
}

/// The value of a header stands nowhere in what is shown, where it is not
/// itself like the mark that stands in its place.
pub proof fn law_header_values_are_not_shown(
    shown: Seq<char>,
    api_key: Seq<char>,
    pairs: Seq<(Seq<char>, Seq<char>)>,
    place: int,
)
    requires
        0 <= place < pairs.len(),
        pairs[place].1.len() > 0,
        text::clash(pairs[place].1, "[REDACTED]"@),
    ensures
        !text::occurs(without_secrets(shown, api_key, pairs), pairs[place].1),
{
    broadcast use vstd::seq_lib::group_to_multiset_ensures;

    let value = pairs[place].1;
    lemma_values_are_hidden(pairs, place);
    let item = choose|item: (usize, Seq<char>)| #[trigger]
        keyed_values(pairs).contains(item) && item.1 == value;
    order::law_ordered_is_a_sort(keyed_values(pairs));
    assert(keyed_values(pairs).to_multiset().count(item) > 0);
    assert(hidden_values(pairs).contains(item));
    lemma_redacted_is_gone(
        text::replaced(shown, api_key, masked(api_key)),
        hidden_values(pairs),
        item,
    );
}

proof fn lemma_values_are_hidden(pairs: Seq<(Seq<char>, Seq<char>)>, place: int)
    requires
        0 <= place < pairs.len(),
        pairs[place].1.len() > 0,
    ensures
        exists|item: (usize, Seq<char>)| #[trigger]
            keyed_values(pairs).contains(item) && item.1 == pairs[place].1,
    decreases pairs.len(),
{
    let earlier = keyed_values(pairs.drop_last());
    let all = keyed_values(pairs);
    if place == pairs.len() - 1 {
        assert(all.last().1 == pairs[place].1);
        assert(all.contains(all.last()));
    } else {
        lemma_values_are_hidden(pairs.drop_last(), place);
        let item = choose|item: (usize, Seq<char>)| #[trigger]
            earlier.contains(item) && item.1 == pairs[place].1;
        let i = choose|i: int| 0 <= i < earlier.len() && earlier[i] == item;
        assert(all[i] == item);
        assert(all.contains(item));
    }
}

proof fn lemma_redacted_stays_gone(
    shown: Seq<char>,
    values: Seq<(usize, Seq<char>)>,
    secret: Seq<char>,
)
    requires
        secret.len() > 0,
        text::clash(secret, "[REDACTED]"@),
        !text::occurs(shown, secret),
    ensures
        !text::occurs(redacted(shown, values), secret),
    decreases values.len(),
{
    reveal_strlit("[REDACTED]");
    if values.len() > 0 {
        lemma_redacted_stays_gone(shown, values.drop_last(), secret);
        text::lemma_stays_gone(
            redacted(shown, values.drop_last()),
            values.last().1,
            "[REDACTED]"@,
            secret,
        );
    }
}

proof fn lemma_redacted_is_gone(
    shown: Seq<char>,
    values: Seq<(usize, Seq<char>)>,
    item: (usize, Seq<char>),
)
    requires
        values.contains(item),
        item.1.len() > 0,
        text::clash(item.1, "[REDACTED]"@),
    ensures
        !text::occurs(redacted(shown, values), item.1),
    decreases values.len(),
{
    reveal_strlit("[REDACTED]");
    let earlier = redacted(shown, values.drop_last());
    let nothing = Seq::<char>::empty();
    if values.last() == item {
        assert(nothing + "[REDACTED]"@ + nothing =~= "[REDACTED]"@);
        assert(item.1.take(0) =~= nothing);
        assert(item.1.skip(item.1.len() as int) =~= nothing);
        text::lemma_replaced_is_gone(earlier, item.1, (nothing, "[REDACTED]"@, nothing));
    } else {
        let i = choose|i: int| 0 <= i < values.len() && values[i] == item;
        assert(values.drop_last()[i] == item);
        lemma_redacted_is_gone(shown, values.drop_last(), item);
        text::lemma_stays_gone(earlier, values.last().1, "[REDACTED]"@, item.1);
    }
}

/// What is shown of a configuration that uses a service: only what this
/// application writes, and no secret as it is.
pub fn managed_custom_preview(
    document: &toml_edit::DocumentMut,
    api_key: &str,
    pairs: &Vec<(String, String)>,
) -> (shown: String)
    ensures
        exists|preview: toml_edit::DocumentMut|
            document_view(preview) == shown_part(document_view(*document)) && shown@
                == without_secrets(
                #[trigger] document_text(preview),
                api_key@,
                headers::pair_texts(pairs@),
            ),
{
    let preview = make_shown_part(document);
    let rendered = toml::render_document(&preview);
    hide_secrets(rendered.as_str(), api_key, pairs)
}

/// What is shown of a configuration holds no setting but those that this
/// application writes.
pub proof fn law_only_managed_settings_are_shown(root: Entries, key: Seq<char>)
    requires
        shown_part(root).contains_key(key),
    ensures
        key == "model"@ || key == "model_provider"@ || key == "model_catalog_json"@ || key
            == "model_providers"@,
        key != "model_providers"@ ==> shown_part(root)[key] == root[key],
        key == "model_providers"@ ==> (shown_part(root)[key] matches TomlView::Table(providers)
            && forall|other: Seq<char>| #[trigger]
            providers.contains_key(other) ==> other == "custom"@),
{
    crate::codex_document::lemma_keys_differ();
    if key != "model_providers"@ {
        assert(shown_keys().to_set().contains(key));
        assert(shown_keys().contains(key));
        let i = choose|i: int| 0 <= i < shown_keys().len() && shown_keys()[i] == key;
        assert(i == 0 || i == 1 || i == 2);
    } else {
        assert(!shown_keys().contains(key));
    }
}

// ---------------------------------------------------------------------------
// Files
// ---------------------------------------------------------------------------

/// The SHA-256 digest of a text, in hexadecimal digits.
pub uninterp spec fn sha256_hex(source: Seq<char>) -> Seq<char>;

/// `sha2::Sha256::digest` over the bytes of a text, written by the `LowerHex`
/// of its result: a function of the text, sixty-four characters long.
#[verifier::external_body]
pub(crate) fn digest(source: &str) -> (hex: String)
    ensures
        hex@ == sha256_hex(source@),
        hex@.len() == 64,
{
    format!("{:x}", <sha2::Sha256 as sha2::Digest>::digest(source.as_bytes()))
}

/// The list of models as a file; nothing where there is no model.
pub open spec fn catalog_file(models: Seq<JsonView>) -> Option<Seq<u8>> {
    if models.len() == 0 {
        None
    } else {
        let document = json::empty_object().with("models"@, JsonView::Array(models));
        Some(
            text::bytes_of_text(
                crate::chat_request::or_empty(json::pretty_text(document)) + "\n"@,
            ),
        )
    }
}

/// The optional bytes.
pub open spec fn bytes_view(bytes: Option<Vec<u8>>) -> Option<Seq<u8>> {
    match bytes {
        Some(bytes) => Some(bytes@),
        None => None,
    }
}

/// The list of models as a file; nothing where there is no model, so that the
/// list in use is not written over by an empty one.
pub fn catalog_bytes(models: Vec<Json>) -> (file: Option<Vec<u8>>)
    ensures
        bytes_view(file) == catalog_file(json::items_view(models@)),
{
    proof {
        json::lemma_items_view(models@);
    }
    if models.len() == 0 {
        return None;
    }
    let document = Json::object().with("models", Json::Array(models));
    let mut rendered = match document.render_pretty() {
        Some(rendered) => rendered,
        None => "".to_owned(),
    };
    rendered.append("\n");
    Some(text::text_bytes(rendered.as_str()))
}

/// A login file.
pub open spec fn auth_file(auth: JsonView) -> Result<Seq<u8>, ErrorView> {
    match json::pretty_text(auth) {
        Some(rendered) => Ok(text::bytes_of_text(rendered + "\n"@)),
        None => Err(ErrorView::Internal("无法序列化 Codex 登录文件。"@)),
    }
}

/// The bytes, or the error.
pub open spec fn bytes_result(outcome: Result<Vec<u8>, AppError>) -> Result<Seq<u8>, ErrorView> {
    match outcome {
        Ok(bytes) => Ok(bytes@),
        Err(error) => Err(error@),
    }
}

/// Writes a login file. One that holds nothing but texts and nulls under plain
/// keys is read back as it was.
pub fn render_auth_object(auth: &Json) -> (outcome: Result<Vec<u8>, AppError>)
    ensures
        bytes_result(outcome) == auth_file(auth@),
        json::is_flat(auth@) ==> (outcome matches Ok(bytes) && holds_login(bytes@, auth@)),
{
    match auth.render_pretty() {
        Some(rendered) => {
            let rendered = text::concat(rendered.as_str(), "\n");
            Ok(text::text_bytes(rendered.as_str()))
        },
        None => Err(AppError::internal("无法序列化 Codex 登录文件。")),
    }
}

/// Whether a login file is read as a login.
pub open spec fn holds_login(bytes: Seq<u8>, login: JsonView) -> bool {
    json::read_bytes(bytes) == Ok::<JsonView, Seq<char>>(login)
}

proof fn lemma_login_keys()
    ensures
        json::is_plain_key("OPENAI_API_KEY"@),
        json::is_plain_key("personal_access_token"@),
{
    reveal_strlit("OPENAI_API_KEY");
    reveal_strlit("personal_access_token");
}

/// A login with the key of a service.
pub open spec fn key_login(api_key: Seq<char>) -> JsonView {
    json::empty_object().with("OPENAI_API_KEY"@, JsonView::Text(api_key))
}

/// Writes a login file with the key of a service.
pub fn render_api_key_auth(api_key: &str) -> (outcome: Result<Vec<u8>, AppError>)
    ensures
        bytes_result(outcome) == auth_file(key_login(api_key@)),
        outcome matches Ok(bytes) && holds_login(bytes@, key_login(api_key@)),
{
    proof {
        lemma_login_keys();
    }
    render_auth_object(&Json::object().with("OPENAI_API_KEY", Json::text(api_key)))
}

/// A login file with the key of a service holds that key and nothing else.
pub proof fn law_login_holds_only_the_key(bytes: Seq<u8>, api_key: Seq<char>, member: Seq<char>)
    requires
        holds_login(bytes, key_login(api_key)),
    ensures
        json::parsed_bytes(bytes) matches Some(login) && login.text_at("OPENAI_API_KEY"@) == Some(
            api_key,
        ) && (login.has(member) ==> member == "OPENAI_API_KEY"@),
{
}

/// A login with a personal access token.
pub open spec fn token_login(token: Seq<char>) -> JsonView {
    json::empty_object().with("OPENAI_API_KEY"@, JsonView::Null).with(
        "personal_access_token"@,
        JsonView::Text(token),
    )
}

/// Writes a login file with a personal access token.
pub fn render_token_auth(token: &str) -> (outcome: Result<Vec<u8>, AppError>)
    ensures
        bytes_result(outcome) == auth_file(token_login(token@)),
        outcome matches Ok(bytes) && holds_login(bytes@, token_login(token@)),
{
    proof {
        lemma_login_keys();
    }
    render_auth_object(
        &Json::object().with("OPENAI_API_KEY", Json::Null).with(
            "personal_access_token",
            Json::text(token),
        ),
    )
}

/// Whether a byte is white space.
pub open spec fn is_blank_byte(byte: u8) -> bool {
    byte == 32 || byte == 9 || byte == 10 || byte == 12 || byte == 13
}

/// Whether bytes are nothing but white space.
pub open spec fn blank_bytes(bytes: Seq<u8>) -> bool {
    forall|i: int| 0 <= i < bytes.len() ==> is_blank_byte(#[trigger] bytes[i])
}

/// Whether bytes are nothing but white space.
pub fn are_blank(bytes: &[u8]) -> (answer: bool)
    ensures
        answer == blank_bytes(bytes@),
{
    for index in 0..bytes.len()
        invariant
            forall|i: int| 0 <= i < index ==> is_blank_byte(#[trigger] bytes@[i]),
    {
        let byte = bytes[index];
        if !(byte == 32 || byte == 9 || byte == 10 || byte == 12 || byte == 13) {
            assert(!is_blank_byte(bytes@[index as int]));
            return false;
        }
    }
    true
}

/// The login that a file holds, or what is wrong with it.
pub open spec fn login_in(bytes: Seq<u8>) -> Result<JsonView, ErrorView> {
    if blank_bytes(bytes) {
        Ok(json::empty_object())
    } else {
        match json::read_bytes(bytes) {
            Ok(document) => if document is Object {
                Ok(document)
            } else {
                Err(
                    ErrorView::InvalidConfig(
                        "Codex 登录文件格式有误：auth.json 顶层必须是对象。"@,
                    ),
                )
            },
            Err(message) => Err(ErrorView::InvalidConfig("Codex 登录文件格式有误："@ + message)),
        }
    }
}

/// The document, or the error.
pub open spec fn login_result(outcome: Result<Json, AppError>) -> Result<JsonView, ErrorView> {
    match outcome {
        Ok(login) => Ok(login@),
        Err(error) => Err(error@),
    }
}

/// Reads a login file. A blank one holds no login.
pub fn parse_auth_object(bytes: &[u8]) -> (outcome: Result<Json, AppError>)
    ensures
        login_result(outcome) == login_in(bytes@),
{
    if are_blank(bytes) {
        return Ok(Json::object());
    }
    match Json::read(bytes) {
        Ok(login) => if login.is_object() {
            Ok(login)
        } else {
            Err(AppError::invalid("Codex 登录文件格式有误：auth.json 顶层必须是对象。"))
        },
        Err(message) => Err(
            AppError::InvalidConfig(text::concat("Codex 登录文件格式有误：", message.as_str())),
        ),
    }
}

} // verus!
