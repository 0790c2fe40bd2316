//! Bringing in official accounts: several at once, under names of their own,
//! as long as there is room for them.

use crate::config_manager::with_missing;
use crate::models::{AppError, ErrorView};
use crate::reasoning::is_among;
use crate::text;
use crate::text_laws;
use vstd::prelude::*;

verus! {

/// How many official accounts can be saved.
pub const MAX_SAVED_OPENAI_ACCOUNTS: usize = 500;

/// The identifier that is given for an account, where there is one.
pub open spec fn given_id(account_id: Option<Seq<char>>) -> Option<Seq<char>> {
    match account_id {
        Some(id) => if text::blank(id) {
            None
        } else {
            Some(text::trimmed(id))
        },
        None => None,
    }
}

/// The identifier that is given for an account that is brought in. It can be
/// given for one account only.
pub fn identifier_for_import(account_id: Option<&str>, total: usize) -> (outcome: Result<
    Option<String>,
    AppError,
>)
    ensures
        match outcome {
            Ok(id) => {
                &&& text::string_of(id) == given_id(text::text_of(account_id))
                &&& given_id(text::text_of(account_id)) is Some ==> total == 1
            },
            Err(error) => {
                &&& given_id(text::text_of(account_id)) is Some
                &&& total != 1
                &&& error@ == ErrorView::InvalidConfig(
                    "导入内容包含多个账号时，请不要填写统一的 Account ID；每个账号应在 JSON 中提供自己的标识。"@,
                )
            },
        },
{
    let id = match account_id {
        Some(id) => id,
        None => return Ok(None),
    };
    if text::is_blank(id) {
        return Ok(None);
    }
    if total != 1 {
        return Err(
            AppError::invalid(
                "导入内容包含多个账号时，请不要填写统一的 Account ID；每个账号应在 JSON 中提供自己的标识。",
            ),
        );
    }
    Ok(Some(text::trim(id)))
}

/// Makes sure that there is room for accounts, where it is not known of all
/// of them whether they are new.
pub fn check_room(existing: usize, total: usize, some_unknown: bool) -> (outcome: Result<
    (),
    AppError,
>)
    ensures
        outcome is Ok <==> (some_unknown ==> existing + total <= MAX_SAVED_OPENAI_ACCOUNTS),
        outcome matches Err(error) ==> error@ == ErrorView::InvalidConfig(
            "导入后可能超过 500 个 OpenAI 账号的保存上限，请先删除不再使用的账号。"@,
        ),
{
    let room = existing <= MAX_SAVED_OPENAI_ACCOUNTS && total <= MAX_SAVED_OPENAI_ACCOUNTS
        - existing;
    if some_unknown && !room {
        return Err(
            AppError::invalid(
                "导入后可能超过 500 个 OpenAI 账号的保存上限，请先删除不再使用的账号。",
            ),
        );
    }
    Ok(())
}

/// The forms that were found, each once, in the order in which they came up.
pub open spec fn found_forms(labels: Seq<Seq<char>>) -> Seq<Seq<char>> {
    with_missing(Seq::empty(), labels)
}

/// The forms that were found, each once, in the order in which they came up.
pub fn detected_formats(labels: &Vec<String>) -> (forms: Vec<String>)
    ensures
        text::texts(forms@) == found_forms(text::texts(labels@)),
{
    let mut forms: Vec<String> = Vec::new();
    let ghost views = text::texts(labels@);
    assert(views.take(0) =~= Seq::<Seq<char>>::empty());
    assert(text::texts(forms@) =~= Seq::<Seq<char>>::empty());
    for index in 0..labels.len()
        invariant
            views == text::texts(labels@),
            text::texts(forms@) == with_missing(Seq::empty(), views.take(index as int)),
    {
        let ghost before = forms@;
        proof {
            assert(views[index as int] == labels[index as int]@);
            assert(views.take(index + 1).drop_last() =~= views.take(index as int));
            assert(views.take(index + 1).last() == views[index as int]);
        }
        if !is_among(labels[index].as_str(), &forms) {
            forms.push(labels[index].clone());
            assert(text::texts(forms@) =~= text::texts(before).push(views[index as int]));
        }
    }
    assert(views.take(labels.len() as int) =~= views);
    forms
}

/// No form is told of twice, and every one that came up is told of.
pub proof fn law_forms_are_told_once(labels: Seq<Seq<char>>)
    ensures
        found_forms(labels).no_duplicates(),
        forall|i: int| 0 <= i < labels.len() ==> found_forms(labels).contains(#[trigger] labels[i]),
    decreases labels.len(),
{
    if labels.len() > 0 {
        let rest = labels.drop_last();
        law_forms_are_told_once(rest);
        let earlier = found_forms(rest);
        let all = found_forms(labels);
        let last = labels.last();
        if !earlier.contains(last) {
            assert(all =~= earlier.push(last));
            assert forall|i: int, j: int| 0 <= i < all.len() && 0 <= j < all.len() && i
                != j implies all[i] != all[j] by {
                if i < earlier.len() && j < earlier.len() {
                    assert(earlier[i] != earlier[j]);
                } else if i < earlier.len() {
                    assert(earlier.contains(earlier[i]));
                } else {
                    assert(earlier.contains(earlier[j]));
                }
            }
        }
        assert forall|i: int| 0 <= i < labels.len() implies all.contains(#[trigger] labels[i]) by {
            if i < rest.len() {
                assert(rest[i] == labels[i]);
                let k = choose|k: int| 0 <= k < earlier.len() && earlier[k] == labels[i];
                assert(all[k] == labels[i]);
            } else if !earlier.contains(last) {
                assert(all[earlier.len() as int] == last);
            }
        }
    }
}

/// The name that is asked for an account that is brought in.
pub open spec fn requested_name(name: Option<Seq<char>>, place: int, total: nat) -> Option<Seq<char>> {
    match name {
        Some(name) => if total <= 1 {
            Some(name)
        } else {
            Some(name + " #"@ + text::decimal((place + 1) as nat))
        },
        None => None,
    }
}

/// The name that is asked for an account that is brought in: where there are
/// several, with its number.
pub fn name_for_import(name: Option<&str>, place: usize, total: usize) -> (requested: Option<
    String,
>)
    ensures
        text::string_of(requested) == requested_name(
            text::text_of(name),
            place as int,
            total as nat,
        ),
{
    let name = match name {
        Some(name) => name,
        None => return None,
    };
    if total <= 1 {
        return Some(name.to_owned());
    }
    let mut requested = text::concat(name, " #");
    let number: u128 = place as u128 + 1;
    requested.append(text::decimal_text(number).as_str());
    Some(requested)
}

/// Accounts that are imported together have names of their own, which begin with
/// the name that was asked for; a single account has that name.
pub proof fn law_names_are_numbered(name: Seq<char>, place: int, other: int, total: nat)
    requires
        0 <= place,
        0 <= other,
        place != other,
        total > 1,
    ensures
        requested_name(Some(name), place, 1) == Some(name),
        requested_name(Some(name), place, total) matches Some(one) && text::begins_with(one, name),
        requested_name(Some(name), place, total) != requested_name(Some(name), other, total),
        requested_name(None, place, total) is None,
{
    let mark = name + " #"@;
    let one = requested_name(Some(name), place, total)->0;
    let two = requested_name(Some(name), other, total)->0;
    assert(one.take(name.len() as int) =~= name);
    if one == two {
        assert(one.skip(mark.len() as int) =~= text::decimal((place + 1) as nat));
        assert(two.skip(mark.len() as int) =~= text::decimal((other + 1) as nat));
        text_laws::law_decimals_differ((place + 1) as nat, (other + 1) as nat);
    }
}

/// An identifier that is given stands without white space around it; a blank one is
/// none.
pub proof fn law_identifier_is_trimmed(id: Seq<char>)
    ensures
        text::blank(id) ==> given_id(Some(id)) is None,
        !text::blank(id) ==> (given_id(Some(id)) matches Some(given) && given == text::trimmed(id)),
{
}

} // verus!
