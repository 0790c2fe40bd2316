//! Identifiers that are drawn at random.

use vstd::prelude::*;

verus! {

/// Whether a text is a random identifier in its plain form: thirty-two
/// lower-case hexadecimal digits.
pub open spec fn is_simple_id(text: Seq<char>) -> bool {
    &&& text.len() == 32
    &&& forall|i: int|
        0 <= i < text.len() ==> {
            ||| '0' <= #[trigger] text[i] <= '9'
            ||| 'a' <= text[i] <= 'f'
        }
}

/// `uuid::Uuid::new_v4` draws a random identifier, and `Uuid::simple` writes
/// it as thirty-two lower-case hexadecimal digits. Which identifier is drawn
/// is left to chance.
#[verifier::external_body]
pub(crate) fn random_id() -> (id: String)
    ensures
        is_simple_id(id@),
{
    uuid::Uuid::new_v4().simple().to_string()
}

/// Whether a hyphen stands at a place of a random identifier in its hyphenated
/// form.
pub open spec fn is_hyphen_place(place: int) -> bool {
    place == 8 || place == 13 || place == 18 || place == 23
}

/// Whether a text is a random identifier in its hyphenated form: groups of
/// lower-case hexadecimal digits with hyphens between them.
pub open spec fn is_hyphenated_id(text: Seq<char>) -> bool {
    &&& text.len() == 36
    &&& forall|i: int|
        0 <= i < text.len() ==> if is_hyphen_place(i) {
            #[trigger] text[i] == '-'
        } else {
            '0' <= text[i] <= '9' || 'a' <= text[i] <= 'f'
        }
}

/// `uuid::Uuid::new_v4` draws a random identifier, and its `Display` writes
/// it as lower-case hexadecimal digits in groups of eight, four, four, four
/// and twelve, with hyphens between them. Which identifier is drawn is left to
/// chance.
#[verifier::external_body]
pub(crate) fn random_hyphenated_id() -> (id: String)
    ensures
        is_hyphenated_id(id@),
{
    uuid::Uuid::new_v4().to_string()
}

/// `count` random identifiers.
pub(crate) fn random_ids(count: usize) -> (ids: Vec<String>)
    ensures
        ids.len() == count,
        forall|i: int| 0 <= i < ids.len() ==> is_simple_id(#[trigger] ids[i]@),
{
    let mut ids: Vec<String> = Vec::new();
    while ids.len() < count
        invariant
            ids.len() <= count,
            forall|i: int| 0 <= i < ids.len() ==> is_simple_id(#[trigger] ids[i]@),
        decreases count - ids.len(),
    {
        ids.push(random_id());
    }
    ids
}

} // verus!
