//! JSON documents: the library's own tree, its mathematical view, and the
//! calls that parse, print and validate JSON text.

use crate::text;
use crate::text::same_text;
use vstd::prelude::*;

verus! {

broadcast use {
    vstd::seq_lib::group_seq_properties,
    vstd::map::group_map_axioms,
};

/// A JSON document. An object lists its members in the order in which they
/// were set; where a key occurs more than once, the last member counts.
pub enum Json {
    Null,
    Bool(bool),
    Number(serde_json::Number),
    Text(String),
    Array(Vec<Json>),
    Object(Vec<(String, Json)>),
}

/// What a JSON number says: a non-negative integer, a negative integer, or
/// any other number by its decimal text.
pub enum NumberView {
    Unsigned(u64),
    Negative(i64),
    Fraction(Seq<char>),
}

/// A JSON document as a mathematical value.
pub enum JsonView {
    Null,
    Bool(bool),
    Number(NumberView),
    Text(Seq<char>),
    Array(Seq<JsonView>),
    Object(Map<Seq<char>, JsonView>),
}

impl JsonView {
    /// The member `key` of an object; nothing for any other document.
    pub open spec fn get(self, key: Seq<char>) -> Option<JsonView> {
        match self {
            JsonView::Object(members) => if members.contains_key(key) {
                Some(members[key])
            } else {
                None
            },
            _ => None,
        }
    }

    pub open spec fn has(self, key: Seq<char>) -> bool {
        self.get(key) is Some
    }

    pub open spec fn as_text(self) -> Option<Seq<char>> {
        match self {
            JsonView::Text(text) => Some(text),
            _ => None,
        }
    }

    pub open spec fn as_bool(self) -> Option<bool> {
        match self {
            JsonView::Bool(value) => Some(value),
            _ => None,
        }
    }

    pub open spec fn as_u64(self) -> Option<u64> {
        match self {
            JsonView::Number(NumberView::Unsigned(value)) => Some(value),
            _ => None,
        }
    }

    pub open spec fn as_array(self) -> Option<Seq<JsonView>> {
        match self {
            JsonView::Array(items) => Some(items),
            _ => None,
        }
    }

    /// The text member `key` of an object.
    pub open spec fn text_at(self, key: Seq<char>) -> Option<Seq<char>> {
        match self.get(key) {
            Some(value) => value.as_text(),
            None => None,
        }
    }

    pub open spec fn bool_at(self, key: Seq<char>) -> Option<bool> {
        match self.get(key) {
            Some(value) => value.as_bool(),
            None => None,
        }
    }

    pub open spec fn u64_at(self, key: Seq<char>) -> Option<u64> {
        match self.get(key) {
            Some(value) => value.as_u64(),
            None => None,
        }
    }

    pub open spec fn array_at(self, key: Seq<char>) -> Option<Seq<JsonView>> {
        match self.get(key) {
            Some(value) => value.as_array(),
            None => None,
        }
    }

    /// The member `inner` of the member `outer`.
    pub open spec fn get_in(self, outer: Seq<char>, inner: Seq<char>) -> Option<JsonView> {
        match self.get(outer) {
            Some(value) => value.get(inner),
            None => None,
        }
    }

    /// The object with `key` set to `value`; any other document unchanged.
    pub open spec fn with(self, key: Seq<char>, value: JsonView) -> JsonView {
        match self {
            JsonView::Object(members) => JsonView::Object(members.insert(key, value)),
            other => other,
        }
    }

    /// The object with all members of another object; any other document
    /// unchanged.
    pub open spec fn merged(self, other: JsonView) -> JsonView {
        match self {
            JsonView::Object(members) => match other {
                JsonView::Object(more) => JsonView::Object(members.union_prefer_right(more)),
                _ => self,
            },
            _ => self,
        }
    }

    /// The object without `key`; any other document unchanged.
    pub open spec fn without(self, key: Seq<char>) -> JsonView {
        match self {
            JsonView::Object(members) => JsonView::Object(members.remove(key)),
            other => other,
        }
    }
}

/// The empty object.
pub open spec fn empty_object() -> JsonView {
    JsonView::Object(Map::empty())
}

/// The integer `value` as JSON.
pub open spec fn unsigned_view(value: u64) -> JsonView {
    JsonView::Number(NumberView::Unsigned(value))
}

/// The integer `value` as JSON, whatever its sign.
pub open spec fn signed_view(value: i64) -> JsonView {
    if value >= 0 {
        JsonView::Number(NumberView::Unsigned(value as u64))
    } else {
        JsonView::Number(NumberView::Negative(value))
    }
}

pub open spec fn json_view(json: Json) -> JsonView
    decreases json,
{
    match json {
        Json::Null => JsonView::Null,
        Json::Bool(value) => JsonView::Bool(value),
        Json::Number(number) => JsonView::Number(number_view(number)),
        Json::Text(text) => JsonView::Text(text@),
        Json::Array(items) => JsonView::Array(items_view(items@)),
        Json::Object(members) => JsonView::Object(members_view(members@)),
    }
}

pub open spec fn items_view(items: Seq<Json>) -> Seq<JsonView>
    decreases items,
{
    if items.len() == 0 {
        Seq::empty()
    } else {
        items_view(items.drop_last()).push(json_view(items.last()))
    }
}

pub open spec fn members_view(members: Seq<(String, Json)>) -> Map<Seq<char>, JsonView>
    decreases members,
{
    if members.len() == 0 {
        Map::empty()
    } else {
        members_view(members.drop_last()).insert(members.last().0@, json_view(members.last().1))
    }
}

impl View for Json {
    type V = JsonView;

    open spec fn view(&self) -> JsonView {
        json_view(*self)
    }
}

/// The document behind an optional reference.
pub open spec fn json_of(json: Option<&Json>) -> Option<JsonView> {
    match json {
        Some(json) => Some(json@),
        None => None,
    }
}

/// The documents of a list, in order.
pub proof fn lemma_items_view(items: Seq<Json>)
    ensures
        items_view(items).len() == items.len(),
        forall|i: int| 0 <= i < items.len() ==> #[trigger] items_view(items)[i] == items[i]@,
    decreases items.len(),
{
    if items.len() > 0 {
        lemma_items_view(items.drop_last());
        assert forall|i: int| 0 <= i < items.len() implies #[trigger] items_view(items)[i]
            == items[i]@ by {
            if i < items.len() - 1 {
                assert(items_view(items.drop_last())[i] == items.drop_last()[i]@);
            }
        }
    }
}

pub proof fn lemma_items_view_push(items: Seq<Json>, item: Json)
    ensures
        items_view(items.push(item)) == items_view(items).push(item@),
{
    assert(items.push(item).drop_last() =~= items);
}

proof fn lemma_members_view_push(members: Seq<(String, Json)>, member: (String, Json))
    ensures
        members_view(members.push(member)) == members_view(members).insert(member.0@, member.1@),
{
    assert(members.push(member).drop_last() =~= members);
}

/// A member that no later member overrides gives the value of its key.
proof fn lemma_last_member(members: Seq<(String, Json)>, position: int, key: Seq<char>)
    requires
        -1 <= position < members.len(),
        position >= 0 ==> members[position].0@ == key,
        forall|j: int| position < j < members.len() ==> #[trigger] members[j].0@ != key,
    ensures
        position >= 0 ==> members_view(members).contains_key(key) && members_view(members)[key]
            == members[position].1@,
        position < 0 ==> !members_view(members).contains_key(key),
    decreases members.len(),
{
    if members.len() > 0 && position < members.len() - 1 {
        assert(members[members.len() - 1].0@ != key);
        assert forall|j: int| position < j < members.drop_last().len() implies
            #[trigger] members.drop_last()[j].0@ != key by {
            assert(members[j].0@ != key);
        }
        lemma_last_member(members.drop_last(), position, key);
    }
}

impl Json {
    /// A text document.
    pub fn text(text: &str) -> (json: Json)
        ensures
            json@ == JsonView::Text(text@),
    {
        Json::Text(text.to_owned())
    }

    /// An integer document.
    pub fn unsigned(value: u64) -> (json: Json)
        ensures
            json@ == unsigned_view(value),
    {
        Json::Number(number_from_u64(value))
    }

    pub fn signed(value: i64) -> (json: Json)
        ensures
            json@ == signed_view(value),
    {
        Json::Number(number_from_i64(value))
    }

    /// The empty object.
    pub fn object() -> (json: Json)
        ensures
            json@ == empty_object(),
    {
        let json = Json::Object(Vec::new());
        assert(members_view(Seq::<(String, Json)>::empty()) == Map::<Seq<char>, JsonView>::empty());
        json
    }

    /// An array of the given documents.
    pub fn array(items: Vec<Json>) -> (json: Json)
        ensures
            json@ == JsonView::Array(items_view(items@)),
    {
        Json::Array(items)
    }

    /// The object with one more member.
    pub fn with(self, key: &str, value: Json) -> (json: Json)
        ensures
            json@ == self@.with(key@, value@),
    {
        let mut json = self;
        json.set(key, value);
        json
    }

    /// Sets a member of an object. Leaves any other document as it is.
    pub fn set(&mut self, key: &str, value: Json)
        ensures
            final(self)@ == old(self)@.with(key@, value@),
    {
        if let Json::Object(members) = self {
            let member = (key.to_owned(), value);
            proof {
                lemma_members_view_push(members@, member);
            }
            members.push(member);
        }
    }

    /// Sets all members of another object in an object.
    pub fn extend(&mut self, other: &Json)
        ensures
            final(self)@ == old(self)@.merged(other@),
    {
        if let Json::Object(members) = self {
            if let Json::Object(more) = other {
                let ghost before = members_view(members@);
                assert(before.union_prefer_right(members_view(more@.take(0))) =~= before);
                for index in 0..more.len()
                    invariant
                        members_view(members@) == before.union_prefer_right(
                            members_view(more@.take(index as int)),
                        ),
                {
                    let member = (more[index].0.clone(), more[index].1.duplicate());
                    proof {
                        lemma_members_view_push(members@, member);
                        let earlier = members_view(more@.take(index as int));
                        assert(more@.take(index + 1).drop_last() =~= more@.take(index as int));
                        assert(before.union_prefer_right(earlier.insert(member.0@, member.1@))
                            =~= before.union_prefer_right(earlier).insert(member.0@, member.1@));
                    }
                    members.push(member);
                }
                assert(more@.take(more.len() as int) =~= more@);
            }
        }
    }

    /// Removes a member of an object. Leaves any other document as it is.
    pub fn remove(&mut self, key: &str)
        ensures
            final(self)@ == old(self)@.without(key@),
    {
        if let Json::Object(members) = self {
            let ghost before = members@;
            let total: usize = members.len();
            let mut rest: Vec<(String, Json)> = Vec::new();
            std::mem::swap(&mut rest, members);
            let mut kept: Vec<(String, Json)> = Vec::new();
            let mut index: usize = 0;
            assert(members_view(kept@) =~= members_view(before.take(0)).remove(key@));
            while rest.len() > 0
                invariant
                    index + rest.len() == before.len() == total,
                    rest@ =~= before.skip(index as int),
                    members_view(kept@) == members_view(before.take(index as int)).remove(key@),
                decreases rest.len(),
            {
                let member = rest.remove(0);
                proof {
                    let earlier = members_view(before.take(index as int)).remove(key@);
                    let later = members_view(before.take(index + 1)).remove(key@);
                    assert(member == before[index as int]);
                    assert(before.take(index + 1).drop_last() =~= before.take(index as int));
                    lemma_members_view_push(kept@, member);
                    assert(member.0@ == key@ ==> later =~= earlier);
                    assert(member.0@ != key@ ==> later =~= earlier.insert(member.0@, member.1@));
                }
                index = index + 1;
                if !same_text(member.0.as_str(), key) {
                    kept.push(member);
                }
            }
            assert(before.take(before.len() as int) =~= before);
            std::mem::swap(&mut kept, members);
        }
    }

    /// The member `key` of an object.
    pub fn get(&self, key: &str) -> (found: Option<&Json>)
        ensures
            json_of(found) == self@.get(key@),
    {
        match self {
            Json::Object(members) => {
                let mut index: usize = members.len();
                while index > 0
                    invariant
                        index <= members.len(),
                        *self == Json::Object(*members),
                        forall|j: int| index <= j < members.len() ==> #[trigger] members[j].0@ != key@,
                    decreases index,
                {
                    index = index - 1;
                    if same_text(members[index].0.as_str(), key) {
                        proof {
                            lemma_last_member(members@, index as int, key@);
                        }
                        return Some(&members[index].1);
                    }
                }
                proof {
                    lemma_last_member(members@, -1, key@);
                }
                None
            },
            _ => None,
        }
    }

    pub fn has(&self, key: &str) -> (found: bool)
        ensures
            found == self@.has(key@),
    {
        self.get(key).is_some()
    }

    pub fn as_str(&self) -> (text: Option<&str>)
        ensures
            text::text_of(text) == self@.as_text(),
    {
        match self {
            Json::Text(text) => Some(text.as_str()),
            _ => None,
        }
    }

    pub fn as_bool(&self) -> (value: Option<bool>)
        ensures
            value == self@.as_bool(),
    {
        match self {
            Json::Bool(value) => Some(*value),
            _ => None,
        }
    }

    pub fn as_u64(&self) -> (value: Option<u64>)
        ensures
            value == self@.as_u64(),
    {
        match self {
            Json::Number(number) => number_as_u64(number),
            _ => None,
        }
    }

    pub fn as_array(&self) -> (items: Option<&Vec<Json>>)
        ensures
            items is Some <==> self@ is Array,
            items matches Some(items) ==> self@ == JsonView::Array(items_view(items@)),
    {
        match self {
            Json::Array(items) => Some(items),
            _ => None,
        }
    }

    pub fn is_null(&self) -> (answer: bool)
        ensures
            answer == (self@ is Null),
    {
        matches!(self, Json::Null)
    }

    pub fn is_bool(&self) -> (answer: bool)
        ensures
            answer == (self@ is Bool),
    {
        matches!(self, Json::Bool(_))
    }

    pub fn is_text(&self) -> (answer: bool)
        ensures
            answer == (self@ is Text),
    {
        matches!(self, Json::Text(_))
    }

    pub fn is_array(&self) -> (answer: bool)
        ensures
            answer == (self@ is Array),
    {
        matches!(self, Json::Array(_))
    }

    pub fn is_object(&self) -> (answer: bool)
        ensures
            answer == (self@ is Object),
    {
        matches!(self, Json::Object(_))
    }

    /// The text member `key` of an object.
    pub fn text_at(&self, key: &str) -> (text: Option<&str>)
        ensures
            text::text_of(text) == self@.text_at(key@),
    {
        match self.get(key) {
            Some(value) => value.as_str(),
            None => None,
        }
    }

    pub fn bool_at(&self, key: &str) -> (value: Option<bool>)
        ensures
            value == self@.bool_at(key@),
    {
        match self.get(key) {
            Some(value) => value.as_bool(),
            None => None,
        }
    }

    pub fn u64_at(&self, key: &str) -> (value: Option<u64>)
        ensures
            value == self@.u64_at(key@),
    {
        match self.get(key) {
            Some(value) => value.as_u64(),
            None => None,
        }
    }

    pub fn array_at(&self, key: &str) -> (items: Option<&Vec<Json>>)
        ensures
            items is Some <==> self@.array_at(key@) is Some,
            items matches Some(items) ==> self@.array_at(key@) == Some(items_view(items@)),
    {
        match self.get(key) {
            Some(value) => value.as_array(),
            None => None,
        }
    }

    /// The member `inner` of the member `outer`.
    pub fn get_in(&self, outer: &str, inner: &str) -> (found: Option<&Json>)
        ensures
            json_of(found) == self@.get_in(outer@, inner@),
    {
        match self.get(outer) {
            Some(value) => value.get(inner),
            None => None,
        }
    }

    /// A copy of the document.
    pub fn duplicate(&self) -> (json: Json)
        ensures
            json@ == self@,
        decreases self,
    {
        match self {
            Json::Null => Json::Null,
            Json::Bool(value) => Json::Bool(*value),
            Json::Number(number) => Json::Number(clone_number(number)),
            Json::Text(text) => Json::Text(text.clone()),
            Json::Array(items) => {
                let mut copies: Vec<Json> = Vec::new();
                for index in 0..items.len()
                    invariant
                        *self == Json::Array(*items),
                        items_view(copies@) == items_view(items@.take(index as int)),
                    decreases items.len() - index,
                {
                    assert(decreases_to!(self => self->Array_0));
                    assert(decreases_to!(items@ => items@[index as int]));
                    let copy = items[index].duplicate();
                    proof {
                        lemma_items_view_push(copies@, copy);
                        assert(items@.take(index + 1).drop_last() =~= items@.take(index as int));
                    }
                    copies.push(copy);
                }
                assert(items@.take(items.len() as int) =~= items@);
                Json::Array(copies)
            },
            Json::Object(members) => {
                let mut copies: Vec<(String, Json)> = Vec::new();
                for index in 0..members.len()
                    invariant
                        *self == Json::Object(*members),
                        members_view(copies@) == members_view(members@.take(index as int)),
                    decreases members.len() - index,
                {
                    assert(decreases_to!(self => self->Object_0));
                    assert(decreases_to!(members@ => members@[index as int]));
                    assert(decreases_to!(members@[index as int] => members@[index as int].1));
                    let copy = (members[index].0.clone(), members[index].1.duplicate());
                    proof {
                        lemma_members_view_push(copies@, copy);
                        assert(members@.take(index + 1).drop_last() =~= members@.take(index as int));
                    }
                    copies.push(copy);
                }
                assert(members@.take(members.len() as int) =~= members@);
                Json::Object(copies)
            },
        }
    }
}

/// The documents that a list of `serde_json` values holds.
pub open spec fn value_items_view(values: Seq<serde_json::Value>) -> Seq<JsonView> {
    values.map_values(|value: serde_json::Value| value_view(value))
}

/// The members that a list of named `serde_json` values holds.
pub open spec fn value_members_view(values: Seq<(String, serde_json::Value)>) -> Map<
    Seq<char>,
    JsonView,
>
    decreases values.len(),
{
    if values.len() == 0 {
        Map::empty()
    } else {
        value_members_view(values.drop_last()).insert(
            values.last().0@,
            value_view(values.last().1),
        )
    }
}

/// One level of a `serde_json::Value`.
pub enum ValueParts {
    Null,
    Bool(bool),
    Number(serde_json::Number),
    Text(String),
    Array(Vec<serde_json::Value>),
    Object(Vec<(String, serde_json::Value)>),
}

impl ValueParts {
    /// The document that the level and the values below it make up.
    pub open spec fn document(self) -> JsonView {
        match self {
            ValueParts::Null => JsonView::Null,
            ValueParts::Bool(value) => JsonView::Bool(value),
            ValueParts::Number(number) => JsonView::Number(number_view(number)),
            ValueParts::Text(text) => JsonView::Text(text@),
            ValueParts::Array(values) => JsonView::Array(value_items_view(values@)),
            ValueParts::Object(values) => JsonView::Object(value_members_view(values@)),
        }
    }
}

/// Whether no key occurs twice in a list of members.
pub open spec fn has_distinct_keys(values: Seq<(String, serde_json::Value)>) -> bool {
    forall|i: int, j: int|
        0 <= i < j < values.len() ==> #[trigger] values[i].0@ != #[trigger] values[j].0@
}

/// The member at `position` is among the members of the whole list.
proof fn lemma_value_member(values: Seq<(String, serde_json::Value)>, position: int)
    requires
        0 <= position < values.len(),
        has_distinct_keys(values),
    ensures
        value_members_view(values).contains_key(values[position].0@),
        value_members_view(values)[values[position].0@] == value_view(values[position].1),
    decreases values.len(),
{
    let last = values.len() - 1;
    if position < last {
        assert(values[position].0@ != values[last].0@);
        assert forall|i: int, j: int| 0 <= i < j < values.drop_last().len() implies
            #[trigger] values.drop_last()[i].0@ != #[trigger] values.drop_last()[j].0@ by {
            assert(values[i].0@ != values[j].0@);
        }
        lemma_value_member(values.drop_last(), position);
    }
}

proof fn lemma_value_members_finite(values: Seq<(String, serde_json::Value)>)
    ensures
        value_members_view(values).dom().finite(),
    decreases values.len(),
{
    if values.len() > 0 {
        lemma_value_members_finite(values.drop_last());
    }
}

/// The library's copy of a `serde_json` value.
fn from_value(value: serde_json::Value) -> (json: Json)
    ensures
        json@ == value_view(value),
    decreases value_view(value),
{
    let ghost document = value_view(value);
    match take_apart(value) {
        ValueParts::Null => Json::Null,
        ValueParts::Bool(value) => Json::Bool(value),
        ValueParts::Number(number) => Json::Number(number),
        ValueParts::Text(text) => Json::Text(text),
        ValueParts::Array(values) => {
            let ghost before = values@;
            let mut items: Vec<Json> = Vec::new();
            let mut rest = values;
            reverse_values(&mut rest);
            while rest.len() > 0
                invariant
                    document == value_view(value),
                    document == JsonView::Array(value_items_view(before)),
                    items.len() + rest.len() == before.len(),
                    rest@ =~= before.skip(items.len() as int).reverse(),
                    items_view(items@) =~= value_items_view(before.take(items.len() as int)),
                decreases rest.len(),
            {
                let ghost index = items.len() as int;
                let next = rest.pop().unwrap();
                proof {
                    assert(next == before[index]);
                    assert(value_items_view(before)[index] == value_view(next));
                    assert(decreases_to!(document => document->Array_0));
                    assert(decreases_to!(document->Array_0 => document->Array_0[index]));
                }
                let item = from_value(next);
                proof {
                    lemma_items_view_push(items@, item);
                }
                items.push(item);
            }
            assert(before.take(before.len() as int) =~= before);
            Json::Array(items)
        },
        ValueParts::Object(values) => {
            let ghost before = values@;
            let mut members: Vec<(String, Json)> = Vec::new();
            let mut rest = values;
            reverse_values(&mut rest);
            proof {
                lemma_value_members_finite(before);
            }
            while rest.len() > 0
                invariant
                    document == value_view(value),
                    document == JsonView::Object(value_members_view(before)),
                    value_members_view(before).dom().finite(),
                    has_distinct_keys(before),
                    members.len() + rest.len() == before.len(),
                    rest@ =~= before.skip(members.len() as int).reverse(),
                    members_view(members@) == value_members_view(
                        before.take(members.len() as int),
                    ),
                decreases rest.len(),
            {
                let ghost index = members.len() as int;
                let (key, next) = rest.pop().unwrap();
                proof {
                    assert((key, next) == before[index]);
                    lemma_value_member(before, index);
                    assert(decreases_to!(document => document->Object_0));
                    assert(decreases_to!(document->Object_0 => document->Object_0[key@]));
                }
                let member = (key, from_value(next));
                proof {
                    lemma_members_view_push(members@, member);
                    assert(before.take(index + 1).drop_last() =~= before.take(index));
                }
                members.push(member);
            }
            assert(before.take(before.len() as int) =~= before);
            Json::Object(members)
        },
    }
}

/// Puts a list in reverse order.
fn reverse_values<T>(values: &mut Vec<T>)
    ensures
        final(values)@ == old(values)@.reverse(),
{
    let ghost before = values@;
    let mut reversed: Vec<T> = Vec::new();
    while values.len() > 0
        invariant
            reversed.len() + values.len() == before.len(),
            values@ =~= before.take(values.len() as int),
            reversed@ =~= before.skip(values.len() as int).reverse(),
        decreases values.len(),
    {
        let next = values.pop().unwrap();
        reversed.push(next);
    }
    assert(reversed@ =~= before.reverse());
    std::mem::swap(values, &mut reversed);
}

/// Replacing the value of a member sets the value of its key.
proof fn lemma_replaced_member(
    values: Seq<(String, serde_json::Value)>,
    position: int,
    member: (String, serde_json::Value),
)
    requires
        0 <= position < values.len(),
        values[position].0@ == member.0@,
        has_distinct_keys(values),
    ensures
        value_members_view(values.update(position, member)) == value_members_view(values).insert(
            member.0@,
            value_view(member.1),
        ),
    decreases values.len(),
{
    let last = values.len() - 1;
    let shorter = values.drop_last();
    let replaced = values.update(position, member);
    if position < last {
        assert(values[position].0@ != values[last].0@);
        assert(replaced.drop_last() =~= shorter.update(position, member));
        assert forall|i: int, j: int| 0 <= i < j < shorter.len() implies #[trigger] shorter[i].0@
            != #[trigger] shorter[j].0@ by {
            assert(values[i].0@ != values[j].0@);
        }
        lemma_replaced_member(shorter, position, member);
    } else {
        assert(replaced.drop_last() =~= shorter);
    }
    assert(value_members_view(replaced) =~= value_members_view(values).insert(
        member.0@,
        value_view(member.1),
    ));
}

/// Sets a member of a list of members in which no key occurs twice.
fn put_member(values: &mut Vec<(String, serde_json::Value)>, key: String, value: serde_json::Value)
    requires
        has_distinct_keys(old(values)@),
    ensures
        has_distinct_keys(final(values)@),
        value_members_view(final(values)@) == value_members_view(old(values)@).insert(
            key@,
            value_view(value),
        ),
{
    let ghost before = values@;
    let mut index: usize = 0;
    while index < values.len()
        invariant
            before == old(values)@,
            values@ == before,
            has_distinct_keys(before),
            index <= values.len(),
            forall|j: int| 0 <= j < index ==> #[trigger] before[j].0@ != key@,
        decreases values.len() - index,
    {
        if same_text(values[index].0.as_str(), key.as_str()) {
            let member = (key, value);
            proof {
                lemma_replaced_member(before, index as int, member);
                assert forall|i: int, j: int| 0 <= i < j < before.len() implies
                    #[trigger] before.update(index as int, member)[i].0@
                    != #[trigger] before.update(index as int, member)[j].0@ by {
                    assert(before[i].0@ != before[j].0@);
                }
            }
            values.set(index, member);
            return ;
        }
        index = index + 1;
    }
    let member = (key, value);
    assert(before.push(member).drop_last() =~= before);
    values.push(member);
}

impl Json {
    /// The document as a `serde_json` value.
    fn to_value(&self) -> (value: serde_json::Value)
        ensures
            value_view(value) == self@,
        decreases self,
    {
        match self {
            Json::Null => put_together(ValueParts::Null),
            Json::Bool(value) => put_together(ValueParts::Bool(*value)),
            Json::Number(number) => put_together(ValueParts::Number(clone_number(number))),
            Json::Text(text) => put_together(ValueParts::Text(text.clone())),
            Json::Array(items) => {
                let mut values: Vec<serde_json::Value> = Vec::new();
                for index in 0..items.len()
                    invariant
                        *self == Json::Array(*items),
                        value_items_view(values@) =~= items_view(items@.take(index as int)),
                    decreases items.len() - index,
                {
                    assert(decreases_to!(self => self->Array_0));
                    assert(decreases_to!(items@ => items@[index as int]));
                    let value = items[index].to_value();
                    assert(items@.take(index + 1).drop_last() =~= items@.take(index as int));
                    values.push(value);
                }
                assert(items@.take(items.len() as int) =~= items@);
                put_together(ValueParts::Array(values))
            },
            Json::Object(members) => {
                let mut values: Vec<(String, serde_json::Value)> = Vec::new();
                for index in 0..members.len()
                    invariant
                        *self == Json::Object(*members),
                        has_distinct_keys(values@),
                        value_members_view(values@) == members_view(members@.take(index as int)),
                    decreases members.len() - index,
                {
                    assert(decreases_to!(self => self->Object_0));
                    assert(decreases_to!(members@ => members@[index as int]));
                    assert(decreases_to!(members@[index as int] => members@[index as int].1));
                    let value = members[index].1.to_value();
                    assert(members@.take(index + 1).drop_last() =~= members@.take(index as int));
                    put_member(&mut values, members[index].0.clone(), value);
                }
                assert(members@.take(members.len() as int) =~= members@);
                put_together(ValueParts::Object(values))
            },
        }
    }

    /// Parses JSON text. Text that is not JSON gives nothing.
    pub fn parse(source: &str) -> (json: Option<Json>)
        ensures
            match json {
                Some(json) => parsed_text(source@) == Some(json@),
                None => parsed_text(source@) is None,
            },
    {
        match value_from_str(source) {
            Some(value) => Some(from_value(value)),
            None => None,
        }
    }

    /// Parses JSON bytes. Bytes that are not JSON give nothing.
    pub fn parse_bytes(source: &[u8]) -> (json: Option<Json>)
        ensures
            match json {
                Some(json) => parsed_bytes(source@) == Some(json@),
                None => parsed_bytes(source@) is None,
            },
    {
        match value_from_slice(source) {
            Ok(value) => Some(from_value(value)),
            Err(_) => None,
        }
    }

    /// Reads JSON bytes, or says what is wrong with them.
    pub fn read(source: &[u8]) -> (outcome: Result<Json, String>)
        ensures
            match outcome {
                Ok(json) => read_bytes(source@) == Ok::<JsonView, Seq<char>>(json@),
                Err(message) => read_bytes(source@) == Err::<JsonView, Seq<char>>(message@),
            },
    {
        match value_from_slice(source) {
            Ok(value) => Ok(from_value(value)),
            Err(message) => Err(message),
        }
    }

    /// The document as compact JSON text.
    pub fn render(&self) -> (rendered: Option<String>)
        ensures
            text::string_of(rendered) == compact_text(self@),
    {
        value_to_string(&self.to_value())
    }

    /// The document as indented JSON text. An object that holds nothing but
    /// texts and nulls under plain keys is read back as it was, also with a
    /// line end after it.
    pub fn render_pretty(&self) -> (rendered: Option<String>)
        ensures
            text::string_of(rendered) == pretty_text(self@),
            is_flat(self@) ==> (rendered matches Some(rendered) && is_line_of(rendered@, self@)),
    {
        value_to_string_pretty(&self.to_value())
    }

    /// Whether the document is a JSON Schema that its own meta-schema accepts.
    pub fn is_valid_schema(&self) -> (valid: bool)
        ensures
            valid == is_schema(self@),
    {
        schema_is_valid(&self.to_value())
    }

    /// Whether the schema accepts `instance`; nothing where the document
    /// cannot be compiled as a schema.
    pub fn schema_accepts(&self, instance: &Json) -> (accepted: Option<bool>)
        ensures
            accepted == schema_verdict(self@, instance@),
    {
        schema_check(&self.to_value(), &instance.to_value())
    }
}

/// What a `serde_json::Number` says.
pub uninterp spec fn number_view(number: serde_json::Number) -> NumberView;

/// What a `serde_json::Value` holds.
pub uninterp spec fn value_view(value: serde_json::Value) -> JsonView;

/// The document that `serde_json::from_str` reads out of a text.
pub uninterp spec fn parsed_text(source: Seq<char>) -> Option<JsonView>;

/// The document that `serde_json::from_slice` reads out of bytes, or its error
/// in words.
pub uninterp spec fn read_bytes(source: Seq<u8>) -> Result<JsonView, Seq<char>>;

/// The document that bytes hold, where they are JSON.
pub open spec fn parsed_bytes(source: Seq<u8>) -> Option<JsonView> {
    match read_bytes(source) {
        Ok(document) => Some(document),
        Err(_) => None,
    }
}

/// The text that `serde_json::to_string` writes for a document.
pub uninterp spec fn compact_text(document: JsonView) -> Option<Seq<char>>;

/// The text that `serde_json::to_string_pretty` writes for a document.
pub uninterp spec fn pretty_text(document: JsonView) -> Option<Seq<char>>;

/// Whether `jsonschema::meta::validate` accepts a document.
pub uninterp spec fn is_schema(document: JsonView) -> bool;

/// What `jsonschema::validator_for` and `Validator::is_valid` say of an
/// instance; nothing where the schema does not compile.
pub uninterp spec fn schema_verdict(schema: JsonView, instance: JsonView) -> Option<bool>;

#[verifier::external_type_specification]
#[verifier::external_body]
pub struct ExNumber(serde_json::Number);

#[verifier::external_type_specification]
#[verifier::external_body]
pub struct ExValue(serde_json::Value);

/// `serde_json::Number::from` of a `u64` holds that integer.
#[verifier::external_body]
fn number_from_u64(value: u64) -> (number: serde_json::Number)
    ensures
        number_view(number) == NumberView::Unsigned(value),
{
    serde_json::Number::from(value)
}

/// `serde_json::Number::from` of an `i64` holds that integer.
#[verifier::external_body]
fn number_from_i64(value: i64) -> (number: serde_json::Number)
    ensures
        JsonView::Number(number_view(number)) == signed_view(value),
{
    serde_json::Number::from(value)
}

/// `serde_json::Number::as_u64` gives the number where it is a non-negative
/// integer, and nothing for any other number.
#[verifier::external_body]
fn number_as_u64(number: &serde_json::Number) -> (value: Option<u64>)
    ensures
        value == JsonView::Number(number_view(*number)).as_u64(),
{
    number.as_u64()
}

/// `serde_json::Number::clone` says what the original says.
#[verifier::external_body]
fn clone_number(number: &serde_json::Number) -> (copy: serde_json::Number)
    ensures
        number_view(copy) == number_view(*number),
{
    number.clone()
}

/// Takes one level of a `serde_json::Value` apart, variant by variant. A
/// `serde_json::Map` hands out each of its keys once.
#[verifier::external_body]
fn take_apart(value: serde_json::Value) -> (parts: ValueParts)
    ensures
        parts.document() == value_view(value),
        parts matches ValueParts::Object(values) ==> has_distinct_keys(values@),
{
    match value {
        serde_json::Value::Null => ValueParts::Null,
        serde_json::Value::Bool(value) => ValueParts::Bool(value),
        serde_json::Value::Number(number) => ValueParts::Number(number),
        serde_json::Value::String(text) => ValueParts::Text(text),
        serde_json::Value::Array(values) => ValueParts::Array(values),
        serde_json::Value::Object(map) => ValueParts::Object(map.into_iter().collect()),
    }
}

/// Builds a `serde_json::Value` out of one level, variant by variant. A
/// `serde_json::Map` is collected out of members with distinct keys, and holds
/// each of them.
#[verifier::external_body]
fn put_together(parts: ValueParts) -> (value: serde_json::Value)
    requires
        parts matches ValueParts::Object(values) ==> has_distinct_keys(values@),
    ensures
        value_view(value) == parts.document(),
{
    match parts {
        ValueParts::Null => serde_json::Value::Null,
        ValueParts::Bool(value) => serde_json::Value::Bool(value),
        ValueParts::Number(number) => serde_json::Value::Number(number),
        ValueParts::Text(text) => serde_json::Value::String(text),
        ValueParts::Array(values) => serde_json::Value::Array(values),
        ValueParts::Object(values) => serde_json::Value::Object(values.into_iter().collect()),
    }
}

/// `serde_json::from_str` into a `serde_json::Value`; a parse error gives
/// nothing.
#[verifier::external_body]
fn value_from_str(source: &str) -> (value: Option<serde_json::Value>)
    ensures
        match value {
            Some(value) => parsed_text(source@) == Some(value_view(value)),
            None => parsed_text(source@) is None,
        },
{
    serde_json::from_str(source).ok()
}

/// What a value is, or the error.
spec fn read_result(value: Result<serde_json::Value, String>) -> Result<JsonView, Seq<char>> {
    match value {
        Ok(value) => Ok(value_view(value)),
        Err(message) => Err(message@),
    }
}

/// `serde_json::from_slice` into a `serde_json::Value`. The outcome is a
/// function of the bytes. The error comes in the words of its `Display`.
#[verifier::external_body]
fn value_from_slice(source: &[u8]) -> (value: Result<serde_json::Value, String>)
    ensures
        read_result(value) == read_bytes(source@),
{
    serde_json::from_slice(source).map_err(|error| error.to_string())
}

/// `serde_json::to_string` of a `serde_json::Value`; an error gives nothing.
#[verifier::external_body]
fn value_to_string(value: &serde_json::Value) -> (rendered: Option<String>)
    ensures
        text::string_of(rendered) == compact_text(value_view(*value)),
{
    serde_json::to_string(value).ok()
}

/// Whether a key does not begin with a dollar sign. `serde_json` keeps some of
/// the keys that do for itself, and reads what stands under them in a way of
/// its own.
pub open spec fn is_plain_key(key: Seq<char>) -> bool {
    key.len() == 0 || key[0] != '$'
}

/// Whether a document is an object that holds nothing but texts and nulls,
/// under plain keys.
pub open spec fn is_flat(document: JsonView) -> bool {
    &&& document matches JsonView::Object(members)
    &&& forall|key: Seq<char>| #[trigger]
        members.contains_key(key) ==> is_plain_key(key) && (members[key] is Text || members[key] is Null)
}

/// Whether a text, with a line end after it, is read as a document.
pub open spec fn is_line_of(rendered: Seq<char>, document: JsonView) -> bool {
    read_bytes(text::bytes_of_text(rendered + "\n"@)) == Ok::<JsonView, Seq<char>>(document)
}

/// `serde_json::to_string_pretty` of a `serde_json::Value`; an error gives
/// nothing. An object of strings and nulls, none of whose keys begins with a
/// dollar sign, can be written, and `serde_json::from_slice` reads it back:
/// strings are escaped and unescaped, and white space after the document is
/// passed over. Nothing is said of other documents: a fraction may be read
/// back as its neighbour, a document may be nested too deeply to be read, and
/// an object whose first key is one that the crate keeps for raw values is
/// read as the document that its text holds.
#[verifier::external_body]
fn value_to_string_pretty(value: &serde_json::Value) -> (rendered: Option<String>)
    ensures
        text::string_of(rendered) == pretty_text(value_view(*value)),
        is_flat(value_view(*value)) ==> (rendered matches Some(rendered) && is_line_of(
            rendered@,
            value_view(*value),
        )),
{
    serde_json::to_string_pretty(value).ok()
}

/// `jsonschema::meta::validate` of a schema against the bundled meta-schema
/// that it declares. A meta-schema that is not bundled counts as an error.
#[verifier::external_body]
fn schema_is_valid(schema: &serde_json::Value) -> (valid: bool)
    ensures
        valid == is_schema(value_view(*schema)),
{
    jsonschema::meta::validate(schema).is_ok()
}

/// `jsonschema::validator_for` compiles the schema, and `Validator::is_valid`
/// checks the instance. A schema that does not compile gives nothing.
#[verifier::external_body]
fn schema_check(schema: &serde_json::Value, instance: &serde_json::Value) -> (accepted: Option<bool>)
    ensures
        accepted == schema_verdict(value_view(*schema), value_view(*instance)),
{
    match jsonschema::validator_for(schema) {
        Ok(validator) => Some(validator.is_valid(instance)),
        Err(_) => None,
    }
}

} // verus!
