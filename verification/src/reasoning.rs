//! The reasoning that a provider returned with earlier answers, kept so that
//! the next request of the same conversation can carry it back.

use crate::text;
use crate::text::same_text;
use vstd::prelude::*;

verus! {

/// The most identifiers that a store remembers.
pub const MAX_REASONING_ENTRIES: usize = 2048;

/// The most characters that a store keeps of one reasoning text.
pub const MAX_REASONING_CHARS: usize = 262144;

/// One remembered identifier. An identifier that two different reasoning
/// texts claim is ambiguous and has no text.
pub struct ReasoningEntry {
    pub id: String,
    pub content: Option<String>,
}

/// A bounded map from item and call identifiers to reasoning text. The
/// entries stand in the order in which their identifiers were first seen.
pub struct ReasoningStore {
    entries: Vec<ReasoningEntry>,
}

/// The mathematical content of an entry.
pub struct EntryView {
    pub id: Seq<char>,
    pub content: Option<Seq<char>>,
}

impl View for ReasoningEntry {
    type V = EntryView;

    open spec fn view(&self) -> EntryView {
        EntryView { id: self.id@, content: text::string_of(self.content) }
    }
}

/// The position of an identifier among the entries; the number of entries
/// where it is not among them.
pub open spec fn entry_position(entries: Seq<EntryView>, id: Seq<char>) -> int
    decreases entries.len(),
{
    if entries.len() == 0 || entries[0].id == id {
        0
    } else {
        1 + entry_position(entries.drop_first(), id)
    }
}

/// The text that the entries remember for an identifier.
pub open spec fn recalled(entries: Seq<EntryView>, id: Seq<char>) -> Option<Seq<char>> {
    let position = entry_position(entries, id);
    if position < entries.len() {
        entries[position].content
    } else {
        None
    }
}

/// The entries once `content` is stored for `id`. A new identifier takes the
/// place of the oldest one where the store is full.
pub open spec fn remembered(
    entries: Seq<EntryView>,
    id: Seq<char>,
    content: Option<Seq<char>>,
) -> Seq<EntryView> {
    let position = entry_position(entries, id);
    let entry = EntryView { id, content };
    if position < entries.len() {
        entries.update(position, entry)
    } else if entries.len() >= MAX_REASONING_ENTRIES {
        entries.drop_first().push(entry)
    } else {
        entries.push(entry)
    }
}

/// The text that an identifier stands for once a call claims it with
/// `content`: a second, different text makes it ambiguous for good.
pub open spec fn claimed(
    entries: Seq<EntryView>,
    id: Seq<char>,
    content: Seq<char>,
) -> Option<Seq<char>> {
    let position = entry_position(entries, id);
    if position >= entries.len() || entries[position].content == Some(content) {
        Some(content)
    } else {
        None
    }
}

/// What a store keeps of a reasoning text.
pub open spec fn bounded(content: Seq<char>) -> Seq<char> {
    if content.len() <= MAX_REASONING_CHARS {
        content
    } else {
        content.take(MAX_REASONING_CHARS as int)
    }
}

proof fn lemma_entry_position(entries: Seq<EntryView>, id: Seq<char>)
    ensures
        0 <= entry_position(entries, id) <= entries.len(),
        entry_position(entries, id) < entries.len() ==> entries[entry_position(entries, id)].id
            == id,
        forall|i: int|
            0 <= i < entry_position(entries, id) ==> #[trigger] entries[i].id != id,
    decreases entries.len(),
{
    if entries.len() > 0 && entries[0].id != id {
        let rest = entries.drop_first();
        lemma_entry_position(rest, id);
        assert forall|i: int| 0 <= i < entry_position(entries, id) implies #[trigger] entries[i].id
            != id by {
            if i > 0 {
                assert(rest[i - 1].id != id);
            }
        }
    }
}

proof fn lemma_entry_position_unique(entries: Seq<EntryView>, id: Seq<char>, position: int)
    requires
        0 <= position <= entries.len(),
        position < entries.len() ==> entries[position].id == id,
        forall|i: int| 0 <= i < position ==> #[trigger] entries[i].id != id,
    ensures
        entry_position(entries, id) == position,
{
    lemma_entry_position(entries, id);
    let found = entry_position(entries, id);
    if found < position {
        assert(entries[found].id != id);
    }
    if position < found {
        assert(entries[position].id != id);
    }
}

impl View for ReasoningStore {
    type V = Seq<EntryView>;

    closed spec fn view(&self) -> Seq<EntryView> {
        self.entries@.map_values(|entry: ReasoningEntry| entry@)
    }
}

impl ReasoningStore {
    /// The store holds no more identifiers than it may, each of them once.
    pub open spec fn wf(self) -> bool {
        &&& self@.len() <= MAX_REASONING_ENTRIES
        &&& distinct(self@)
    }

    /// The text remembered for an identifier.
    pub open spec fn recalls(self, id: Seq<char>) -> Option<Seq<char>> {
        recalled(self@, id)
    }
}

/// No identifier occurs twice.
pub open spec fn distinct(entries: Seq<EntryView>) -> bool {
    forall|i: int, j: int|
        0 <= i < j < entries.len() ==> #[trigger] entries[i].id != #[trigger] entries[j].id
}

impl Default for ReasoningStore {
    /// An empty store.
    fn default() -> (store: Self)
        ensures
            store@ == Seq::<EntryView>::empty(),
            store.wf(),
    {
        let store = ReasoningStore { entries: Vec::new() };
        assert(store@ =~= Seq::<EntryView>::empty());
        store
    }
}

impl ReasoningStore {
    fn position(&self, id: &str) -> (position: usize)
        ensures
            position == entry_position(self@, id@),
            position <= self.entries.len(),
    {
        let mut index: usize = 0;
        while index < self.entries.len()
            invariant
                index <= self.entries.len(),
                forall|i: int| 0 <= i < index ==> #[trigger] self@[i].id != id@,
            decreases self.entries.len() - index,
        {
            if same_text(self.entries[index].id.as_str(), id) {
                proof {
                    lemma_entry_position_unique(self@, id@, index as int);
                }
                return index;
            }
            index = index + 1;
        }
        proof {
            lemma_entry_position_unique(self@, id@, index as int);
        }
        index
    }

    /// The text remembered for an identifier; nothing for an ambiguous one.
    pub fn get(&self, id: &str) -> (content: Option<&str>)
        ensures
            text::text_of(content) == self.recalls(id@),
    {
        let position: usize = self.position(id);
        if position < self.entries.len() {
            match &self.entries[position].content {
                Some(content) => Some(content.as_str()),
                None => None,
            }
        } else {
            None
        }
    }

    fn put(&mut self, id: &str, content: Option<String>)
        requires
            old(self).wf(),
        ensures
            final(self)@ == remembered(old(self)@, id@, text::string_of(content)),
            final(self).wf(),
    {
        let ghost before = self@;
        let position: usize = self.position(id);
        proof {
            lemma_entry_position(before, id@);
        }
        let entry = ReasoningEntry { id: id.to_owned(), content };
        if position < self.entries.len() {
            self.entries.set(position, entry);
            assert(self@ =~= before.update(position as int, entry@));
        } else {
            if self.entries.len() >= MAX_REASONING_ENTRIES {
                self.entries.remove(0);
                assert(self@ =~= before.drop_first());
            }
            self.entries.push(entry);
            assert(self@ =~= remembered(before, id@, text::string_of(content)));
        }
        assert(distinct(self@)) by {
            assert forall|i: int, j: int| 0 <= i < j < self@.len() implies #[trigger] self@[i].id
                != #[trigger] self@[j].id by {
                let shift: int = if position < before.len() || before.len()
                    < MAX_REASONING_ENTRIES {
                    0
                } else {
                    1
                };
                if i + shift < before.len() && j + shift < before.len() {
                    assert(before[i + shift].id != before[j + shift].id);
                } else {
                    assert(before[i + shift].id != id@);
                }
            }
        }
    }

    /// Remembers a text for an identifier, whatever stood there before.
    pub fn insert_shared(&mut self, id: &str, content: &str)
        requires
            old(self).wf(),
        ensures
            final(self)@ == remembered(old(self)@, id@, Some(content@)),
            final(self).wf(),
    {
        self.put(id, Some(content.to_owned()));
    }

    /// Remembers as much of a text as the store keeps.
    pub fn insert(&mut self, id: &str, content: &str)
        requires
            old(self).wf(),
        ensures
            final(self)@ == remembered(old(self)@, id@, Some(bounded(content@))),
            final(self).wf(),
    {
        let content = ReasoningStore::bounded_content(content);
        self.insert_shared(id, content.as_str());
    }

    /// Remembers a text for a call identifier, which a provider chose. Where
    /// another text already claims it, the identifier becomes ambiguous.
    pub fn insert_call_alias(&mut self, call_id: &str, content: &str)
        requires
            old(self).wf(),
        ensures
            final(self)@ == remembered(
                old(self)@,
                call_id@,
                claimed(old(self)@, call_id@, content@),
            ),
            final(self).wf(),
    {
        let position: usize = self.position(call_id);
        let known = position < self.entries.len();
        let same = match self.get(call_id) {
            Some(existing) => same_text(existing, content),
            None => false,
        };
        if !known || same {
            self.put(call_id, Some(content.to_owned()));
        } else {
            self.put(call_id, None);
        }
    }

    /// What a store keeps of a reasoning text.
    pub fn bounded_content(content: &str) -> (kept: String)
        ensures
            kept@ == bounded(content@),
    {
        let chars = text::chars_of(content);
        if chars.len() <= MAX_REASONING_CHARS {
            content.to_owned()
        } else {
            let kept = text::string_from(&chars, 0, MAX_REASONING_CHARS);
            assert(kept@ =~= content@.take(MAX_REASONING_CHARS as int));
            kept
        }
    }

    /// The part of the store that concerns the given identifiers.
    pub fn subset(&self, ids: &Vec<String>) -> (part: ReasoningStore)
        requires
            self.wf(),
        ensures
            part.wf(),
            forall|id: Seq<char>| #[trigger]
                part.recalls(id) == if text::texts(ids@).contains(id) {
                    self.recalls(id)
                } else {
                    None
                },
    {
        let mut part = ReasoningStore { entries: Vec::new() };
        let mut index: usize = 0;
        assert(self@.take(0) =~= Seq::<EntryView>::empty());
        assert(part@ =~= Seq::<EntryView>::empty());
        while index < self.entries.len()
            invariant
                self.wf(),
                index <= self.entries.len(),
                self@.len() == self.entries.len(),
                part@ == kept_entries(self@.take(index as int), text::texts(ids@)),
            decreases self.entries.len() - index,
        {
            let wanted = is_among(self.entries[index].id.as_str(), ids);
            let ghost before = part@;
            if wanted {
                let entry = ReasoningEntry {
                    id: self.entries[index].id.clone(),
                    content: match &self.entries[index].content {
                        Some(content) => Some(content.clone()),
                        None => None,
                    },
                };
                part.entries.push(entry);
                assert(part@ =~= before.push(self@[index as int]));
            }
            assert(self@.take(index + 1).drop_last() =~= self@.take(index as int));
            index = index + 1;
        }
        assert(self@.take(index as int) =~= self@);
        proof {
            lemma_kept_entries(self@, text::texts(ids@));
        }
        part
    }
}

/// The entries whose identifiers are wanted.
pub open spec fn kept_entries(entries: Seq<EntryView>, ids: Seq<Seq<char>>) -> Seq<EntryView>
    decreases entries.len(),
{
    if entries.len() == 0 {
        Seq::empty()
    } else if ids.contains(entries.last().id) {
        kept_entries(entries.drop_last(), ids).push(entries.last())
    } else {
        kept_entries(entries.drop_last(), ids)
    }
}

/// In a store without repetition, the position of an entry decides what is
/// recalled for its identifier.
proof fn lemma_recalled(entries: Seq<EntryView>, position: int)
    requires
        distinct(entries),
        0 <= position < entries.len(),
    ensures
        recalled(entries, entries[position].id) == entries[position].content,
{
    lemma_entry_position_unique(entries, entries[position].id, position);
}

proof fn lemma_recalled_absent(entries: Seq<EntryView>, id: Seq<char>)
    requires
        forall|i: int| 0 <= i < entries.len() ==> #[trigger] entries[i].id != id,
    ensures
        recalled(entries, id) is None,
{
    lemma_entry_position_unique(entries, id, entries.len() as int);
}

proof fn lemma_kept_entries(entries: Seq<EntryView>, ids: Seq<Seq<char>>)
    requires
        distinct(entries),
    ensures
        kept_entries(entries, ids).len() <= entries.len(),
        distinct(kept_entries(entries, ids)),
        forall|i: int|
            0 <= i < kept_entries(entries, ids).len() ==> entries.contains(
                #[trigger] kept_entries(entries, ids)[i],
            ) && ids.contains(kept_entries(entries, ids)[i].id),
        forall|id: Seq<char>| #[trigger]
            recalled(kept_entries(entries, ids), id) == if ids.contains(id) {
                recalled(entries, id)
            } else {
                None
            },
    decreases entries.len(),
{
    let kept = kept_entries(entries, ids);
    if entries.len() > 0 {
        let rest = entries.drop_last();
        let last = entries.last();
        assert forall|i: int, j: int| 0 <= i < j < rest.len() implies #[trigger] rest[i].id
            != #[trigger] rest[j].id by {
            assert(entries[i].id != entries[j].id);
        }
        lemma_kept_entries(rest, ids);
        let earlier = kept_entries(rest, ids);
        assert forall|i: int| 0 <= i < earlier.len() implies #[trigger] earlier[i].id
            != last.id by {
            let k = choose|k: int| 0 <= k < rest.len() && rest[k] == earlier[i];
            assert(entries[k].id != entries[entries.len() - 1].id);
        }
        assert forall|i: int| 0 <= i < kept.len() implies entries.contains(#[trigger] kept[i])
            && ids.contains(kept[i].id) by {
            if i < earlier.len() {
                assert(earlier[i] == kept[i]);
                let k = choose|k: int| 0 <= k < rest.len() && rest[k] == earlier[i];
                assert(entries[k] == kept[i]);
            } else {
                assert(entries[entries.len() - 1] == kept[i]);
            }
        }
        assert forall|i: int, j: int| 0 <= i < j < kept.len() implies #[trigger] kept[i].id
            != #[trigger] kept[j].id by {
            assert(earlier[i] == kept[i]);
        }
        assert forall|id: Seq<char>| #[trigger]
            recalled(kept, id) == if ids.contains(id) {
                recalled(entries, id)
            } else {
                None
            } by {
            assert(recalled(earlier, id) == if ids.contains(id) {
                recalled(rest, id)
            } else {
                None
            });
            lemma_recalled_push(rest, last, id);
            assert(rest.push(last) =~= entries);
            lemma_recalled_push(earlier, last, id);
            if id == last.id {
                assert forall|i: int| 0 <= i < rest.len() implies #[trigger] rest[i].id != id by {
                    assert(entries[i].id != entries[entries.len() - 1].id);
                }
            }
        }
    } else {
        assert forall|id: Seq<char>| #[trigger]
            recalled(kept, id) == if ids.contains(id) {
                recalled(entries, id)
            } else {
                None
            } by {}
    }
}

/// One more entry changes what is recalled for its own identifier alone.
proof fn lemma_recalled_push(entries: Seq<EntryView>, entry: EntryView, id: Seq<char>)
    requires
        forall|i: int| 0 <= i < entries.len() ==> #[trigger] entries[i].id != entry.id,
    ensures
        recalled(entries.push(entry), id) == if id == entry.id {
            entry.content
        } else {
            recalled(entries, id)
        },
{
    lemma_entry_position(entries, id);
    let longer = entries.push(entry);
    let position = entry_position(entries, id);
    assert forall|i: int| 0 <= i < position implies #[trigger] longer[i].id != id by {
        assert(entries[i].id != id);
    }
    if position < entries.len() {
        assert(entries[position].id != entry.id);
        lemma_entry_position_unique(longer, id, position);
    } else if id == entry.id {
        lemma_entry_position_unique(longer, id, position);
    } else {
        assert forall|i: int| 0 <= i < longer.len() implies #[trigger] longer[i].id != id by {
            if i < entries.len() {
                assert(entries[i].id != id);
            }
        }
        lemma_entry_position_unique(longer, id, longer.len() as int);
    }
}

/// Whether a string is among the given ones.
pub fn is_among(text: &str, strings: &Vec<String>) -> (found: bool)
    ensures
        found == text::texts(strings@).contains(text@),
{
    for index in 0..strings.len()
        invariant
            forall|i: int| 0 <= i < index ==> #[trigger] strings[i]@ != text@,
    {
        if same_text(strings[index].as_str(), text) {
            assert(text::texts(strings@)[index as int] == text@);
            return true;
        }
    }
    assert forall|i: int| 0 <= i < strings.len() implies text::texts(strings@)[i] != text@ by {
        assert(strings[i]@ != text@);
    }
    false
}

/// A text that was just remembered is recalled, and no other identifier
/// recalls anything that it did not recall before.
pub proof fn law_insert_then_get(
    entries: Seq<EntryView>,
    id: Seq<char>,
    content: Option<Seq<char>>,
    other: Seq<char>,
)
    requires
        distinct(entries),
        entries.len() <= MAX_REASONING_ENTRIES,
    ensures
        recalled(remembered(entries, id, content), id) == content,
        other != id ==> {
            ||| recalled(remembered(entries, id, content), other) == recalled(entries, other)
            ||| recalled(remembered(entries, id, content), other) is None
        },
{
    let position = entry_position(entries, id);
    lemma_entry_position(entries, id);
    let after = remembered(entries, id, content);
    if position < entries.len() {
        assert forall|i: int, j: int| 0 <= i < j < after.len() implies #[trigger] after[i].id
            != #[trigger] after[j].id by {
            assert(entries[i].id != entries[j].id);
        }
        lemma_recalled(after, position);
        lemma_entry_position(entries, other);
        let place = entry_position(entries, other);
        if other != id {
            assert forall|i: int| 0 <= i < place implies #[trigger] after[i].id != other by {
                assert(entries[i].id != other);
            }
            lemma_entry_position_unique(after, other, place);
        }
    } else if entries.len() >= MAX_REASONING_ENTRIES {
        let rest = entries.drop_first();
        assert forall|i: int| 0 <= i < rest.len() implies #[trigger] rest[i].id != id by {
            assert(entries[i + 1].id != id);
        }
        lemma_recalled_push(rest, EntryView { id, content }, id);
        lemma_recalled_push(rest, EntryView { id, content }, other);
        if entries[0].id == other {
            assert forall|i: int| 0 <= i < rest.len() implies #[trigger] rest[i].id != other by {
                assert(entries[0].id != entries[i + 1].id);
            }
            lemma_recalled_absent(rest, other);
        } else {
            lemma_entry_position(rest, other);
            assert(recalled(rest, other) == recalled(entries, other));
        }
    } else {
        lemma_recalled_push(entries, EntryView { id, content }, id);
        lemma_recalled_push(entries, EntryView { id, content }, other);
    }
}

/// Two conversations that use one call identifier with different reasoning
/// never see each other's text: the identifier recalls nothing, and a third
/// claim does not revive it.
pub proof fn law_ambiguous_call_recalls_nothing(
    entries: Seq<EntryView>,
    call_id: Seq<char>,
    first: Seq<char>,
    second: Seq<char>,
    third: Seq<char>,
)
    requires
        distinct(entries),
        entries.len() <= MAX_REASONING_ENTRIES,
        first != second,
    ensures
        ({
            let once = remembered(entries, call_id, Some(first));
            let twice = remembered(once, call_id, claimed(once, call_id, second));
            let thrice = remembered(twice, call_id, claimed(twice, call_id, third));
            &&& recalled(twice, call_id) is None
            &&& recalled(thrice, call_id) is None
        }),
{
    let once = remembered(entries, call_id, Some(first));
    lemma_remembered_keeps(entries, call_id, Some(first));
    law_insert_then_get(entries, call_id, Some(first), call_id);
    lemma_present(entries, call_id, Some(first));
    let twice = remembered(once, call_id, claimed(once, call_id, second));
    lemma_remembered_keeps(once, call_id, claimed(once, call_id, second));
    law_insert_then_get(once, call_id, claimed(once, call_id, second), call_id);
    lemma_present(once, call_id, claimed(once, call_id, second));
    law_insert_then_get(twice, call_id, claimed(twice, call_id, third), call_id);
}

/// An identifier that was just remembered has a place among the entries.
proof fn lemma_present(entries: Seq<EntryView>, id: Seq<char>, content: Option<Seq<char>>)
    ensures
        entry_position(remembered(entries, id, content), id) < remembered(
            entries,
            id,
            content,
        ).len(),
{
    let after = remembered(entries, id, content);
    lemma_entry_position(entries, id);
    lemma_entry_position(after, id);
    let place = if entry_position(entries, id) < entries.len() {
        entry_position(entries, id)
    } else {
        after.len() - 1
    };
    assert(after[place].id == id);
}

/// Remembering a text keeps the bound and the absence of repetition.
pub proof fn lemma_remembered_keeps(
    entries: Seq<EntryView>,
    id: Seq<char>,
    content: Option<Seq<char>>,
)
    requires
        distinct(entries),
        entries.len() <= MAX_REASONING_ENTRIES,
    ensures
        distinct(remembered(entries, id, content)),
        remembered(entries, id, content).len() <= MAX_REASONING_ENTRIES,
{
    let position = entry_position(entries, id);
    let after = remembered(entries, id, content);
    lemma_entry_position(entries, id);
    assert forall|i: int, j: int| 0 <= i < j < after.len() implies #[trigger] after[i].id
        != #[trigger] after[j].id by {
        let shift: int = if position < entries.len() || entries.len() < MAX_REASONING_ENTRIES {
            0
        } else {
            1
        };
        if i + shift < entries.len() && j + shift < entries.len() {
            assert(entries[i + shift].id != entries[j + shift].id);
        } else {
            assert(entries[i + shift].id != id);
        }
    }
}

/// Whether an identifier stands among the last `count` entries, with a
/// content.
pub open spec fn held_late(
    entries: Seq<EntryView>,
    id: Seq<char>,
    content: Option<Seq<char>>,
    count: nat,
) -> bool {
    exists|place: int|
        0 <= place < entries.len() && entries.len() - count <= place && #[trigger] entries[place]
            == (EntryView { id, content })
}

/// Whether an identifier is not among the entries.
pub open spec fn absent(entries: Seq<EntryView>, id: Seq<char>) -> bool {
    forall|i: int| 0 <= i < entries.len() ==> #[trigger] entries[i].id != id
}

/// A new identifier comes last.
pub proof fn lemma_held_new(entries: Seq<EntryView>, id: Seq<char>, content: Option<Seq<char>>)
    requires
        absent(entries, id),
    ensures
        held_late(remembered(entries, id, content), id, content, 1),
{
    lemma_entry_position_unique(entries, id, entries.len() as int);
    let after = remembered(entries, id, content);
    assert(after[after.len() - 1] == (EntryView { id, content }));
}

/// An identifier is pushed back by one place at most when another one is
/// remembered.
pub proof fn lemma_held_on(
    entries: Seq<EntryView>,
    id: Seq<char>,
    content: Option<Seq<char>>,
    count: nat,
    other: Seq<char>,
    text: Option<Seq<char>>,
)
    requires
        entries.len() <= MAX_REASONING_ENTRIES,
        held_late(entries, id, content, count),
        count < MAX_REASONING_ENTRIES,
        other != id,
    ensures
        held_late(remembered(entries, other, text), id, content, count + 1),
{
    let place = choose|place: int|
        0 <= place < entries.len() && entries.len() - count <= place && #[trigger] entries[place]
            == (EntryView { id, content });
    lemma_entry_position(entries, other);
    let position = entry_position(entries, other);
    let after = remembered(entries, other, text);
    if position < entries.len() {
        assert(position != place);
        assert(after[place] == (EntryView { id, content }));
    } else if entries.len() >= MAX_REASONING_ENTRIES {
        assert(after[place - 1] == (EntryView { id, content }));
    } else {
        assert(after[place] == (EntryView { id, content }));
    }
}

/// An identifier that stands late stands late enough.
pub proof fn lemma_held_longer(
    entries: Seq<EntryView>,
    id: Seq<char>,
    content: Option<Seq<char>>,
    count: nat,
    more: nat,
)
    requires
        held_late(entries, id, content, count),
        count <= more,
    ensures
        held_late(entries, id, content, more),
{
    let place = choose|place: int|
        0 <= place < entries.len() && entries.len() - count <= place && #[trigger] entries[place]
            == (EntryView { id, content });
    assert(entries[place] == (EntryView { id, content }));
}

/// What stands among the entries is recalled.
pub proof fn lemma_held_is_recalled(
    entries: Seq<EntryView>,
    id: Seq<char>,
    content: Option<Seq<char>>,
    count: nat,
)
    requires
        distinct(entries),
        held_late(entries, id, content, count),
    ensures
        recalled(entries, id) == content,
{
    let place = choose|place: int|
        0 <= place < entries.len() && entries.len() - count <= place && #[trigger] entries[place]
            == (EntryView { id, content });
    lemma_recalled(entries, place);
}

/// An identifier does not come up when another one is remembered.
pub proof fn lemma_absent_stays(
    entries: Seq<EntryView>,
    id: Seq<char>,
    other: Seq<char>,
    text: Option<Seq<char>>,
)
    requires
        absent(entries, id),
        other != id,
    ensures
        absent(remembered(entries, other, text), id),
{
    lemma_entry_position(entries, other);
    let after = remembered(entries, other, text);
    let position = entry_position(entries, other);
    assert forall|i: int| 0 <= i < after.len() implies #[trigger] after[i].id != id by {
        if position < entries.len() {
            if i != position {
                assert(after[i] == entries[i]);
            }
        } else if entries.len() >= MAX_REASONING_ENTRIES {
            if i < entries.len() - 1 {
                assert(after[i] == entries[i + 1]);
            }
        } else if i < entries.len() {
            assert(after[i] == entries[i]);
        }
    }
}

} // verus!
