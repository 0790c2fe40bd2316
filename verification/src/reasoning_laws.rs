//! Laws of the memory of reasoning as a whole: what an answer leaves in it, and
//! what the next request takes out of it.

use crate::chat_request::{item_message, InputView};
use crate::json::JsonView;
use crate::reasoning;
use crate::reasoning::{
    absent, bounded, claimed, distinct, held_late, recalled, remembered, EntryView,
    MAX_REASONING_ENTRIES,
};
use crate::stream::{CallView, TranslatorView};
use crate::stream_end::{remembered_calls, remembered_stream};
use crate::text;
use vstd::prelude::*;

verus! {

/// Whether a call goes by other identifiers than the given one.
pub open spec fn clear_of(call: CallView, id: Seq<char>) -> bool {
    call.item_id != id && call.id != id
}

/// The memory once the reasoning of an answer is stored for one more call.
spec fn with_call(entries: Seq<EntryView>, call: CallView, content: Seq<char>) -> Seq<EntryView> {
    let stored = remembered(entries, call.item_id, Some(content));
    if call.id.len() == 0 {
        stored
    } else {
        remembered(stored, call.id, claimed(stored, call.id, content))
    }
}

proof fn lemma_call_keeps(
    entries: Seq<EntryView>,
    call: CallView,
    content: Seq<char>,
    id: Seq<char>,
    count: nat,
)
    requires
        distinct(entries),
        entries.len() <= MAX_REASONING_ENTRIES,
        clear_of(call, id),
        count + 2 <= MAX_REASONING_ENTRIES,
    ensures
        distinct(with_call(entries, call, content)),
        with_call(entries, call, content).len() <= MAX_REASONING_ENTRIES,
        absent(entries, id) ==> absent(with_call(entries, call, content), id),
        held_late(entries, id, Some(content), count) ==> held_late(
            with_call(entries, call, content),
            id,
            Some(content),
            count + 2,
        ),
{
    let stored = remembered(entries, call.item_id, Some(content));
    let alias = claimed(stored, call.id, content);
    reasoning::lemma_remembered_keeps(entries, call.item_id, Some(content));
    reasoning::lemma_remembered_keeps(stored, call.id, alias);
    if absent(entries, id) {
        reasoning::lemma_absent_stays(entries, id, call.item_id, Some(content));
        reasoning::lemma_absent_stays(stored, id, call.id, alias);
    }
    if held_late(entries, id, Some(content), count) {
        reasoning::lemma_held_on(entries, id, Some(content), count, call.item_id, Some(content));
        reasoning::lemma_held_longer(stored, id, Some(content), count + 1, count + 2);
        reasoning::lemma_held_on(stored, id, Some(content), count + 1, call.id, alias);
    }
}

proof fn lemma_calls_keep(
    entries: Seq<EntryView>,
    calls: Seq<CallView>,
    content: Seq<char>,
    id: Seq<char>,
    count: nat,
)
    requires
        distinct(entries),
        entries.len() <= MAX_REASONING_ENTRIES,
        forall|i: int| 0 <= i < calls.len() ==> clear_of(#[trigger] calls[i], id),
        count + 2 * calls.len() <= MAX_REASONING_ENTRIES,
    ensures
        distinct(remembered_calls(entries, calls, content)),
        remembered_calls(entries, calls, content).len() <= MAX_REASONING_ENTRIES,
        absent(entries, id) ==> absent(remembered_calls(entries, calls, content), id),
        held_late(entries, id, Some(content), count) ==> held_late(
            remembered_calls(entries, calls, content),
            id,
            Some(content),
            count + 2 * calls.len(),
        ),
    decreases calls.len(),
{
    if calls.len() > 0 {
        let rest = calls.drop_last();
        lemma_calls_keep(entries, rest, content, id, count);
        let earlier = remembered_calls(entries, rest, content);
        assert(clear_of(calls[calls.len() - 1], id));
        lemma_call_keeps(earlier, calls.last(), content, id, count + 2 * rest.len());
        assert(remembered_calls(entries, calls, content) == with_call(
            earlier,
            calls.last(),
            content,
        ));
    }
}

proof fn lemma_own_call_keeps(
    entries: Seq<EntryView>,
    calls: Seq<CallView>,
    content: Seq<char>,
    place: int,
)
    requires
        distinct(entries),
        entries.len() <= MAX_REASONING_ENTRIES,
        0 <= place < calls.len(),
        absent(entries, calls[place].item_id),
        calls[place].id != calls[place].item_id,
        forall|i: int|
            0 <= i < calls.len() && i != place ==> clear_of(
                #[trigger] calls[i],
                calls[place].item_id,
            ),
        2 * calls.len() <= MAX_REASONING_ENTRIES,
    ensures
        distinct(remembered_calls(entries, calls, content)),
        remembered_calls(entries, calls, content).len() <= MAX_REASONING_ENTRIES,
        held_late(
            remembered_calls(entries, calls, content),
            calls[place].item_id,
            Some(content),
            (2 * (calls.len() - place)) as nat,
        ),
    decreases calls.len(),
{
    let id = calls[place].item_id;
    let rest = calls.drop_last();
    let earlier = remembered_calls(entries, rest, content);
    let call = calls.last();
    assert(remembered_calls(entries, calls, content) == with_call(earlier, call, content));
    if place == calls.len() - 1 {
        assert forall|i: int| 0 <= i < rest.len() implies clear_of(#[trigger] rest[i], id) by {
            assert(rest[i] == calls[i]);
        }
        lemma_calls_keep(entries, rest, content, id, 0);
        let stored = remembered(earlier, id, Some(content));
        let alias = claimed(stored, call.id, content);
        reasoning::lemma_remembered_keeps(earlier, id, Some(content));
        reasoning::lemma_remembered_keeps(stored, call.id, alias);
        reasoning::lemma_held_new(earlier, id, Some(content));
        reasoning::lemma_held_longer(stored, id, Some(content), 1, 2);
        reasoning::lemma_held_on(stored, id, Some(content), 1, call.id, alias);
    } else {
        assert(rest[place] == calls[place]);
        assert forall|i: int| 0 <= i < rest.len() && i != place implies clear_of(
            #[trigger] rest[i],
            id,
        ) by {
            assert(rest[i] == calls[i]);
        }
        lemma_own_call_keeps(entries, rest, content, place);
        assert(clear_of(calls[calls.len() - 1], id));
        lemma_call_keeps(earlier, call, content, id, (2 * (rest.len() - place)) as nat);
    }
}

/// The reasoning of an answer is remembered for its message, under an
/// identifier that is new and its own, unless the answer holds so many calls
/// that they fill the memory.
pub proof fn law_reasoning_is_kept_for_the_message(entries: Seq<EntryView>, answer: TranslatorView)
    requires
        distinct(entries),
        entries.len() <= MAX_REASONING_ENTRIES,
        !text::blank(answer.reasoning_content),
        absent(entries, answer.msg_item_id),
        forall|i: int|
            0 <= i < answer.tool_calls.len() ==> clear_of(
                #[trigger] answer.tool_calls[i],
                answer.msg_item_id,
            ),
        1 + 2 * answer.tool_calls.len() <= MAX_REASONING_ENTRIES,
    ensures
        recalled(remembered_stream(entries, answer), answer.msg_item_id) == Some(
            bounded(answer.reasoning_content),
        ),
{
    let content = bounded(answer.reasoning_content);
    let id = answer.msg_item_id;
    let first = remembered(entries, id, Some(content));
    reasoning::lemma_remembered_keeps(entries, id, Some(content));
    reasoning::lemma_held_new(entries, id, Some(content));
    lemma_calls_keep(first, answer.tool_calls, content, id, 1);
    reasoning::lemma_held_is_recalled(
        remembered_stream(entries, answer),
        id,
        Some(content),
        1 + 2 * answer.tool_calls.len(),
    );
}

/// The reasoning of an answer is remembered for each of its calls, under an
/// identifier that is new and its own, unless the answer holds so many calls
/// that they fill the memory.
pub proof fn law_reasoning_is_kept_for_calls(
    entries: Seq<EntryView>,
    answer: TranslatorView,
    place: int,
)
    requires
        distinct(entries),
        entries.len() <= MAX_REASONING_ENTRIES,
        !text::blank(answer.reasoning_content),
        0 <= place < answer.tool_calls.len(),
        absent(entries, answer.tool_calls[place].item_id),
        answer.msg_item_id != answer.tool_calls[place].item_id,
        answer.tool_calls[place].id != answer.tool_calls[place].item_id,
        forall|i: int|
            0 <= i < answer.tool_calls.len() && i != place ==> clear_of(
                #[trigger] answer.tool_calls[i],
                answer.tool_calls[place].item_id,
            ),
        2 * answer.tool_calls.len() <= MAX_REASONING_ENTRIES,
    ensures
        recalled(remembered_stream(entries, answer), answer.tool_calls[place].item_id) == Some(
            bounded(answer.reasoning_content),
        ),
{
    let content = bounded(answer.reasoning_content);
    let id = answer.tool_calls[place].item_id;
    let first = remembered(entries, answer.msg_item_id, Some(content));
    reasoning::lemma_remembered_keeps(entries, answer.msg_item_id, Some(content));
    reasoning::lemma_absent_stays(entries, id, answer.msg_item_id, Some(content));
    lemma_own_call_keeps(first, answer.tool_calls, content, place);
    reasoning::lemma_held_is_recalled(
        remembered_stream(entries, answer),
        id,
        Some(content),
        (2 * (answer.tool_calls.len() - place)) as nat,
    );
}

/// The reasoning that is remembered for a call is sent back with it: the call
/// waits together with it, and the message that the call ends up in carries
/// it.
pub proof fn law_reasoning_is_sent_back_with_calls(
    gathered: InputView,
    call: JsonView,
    known: Seq<EntryView>,
    id: Seq<char>,
)
    requires
        gathered.reasoning is None,
        call.text_at("id"@) == Some(id),
        recalled(known, id) is Some,
    ensures
        gathered.with_call(call, known).reasoning == recalled(known, id),
        gathered.with_call(call, known).flushed().messages.last().text_at("reasoning_content"@)
            == recalled(known, id),
{
    let waiting = gathered.with_call(call, known);
    let message = waiting.flushed().messages.last();
    assert(waiting.calls.len() > 0);
    if waiting.messages.len() > 0 && crate::chat_request::takes_calls(waiting.messages.last()) {
        assert(waiting.messages.last() is Object);
    }
    assert(message.get("reasoning_content"@) == Some(JsonView::Text(recalled(known, id)->0)));
}

/// The reasoning that is remembered for a message of the assistant is sent
/// back with it.
pub proof fn law_reasoning_is_sent_back_with_messages(
    item: JsonView,
    known: Seq<EntryView>,
    id: Seq<char>,
)
    requires
        item.text_at("role"@) == Some("assistant"@),
        item.text_at("id"@) == Some(id),
        recalled(known, id) is Some,
    ensures
        item_message(item, known).text_at("reasoning_content"@) == recalled(known, id),
{
    reveal_strlit("assistant");
    reveal_strlit("developer");
    reveal_strlit("tool_calls");
    reveal_strlit("reasoning_content");
    assert("assistant"@.len() == 9 && "developer"@.len() == 9);
    assert("assistant"@[0] != "developer"@[0]);
    assert("tool_calls"@.len() != "reasoning_content"@.len());
    assert(crate::chat_request::chat_role(item) == "assistant"@);
}

} // verus!
