//! What a streamed answer tells piece by piece is what its last event holds.

use crate::cutting::joined;
use crate::events::{EventView, PayloadView};
use crate::json;
use crate::json::JsonView;
use crate::one_chunk::{is_about_the_request, lemma_told_answer, told_answer};
use crate::order;
use crate::order::{has_distinct_indexes, ordered};
use crate::pump::ContextView;
use crate::reasoning::EntryView;
use crate::response;
use crate::response::Ending;
use crate::stream;
use crate::stream::{CallView, Flow, TranslatorView};
use crate::stream_end;
use crate::stream_end::{announced_calls, final_call, final_message, indexed_output};
use crate::stream_items::{
    is_call_at, is_taken, law_beginning_keeps_books, law_completed_answer_is_told, most_claims,
    times_added, times_done, told_arguments,
};
use crate::stream_laws::{as_count, is_well_placed, told_text};
use vstd::prelude::*;

verus! {

// ---------------------------------------------------------------------------
// What the output of an answer shows
// ---------------------------------------------------------------------------

/// The text of a content part that holds any.
pub open spec fn part_text(part: JsonView) -> Seq<char> {
    if part.text_at("type"@) == Some("output_text"@) {
        match part.text_at("text"@) {
            Some(text) => text,
            None => Seq::empty(),
        }
    } else {
        Seq::empty()
    }
}

/// The text of content parts, one after the other.
pub open spec fn parts_text(parts: Seq<JsonView>) -> Seq<char>
    decreases parts.len(),
{
    if parts.len() == 0 {
        Seq::empty()
    } else {
        parts_text(parts.drop_last()) + part_text(parts.last())
    }
}

/// The text of an output item: that of the parts of a message.
pub open spec fn item_text(item: JsonView) -> Seq<char> {
    if item.text_at("type"@) == Some("message"@) {
        match item.array_at("content"@) {
            Some(parts) => parts_text(parts),
            None => Seq::empty(),
        }
    } else {
        Seq::empty()
    }
}

/// The text that output items show, one after the other.
pub open spec fn shown_text(output: Seq<JsonView>) -> Seq<char>
    decreases output.len(),
{
    if output.len() == 0 {
        Seq::empty()
    } else {
        shown_text(output.drop_last()) + item_text(output.last())
    }
}

/// Whether events tell of an output item under its index: they announce it once
/// and close it once, and the arguments that they tell are those of the item
/// where it is a call.
pub open spec fn is_told(events: Seq<EventView>, index: usize, item: JsonView) -> bool {
    &&& times_added(events, index) == 1
    &&& times_done(events, index) == 1
    &&& item.text_at("type"@) == Some("function_call"@) ==> item.text_at("arguments"@) == Some(
        told_arguments(events, index),
    )
}

/// Whether events tell of output items under rising indexes, and of no others.
pub open spec fn are_told(
    events: Seq<EventView>,
    indexes: Seq<usize>,
    output: Seq<JsonView>,
) -> bool {
    &&& indexes.len() == output.len()
    &&& forall|i: int, j: int|
        0 <= i < j < indexes.len() ==> #[trigger] indexes[i] < #[trigger] indexes[j]
    &&& forall|i: int|
        0 <= i < indexes.len() ==> is_told(events, #[trigger] indexes[i], output[i])
    &&& forall|index: usize| #[trigger] times_added(events, index) > 0 ==> indexes.contains(index)
}

// ---------------------------------------------------------------------------
// The items of an answer that has ended
// ---------------------------------------------------------------------------

/// The calls that were announced are those that have an output index.
proof fn lemma_announced(calls: Seq<CallView>)
    ensures
        forall|i: int|
            0 <= i < announced_calls(calls).len() ==> {
                let call = #[trigger] announced_calls(calls)[i];
                calls.contains(call.1) && call.1.output_index == Some(call.0)
            },
        forall|i: int|
            0 <= i < calls.len() && (#[trigger] calls[i]).output_index is Some
                ==> announced_calls(calls).contains((calls[i].output_index->0, calls[i])),
    decreases calls.len(),
{
    if calls.len() > 0 {
        let rest = calls.drop_last();
        let last = calls.last();
        lemma_announced(rest);
        let earlier = announced_calls(rest);
        let all = announced_calls(calls);
        assert forall|i: int| 0 <= i < all.len() implies {
            let call = #[trigger] all[i];
            calls.contains(call.1) && call.1.output_index == Some(call.0)
        } by {
            if i < earlier.len() {
                assert(all[i] == earlier[i]);
                let k = choose|k: int| 0 <= k < rest.len() && rest[k] == earlier[i].1;
                assert(calls[k] == all[i].1);
            } else {
                assert(calls[calls.len() - 1] == all[i].1);
            }
        }
        assert forall|i: int|
            0 <= i < calls.len() && (#[trigger] calls[i]).output_index is Some implies all.contains(
            (calls[i].output_index->0, calls[i]),
        ) by {
            let call = (calls[i].output_index->0, calls[i]);
            if i < rest.len() {
                assert(rest[i] == calls[i]);
                let k = choose|k: int| 0 <= k < earlier.len() && earlier[k] == call;
                assert(all[k] == call);
            } else {
                assert(all[all.len() - 1] == call);
            }
        }
    }
}

proof fn lemma_announced_are_distinct(calls: Seq<CallView>)
    requires
        forall|i: int, j: int|
            0 <= i < j < calls.len() && (#[trigger] calls[i]).output_index is Some
                ==> calls[i].output_index != (#[trigger] calls[j]).output_index,
    ensures
        has_distinct_indexes(announced_calls(calls)),
    decreases calls.len(),
{
    if calls.len() > 0 {
        let rest = calls.drop_last();
        let last = calls.len() - 1;
        assert forall|i: int, j: int|
            0 <= i < j < rest.len() && (#[trigger] rest[i]).output_index is Some implies rest[i].output_index
            != (#[trigger] rest[j]).output_index by {
            assert(calls[i].output_index != calls[j].output_index);
        }
        lemma_announced_are_distinct(rest);
        lemma_announced(rest);
        let earlier = announced_calls(rest);
        let all = announced_calls(calls);
        assert forall|i: int, j: int| 0 <= i < j < all.len() implies (#[trigger] all[i]).0 != (
        #[trigger] all[j]).0 by {
            assert(all[i] == earlier[i]);
            if j < earlier.len() {
                assert(all[j] == earlier[j]);
            } else {
                let k = choose|k: int| 0 <= k < rest.len() && rest[k] == earlier[i].1;
                assert(calls[k].output_index != calls[last].output_index);
            }
        }
    }
}

/// An item of an answer that has ended is its message, or a call under its
/// index.
spec fn is_item_of(state: TranslatorView, ending: Ending, item: (usize, JsonView)) -> bool {
    if state.places.message == Some(item.0) {
        item.1 == final_message(state, ending)
    } else {
        exists|k: int|
            0 <= k < state.tool_calls.len() && (#[trigger] state.tool_calls[k]).output_index
                == Some(item.0) && item.1 == final_call(state.tool_calls[k], ending)
    }
}

proof fn lemma_indexed_output(state: TranslatorView, ending: Ending)
    requires
        is_well_placed(state),
    ensures
        has_distinct_indexes(indexed_output(state, ending)),
        forall|i: int|
            0 <= i < indexed_output(state, ending).len() ==> is_item_of(
                state,
                ending,
                #[trigger] indexed_output(state, ending)[i],
            ),
        forall|index: usize| #[trigger]
            is_taken(state, index) ==> exists|i: int|
                0 <= i < indexed_output(state, ending).len() && (#[trigger] indexed_output(
                    state,
                    ending,
                )[i]).0 == index,
{
    let calls = state.tool_calls;
    let announced = announced_calls(calls);
    lemma_announced(calls);
    lemma_announced_are_distinct(calls);
    let row = ordered(announced);
    order::lemma_ordered_members(announced);
    order::lemma_ordered_rises(announced);
    let closed = row.map_values(|call: (usize, CallView)| (call.0, final_call(call.1, ending)));
    let all = indexed_output(state, ending);
    let spoken: int = if state.places.message is Some {
        1
    } else {
        0
    };
    assert(all.len() == spoken + row.len());
    assert forall|i: int| spoken <= i < all.len() implies #[trigger] all[i] == (
        row[i - spoken].0,
        final_call(row[i - spoken].1, ending),
    ) by {
        assert(all[i] == closed[i - spoken]);
    }
    assert forall|i: int| 0 <= i < row.len() implies exists|k: int|
        0 <= k < calls.len() && #[trigger] calls[k] == (#[trigger] row[i]).1 && calls[k].output_index
            == Some(row[i].0) by {
        let m = choose|m: int| 0 <= m < announced.len() && announced[m] == row[i];
        assert(calls.contains(announced[m].1));
        let k = choose|k: int| 0 <= k < calls.len() && calls[k] == row[i].1;
        assert(calls[k] == row[i].1);
    }
    assert forall|i: int| 0 <= i < all.len() implies is_item_of(state, ending, #[trigger] all[i]) by {
        if i >= spoken {
            let called = row[i - spoken];
            let k = choose|k: int|
                0 <= k < calls.len() && #[trigger] calls[k] == called.1 && calls[k].output_index
                    == Some(called.0);
            assert(calls[k].output_index is Some);
            assert(all[i] == (called.0, final_call(called.1, ending)));
        }
    }
    assert forall|i: int, j: int| 0 <= i < j < all.len() implies (#[trigger] all[i]).0 != (
    #[trigger] all[j]).0 by {
        let later = row[j - spoken];
        if i < spoken {
            let k = choose|k: int|
                0 <= k < calls.len() && #[trigger] calls[k] == later.1 && calls[k].output_index
                    == Some(later.0);
            assert(calls[k].output_index is Some);
        } else {
            assert(row[i - spoken].0 != later.0);
        }
    }
    assert forall|index: usize| #[trigger] is_taken(state, index) implies exists|i: int|
        0 <= i < all.len() && (#[trigger] all[i]).0 == index by {
        if state.places.message == Some(index) {
            assert(all[0].0 == index);
        } else {
            let k = choose|k: int|
                0 <= k < calls.len() && (#[trigger] calls[k]).output_index == Some(index);
            assert(announced.contains((index, calls[k])));
            let m = choose|m: int| 0 <= m < announced.len() && announced[m] == (index, calls[k]);
            assert(row.contains(announced[m]));
            let r = choose|r: int| 0 <= r < row.len() && row[r] == announced[m];
            assert(all[spoken + r].0 == index);
        }
    }
}

proof fn lemma_item_words()
    ensures
        "type"@ != "text"@,
        "type"@.len() == 4,
        "text"@.len() == 4,
        "id"@.len() == 2,
        "status"@.len() == 6,
        "role"@.len() == 4,
        "role"@ != "type"@,
        "content"@.len() == 7,
        "call_id"@.len() == 7,
        "name"@.len() == 4,
        "name"@ != "type"@,
        "arguments"@.len() == 9,
        "annotations"@.len() == 11,
        "refusal"@.len() == 7,
        "message"@.len() == 7,
        "function_call"@.len() == 13,
        "output_text"@.len() == 11,
{
    reveal_strlit("type");
    reveal_strlit("text");
    reveal_strlit("id");
    reveal_strlit("status");
    reveal_strlit("role");
    reveal_strlit("content");
    reveal_strlit("call_id");
    reveal_strlit("name");
    reveal_strlit("arguments");
    reveal_strlit("annotations");
    reveal_strlit("refusal");
    reveal_strlit("message");
    reveal_strlit("function_call");
    reveal_strlit("output_text");
    assert("type"@[1] == 'y' && "text"@[1] == 'e' && "role"@[1] == 'o' && "name"@[1] == 'a');
}

proof fn lemma_parts(text: Seq<char>, refusal: Seq<char>)
    ensures
        part_text(response::output_text_part(text)) == text,
        part_text(response::refusal_part(refusal)).len() == 0,
{
    lemma_item_words();
    let part = response::output_text_part(text);
    assert(part.get("type"@) == Some(JsonView::Text("output_text"@)));
    assert(part.get("text"@) == Some(JsonView::Text(text)));
    assert(response::refusal_part(refusal).get("type"@) == Some(JsonView::Text("refusal"@)));
}

/// The text of the message of an answer that has ended.
proof fn lemma_message_text(state: TranslatorView, ending: Ending)
    ensures
        item_text(final_message(state, ending)) == if state.places.text is Some {
            state.full_text
        } else {
            Seq::empty()
        },
        final_message(state, ending).text_at("type"@) == Some("message"@),
        "message"@ != "function_call"@,
{
    lemma_item_words();
    lemma_parts(state.full_text, state.refusal_text);
    let parts = stream_end::message_content(state);
    let item = final_message(state, ending);
    assert(item.get("content"@) == Some(JsonView::Array(parts)));
    assert(item.get("type"@) == Some(JsonView::Text("message"@)));
    reveal_with_fuel(parts_text, 3);
    let text = response::output_text_part(state.full_text);
    let refusal = response::refusal_part(state.refusal_text);
    assert(seq![text, refusal].drop_last() =~= seq![text]);
    assert(seq![refusal, text].drop_last() =~= seq![refusal]);
    assert(seq![text].drop_last() =~= Seq::<JsonView>::empty());
    assert(seq![refusal].drop_last() =~= Seq::<JsonView>::empty());
    assert(parts_text(parts) =~= if state.places.text is Some {
        state.full_text
    } else {
        Seq::empty()
    });
}

proof fn lemma_call_item(call: CallView, ending: Ending)
    ensures
        item_text(final_call(call, ending)).len() == 0,
        final_call(call, ending).text_at("type"@) == Some("function_call"@),
        final_call(call, ending).text_at("arguments"@) == Some(call.arguments),
{
    lemma_item_words();
    let item = final_call(call, ending);
    assert(item.get("type"@) == Some(JsonView::Text("function_call"@)));
    assert(item.get("arguments"@) == Some(JsonView::Text(call.arguments)));
}

/// Where at most one item has a text, that is the text that is shown.
proof fn lemma_one_item_speaks(output: Seq<JsonView>, place: int, text: Seq<char>)
    requires
        forall|i: int|
            0 <= i < output.len() && i != place ==> item_text(#[trigger] output[i]).len() == 0,
        if 0 <= place < output.len() {
            item_text(output[place]) == text
        } else {
            text.len() == 0
        },
    ensures
        shown_text(output) == text,
    decreases output.len(),
{
    if output.len() == 0 {
        assert(text =~= Seq::<char>::empty());
    } else {
        let rest = output.drop_last();
        let last = output.len() - 1;
        assert forall|i: int| 0 <= i < rest.len() && i != place implies item_text(
            #[trigger] rest[i],
        ).len() == 0 by {
            assert(rest[i] == output[i]);
        }
        if place == last {
            lemma_one_item_speaks(rest, -1, Seq::empty());
        } else {
            assert(item_text(output[last]).len() == 0);
            lemma_one_item_speaks(rest, place, text);
        }
        assert(shown_text(output) =~= text);
    }
}

/// The output of an answer that has ended agrees with what was told of it.
proof fn lemma_output_is_told(state: TranslatorView, ending: Ending, events: Seq<EventView>)
    requires
        is_well_placed(state),
        forall|i: int|
            0 <= i < state.tool_calls.len() && (#[trigger] state.tool_calls[i]).output_index is Some
                ==> told_arguments(events, state.tool_calls[i].output_index->0)
                == state.tool_calls[i].arguments,
        forall|index: usize| #[trigger]
            times_added(events, index) == as_count(is_taken(state, index)),
        forall|index: usize| #[trigger]
            times_done(events, index) == as_count(is_taken(state, index)),
    ensures
        exists|indexes: Seq<usize>| #[trigger]
            are_told(events, indexes, stream_end::final_output(state, ending)),
        shown_text(stream_end::final_output(state, ending)) == if state.places.text is Some {
            state.full_text
        } else {
            Seq::empty()
        },
{
    let indexed = indexed_output(state, ending);
    lemma_indexed_output(state, ending);
    order::lemma_ordered_members(indexed);
    order::lemma_ordered_rises(indexed);
    lemma_message_text(state, ending);
    let items = ordered(indexed);
    let output = stream_end::final_output(state, ending);
    let indexes = items.map_values(|item: (usize, JsonView)| item.0);
    assert forall|i: int| 0 <= i < items.len() implies is_item_of(
        state,
        ending,
        #[trigger] items[i],
    ) by {
        let k = choose|k: int| 0 <= k < indexed.len() && indexed[k] == items[i];
        assert(is_item_of(state, ending, indexed[k]));
    }
    assert forall|i: int| 0 <= i < indexes.len() implies is_told(
        events,
        #[trigger] indexes[i],
        output[i],
    ) by {
        let item = items[i];
        assert(is_item_of(state, ending, item));
        if state.places.message != Some(item.0) {
            let k = choose|k: int|
                0 <= k < state.tool_calls.len() && (#[trigger] state.tool_calls[k]).output_index
                    == Some(item.0) && item.1 == final_call(state.tool_calls[k], ending);
            lemma_call_item(state.tool_calls[k], ending);
            assert(is_call_at(state.tool_calls, item.0));
        }
        assert(is_taken(state, item.0));
        assert(times_added(events, item.0) == 1);
        assert(times_done(events, item.0) == 1);
    }
    assert forall|index: usize| #[trigger]
        times_added(events, index) > 0 implies indexes.contains(index) by {
        assert(is_taken(state, index));
        let k = choose|k: int| 0 <= k < indexed.len() && (#[trigger] indexed[k]).0 == index;
        assert(items.contains(indexed[k]));
        let m = choose|m: int| 0 <= m < items.len() && items[m] == indexed[k];
        assert(indexes[m] == index);
    }
    assert forall|i: int, j: int| 0 <= i < j < indexes.len() implies #[trigger] indexes[i]
        < #[trigger] indexes[j] by {
        assert(items[i].0 < items[j].0);
    }
    assert(are_told(events, indexes, output));
    let place = match state.places.message {
        Some(index) => choose|m: int| 0 <= m < items.len() && (#[trigger] items[m]).0 == index,
        None => -1,
    };
    if let Some(index) = state.places.message {
        assert(is_taken(state, index));
        let k = choose|k: int| 0 <= k < indexed.len() && (#[trigger] indexed[k]).0 == index;
        assert(items.contains(indexed[k]));
        let m = choose|m: int| 0 <= m < items.len() && items[m] == indexed[k];
        assert(items[m].0 == index);
        assert(is_item_of(state, ending, items[place]));
        assert(output[place] == final_message(state, ending));
    }
    let text = if state.places.text is Some {
        state.full_text
    } else {
        Seq::empty()
    };
    assert forall|i: int| 0 <= i < output.len() && i != place implies item_text(
        #[trigger] output[i],
    ).len() == 0 by {
        let item = items[i];
        assert(is_item_of(state, ending, item));
        if state.places.message == Some(item.0) {
            assert(items[place].0 == items[i].0);
        } else {
            let k = choose|k: int|
                0 <= k < state.tool_calls.len() && (#[trigger] state.tool_calls[k]).output_index
                    == Some(item.0) && item.1 == final_call(state.tool_calls[k], ending);
            lemma_call_item(state.tool_calls[k], ending);
        }
    }
    lemma_one_item_speaks(output, place, text);
}

// ---------------------------------------------------------------------------
// The whole answer
// ---------------------------------------------------------------------------

proof fn lemma_calls_keep_metadata(flow: Flow, calls: Seq<JsonView>, fresh: Seq<Seq<char>>)
    ensures
        flow.take_calls(calls, fresh).flow.state.metadata == flow.state.metadata,
    decreases calls.len(),
{
    if calls.len() > 0 {
        lemma_calls_keep_metadata(flow, calls.drop_last(), fresh);
    }
}

/// What an answer repeats of its request stays as it is.
proof fn lemma_chunks_keep_metadata(
    flow: Flow,
    chunks: Seq<JsonView>,
    fresh: Seq<Seq<Seq<char>>>,
)
    ensures
        flow.after_chunks(chunks, fresh).state.metadata == flow.state.metadata,
    decreases chunks.len(),
{
    if chunks.len() > 0 {
        let rest = chunks.drop_last();
        let chunk = chunks.last();
        let drawn = fresh[chunks.len() - 1];
        lemma_chunks_keep_metadata(flow, rest, fresh);
        let earlier = flow.after_chunks(rest, fresh);
        if let Some(choice) = response::first_choice(chunk) {
            if let Some(delta) = stream::choice_delta(choice) {
                let spoken = earlier.informed(chunk).chosen(choice).reasoned(delta).spoken(delta);
                assert(spoken.state.metadata == earlier.state.metadata);
                lemma_calls_keep_metadata(spoken, response::message_calls(delta), drawn);
            }
        }
    }
}

/// The last event of a completed answer holds what was told of it before. The
/// pieces of text that were told make up the text of its output. Its output
/// items were told under rising indexes, each announced once and closed once,
/// and the pieces of arguments that were told of a call make up its arguments.
/// No other item was told.
pub proof fn law_answer_holds_what_was_told(
    context: ContextView,
    msg_item_id: Seq<char>,
    message: Seq<char>,
    chunks: Seq<JsonView>,
    fresh: Seq<Seq<Seq<char>>>,
    entries: Seq<EntryView>,
)
    requires
        is_about_the_request(context.metadata),
        most_claims(chunks) < usize::MAX,
        context.opened(msg_item_id, message).flow.accepts(chunks, fresh),
        context.opened(msg_item_id, message).flow.after_chunks(chunks, fresh).finish(
            entries,
        ).completed,
    ensures
        ({
            let start = context.opened(msg_item_id, message).flow;
            let out = start.after_chunks(chunks, fresh).finish(entries).flow.out;
            &&& out.len() > 0
            &&& out.last().payload matches PayloadView::Document(document)
            &&& document.get("response"@) matches Some(answer)
            &&& answer.array_at("output"@) matches Some(output)
            &&& joined(told_text(out)) == shown_text(output)
            &&& exists|indexes: Seq<usize>| #[trigger] are_told(out, indexes, output)
        }),
{
    let start = context.opened(msg_item_id, message).flow;
    law_beginning_keeps_books(context, msg_item_id, message);
    law_completed_answer_is_told(start, chunks, fresh, entries);
    lemma_chunks_keep_metadata(start, chunks, fresh);
    let flow = start.after_chunks(chunks, fresh);
    let state = flow.released().state;
    let ending = response::ending_of(flow.state.finish_reason->0)->0;
    let out = flow.finish(entries).flow.out;
    assert(state.metadata == context.metadata);
    lemma_told_answer(state, ending);
    lemma_output_is_told(state, ending, out);
    reveal_strlit("sequence_number");
    reveal_strlit("response");
    assert("sequence_number"@.len() != "response"@.len());
    let closed = flow.released().close_message(ending).close_calls(
        ordered(announced_calls(state.tool_calls)),
        ending,
    );
    let told = stream_end::final_document(state, ending).with(
        "sequence_number"@,
        json::unsigned_view(closed.state.sequence as u64),
    );
    assert(out.last().payload == PayloadView::Document(told));
    assert(told.get("response"@) == Some(told_answer(state, ending)));
}

} // verus!
