//! The end of the parts of a streamed answer: each part that was begun is closed
//! once, with what was told of it piece by piece.

use crate::content;
use crate::cutting::joined;
use crate::events;
use crate::events::{EventView, PayloadView};
use crate::json;
use crate::json::JsonView;
use crate::order;
use crate::order::ordered;
use crate::pump::ContextView;
use crate::reasoning::EntryView;
use crate::response;
use crate::response::Ending;
use crate::stream;
use crate::stream::{
    chunk_calls, in_order, index_view, known_call, place, CallFlow, CallView, Flow, Places,
    TranslatorView,
};
use crate::stream_end;
use crate::stream_end::{announced_calls, holds_output};
use crate::stream_items;
use crate::stream_items::{
    is_item_event, item_events, keeps_books, most_claims, tells_text, told_arguments,
};
use crate::stream_laws;
use crate::stream_laws::{as_count, is_well_placed, told_text};
use crate::stream_sums;
use crate::text;
use vstd::prelude::*;

verus! {

proof fn lemma_event_kinds()
    ensures
        "response.created"@.len() == 16,
        "response.in_progress"@.len() == 20,
        "response.output_item.added"@.len() == 26,
        "response.content_part.added"@.len() == 27,
        "response.output_text.delta"@.len() == 26,
        "response.refusal.delta"@.len() == 22,
        "response.function_call_arguments.delta"@.len() == 38,
        "response.output_text.done"@.len() == 25,
        "response.content_part.done"@.len() == 26,
        "response.refusal.done"@.len() == 21,
        "response.function_call_arguments.done"@.len() == 37,
        "response.output_item.done"@.len() == 25,
        "response.completed"@.len() == 18,
        "response.incomplete"@.len() == 19,
        "response.failed"@.len() == 15,
        "response.output_item.added"@ != "response.output_text.delta"@,
        "response.output_item.added"@ != "response.content_part.done"@,
        "response.output_text.delta"@ != "response.content_part.done"@,
        "response.output_text.done"@ != "response.output_item.done"@,
{
    reveal_strlit("response.created");
    reveal_strlit("response.in_progress");
    reveal_strlit("response.output_item.added");
    reveal_strlit("response.content_part.added");
    reveal_strlit("response.output_text.delta");
    reveal_strlit("response.refusal.delta");
    reveal_strlit("response.function_call_arguments.delta");
    reveal_strlit("response.output_text.done");
    reveal_strlit("response.content_part.done");
    reveal_strlit("response.refusal.done");
    reveal_strlit("response.function_call_arguments.done");
    reveal_strlit("response.output_item.done");
    reveal_strlit("response.completed");
    reveal_strlit("response.incomplete");
    reveal_strlit("response.failed");
    assert("response.output_item.added"@[16] != "response.output_text.delta"@[16]);
    assert("response.output_item.added"@[9] != "response.content_part.done"@[9]);
    assert("response.output_text.delta"@[9] != "response.content_part.done"@[9]);
    assert("response.output_text.done"@[16] != "response.output_item.done"@[16]);
}

proof fn lemma_event_words()
    ensures
        "type"@.len() == 4,
        "item_id"@.len() == 7,
        "output_index"@.len() == 12,
        "content_index"@.len() == 13,
        "sequence_number"@.len() == 15,
        "delta"@.len() == 5,
        "text"@.len() == 4,
        "refusal"@.len() == 7,
        "part"@.len() == 4,
        "arguments"@.len() == 9,
        "name"@.len() == 4,
        "item"@.len() == 4,
        "logprobs"@.len() == 8,
        "annotations"@.len() == 11,
        "output_text"@.len() == 11,
        "id"@.len() == 2,
        "status"@.len() == 6,
        "call_id"@.len() == 7,
        "function_call"@.len() == 13,
        "message"@.len() == 7,
        "role"@.len() == 4,
        "content"@.len() == 7,
        "assistant"@.len() == 9,
        "type"@ != "text"@,
        "type"@ != "part"@,
        "type"@ != "name"@,
        "type"@ != "item"@,
        "type"@ != "role"@,
        "item_id"@ != "refusal"@,
        "item_id"@ != "call_id"@,
        "item_id"@ != "message"@,
        "item_id"@ != "content"@,
        "content_index"@ != "function_call"@,
        "text"@ != "part"@,
        "text"@ != "name"@,
        "text"@ != "item"@,
        "text"@ != "role"@,
        "refusal"@ != "call_id"@,
        "refusal"@ != "message"@,
        "refusal"@ != "content"@,
        "part"@ != "name"@,
        "part"@ != "item"@,
        "part"@ != "role"@,
        "arguments"@ != "assistant"@,
        "name"@ != "item"@,
        "name"@ != "role"@,
        "item"@ != "role"@,
        "annotations"@ != "output_text"@,
        "call_id"@ != "message"@,
        "call_id"@ != "content"@,
        "message"@ != "content"@,
{
    reveal_strlit("type");
    reveal_strlit("item_id");
    reveal_strlit("output_index");
    reveal_strlit("content_index");
    reveal_strlit("sequence_number");
    reveal_strlit("delta");
    reveal_strlit("text");
    reveal_strlit("refusal");
    reveal_strlit("part");
    reveal_strlit("arguments");
    reveal_strlit("name");
    reveal_strlit("item");
    reveal_strlit("logprobs");
    reveal_strlit("annotations");
    reveal_strlit("output_text");
    reveal_strlit("id");
    reveal_strlit("status");
    reveal_strlit("call_id");
    reveal_strlit("function_call");
    reveal_strlit("message");
    reveal_strlit("role");
    reveal_strlit("content");
    reveal_strlit("assistant");
    assert("type"@[1] != "text"@[1]);
    assert("type"@[0] != "part"@[0]);
    assert("type"@[0] != "name"@[0]);
    assert("type"@[0] != "item"@[0]);
    assert("type"@[0] != "role"@[0]);
    assert("item_id"@[0] != "refusal"@[0]);
    assert("item_id"@[0] != "call_id"@[0]);
    assert("item_id"@[0] != "message"@[0]);
    assert("item_id"@[0] != "content"@[0]);
    assert("content_index"@[0] != "function_call"@[0]);
    assert("text"@[0] != "part"@[0]);
    assert("text"@[0] != "name"@[0]);
    assert("text"@[0] != "item"@[0]);
    assert("text"@[0] != "role"@[0]);
    assert("refusal"@[0] != "call_id"@[0]);
    assert("refusal"@[0] != "message"@[0]);
    assert("refusal"@[0] != "content"@[0]);
    assert("part"@[0] != "name"@[0]);
    assert("part"@[0] != "item"@[0]);
    assert("part"@[0] != "role"@[0]);
    assert("arguments"@[1] != "assistant"@[1]);
    assert("name"@[0] != "item"@[0]);
    assert("name"@[0] != "role"@[0]);
    assert("item"@[0] != "role"@[0]);
    assert("annotations"@[0] != "output_text"@[0]);
    assert("call_id"@[0] != "message"@[0]);
    assert("call_id"@[1] != "content"@[1]);
    assert("message"@[0] != "content"@[0]);
}

// ---------------------------------------------------------------------------
// What events say of parts
// ---------------------------------------------------------------------------

/// The document that an event says.
pub open spec fn said(event: EventView) -> JsonView {
    match event.payload {
        PayloadView::Document(document) => document,
        _ => JsonView::Null,
    }
}

/// How many events are of a kind.
pub open spec fn kind_count(events: Seq<EventView>, kind: Seq<char>) -> nat
    decreases events.len(),
{
    if events.len() == 0 {
        0
    } else {
        kind_count(events.drop_last(), kind) + as_count(events.last().kind == kind)
    }
}

/// Whether an event begins a part of a type.
pub open spec fn begins_part(event: EventView, part: Seq<char>) -> bool {
    event.kind == "response.content_part.added"@ && said(event).get_in("part"@, "type"@) == Some(
        JsonView::Text(part),
    )
}

/// How many parts of a type events begin.
pub open spec fn parts_begun(events: Seq<EventView>, part: Seq<char>) -> nat
    decreases events.len(),
{
    if events.len() == 0 {
        0
    } else {
        parts_begun(events.drop_last(), part) + as_count(begins_part(events.last(), part))
    }
}

/// What an event tells of a refusal.
pub open spec fn refusal_piece(event: EventView) -> Seq<char> {
    if event.kind == "response.refusal.delta"@ && said(event).text_at("delta"@) is Some {
        said(event).text_at("delta"@)->0
    } else {
        Seq::empty()
    }
}

/// The refusal that events tell, piece by piece.
pub open spec fn told_refusal(events: Seq<EventView>) -> Seq<char>
    decreases events.len(),
{
    if events.len() == 0 {
        Seq::empty()
    } else {
        told_refusal(events.drop_last()) + refusal_piece(events.last())
    }
}

/// Whether an event belongs to the end of an answer.
pub open spec fn is_closing(kind: Seq<char>) -> bool {
    ||| kind == "response.output_text.done"@
    ||| kind == "response.content_part.done"@
    ||| kind == "response.refusal.done"@
    ||| kind == "response.function_call_arguments.done"@
    ||| kind == "response.output_item.done"@
    ||| kind == "response.completed"@
    ||| kind == "response.incomplete"@
    ||| kind == "response.failed"@
}

/// Whether a document names a part of the message.
pub open spec fn names_part(document: JsonView, state: TranslatorView, index: Option<usize>) -> bool {
    &&& document.text_at("item_id"@) == Some(state.msg_item_id)
    &&& state.places.message matches Some(own) && document.get("output_index"@) == Some(
        index_view(own),
    )
    &&& index matches Some(own) && document.get("content_index"@) == Some(index_view(own))
}

/// Whether a call has an output index and an item identifier.
pub open spec fn is_item_of(calls: Seq<CallView>, index: usize, item_id: Seq<char>) -> bool {
    exists|i: int|
        0 <= i < calls.len() && (#[trigger] calls[i]).output_index == Some(index)
            && calls[i].item_id == item_id
}

/// Whether an item announces a call that has an output index.
pub open spec fn announces_call(calls: Seq<CallView>, document: JsonView) -> bool {
    exists|i: int|
        {
            &&& 0 <= i < calls.len()
            &&& (#[trigger] calls[i]).output_index matches Some(index)
            &&& document.get("output_index"@) == Some(index_view(index))
            &&& document.get_in("item"@, "type"@) == Some(JsonView::Text("function_call"@))
            &&& document.get_in("item"@, "id"@) == Some(JsonView::Text(calls[i].item_id))
            &&& document.get_in("item"@, "call_id"@) == Some(JsonView::Text(calls[i].id))
            &&& document.get_in("item"@, "name"@) == Some(JsonView::Text(calls[i].name))
        }
}

/// Whether an item announces the message.
pub open spec fn announces_message(state: TranslatorView, document: JsonView) -> bool {
    &&& state.places.message matches Some(index)
    &&& document.get("output_index"@) == Some(index_view(index))
    &&& document.get_in("item"@, "type"@) == Some(JsonView::Text("message"@))
    &&& document.get_in("item"@, "id"@) == Some(JsonView::Text(state.msg_item_id))
}

/// Whether an event of an answer that has not ended agrees with its state: what it
/// speaks of has the place that it names.
pub open spec fn fits(state: TranslatorView, event: EventView) -> bool {
    &&& !is_closing(event.kind)
    &&& event.payload matches PayloadView::TextDelta { item_id, output_index, content_index, .. }
        ==> item_id == state.msg_item_id && state.places.message == Some(output_index)
        && state.places.text == Some(content_index)
    &&& event.payload matches PayloadView::ArgumentsDelta { item_id, output_index, .. }
        ==> is_item_of(state.tool_calls, output_index, item_id)
    &&& event.kind == "response.refusal.delta"@ ==> names_part(
        said(event),
        state,
        state.places.refusal,
    )
    &&& event.kind == "response.content_part.added"@ ==> {
        ||| begins_part(event, "output_text"@) && names_part(said(event), state, state.places.text)
        ||| begins_part(event, "refusal"@) && names_part(
            said(event),
            state,
            state.places.refusal,
        )
    }
    &&& event.kind == "response.output_item.added"@ ==> announces_message(state, said(event))
        || announces_call(state.tool_calls, said(event))
}

/// Whether the parts of the message stand one after the other.
pub open spec fn are_in_place(places: Places) -> bool {
    &&& places.text is Some && places.refusal is None ==> places.text == Some(0usize)
    &&& places.text is None && places.refusal is Some ==> places.refusal == Some(0usize)
    &&& places.text is Some && places.refusal is Some ==> {
        ||| places.text == Some(0usize) && places.refusal == Some(1usize)
        ||| places.text == Some(1usize) && places.refusal == Some(0usize)
    }
}

/// Whether the events of an answer that has not ended agree with its state: each
/// part was begun once, none is closed, and the refusal is all told.
pub open spec fn keeps_parts(flow: Flow) -> bool {
    &&& forall|j: int| 0 <= j < flow.out.len() ==> fits(flow.state, #[trigger] flow.out[j])
    &&& parts_begun(flow.out, "output_text"@) == as_count(flow.state.places.text is Some)
    &&& parts_begun(flow.out, "refusal"@) == as_count(flow.state.places.refusal is Some)
    &&& told_refusal(flow.out) == flow.state.refusal_text
    &&& are_in_place(flow.state.places)
    &&& flow.state.places.text is Some || flow.state.places.refusal is Some
        ==> flow.state.places.message is Some
}

/// Whether what has a place keeps it.
pub open spec fn keeps_places(before: TranslatorView, after: TranslatorView) -> bool {
    &&& after.msg_item_id == before.msg_item_id
    &&& before.places.message is Some ==> after.places.message == before.places.message
    &&& before.places.text is Some ==> after.places.text == before.places.text
    &&& before.places.refusal is Some ==> after.places.refusal == before.places.refusal
    &&& forall|i: int|
        0 <= i < before.tool_calls.len() && (#[trigger] before.tool_calls[i]).output_index is Some
            ==> has_same(after.tool_calls, before.tool_calls[i])
}

/// Whether one of the calls is a call under the names that it was announced by.
pub open spec fn has_same(calls: Seq<CallView>, call: CallView) -> bool {
    exists|k: int|
        {
            &&& 0 <= k < calls.len()
            &&& (#[trigger] calls[k]).output_index == call.output_index
            &&& calls[k].item_id == call.item_id
            &&& calls[k].id == call.id
            &&& calls[k].name == call.name
        }
}

proof fn lemma_still_fits(before: TranslatorView, after: TranslatorView, event: EventView)
    requires
        fits(before, event),
        keeps_places(before, after),
    ensures
        fits(after, event),
{
    if let PayloadView::ArgumentsDelta { item_id, output_index, .. } = event.payload {
        let i = choose|i: int|
            0 <= i < before.tool_calls.len() && (#[trigger] before.tool_calls[i]).output_index
                == Some(output_index) && before.tool_calls[i].item_id == item_id;
        assert(has_same(after.tool_calls, before.tool_calls[i]));
    }
    let document = said(event);
    if announces_call(before.tool_calls, document) {
        let i = choose|i: int|
            {
                &&& 0 <= i < before.tool_calls.len()
                &&& (#[trigger] before.tool_calls[i]).output_index matches Some(index)
                &&& document.get("output_index"@) == Some(index_view(index))
                &&& document.get_in("item"@, "type"@) == Some(JsonView::Text("function_call"@))
                &&& document.get_in("item"@, "id"@) == Some(
                    JsonView::Text(before.tool_calls[i].item_id),
                )
                &&& document.get_in("item"@, "call_id"@) == Some(
                    JsonView::Text(before.tool_calls[i].id),
                )
                &&& document.get_in("item"@, "name"@) == Some(
                    JsonView::Text(before.tool_calls[i].name),
                )
            };
        assert(has_same(after.tool_calls, before.tool_calls[i]));
        let k = choose|k: int|
            {
                &&& 0 <= k < after.tool_calls.len()
                &&& (#[trigger] after.tool_calls[k]).output_index
                    == before.tool_calls[i].output_index
                &&& after.tool_calls[k].item_id == before.tool_calls[i].item_id
                &&& after.tool_calls[k].id == before.tool_calls[i].id
                &&& after.tool_calls[k].name == before.tool_calls[i].name
            };
        assert(after.tool_calls[k].output_index is Some);
        assert(announces_call(after.tool_calls, document));
    }
}

proof fn lemma_same_calls(before: TranslatorView, after: TranslatorView)
    requires
        after.tool_calls == before.tool_calls,
    ensures
        forall|i: int|
            0 <= i < before.tool_calls.len() && (
            #[trigger] before.tool_calls[i]).output_index is Some ==> has_same(
                after.tool_calls,
                before.tool_calls[i],
            ),
{
    assert forall|i: int|
        0 <= i < before.tool_calls.len() && (#[trigger] before.tool_calls[i]).output_index
            is Some implies has_same(after.tool_calls, before.tool_calls[i]) by {
        assert(after.tool_calls[i].output_index == before.tool_calls[i].output_index);
    }
}

proof fn lemma_one_more(events: Seq<EventView>, event: EventView)
    ensures
        forall|kind: Seq<char>| #[trigger]
            kind_count(events.push(event), kind) == kind_count(events, kind) + as_count(
                event.kind == kind,
            ),
        forall|part: Seq<char>| #[trigger]
            parts_begun(events.push(event), part) == parts_begun(events, part) + as_count(
                begins_part(event, part),
            ),
        told_refusal(events.push(event)) == told_refusal(events) + refusal_piece(event),
        refusal_piece(event).len() == 0 ==> told_refusal(events.push(event)) == told_refusal(
            events,
        ),
{
    assert(events.push(event).drop_last() =~= events);
    if refusal_piece(event).len() == 0 {
        assert(told_refusal(events) + refusal_piece(event) =~= told_refusal(events));
    }
}

/// A step that tells nothing.
proof fn lemma_silent_step(before: Flow, after: Flow)
    requires
        keeps_parts(before),
        keeps_places(before.state, after.state),
        after.out == before.out,
        after.state.places == before.state.places,
        after.state.refusal_text == before.state.refusal_text,
    ensures
        keeps_parts(after),
{
    assert forall|j: int| 0 <= j < after.out.len() implies fits(
        after.state,
        #[trigger] after.out[j],
    ) by {
        lemma_still_fits(before.state, after.state, before.out[j]);
    }
}

/// A step that tells one event.
proof fn lemma_step(before: Flow, after: Flow, event: EventView)
    requires
        keeps_parts(before),
        keeps_places(before.state, after.state),
        after.out == before.out.push(event),
        fits(after.state, event),
        as_count(after.state.places.text is Some) == as_count(before.state.places.text is Some)
            + as_count(begins_part(event, "output_text"@)),
        as_count(after.state.places.refusal is Some) == as_count(
            before.state.places.refusal is Some,
        ) + as_count(begins_part(event, "refusal"@)),
        after.state.refusal_text == before.state.refusal_text + refusal_piece(event) || (
        refusal_piece(event).len() == 0 && after.state.refusal_text == before.state.refusal_text),
        after.state.places.text is Some || after.state.places.refusal is Some
            ==> after.state.places.message is Some,
        are_in_place(after.state.places),
    ensures
        keeps_parts(after),
{
    lemma_one_more(before.out, event);
    assert forall|j: int| 0 <= j < after.out.len() implies fits(
        after.state,
        #[trigger] after.out[j],
    ) by {
        if j < before.out.len() {
            assert(after.out[j] == before.out[j]);
            lemma_still_fits(before.state, after.state, before.out[j]);
        }
    }
}

proof fn lemma_start_message_parts(flow: Flow)
    requires
        keeps_parts(flow),
    ensures
        keeps_parts(flow.start_message()),
        flow.start_message().state.places.message is Some,
{
    lemma_event_kinds();
    lemma_event_words();
    let after = flow.start_message();
    if flow.state.places.message is None {
        let item = response::message_item(flow.state.msg_item_id, "in_progress"@, Seq::empty());
        assert(item.get("type"@) == Some(JsonView::Text("message"@)));
        assert(item.get("id"@) == Some(JsonView::Text(flow.state.msg_item_id)));
        let event = after.out.last();
        assert(said(event).get("item"@) == Some(item));
        lemma_same_calls(flow.state, after.state);
        lemma_step(flow, after, event);
    }
}

proof fn lemma_part_names(
    kind: Seq<char>,
    item_id: Seq<char>,
    output_index: usize,
    content_index: usize,
    key: Seq<char>,
    value: JsonView,
    sequence: u32,
)
    requires
        key == "part"@ || key == "delta"@ || key == "text"@ || key == "refusal"@,
    ensures
        ({
            let document = stream::part_document(kind, item_id, output_index, content_index).with(
                key,
                value,
            );
            let event = events::numbered_event(kind, document, sequence);
            &&& said(event).get(key) == Some(value)
            &&& said(event).text_at("item_id"@) == Some(item_id)
            &&& said(event).get("output_index"@) == Some(index_view(output_index))
            &&& said(event).get("content_index"@) == Some(index_view(content_index))
        }),
{
    lemma_event_words();
    let document = stream::part_document(kind, item_id, output_index, content_index);
    assert(document.get("content_index"@) == Some(index_view(content_index)));
    assert(document.get("output_index"@) == Some(index_view(output_index)));
    assert(document.get("item_id"@) == Some(JsonView::Text(item_id)));
    let filled = document.with(key, value);
    assert(filled.get("item_id"@) == document.get("item_id"@));
    assert(filled.get(key) == Some(value));
}

proof fn lemma_part_members(text: Seq<char>)
    ensures
        response::output_text_part(text).get("type"@) == Some(JsonView::Text("output_text"@)),
        response::output_text_part(text).get("text"@) == Some(JsonView::Text(text)),
        response::refusal_part(text).get("type"@) == Some(JsonView::Text("refusal"@)),
        response::refusal_part(text).get("refusal"@) == Some(JsonView::Text(text)),
{
    lemma_event_words();
}

proof fn lemma_start_text_parts(flow: Flow)
    requires
        keeps_parts(flow),
    ensures
        keeps_parts(flow.start_text()),
        flow.start_text().state.places.text is Some,
{
    lemma_event_kinds();
    lemma_event_words();
    let after = flow.start_text();
    if flow.state.places.text is None {
        lemma_start_message_parts(flow);
        let begun = flow.start_message();
        let index: usize = if begun.state.places.refusal is Some {
            1
        } else {
            0
        };
        lemma_part_members(""@);
        lemma_part_names(
            "response.content_part.added"@,
            begun.state.msg_item_id,
            place(begun.state.places.message),
            index,
            "part"@,
            response::output_text_part(""@),
            begun.state.sequence,
        );
        let event = after.out.last();
        assert(begins_part(event, "output_text"@));
        assert(!begins_part(event, "refusal"@));
        lemma_same_calls(begun.state, after.state);
        lemma_step(begun, after, event);
    }
}

proof fn lemma_start_refusal_parts(flow: Flow)
    requires
        keeps_parts(flow),
    ensures
        keeps_parts(flow.start_refusal()),
        flow.start_refusal().state.places.refusal is Some,
{
    lemma_event_kinds();
    lemma_event_words();
    let after = flow.start_refusal();
    if flow.state.places.refusal is None {
        lemma_start_message_parts(flow);
        let begun = flow.start_message();
        let index: usize = if begun.state.places.text is Some {
            1
        } else {
            0
        };
        lemma_part_members(""@);
        lemma_part_names(
            "response.content_part.added"@,
            begun.state.msg_item_id,
            place(begun.state.places.message),
            index,
            "part"@,
            response::refusal_part(""@),
            begun.state.sequence,
        );
        let event = after.out.last();
        assert(begins_part(event, "refusal"@));
        assert(!begins_part(event, "output_text"@));
        lemma_same_calls(begun.state, after.state);
        lemma_step(begun, after, event);
    }
}

proof fn lemma_tell_text_parts(flow: Flow, delta: Seq<char>)
    requires
        keeps_parts(flow),
        flow.state.places.text is Some,
    ensures
        keeps_parts(flow.tell_text(delta)),
{
    lemma_event_kinds();
    let after = flow.tell_text(delta);
    lemma_same_calls(flow.state, after.state);
    lemma_step(flow, after, after.out.last());
}

proof fn lemma_take_text_parts(flow: Flow, delta: Seq<char>)
    requires
        keeps_parts(flow),
    ensures
        keeps_parts(flow.take_text(delta)),
{
    let held = Flow {
        state: TranslatorView { full_text: flow.state.full_text + delta, ..flow.state },
        out: flow.out,
    };
    lemma_same_calls(flow.state, held.state);
    lemma_silent_step(flow, held);
    if !flow.state.structured_output {
        lemma_start_text_parts(held);
        lemma_tell_text_parts(held.start_text(), delta);
    }
}

proof fn lemma_take_refusal_parts(flow: Flow, delta: Seq<char>)
    requires
        keeps_parts(flow),
    ensures
        keeps_parts(flow.take_refusal(delta)),
{
    lemma_event_kinds();
    lemma_event_words();
    lemma_start_refusal_parts(flow);
    let begun = flow.start_refusal();
    let after = flow.take_refusal(delta);
    lemma_part_names(
        "response.refusal.delta"@,
        begun.state.msg_item_id,
        place(begun.state.places.message),
        place(begun.state.places.refusal),
        "delta"@,
        JsonView::Text(delta),
        begun.state.sequence,
    );
    let event = after.out.last();
    assert(refusal_piece(event) == delta);
    lemma_same_calls(begun.state, after.state);
    lemma_step(begun, after, event);
}

proof fn lemma_spoken_parts(flow: Flow, delta: JsonView)
    requires
        keeps_parts(flow),
    ensures
        keeps_parts(flow.spoken(delta)),
{
    let heard = match stream::delta_text(delta) {
        Some(text) => flow.take_text(text),
        None => flow,
    };
    if let Some(text) = stream::delta_text(delta) {
        lemma_take_text_parts(flow, text);
    }
    if let Some(refusal) = response::message_refusal(delta) {
        lemma_take_refusal_parts(heard, refusal);
    }
}

proof fn lemma_call_parts(flow: Flow, call: JsonView, position: int, fresh: Seq<char>)
    requires
        keeps_parts(flow),
        is_well_placed(flow.state),
        in_order(flow.state.tool_calls),
        flow.take_call(call, position, fresh).failure is None,
    ensures
        keeps_parts(flow.take_call(call, position, fresh).flow),
{
    lemma_event_kinds();
    lemma_event_words();
    let before = flow.state.tool_calls;
    let own = stream::stated_index(call, position);
    let informed = stream::informed_call(before, call, position, fresh);
    let start = CallFlow { flow, call: informed };
    let announced = start.announced();
    let told = announced.told();
    let after = flow.with_call(call, position, fresh);
    let calls = after.state.tool_calls;
    let spot = stream::slot(before, own);
    stream::lemma_slot(before, own);
    let known = known_call(before, own) is Some;
    if known {
        assert(before[spot].index == own);
        assert(stream_laws::is_in_step(before[spot]));
    }
    assert(told.call.index == own);
    assert(calls[spot] == told.call);
    assert forall|k: int| 0 <= k < before.len() && (#[trigger] before[k]).output_index
        is Some implies has_same(calls, before[k]) by {
        if known && k == spot {
            assert(calls[spot].output_index == before[k].output_index);
            assert(calls[spot].item_id == before[k].item_id);
            assert(calls[spot].id == before[k].id);
            assert(calls[spot].name == before[k].name);
        } else {
            let i = if known || k < spot {
                k
            } else {
                k + 1
            };
            assert(calls[i] == before[k]);
        }
    }
    let settled = Flow { state: after.state, out: flow.out };
    lemma_silent_step(flow, settled);
    let is_new = informed.output_index is None && informed.id.len() > 0 && informed.name.len() > 0;
    let introduced = Flow { state: after.state, out: announced.flow.out };
    if is_new {
        let event = announced.flow.out.last();
        let item = response::call_item(
            informed.item_id,
            "in_progress"@,
            informed.id,
            informed.name,
            ""@,
        );
        assert(item.get("type"@) == Some(JsonView::Text("function_call"@)));
        assert(item.get("id"@) == Some(JsonView::Text(informed.item_id)));
        assert(item.get("call_id"@) == Some(JsonView::Text(informed.id)));
        assert(item.get("name"@) == Some(JsonView::Text(informed.name)));
        assert(said(event).get("item"@) == Some(item));
        assert(said(event).get("output_index"@) == Some(
            index_view(flow.state.next_output_index),
        ));
        assert(calls[spot].output_index == Some(flow.state.next_output_index));
        assert(announces_call(calls, said(event)));
        lemma_same_calls(settled.state, introduced.state);
        lemma_step(settled, introduced, event);
    } else {
        assert(introduced == settled);
    }
    if announced.call.output_index is Some && announced.call.unsent.len() > 0 {
        let event = told.flow.out.last();
        assert(calls[spot].output_index == announced.call.output_index);
        lemma_same_calls(introduced.state, after.state);
        lemma_step(introduced, after, event);
    } else {
        assert(after == introduced);
    }
}

proof fn lemma_calls_parts(flow: Flow, calls: Seq<JsonView>, fresh: Seq<Seq<char>>)
    requires
        keeps_parts(flow),
        is_well_placed(flow.state),
        in_order(flow.state.tool_calls),
        flow.state.next_output_index + calls.len() <= usize::MAX,
        flow.take_calls(calls, fresh).failure is None,
    ensures
        keeps_parts(flow.take_calls(calls, fresh).flow),
        is_well_placed(flow.take_calls(calls, fresh).flow.state),
        in_order(flow.take_calls(calls, fresh).flow.state.tool_calls),
        flow.take_calls(calls, fresh).flow.state.next_output_index
            <= flow.state.next_output_index + calls.len(),
    decreases calls.len(),
{
    if calls.len() > 0 {
        lemma_calls_parts(flow, calls.drop_last(), fresh);
        let earlier = flow.take_calls(calls.drop_last(), fresh).flow;
        let position = calls.len() - 1;
        stream_laws::lemma_call_keeps_places(earlier, calls.last(), position, fresh[position]);
        lemma_call_parts(earlier, calls.last(), position, fresh[position]);
    }
}

/// The parts that a chunk begins and goes on with agree with the state after it.
pub proof fn law_chunk_keeps_parts(flow: Flow, chunk: JsonView, fresh: Seq<Seq<char>>)
    requires
        keeps_parts(flow),
        is_well_placed(flow.state),
        in_order(flow.state.tool_calls),
        flow.state.next_output_index + chunk_calls(chunk).len() + 1 <= usize::MAX,
        flow.push_chunk(chunk, fresh).failure is None,
    ensures
        keeps_parts(flow.push_chunk(chunk, fresh).flow),
{
    let known = flow.informed(chunk);
    lemma_same_calls(flow.state, known.state);
    lemma_silent_step(flow, known);
    if let Some(choice) = response::first_choice(chunk) {
        if let Some(delta) = stream::choice_delta(choice) {
            let reasoned = known.chosen(choice).reasoned(delta);
            lemma_same_calls(known.state, reasoned.state);
            lemma_silent_step(known, reasoned);
            stream_laws::lemma_claim_keeps_places(flow.state, reasoned.state);
            lemma_spoken_parts(reasoned, delta);
            stream_laws::lemma_spoken_claims(reasoned, delta);
            let spoken = reasoned.spoken(delta);
            stream_laws::lemma_claim_keeps_places(reasoned.state, spoken.state);
            lemma_calls_parts(spoken, response::message_calls(delta), fresh);
        }
    }
}

/// The parts of an answer agree with its state after any chunks.
pub proof fn law_chunks_keep_parts(
    start: Flow,
    chunks: Seq<JsonView>,
    fresh: Seq<Seq<Seq<char>>>,
)
    requires
        keeps_parts(start),
        keeps_books(start),
        tells_text(start),
        is_well_placed(start.state),
        in_order(start.state.tool_calls),
        start.state.next_output_index + most_claims(chunks) <= usize::MAX,
        start.accepts(chunks, fresh),
    ensures
        keeps_parts(start.after_chunks(chunks, fresh)),
    decreases chunks.len(),
{
    if chunks.len() > 0 {
        let rest = chunks.drop_last();
        law_chunks_keep_parts(start, rest, fresh);
        stream_items::law_chunks_keep_books(start, rest, fresh);
        law_chunk_keeps_parts(
            start.after_chunks(rest, fresh),
            chunks.last(),
            fresh[chunks.len() - 1],
        );
    }
}

proof fn lemma_released_parts(flow: Flow)
    requires
        keeps_parts(flow),
    ensures
        keeps_parts(flow.released()),
{
    if holds_output(flow.state) {
        let after = flow.released();
        match stream_end::checked_text(flow.state) {
            Some(text) => {
                lemma_start_text_parts(flow);
                let begun = flow.start_text();
                let replaced = Flow {
                    state: TranslatorView { full_text: text, ..begun.state },
                    out: begun.out,
                };
                lemma_same_calls(begun.state, replaced.state);
                lemma_silent_step(begun, replaced);
                lemma_tell_text_parts(replaced, text);
            },
            None => {
                lemma_same_calls(flow.state, after.state);
                lemma_silent_step(flow, after);
            },
        }
    }
}

/// An answer that has just begun has no parts.
pub proof fn law_beginning_keeps_parts(
    context: ContextView,
    msg_item_id: Seq<char>,
    message: Seq<char>,
)
    ensures
        keeps_parts(context.opened(msg_item_id, message).flow),
{
    lemma_event_kinds();
    let state = stream::fresh_translator(
        context.response_id,
        context.model,
        context.created_at,
        context.structured_output,
        context.structured_schema,
        context.metadata,
        msg_item_id,
    );
    let empty = Flow { state, out: Seq::empty() };
    let created = stream::stub_document(state, "response.created"@, "in_progress"@);
    let progress = stream::stub_document(state, "response.in_progress"@, "in_progress"@);
    let first = empty.emit("response.created"@, created);
    let flow = first.emit("response.in_progress"@, progress);
    assert(flow == context.opened(msg_item_id, message).flow);
    assert(keeps_parts(empty));
    lemma_step(empty, first, first.out.last());
    lemma_step(first, flow, flow.out.last());
}

// ---------------------------------------------------------------------------
// The end
// ---------------------------------------------------------------------------

/// Whether a document closes a call: it names the call and holds its arguments.
pub open spec fn closes_call(calls: Seq<CallView>, document: JsonView) -> bool {
    exists|i: int|
        {
            &&& 0 <= i < calls.len()
            &&& (#[trigger] calls[i]).output_index matches Some(index)
            &&& document.get("output_index"@) == Some(index_view(index))
            &&& document.text_at("item_id"@) == Some(calls[i].item_id)
            &&& document.text_at("name"@) == Some(calls[i].name)
            &&& document.text_at("arguments"@) == Some(calls[i].arguments)
        }
}

/// Whether a document closes the item of a call.
pub open spec fn closes_call_item(calls: Seq<CallView>, document: JsonView) -> bool {
    exists|i: int|
        {
            &&& 0 <= i < calls.len()
            &&& (#[trigger] calls[i]).output_index matches Some(index)
            &&& document.get("output_index"@) == Some(index_view(index))
            &&& document.get_in("item"@, "type"@) == Some(JsonView::Text("function_call"@))
            &&& document.get_in("item"@, "id"@) == Some(JsonView::Text(calls[i].item_id))
            &&& document.get_in("item"@, "call_id"@) == Some(JsonView::Text(calls[i].id))
            &&& document.get_in("item"@, "name"@) == Some(JsonView::Text(calls[i].name))
            &&& document.get_in("item"@, "arguments"@) == Some(JsonView::Text(calls[i].arguments))
        }
}

/// Whether a document closes the item of the message.
pub open spec fn closes_message_item(state: TranslatorView, document: JsonView) -> bool {
    &&& announces_message(state, document)
    &&& document.get_in("item"@, "role"@) == Some(JsonView::Text("assistant"@))
    &&& document.get_in("item"@, "content"@) matches Some(JsonView::Array(parts))
    &&& parts.len() == as_count(state.places.text is Some) + as_count(
        state.places.refusal is Some,
    )
    &&& forall|i: int|
        0 <= i < parts.len() ==> is_whole_part(state, #[trigger] parts[i])
    &&& state.places.text matches Some(place) ==> place < parts.len() && parts[place as int].text_at(
        "text"@,
    ) == Some(state.full_text)
    &&& state.places.refusal matches Some(place) ==> place < parts.len()
        && parts[place as int].text_at("refusal"@) == Some(state.refusal_text)
}

/// Whether a part is all of the text, or all of the refusal.
pub open spec fn is_whole_part(state: TranslatorView, part: JsonView) -> bool {
    ||| part.text_at("type"@) == Some("output_text"@) && state.places.text is Some && part.text_at(
        "text"@,
    ) == Some(state.full_text)
    ||| part.text_at("type"@) == Some("refusal"@) && state.places.refusal is Some && part.text_at(
        "refusal"@,
    ) == Some(state.refusal_text)
}

/// Whether an event closes what it names with all that was told of it.
pub open spec fn closes(state: TranslatorView, event: EventView) -> bool {
    let document = said(event);
    &&& event.payload is Document
    &&& {
        ||| event.kind == "response.output_text.done"@ && names_part(
            document,
            state,
            state.places.text,
        ) && document.text_at("text"@) == Some(state.full_text)
        ||| event.kind == "response.refusal.done"@ && names_part(document, state, state.places.refusal)
            && document.text_at("refusal"@) == Some(state.refusal_text)
        ||| event.kind == "response.content_part.done"@ && names_part(
            document,
            state,
            state.places.text,
        ) && document.get_in("part"@, "type"@) == Some(JsonView::Text("output_text"@))
            && document.get_in("part"@, "text"@) == Some(JsonView::Text(state.full_text))
        ||| event.kind == "response.content_part.done"@ && names_part(
            document,
            state,
            state.places.refusal,
        ) && document.get_in("part"@, "type"@) == Some(JsonView::Text("refusal"@)) && document.get_in(
            "part"@,
            "refusal"@,
        ) == Some(JsonView::Text(state.refusal_text))
        ||| event.kind == "response.function_call_arguments.done"@ && closes_call(
            state.tool_calls,
            document,
        )
        ||| event.kind == "response.output_item.done"@ && (closes_message_item(state, document)
            || closes_call_item(state.tool_calls, document))
        ||| event.kind == "response.completed"@
        ||| event.kind == "response.incomplete"@
    }
}

/// What a step of the end adds: events that close parts of the answer, so many of
/// each kind, and nothing that begins or tells one.
spec fn adds_closing(
    state: TranslatorView,
    before: Flow,
    after: Flow,
    texts: nat,
    refusals: nat,
    parts: nat,
) -> bool {
    &&& after.state.places == before.state.places
    &&& after.state.msg_item_id == before.state.msg_item_id
    &&& after.state.full_text == before.state.full_text
    &&& after.state.refusal_text == before.state.refusal_text
    &&& after.state.tool_calls == before.state.tool_calls
    &&& before.out.len() <= after.out.len()
    &&& forall|j: int|
        0 <= j < before.out.len() ==> #[trigger] after.out[j] == before.out[j]
    &&& forall|j: int|
        before.out.len() <= j < after.out.len() ==> closes(state, #[trigger] after.out[j])
    &&& kind_count(after.out, "response.output_text.done"@) == kind_count(
        before.out,
        "response.output_text.done"@,
    ) + texts
    &&& kind_count(after.out, "response.refusal.done"@) == kind_count(
        before.out,
        "response.refusal.done"@,
    ) + refusals
    &&& kind_count(after.out, "response.content_part.done"@) == kind_count(
        before.out,
        "response.content_part.done"@,
    ) + parts
    &&& parts_begun(after.out, "output_text"@) == parts_begun(before.out, "output_text"@)
    &&& parts_begun(after.out, "refusal"@) == parts_begun(before.out, "refusal"@)
    &&& told_refusal(after.out) == told_refusal(before.out)
}

proof fn lemma_closing_twice(
    state: TranslatorView,
    first: Flow,
    second: Flow,
    third: Flow,
    one: (nat, nat, nat),
    two: (nat, nat, nat),
)
    requires
        adds_closing(state, first, second, one.0, one.1, one.2),
        adds_closing(state, second, third, two.0, two.1, two.2),
    ensures
        adds_closing(state, first, third, one.0 + two.0, one.1 + two.1, one.2 + two.2),
{
    assert forall|j: int| 0 <= j < first.out.len() implies #[trigger] third.out[j] == first.out[j] by {
        assert(second.out[j] == first.out[j]);
    }
    assert forall|j: int| first.out.len() <= j < third.out.len() implies closes(
        state,
        #[trigger] third.out[j],
    ) by {
        if j < second.out.len() {
            assert(third.out[j] == second.out[j]);
            assert(closes(state, second.out[j]));
        }
    }
}

proof fn lemma_closing_event(state: TranslatorView, flow: Flow, kind: Seq<char>, document: JsonView)
    requires
        closes(state, flow.emit(kind, document).out.last()),
    ensures
        adds_closing(
            state,
            flow,
            flow.emit(kind, document),
            as_count(kind == "response.output_text.done"@),
            as_count(kind == "response.refusal.done"@),
            as_count(kind == "response.content_part.done"@),
        ),
{
    lemma_event_kinds();
    lemma_one_more(flow.out, flow.emit(kind, document).out.last());
}

proof fn lemma_close_text_parts(flow: Flow)
    requires
        flow.state.places.text is Some ==> flow.state.places.message is Some,
    ensures
        adds_closing(
            flow.state,
            flow,
            flow.close_text(),
            as_count(flow.state.places.text is Some),
            0,
            as_count(flow.state.places.text is Some),
        ),
{
    lemma_event_kinds();
    lemma_event_words();
    if let Some(index) = flow.state.places.text {
        let id = flow.state.msg_item_id;
        let output = place(flow.state.places.message);
        let kind = "response.output_text.done"@;
        let told = stream::part_document(kind, id, output, index).with(
            "text"@,
            JsonView::Text(flow.state.full_text),
        );
        lemma_part_names(
            kind,
            id,
            output,
            index,
            "text"@,
            JsonView::Text(flow.state.full_text),
            flow.state.sequence,
        );
        let document = told.with("logprobs"@, response::empty_array());
        let ended = flow.emit(kind, document);
        assert(forall|key: Seq<char>|
            key != "logprobs"@ ==> #[trigger] document.get(key) == told.get(key));
        let plain = said(events::numbered_event(kind, told, flow.state.sequence));
        assert(forall|key: Seq<char>|
            key != "logprobs"@ ==> #[trigger] said(ended.out.last()).get(key) == plain.get(key));
        assert(names_part(said(ended.out.last()), flow.state, flow.state.places.text));
        lemma_closing_event(flow.state, flow, kind, document);
        let last = "response.content_part.done"@;
        lemma_part_members(flow.state.full_text);
        lemma_part_names(
            last,
            id,
            output,
            index,
            "part"@,
            response::output_text_part(flow.state.full_text),
            ended.state.sequence,
        );
        let part = stream::part_document(last, id, output, index).with(
            "part"@,
            response::output_text_part(flow.state.full_text),
        );
        lemma_closing_event(flow.state, ended, last, part);
        lemma_closing_twice(flow.state, flow, ended, flow.close_text(), (1, 0, 0), (0, 0, 1));
    }
}

proof fn lemma_close_refusal_parts(flow: Flow)
    requires
        flow.state.places.refusal is Some ==> flow.state.places.message is Some,
    ensures
        adds_closing(
            flow.state,
            flow,
            flow.close_refusal(),
            0,
            as_count(flow.state.places.refusal is Some),
            as_count(flow.state.places.refusal is Some),
        ),
{
    lemma_event_kinds();
    lemma_event_words();
    if let Some(index) = flow.state.places.refusal {
        let id = flow.state.msg_item_id;
        let output = place(flow.state.places.message);
        let kind = "response.refusal.done"@;
        let document = stream::part_document(kind, id, output, index).with(
            "refusal"@,
            JsonView::Text(flow.state.refusal_text),
        );
        lemma_part_names(
            kind,
            id,
            output,
            index,
            "refusal"@,
            JsonView::Text(flow.state.refusal_text),
            flow.state.sequence,
        );
        let ended = flow.emit(kind, document);
        lemma_closing_event(flow.state, flow, kind, document);
        let last = "response.content_part.done"@;
        lemma_part_members(flow.state.refusal_text);
        lemma_part_names(
            last,
            id,
            output,
            index,
            "part"@,
            response::refusal_part(flow.state.refusal_text),
            ended.state.sequence,
        );
        let part = stream::part_document(last, id, output, index).with(
            "part"@,
            response::refusal_part(flow.state.refusal_text),
        );
        lemma_closing_event(flow.state, ended, last, part);
        lemma_closing_twice(flow.state, flow, ended, flow.close_refusal(), (0, 1, 0), (0, 0, 1));
    }
}

proof fn lemma_closing_of_same(
    one: TranslatorView,
    other: TranslatorView,
    before: Flow,
    after: Flow,
    count: (nat, nat, nat),
)
    requires
        adds_closing(one, before, after, count.0, count.1, count.2),
        one.places == other.places,
        one.msg_item_id == other.msg_item_id,
        one.full_text == other.full_text,
        one.refusal_text == other.refusal_text,
        one.tool_calls == other.tool_calls,
    ensures
        adds_closing(other, before, after, count.0, count.1, count.2),
{
    assert forall|j: int| before.out.len() <= j < after.out.len() implies closes(
        other,
        #[trigger] after.out[j],
    ) by {
        assert(closes(one, after.out[j]));
        let document = said(after.out[j]);
        assert(closes_message_item(one, document) ==> closes_message_item(other, document)) by {
            if closes_message_item(one, document) {
                let parts = document.get_in("item"@, "content"@)->0->Array_0;
                assert forall|i: int| 0 <= i < parts.len() implies is_whole_part(
                    other,
                    #[trigger] parts[i],
                ) by {
                    assert(is_whole_part(one, parts[i]));
                }
            }
        }
    }
}

proof fn lemma_message_is_closed(flow: Flow, state: TranslatorView, ending: Ending)
    requires
        state.places.message is Some,
        are_in_place(state.places),
    ensures
        ({
            let kind = "response.output_item.done"@;
            let item = stream_end::final_message(state, ending);
            let document = stream::item_done(state.places.message->0, item);
            closes(state, flow.emit(kind, document).out.last())
        }),
{
    lemma_event_words();
    let kind = "response.output_item.done"@;
    let item = stream_end::final_message(state, ending);
    let document = stream::item_done(state.places.message->0, item);
    let told = said(flow.emit(kind, document).out.last());
    assert(document.get("item"@) == Some(item));
    assert(document.get("output_index"@) == Some(index_view(state.places.message->0)));
    assert(told.get("item"@) == Some(item));
    assert(told.get("output_index"@) == document.get("output_index"@));
    assert(item.get("type"@) == Some(JsonView::Text("message"@)));
    assert(item.get("id"@) == Some(JsonView::Text(state.msg_item_id)));
    assert(item.get("role"@) == Some(JsonView::Text("assistant"@)));
    let parts = stream_end::message_content(state);
    assert(item.get("content"@) == Some(JsonView::Array(parts)));
    lemma_part_members(state.full_text);
    lemma_part_members(state.refusal_text);
    assert forall|i: int| 0 <= i < parts.len() implies is_whole_part(
        state,
        #[trigger] parts[i],
    ) by {
        assert(parts[i] == response::output_text_part(state.full_text) || parts[i]
            == response::refusal_part(state.refusal_text));
    }
    assert(closes_message_item(state, told));
}

proof fn lemma_close_message_parts(flow: Flow, ending: Ending)
    requires
        are_in_place(flow.state.places),
        flow.state.places.text is Some || flow.state.places.refusal is Some
            ==> flow.state.places.message is Some,
    ensures
        adds_closing(
            flow.state,
            flow,
            flow.close_message(ending),
            as_count(flow.state.places.text is Some),
            as_count(flow.state.places.refusal is Some),
            as_count(flow.state.places.text is Some) + as_count(
                flow.state.places.refusal is Some,
            ),
        ),
{
    lemma_event_kinds();
    if let Some(index) = flow.state.places.message {
        let texts = as_count(flow.state.places.text is Some);
        let refusals = as_count(flow.state.places.refusal is Some);
        let told = flow.close_text();
        lemma_close_text_parts(flow);
        lemma_close_refusal_parts(told);
        let refused = told.close_refusal();
        lemma_closing_of_same(told.state, flow.state, told, refused, (0, refusals, refusals));
        lemma_closing_twice(
            flow.state,
            flow,
            told,
            refused,
            (texts, 0, texts),
            (0, refusals, refusals),
        );
        lemma_message_is_closed(refused, flow.state, ending);
        let document = stream::item_done(index, stream_end::final_message(flow.state, ending));
        lemma_closing_event(flow.state, refused, "response.output_item.done"@, document);
        lemma_closing_twice(
            flow.state,
            flow,
            refused,
            flow.close_message(ending),
            (texts, refusals, texts + refusals),
            (0, 0, 0),
        );
    }
}

proof fn lemma_close_call_parts(
    state: TranslatorView,
    flow: Flow,
    place: int,
    ending: Ending,
)
    requires
        0 <= place < state.tool_calls.len(),
        state.tool_calls[place].output_index is Some,
    ensures
        adds_closing(
            state,
            flow,
            flow.close_call(
                state.tool_calls[place].output_index->0,
                state.tool_calls[place],
                ending,
            ),
            0,
            0,
            0,
        ),
{
    lemma_event_kinds();
    lemma_event_words();
    let call = state.tool_calls[place];
    let index = call.output_index->0;
    let kind = "response.function_call_arguments.done"@;
    let document = stream::typed(kind).with("item_id"@, JsonView::Text(call.item_id)).with(
        "output_index"@,
        index_view(index),
    ).with("arguments"@, JsonView::Text(call.arguments)).with("name"@, JsonView::Text(call.name));
    let argued = if ending.incomplete() {
        flow
    } else {
        flow.emit(kind, document)
    };
    if !ending.incomplete() {
        let told = said(argued.out.last());
        assert(told.get("item_id"@) == Some(JsonView::Text(call.item_id)));
        assert(told.get("output_index"@) == Some(index_view(index)));
        assert(told.get("arguments"@) == Some(JsonView::Text(call.arguments)));
        assert(told.get("name"@) == Some(JsonView::Text(call.name)));
        assert(state.tool_calls[place].output_index is Some);
        assert(closes_call(state.tool_calls, told));
        lemma_closing_event(state, flow, kind, document);
    }
    assert(adds_closing(state, flow, argued, 0, 0, 0));
    let item = stream_end::final_call(call, ending);
    assert(item.get("type"@) == Some(JsonView::Text("function_call"@)));
    assert(item.get("id"@) == Some(JsonView::Text(call.item_id)));
    assert(item.get("call_id"@) == Some(JsonView::Text(call.id)));
    assert(item.get("name"@) == Some(JsonView::Text(call.name)));
    assert(item.get("arguments"@) == Some(JsonView::Text(call.arguments)));
    let last = "response.output_item.done"@;
    let after = argued.emit(last, stream::item_done(index, item));
    assert(said(after.out.last()).get("item"@) == Some(item));
    assert(said(after.out.last()).get("output_index"@) == Some(index_view(index)));
    assert(state.tool_calls[place].output_index is Some);
    assert(closes_call_item(state.tool_calls, said(after.out.last())));
    lemma_closing_event(state, argued, last, stream::item_done(index, item));
    lemma_closing_twice(state, flow, argued, after, (0, 0, 0), (0, 0, 0));
}

/// Whether a call with its output index is one of the calls.
spec fn is_indexed(calls: Seq<CallView>, call: (usize, CallView)) -> bool {
    exists|i: int|
        0 <= i < calls.len() && #[trigger] calls[i] == call.1 && calls[i].output_index == Some(
            call.0,
        )
}

proof fn lemma_announced_are_indexed(calls: Seq<CallView>)
    ensures
        forall|k: int|
            0 <= k < announced_calls(calls).len() ==> is_indexed(
                calls,
                #[trigger] announced_calls(calls)[k],
            ),
    decreases calls.len(),
{
    if calls.len() > 0 {
        let rest = calls.drop_last();
        lemma_announced_are_indexed(rest);
        assert forall|k: int| 0 <= k < announced_calls(calls).len() implies is_indexed(
            calls,
            #[trigger] announced_calls(calls)[k],
        ) by {
            let earlier = announced_calls(rest);
            if k < earlier.len() {
                assert(announced_calls(calls)[k] == earlier[k]);
                let i = choose|i: int|
                    0 <= i < rest.len() && #[trigger] rest[i] == earlier[k].1
                        && rest[i].output_index == Some(earlier[k].0);
                assert(calls[i] == rest[i]);
            } else {
                assert(calls[calls.len() - 1] == announced_calls(calls)[k].1);
            }
        }
    }
}

proof fn lemma_ordered_are_indexed(calls: Seq<CallView>, listed: Seq<(usize, CallView)>)
    requires
        forall|k: int| 0 <= k < listed.len() ==> is_indexed(calls, #[trigger] listed[k]),
    ensures
        forall|k: int|
            0 <= k < ordered(listed).len() ==> is_indexed(calls, #[trigger] ordered(listed)[k]),
    decreases listed.len(),
{
    if listed.len() > 0 {
        let rest = listed.drop_last();
        assert forall|k: int| 0 <= k < rest.len() implies is_indexed(calls, #[trigger] rest[k]) by {
            assert(rest[k] == listed[k]);
        }
        lemma_ordered_are_indexed(calls, rest);
        let earlier = ordered(rest);
        let last = listed[listed.len() - 1];
        order::lemma_rank(earlier, last.0);
        let rank = order::rank(earlier, last.0);
        assert(is_indexed(calls, last));
        assert forall|k: int| 0 <= k < ordered(listed).len() implies is_indexed(
            calls,
            #[trigger] ordered(listed)[k],
        ) by {
            if k < rank {
                assert(ordered(listed)[k] == earlier[k]);
            } else if k > rank {
                assert(ordered(listed)[k] == earlier[k - 1]);
            }
        }
    }
}

proof fn lemma_close_calls_parts(
    state: TranslatorView,
    flow: Flow,
    calls: Seq<(usize, CallView)>,
    ending: Ending,
)
    requires
        forall|k: int| 0 <= k < calls.len() ==> is_indexed(state.tool_calls, #[trigger] calls[k]),
    ensures
        adds_closing(state, flow, flow.close_calls(calls, ending), 0, 0, 0),
    decreases calls.len(),
{
    if calls.len() > 0 {
        let rest = calls.drop_last();
        assert forall|k: int| 0 <= k < rest.len() implies is_indexed(
            state.tool_calls,
            #[trigger] rest[k],
        ) by {
            assert(rest[k] == calls[k]);
        }
        lemma_close_calls_parts(state, flow, rest, ending);
        let earlier = flow.close_calls(rest, ending);
        let last = calls[calls.len() - 1];
        assert(is_indexed(state.tool_calls, last));
        let i = choose|i: int|
            0 <= i < state.tool_calls.len() && #[trigger] state.tool_calls[i] == last.1
                && state.tool_calls[i].output_index == Some(last.0);
        lemma_close_call_parts(state, earlier, i, ending);
        lemma_closing_twice(
            state,
            flow,
            earlier,
            flow.close_calls(calls, ending),
            (0, 0, 0),
            (0, 0, 0),
        );
    }
}

proof fn lemma_concluded_parts(flow: Flow, ending: Ending)
    requires
        keeps_parts(flow),
    ensures
        adds_closing(
            flow.state,
            flow,
            flow.concluded(ending),
            as_count(flow.state.places.text is Some),
            as_count(flow.state.places.refusal is Some),
            as_count(flow.state.places.text is Some) + as_count(
                flow.state.places.refusal is Some,
            ),
        ),
{
    lemma_event_kinds();
    let texts = as_count(flow.state.places.text is Some);
    let refusals = as_count(flow.state.places.refusal is Some);
    let calls = ordered(announced_calls(flow.state.tool_calls));
    lemma_close_message_parts(flow, ending);
    let told = flow.close_message(ending);
    lemma_announced_are_indexed(flow.state.tool_calls);
    lemma_ordered_are_indexed(flow.state.tool_calls, announced_calls(flow.state.tool_calls));
    lemma_close_calls_parts(flow.state, told, calls, ending);
    let closed = told.close_calls(calls, ending);
    lemma_closing_twice(
        flow.state,
        flow,
        told,
        closed,
        (texts, refusals, texts + refusals),
        (0, 0, 0),
    );
    let kind = stream_end::final_kind(ending);
    let document = stream_end::final_document(flow.state, ending);
    lemma_closing_event(flow.state, closed, kind, document);
    lemma_closing_twice(
        flow.state,
        flow,
        closed,
        flow.concluded(ending),
        (texts, refusals, texts + refusals),
        (0, 0, 0),
    );
}

proof fn lemma_no_closing_yet(state: TranslatorView, events: Seq<EventView>, kind: Seq<char>)
    requires
        is_closing(kind),
        forall|j: int| 0 <= j < events.len() ==> fits(state, #[trigger] events[j]),
    ensures
        kind_count(events, kind) == 0,
    decreases events.len(),
{
    if events.len() > 0 {
        let rest = events.drop_last();
        assert forall|j: int| 0 <= j < rest.len() implies fits(state, #[trigger] rest[j]) by {
            assert(rest[j] == events[j]);
        }
        lemma_no_closing_yet(state, rest, kind);
        assert(fits(state, events[events.len() - 1]));
    }
}

/// What the events of a completed answer say at the end of each of its parts.
pub open spec fn closes_what_was_told(events: Seq<EventView>) -> bool {
    &&& parts_begun(events, "output_text"@) <= 1
    &&& parts_begun(events, "refusal"@) <= 1
    &&& kind_count(events, "response.output_text.done"@) == parts_begun(events, "output_text"@)
    &&& kind_count(events, "response.refusal.done"@) == parts_begun(events, "refusal"@)
    &&& kind_count(events, "response.content_part.done"@) == parts_begun(events, "output_text"@)
        + parts_begun(events, "refusal"@)
    &&& forall|j: int|
        0 <= j < events.len() ==> ends_part(
            #[trigger] events[j],
            joined(told_text(events)),
            told_refusal(events),
        )
    &&& forall|j: int, index: usize|
        0 <= j < events.len() && said(#[trigger] events[j]).get("output_index"@) == Some(
            #[trigger] index_view(index),
        ) ==> ends_call(events[j], told_arguments(events, index))
}

/// Whether an event, where it ends a part, holds all of the text or all of the
/// refusal.
pub open spec fn ends_part(event: EventView, text: Seq<char>, refusal: Seq<char>) -> bool {
    &&& event.kind == "response.output_text.done"@ ==> said(event).text_at("text"@) == Some(text)
    &&& event.kind == "response.refusal.done"@ ==> said(event).text_at("refusal"@) == Some(refusal)
    &&& event.kind == "response.content_part.done"@ ==> {
        ||| said(event).get_in("part"@, "type"@) == Some(JsonView::Text("output_text"@)) && said(
            event,
        ).get_in("part"@, "text"@) == Some(JsonView::Text(text))
        ||| said(event).get_in("part"@, "type"@) == Some(JsonView::Text("refusal"@)) && said(
            event,
        ).get_in("part"@, "refusal"@) == Some(JsonView::Text(refusal))
    }
}

/// Whether an event, where it ends a call, holds all of its arguments.
pub open spec fn ends_call(event: EventView, arguments: Seq<char>) -> bool {
    &&& event.kind == "response.function_call_arguments.done"@ ==> said(event).text_at(
        "arguments"@,
    ) == Some(arguments)
    &&& event.kind == "response.output_item.done"@ && said(event).get_in("item"@, "type"@) == Some(
        JsonView::Text("function_call"@),
    ) ==> said(event).get_in("item"@, "arguments"@) == Some(JsonView::Text(arguments))
}

proof fn lemma_one_index(one: usize, other: usize)
    requires
        index_view(one) == index_view(other),
    ensures
        one == other,
{
}

proof fn lemma_end_of_call(
    state: TranslatorView,
    events: Seq<EventView>,
    event: EventView,
    index: usize,
)
    requires
        is_closing(event.kind),
        closes(state, event),
        said(event).get("output_index"@) == Some(index_view(index)),
        forall|i: int|
            0 <= i < state.tool_calls.len() && (#[trigger] state.tool_calls[i]).output_index
                is Some ==> told_arguments(events, state.tool_calls[i].output_index->0)
                == state.tool_calls[i].arguments,
    ensures
        ends_call(event, told_arguments(events, index)),
{
    lemma_event_kinds();
    lemma_event_words();
    let document = said(event);
    let calls = state.tool_calls;
    if event.kind == "response.function_call_arguments.done"@ {
        assert(closes_call(calls, document));
        let i = choose|i: int|
            {
                &&& 0 <= i < calls.len()
                &&& (#[trigger] calls[i]).output_index matches Some(own)
                &&& document.get("output_index"@) == Some(index_view(own))
                &&& document.text_at("item_id"@) == Some(calls[i].item_id)
                &&& document.text_at("name"@) == Some(calls[i].name)
                &&& document.text_at("arguments"@) == Some(calls[i].arguments)
            };
        lemma_one_index(calls[i].output_index->0, index);
    }
    if event.kind == "response.output_item.done"@ && document.get_in("item"@, "type"@) == Some(
        JsonView::Text("function_call"@),
    ) {
        assert(closes_call_item(calls, document));
        let i = choose|i: int|
            {
                &&& 0 <= i < calls.len()
                &&& (#[trigger] calls[i]).output_index matches Some(own)
                &&& document.get("output_index"@) == Some(index_view(own))
                &&& document.get_in("item"@, "type"@) == Some(JsonView::Text("function_call"@))
                &&& document.get_in("item"@, "id"@) == Some(JsonView::Text(calls[i].item_id))
                &&& document.get_in("item"@, "call_id"@) == Some(JsonView::Text(calls[i].id))
                &&& document.get_in("item"@, "name"@) == Some(JsonView::Text(calls[i].name))
                &&& document.get_in("item"@, "arguments"@) == Some(
                    JsonView::Text(calls[i].arguments),
                )
            };
        lemma_one_index(calls[i].output_index->0, index);
    }
}

/// Each part of a completed answer is closed once, and with all that was told of
/// it: the text with the pieces of the text, the refusal with the pieces of the
/// refusal, a call with the pieces of its arguments. Where text was told there is a
/// text part.
pub proof fn law_parts_end_with_what_was_told(
    context: ContextView,
    msg_item_id: Seq<char>,
    message: Seq<char>,
    chunks: Seq<JsonView>,
    fresh: Seq<Seq<Seq<char>>>,
    entries: Seq<EntryView>,
)
    requires
        most_claims(chunks) < usize::MAX,
        context.opened(msg_item_id, message).flow.accepts(chunks, fresh),
        context.opened(msg_item_id, message).flow.after_chunks(chunks, fresh).finish(
            entries,
        ).completed,
    ensures
        ({
            let start = context.opened(msg_item_id, message).flow;
            let out = start.after_chunks(chunks, fresh).finish(entries).flow.out;
            &&& closes_what_was_told(out)
            &&& told_text(out).len() > 0 ==> parts_begun(out, "output_text"@) == 1
            &&& forall|j: int|
                0 <= j < out.len() ==> fits(
                    start.after_chunks(chunks, fresh).released().state,
                    #[trigger] out[j],
                ) || closes(start.after_chunks(chunks, fresh).released().state, out[j])
        }),
{
    lemma_event_kinds();
    let start = context.opened(msg_item_id, message).flow;
    stream_items::law_beginning_keeps_books(context, msg_item_id, message);
    law_beginning_keeps_parts(context, msg_item_id, message);
    stream_items::law_completed_answer_is_told(start, chunks, fresh, entries);
    law_chunks_keep_parts(start, chunks, fresh);
    let flow = start.after_chunks(chunks, fresh);
    let released = flow.released();
    let state = released.state;
    lemma_released_parts(flow);
    let ending = response::ending_of(flow.state.finish_reason->0)->0;
    lemma_concluded_parts(released, ending);
    let out = flow.finish(entries).flow.out;
    assert(out == released.concluded(ending).out);
    lemma_no_closing_yet(state, released.out, "response.output_text.done"@);
    lemma_no_closing_yet(state, released.out, "response.refusal.done"@);
    lemma_no_closing_yet(state, released.out, "response.content_part.done"@);
    assert forall|j: int| 0 <= j < out.len() implies fits(state, #[trigger] out[j]) || closes(
        state,
        out[j],
    ) by {
        if j < released.out.len() {
            assert(out[j] == released.out[j]);
        }
    }
    assert forall|j: int| 0 <= j < out.len() implies ends_part(
        #[trigger] out[j],
        joined(told_text(out)),
        told_refusal(out),
    ) by {
        if is_closing(out[j].kind) {
            assert(closes(state, out[j]));
        }
    }
    assert forall|j: int, index: usize|
        0 <= j < out.len() && said(#[trigger] out[j]).get("output_index"@) == Some(
            #[trigger] index_view(index),
        ) implies ends_call(out[j], told_arguments(out, index)) by {
        if is_closing(out[j].kind) {
            assert(closes(state, out[j]));
            lemma_end_of_call(state, out, out[j], index);
        }
    }
    if told_text(out).len() > 0 {
        lemma_told_texts(state, out);
    }
}

proof fn lemma_told_texts(state: TranslatorView, events: Seq<EventView>)
    requires
        forall|j: int|
            0 <= j < events.len() ==> fits(state, #[trigger] events[j]) || closes(state, events[j]),
        told_text(events).len() > 0,
    ensures
        state.places.text is Some,
    decreases events.len(),
{
    let rest = events.drop_last();
    let last = events[events.len() - 1];
    assert(fits(state, last) || closes(state, last));
    if !(last.payload is TextDelta && fits(state, last)) {
        assert forall|j: int| 0 <= j < rest.len() implies fits(state, #[trigger] rest[j]) || closes(
            state,
            rest[j],
        ) by {
            assert(rest[j] == events[j]);
        }
        lemma_told_texts(state, rest);
    }
}

// ---------------------------------------------------------------------------
// The end of each call
// ---------------------------------------------------------------------------

/// Whether an event closes the item of a call with an output index.
pub open spec fn closes_call_at(event: EventView, index: usize) -> bool {
    is_item_event(event, "response.output_item.done"@, index) && said(event).get_in(
        "item"@,
        "type"@,
    ) == Some(JsonView::Text("function_call"@))
}

/// How many events close the item of a call with an output index.
pub open spec fn calls_closed(events: Seq<EventView>, index: usize) -> nat
    decreases events.len(),
{
    if events.len() == 0 {
        0
    } else {
        calls_closed(events.drop_last(), index) + as_count(closes_call_at(events.last(), index))
    }
}

/// How many events end the arguments of the call with an output index.
pub open spec fn arguments_ended(events: Seq<EventView>, index: usize) -> nat {
    item_events(events, "response.function_call_arguments.done"@, index)
}

/// Whether the arguments of each call that is closed are ended as often as the call
/// is closed, or never where the answer is incomplete.
pub open spec fn ends_arguments(events: Seq<EventView>, incomplete: bool) -> bool {
    forall|index: usize| #[trigger]
        arguments_ended(events, index) == if incomplete {
            0
        } else {
            calls_closed(events, index)
        }
}

proof fn lemma_one_more_of_call(events: Seq<EventView>, event: EventView, index: usize)
    ensures
        arguments_ended(events.push(event), index) == arguments_ended(events, index) + as_count(
            is_item_event(event, "response.function_call_arguments.done"@, index),
        ),
        calls_closed(events.push(event), index) == calls_closed(events, index) + as_count(
            closes_call_at(event, index),
        ),
{
    assert(events.push(event).drop_last() =~= events);
}

proof fn lemma_open_events_end_nothing(state: TranslatorView, events: Seq<EventView>, index: usize)
    requires
        forall|j: int| 0 <= j < events.len() ==> fits(state, #[trigger] events[j]),
    ensures
        arguments_ended(events, index) == 0,
        calls_closed(events, index) == 0,
    decreases events.len(),
{
    if events.len() > 0 {
        let rest = events.drop_last();
        assert forall|j: int| 0 <= j < rest.len() implies fits(state, #[trigger] rest[j]) by {
            assert(rest[j] == events[j]);
        }
        lemma_open_events_end_nothing(state, rest, index);
        assert(fits(state, events[events.len() - 1]));
    }
}

/// An event that neither ends arguments nor closes a call.
proof fn lemma_other_end(flow: Flow, kind: Seq<char>, document: JsonView, incomplete: bool)
    requires
        ends_arguments(flow.out, incomplete),
        kind != "response.function_call_arguments.done"@,
        kind != "response.output_item.done"@ || document.get_in("item"@, "type"@) != Some(
            JsonView::Text("function_call"@),
        ),
    ensures
        ends_arguments(flow.emit(kind, document).out, incomplete),
{
    lemma_event_words();
    let after = flow.emit(kind, document).out;
    assert(said(after.last()).get("item"@) == document.get("item"@));
    assert forall|index: usize| #[trigger] arguments_ended(after, index) == if incomplete {
        0
    } else {
        calls_closed(after, index)
    } by {
        lemma_one_more_of_call(flow.out, after.last(), index);
        assert(arguments_ended(flow.out, index) == if incomplete {
            0
        } else {
            calls_closed(flow.out, index)
        });
    }
}

proof fn lemma_message_ends_no_call(flow: Flow, ending: Ending)
    requires
        ends_arguments(flow.out, ending.incomplete()),
    ensures
        ends_arguments(flow.close_message(ending).out, ending.incomplete()),
{
    lemma_event_kinds();
    lemma_event_words();
    if let Some(own) = flow.state.places.message {
        let state = flow.state;
        let told = flow.close_text();
        if let Some(index) = state.places.text {
            let done = stream::part_document(
                "response.output_text.done"@,
                state.msg_item_id,
                own,
                index,
            ).with("text"@, JsonView::Text(state.full_text)).with(
                "logprobs"@,
                response::empty_array(),
            );
            lemma_other_end(flow, "response.output_text.done"@, done, ending.incomplete());
            let part = stream::part_document(
                "response.content_part.done"@,
                state.msg_item_id,
                own,
                index,
            ).with("part"@, response::output_text_part(state.full_text));
            lemma_other_end(
                flow.emit("response.output_text.done"@, done),
                "response.content_part.done"@,
                part,
                ending.incomplete(),
            );
        }
        let refused = told.close_refusal();
        if let Some(index) = told.state.places.refusal {
            let done = stream::part_document(
                "response.refusal.done"@,
                state.msg_item_id,
                own,
                index,
            ).with("refusal"@, JsonView::Text(state.refusal_text));
            lemma_other_end(told, "response.refusal.done"@, done, ending.incomplete());
            let part = stream::part_document(
                "response.content_part.done"@,
                state.msg_item_id,
                own,
                index,
            ).with("part"@, response::refusal_part(state.refusal_text));
            lemma_other_end(
                told.emit("response.refusal.done"@, done),
                "response.content_part.done"@,
                part,
                ending.incomplete(),
            );
        }
        let item = stream_end::final_message(state, ending);
        assert(item.get("type"@) == Some(JsonView::Text("message"@)));
        let document = stream::item_done(own, item);
        assert(document.get("item"@) == Some(item));
        lemma_other_end(refused, "response.output_item.done"@, document, ending.incomplete());
    }
}

proof fn lemma_calls_end_arguments(flow: Flow, calls: Seq<(usize, CallView)>, ending: Ending)
    requires
        ends_arguments(flow.out, ending.incomplete()),
    ensures
        ends_arguments(flow.close_calls(calls, ending).out, ending.incomplete()),
    decreases calls.len(),
{
    lemma_event_kinds();
    lemma_event_words();
    if calls.len() > 0 {
        lemma_calls_end_arguments(flow, calls.drop_last(), ending);
        let earlier = flow.close_calls(calls.drop_last(), ending);
        let (own, call) = calls.last();
        let kind = "response.function_call_arguments.done"@;
        let document = stream::typed(kind).with("item_id"@, JsonView::Text(call.item_id)).with(
            "output_index"@,
            index_view(own),
        ).with("arguments"@, JsonView::Text(call.arguments)).with(
            "name"@,
            JsonView::Text(call.name),
        );
        let argued = if ending.incomplete() {
            earlier
        } else {
            earlier.emit(kind, document)
        };
        let item = stream_end::final_call(call, ending);
        assert(item.get("type"@) == Some(JsonView::Text("function_call"@)));
        let closed = argued.emit("response.output_item.done"@, stream::item_done(own, item));
        assert(closed == flow.close_calls(calls, ending));
        assert(said(closed.out.last()).get("item"@) == Some(item));
        assert(said(closed.out.last()).get("output_index"@) == Some(index_view(own)));
        assert forall|index: usize| #[trigger]
            arguments_ended(closed.out, index) == if ending.incomplete() {
                0
            } else {
                calls_closed(closed.out, index)
            } by {
            assert(arguments_ended(earlier.out, index) == if ending.incomplete() {
                0
            } else {
                calls_closed(earlier.out, index)
            });
            lemma_one_more_of_call(argued.out, closed.out.last(), index);
            if !ending.incomplete() {
                lemma_one_more_of_call(earlier.out, argued.out.last(), index);
                assert(said(argued.out.last()).get("output_index"@) == Some(index_view(own)));
            }
        }
    }
}

/// In a completed answer the arguments of a call are ended once for each call that
/// is closed; in one that broke off they are never ended.
pub proof fn law_arguments_end_with_their_call(
    context: ContextView,
    msg_item_id: Seq<char>,
    message: Seq<char>,
    chunks: Seq<JsonView>,
    fresh: Seq<Seq<Seq<char>>>,
    entries: Seq<EntryView>,
)
    requires
        most_claims(chunks) < usize::MAX,
        context.opened(msg_item_id, message).flow.accepts(chunks, fresh),
        context.opened(msg_item_id, message).flow.after_chunks(chunks, fresh).finish(
            entries,
        ).completed,
    ensures
        ({
            let start = context.opened(msg_item_id, message).flow;
            let out = start.after_chunks(chunks, fresh).finish(entries).flow.out;
            &&& out.len() > 0
            &&& out.last().kind == "response.completed"@ || out.last().kind
                == "response.incomplete"@
            &&& ends_arguments(out, out.last().kind == "response.incomplete"@)
        }),
{
    lemma_event_kinds();
    let start = context.opened(msg_item_id, message).flow;
    stream_items::law_beginning_keeps_books(context, msg_item_id, message);
    law_beginning_keeps_parts(context, msg_item_id, message);
    law_chunks_keep_parts(start, chunks, fresh);
    let flow = start.after_chunks(chunks, fresh);
    let released = flow.released();
    lemma_released_parts(flow);
    let ending = response::ending_of(flow.state.finish_reason->0)->0;
    assert forall|index: usize| #[trigger] arguments_ended(released.out, index)
        == if ending.incomplete() {
        0
    } else {
        calls_closed(released.out, index)
    } by {
        lemma_open_events_end_nothing(released.state, released.out, index);
    }
    lemma_message_ends_no_call(released, ending);
    let told = released.close_message(ending);
    let calls = ordered(announced_calls(released.state.tool_calls));
    lemma_calls_end_arguments(told, calls, ending);
    let closed = told.close_calls(calls, ending);
    lemma_other_end(
        closed,
        stream_end::final_kind(ending),
        stream_end::final_document(released.state, ending),
        ending.incomplete(),
    );
}

// ---------------------------------------------------------------------------
// What is told of what arrived
// ---------------------------------------------------------------------------

/// A completed answer that is not structured tells all the text that arrived, one
/// piece after the other. One that is structured, and neither refuses nor was told
/// before, tells the document that arrived, once it was checked.
pub proof fn law_told_text_is_what_arrived(
    context: ContextView,
    msg_item_id: Seq<char>,
    message: Seq<char>,
    chunks: Seq<JsonView>,
    fresh: Seq<Seq<Seq<char>>>,
    entries: Seq<EntryView>,
    document: JsonView,
)
    requires
        most_claims(chunks) < usize::MAX,
        context.opened(msg_item_id, message).flow.accepts(chunks, fresh),
        context.opened(msg_item_id, message).flow.after_chunks(chunks, fresh).finish(
            entries,
        ).completed,
    ensures
        ({
            let start = context.opened(msg_item_id, message).flow;
            let out = start.after_chunks(chunks, fresh).finish(entries).flow.out;
            let arrived = stream_sums::whole_text(chunks);
            &&& !context.structured_output ==> joined(told_text(out)) == arrived
            &&& context.structured_output && !stream_sums::have_refusal(chunks) && !text::blank(
                arrived,
            ) && json::parsed_text(arrived) == Some(document) && document is Object
                && content::conforms(document, context.structured_schema) ==> (json::compact_text(
                document,
            ) matches Some(printed) ==> joined(told_text(out)) == printed)
        }),
{
    let start = context.opened(msg_item_id, message).flow;
    stream_items::law_beginning_keeps_books(context, msg_item_id, message);
    stream_items::law_completed_answer_is_told(start, chunks, fresh, entries);
    stream_sums::law_chunks_are_taken_in(start, chunks, fresh);
    let flow = start.after_chunks(chunks, fresh);
    lemma_asked_for(start, chunks, fresh);
    if !context.structured_output && flow.released().state.places.text is None {
        assert(stream_sums::whole_text(chunks) =~= Seq::<char>::empty());
    }
}

proof fn lemma_asked_for(start: Flow, chunks: Seq<JsonView>, fresh: Seq<Seq<Seq<char>>>)
    requires
        start.accepts(chunks, fresh),
    ensures
        ({
            let flow = start.after_chunks(chunks, fresh);
            &&& flow.state.structured_output == start.state.structured_output
            &&& flow.state.structured_schema == start.state.structured_schema
        }),
    decreases chunks.len(),
{
    if chunks.len() > 0 {
        let rest = chunks.drop_last();
        lemma_asked_for(start, rest, fresh);
        let flow = start.after_chunks(rest, fresh);
        let chunk = chunks.last();
        if let Some(choice) = response::first_choice(chunk) {
            if let Some(delta) = stream::choice_delta(choice) {
                let spoken = flow.informed(chunk).chosen(choice).reasoned(delta).spoken(delta);
                lemma_calls_ask_for_the_same(
                    spoken,
                    response::message_calls(delta),
                    fresh[chunks.len() - 1],
                );
            }
        }
    }
}

proof fn lemma_calls_ask_for_the_same(flow: Flow, calls: Seq<JsonView>, fresh: Seq<Seq<char>>)
    ensures
        ({
            let after = flow.take_calls(calls, fresh).flow.state;
            &&& after.structured_output == flow.state.structured_output
            &&& after.structured_schema == flow.state.structured_schema
        }),
    decreases calls.len(),
{
    if calls.len() > 0 {
        lemma_calls_ask_for_the_same(flow, calls.drop_last(), fresh);
    }
}

} // verus!
