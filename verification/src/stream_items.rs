//! The output items of a streamed answer: each is announced once and closed
//! once, and what is told of it piece by piece is what it holds at the end.

use crate::cutting::joined;
use crate::events::{EventView, PayloadView};
use crate::json::JsonView;
use crate::order;
use crate::order::ordered;
use crate::pump::ContextView;
use crate::reasoning::EntryView;
use crate::response;
use crate::response::Ending;
use crate::stream;
use crate::stream::{
    chunk_calls, in_order, index_view, known_call, place, CallFlow, CallView, Flow, Places,
    TranslatorView,
};
use crate::stream_end;
use crate::stream_end::{announced_calls, holds_output};
use crate::stream_laws;
use crate::stream_laws::{as_count, chunk_text, is_in_step, is_well_placed, told_now, told_text};
use crate::stream_sums;
use crate::stream_sums::has_heard;
use vstd::prelude::*;

verus! {

// ---------------------------------------------------------------------------
// What events say of items
// ---------------------------------------------------------------------------

/// Whether an event of a kind speaks of the item with an output index.
pub open spec fn is_item_event(event: EventView, kind: Seq<char>, index: usize) -> bool {
    event.kind == kind && (event.payload matches PayloadView::Document(document) && document.get(
        "output_index"@,
    ) == Some(index_view(index)))
}

/// How many events of a kind speak of the item with an output index.
pub open spec fn item_events(events: Seq<EventView>, kind: Seq<char>, index: usize) -> nat
    decreases events.len(),
{
    if events.len() == 0 {
        0
    } else {
        item_events(events.drop_last(), kind, index) + as_count(
            is_item_event(events.last(), kind, index),
        )
    }
}

/// How many events announce the item with an output index.
pub open spec fn times_added(events: Seq<EventView>, index: usize) -> nat {
    item_events(events, "response.output_item.added"@, index)
}

/// How many events close the item with an output index.
pub open spec fn times_done(events: Seq<EventView>, index: usize) -> nat {
    item_events(events, "response.output_item.done"@, index)
}

/// The arguments that events tell of the item with an output index, piece by
/// piece.
pub open spec fn told_arguments(events: Seq<EventView>, index: usize) -> Seq<char>
    decreases events.len(),
{
    if events.len() == 0 {
        Seq::empty()
    } else {
        let earlier = told_arguments(events.drop_last(), index);
        match events.last().payload {
            PayloadView::ArgumentsDelta { output_index, delta, .. } => if output_index == index {
                earlier + delta
            } else {
                earlier
            },
            _ => earlier,
        }
    }
}

/// Whether a call has an output index.
pub open spec fn is_call_at(calls: Seq<CallView>, index: usize) -> bool {
    exists|i: int| 0 <= i < calls.len() && (#[trigger] calls[i]).output_index == Some(index)
}

/// Whether an output index belongs to the message or to a call.
pub open spec fn is_taken(state: TranslatorView, index: usize) -> bool {
    state.places.message == Some(index) || is_call_at(state.tool_calls, index)
}

/// Whether the events of an answer that has not ended agree with its state: the
/// items that have a place were announced, each once, none is closed, and the
/// arguments of a call that was announced are all told.
pub open spec fn keeps_books(flow: Flow) -> bool {
    &&& forall|index: usize| #[trigger]
        times_added(flow.out, index) == as_count(is_taken(flow.state, index))
    &&& forall|index: usize| #[trigger] times_done(flow.out, index) == 0
    &&& forall|index: usize|
        index >= flow.state.next_output_index ==> (#[trigger] told_arguments(flow.out, index)).len()
            == 0
    &&& forall|i: int|
        0 <= i < flow.state.tool_calls.len() && (#[trigger] flow.state.tool_calls[i]).output_index
            is Some ==> told_arguments(flow.out, flow.state.tool_calls[i].output_index->0)
            == flow.state.tool_calls[i].arguments
}

proof fn lemma_item_kinds()
    ensures
        "response.output_item.added"@ != "response.output_item.done"@,
        "response.content_part.added"@ != "response.output_item.added"@,
        "response.content_part.added"@ != "response.output_item.done"@,
        "response.refusal.delta"@ != "response.output_item.added"@,
        "response.refusal.delta"@ != "response.output_item.done"@,
        "response.failed"@ != "response.output_item.added"@,
        "response.failed"@ != "response.output_item.done"@,
        "response.output_text.done"@ != "response.output_item.added"@,
        "response.output_text.done"@ != "response.output_item.done"@,
        "response.content_part.done"@ != "response.output_item.added"@,
        "response.content_part.done"@ != "response.output_item.done"@,
        "response.refusal.done"@ != "response.output_item.added"@,
        "response.refusal.done"@ != "response.output_item.done"@,
        "response.function_call_arguments.done"@ != "response.output_item.added"@,
        "response.function_call_arguments.done"@ != "response.output_item.done"@,
        "response.completed"@ != "response.output_item.added"@,
        "response.completed"@ != "response.output_item.done"@,
        "response.incomplete"@ != "response.output_item.added"@,
        "response.incomplete"@ != "response.output_item.done"@,
{
    stream_laws::lemma_kinds();
    reveal_strlit("response.output_item.added");
    reveal_strlit("response.output_item.done");
    reveal_strlit("response.output_text.done");
    reveal_strlit("response.content_part.done");
    assert("response.output_text.done"@[16] != "response.output_item.done"@[16]);
    assert("response.content_part.done"@[9] != "response.output_item.added"@[9]);
}

/// A new event adds to the counts by what it says.
proof fn lemma_one_more_event(events: Seq<EventView>, event: EventView, kind: Seq<char>, index: usize)
    ensures
        item_events(events.push(event), kind, index) == item_events(events, kind, index)
            + as_count(is_item_event(event, kind, index)),
        told_arguments(events.push(event), index) == match event.payload {
            PayloadView::ArgumentsDelta { output_index, delta, .. } => if output_index == index {
                told_arguments(events, index) + delta
            } else {
                told_arguments(events, index)
            },
            _ => told_arguments(events, index),
        },
{
    assert(events.push(event).drop_last() =~= events);
}

/// Whether a step tells nothing of the items.
spec fn is_quiet(before: Seq<EventView>, after: Seq<EventView>) -> bool {
    &&& forall|index: usize| #[trigger] times_added(after, index) == times_added(before, index)
    &&& forall|index: usize| #[trigger] times_done(after, index) == times_done(before, index)
    &&& forall|index: usize| #[trigger]
        told_arguments(after, index) == told_arguments(before, index)
}

proof fn lemma_quiet_emit(flow: Flow, kind: Seq<char>, document: JsonView)
    requires
        kind != "response.output_item.added"@,
        kind != "response.output_item.done"@,
    ensures
        is_quiet(flow.out, flow.emit(kind, document).out),
{
    let event = flow.emit(kind, document).out.last();
    assert forall|index: usize| #[trigger]
        times_added(flow.emit(kind, document).out, index) == times_added(flow.out, index) by {
        lemma_one_more_event(flow.out, event, "response.output_item.added"@, index);
    }
    assert forall|index: usize| #[trigger]
        times_done(flow.emit(kind, document).out, index) == times_done(flow.out, index) by {
        lemma_one_more_event(flow.out, event, "response.output_item.done"@, index);
    }
    assert forall|index: usize| #[trigger]
        told_arguments(flow.emit(kind, document).out, index) == told_arguments(flow.out, index) by {
        lemma_one_more_event(flow.out, event, "response.output_item.done"@, index);
    }
}

proof fn lemma_quiet_text(flow: Flow, delta: Seq<char>)
    ensures
        is_quiet(flow.out, flow.tell_text(delta).out),
{
    let after = flow.tell_text(delta).out;
    assert forall|index: usize| #[trigger]
        times_added(after, index) == times_added(flow.out, index) by {
        lemma_one_more_event(flow.out, after.last(), "response.output_item.added"@, index);
    }
    assert forall|index: usize| #[trigger]
        times_done(after, index) == times_done(flow.out, index) by {
        lemma_one_more_event(flow.out, after.last(), "response.output_item.done"@, index);
    }
    assert forall|index: usize| #[trigger]
        told_arguments(after, index) == told_arguments(flow.out, index) by {
        lemma_one_more_event(flow.out, after.last(), "response.output_item.done"@, index);
    }
}

/// An event that announces or closes an item speaks of that item alone.
proof fn lemma_item_event(flow: Flow, kind: Seq<char>, own: usize, item: JsonView, index: usize)
    ensures
        ({
            let document = stream::typed(kind).with("output_index"@, index_view(own)).with(
                "item"@,
                item,
            );
            let event = crate::events::numbered_event(kind, document, flow.state.sequence);
            is_item_event(event, kind, index) <==> own == index
        }),
{
    reveal_strlit("sequence_number");
    reveal_strlit("output_index");
    reveal_strlit("item");
    assert("sequence_number"@.len() == 15 && "output_index"@.len() == 12 && "item"@.len() == 4);
}

proof fn lemma_added(flow: Flow, own: usize, item: JsonView)
    ensures
        ({
            let after = flow.emit("response.output_item.added"@, stream::item_added(own, item)).out;
            &&& forall|index: usize| #[trigger]
                times_added(after, index) == times_added(flow.out, index) + as_count(own == index)
            &&& forall|index: usize| #[trigger]
                times_done(after, index) == times_done(flow.out, index)
            &&& forall|index: usize| #[trigger]
                told_arguments(after, index) == told_arguments(flow.out, index)
        }),
{
    lemma_item_kinds();
    let after = flow.emit("response.output_item.added"@, stream::item_added(own, item)).out;
    assert forall|index: usize| #[trigger]
        times_added(after, index) == times_added(flow.out, index) + as_count(own == index) by {
        lemma_one_more_event(flow.out, after.last(), "response.output_item.added"@, index);
        lemma_item_event(flow, "response.output_item.added"@, own, item, index);
    }
    assert forall|index: usize| #[trigger]
        times_done(after, index) == times_done(flow.out, index) by {
        lemma_one_more_event(flow.out, after.last(), "response.output_item.done"@, index);
    }
    assert forall|index: usize| #[trigger]
        told_arguments(after, index) == told_arguments(flow.out, index) by {
        lemma_one_more_event(flow.out, after.last(), "response.output_item.done"@, index);
    }
}

proof fn lemma_done(flow: Flow, own: usize, item: JsonView)
    ensures
        ({
            let after = flow.emit("response.output_item.done"@, stream::item_done(own, item)).out;
            &&& forall|index: usize| #[trigger]
                times_done(after, index) == times_done(flow.out, index) + as_count(own == index)
            &&& forall|index: usize| #[trigger]
                times_added(after, index) == times_added(flow.out, index)
            &&& forall|index: usize| #[trigger]
                told_arguments(after, index) == told_arguments(flow.out, index)
        }),
{
    lemma_item_kinds();
    let after = flow.emit("response.output_item.done"@, stream::item_done(own, item)).out;
    assert forall|index: usize| #[trigger]
        times_done(after, index) == times_done(flow.out, index) + as_count(own == index) by {
        lemma_one_more_event(flow.out, after.last(), "response.output_item.done"@, index);
        lemma_item_event(flow, "response.output_item.done"@, own, item, index);
    }
    assert forall|index: usize| #[trigger]
        times_added(after, index) == times_added(flow.out, index) by {
        lemma_one_more_event(flow.out, after.last(), "response.output_item.added"@, index);
    }
    assert forall|index: usize| #[trigger]
        told_arguments(after, index) == told_arguments(flow.out, index) by {
        lemma_one_more_event(flow.out, after.last(), "response.output_item.done"@, index);
    }
}

// ---------------------------------------------------------------------------
// Chunks
// ---------------------------------------------------------------------------

/// A step that tells nothing of the items, and moves none of them.
proof fn lemma_quiet_keeps_books(before: Flow, after: Flow)
    requires
        keeps_books(before),
        is_quiet(before.out, after.out),
        after.state.tool_calls == before.state.tool_calls,
        after.state.places.message == before.state.places.message,
        after.state.next_output_index == before.state.next_output_index,
    ensures
        keeps_books(after),
{
    assert forall|index: usize| #[trigger]
        times_added(after.out, index) == as_count(is_taken(after.state, index)) by {
        assert(times_added(before.out, index) == as_count(is_taken(before.state, index)));
    }
    assert forall|index: usize| #[trigger] times_done(after.out, index) == 0 by {
        assert(times_done(before.out, index) == 0);
    }
    assert forall|index: usize| index >= after.state.next_output_index implies (
    #[trigger] told_arguments(after.out, index)).len() == 0 by {
        assert(told_arguments(before.out, index).len() == 0);
    }
}

proof fn lemma_start_message_books(flow: Flow)
    requires
        keeps_books(flow),
        is_well_placed(flow.state),
        flow.state.next_output_index < usize::MAX,
    ensures
        keeps_books(flow.start_message()),
{
    if flow.state.places.message is None {
        let own = flow.state.next_output_index;
        let begun = Flow {
            state: TranslatorView {
                places: Places { message: Some(own), ..flow.state.places },
                next_output_index: stream::next_index(own),
                ..flow.state
            },
            out: flow.out,
        };
        let item = response::message_item(flow.state.msg_item_id, "in_progress"@, Seq::empty());
        lemma_added(begun, own, item);
        let after = flow.start_message();
        assert(!is_taken(flow.state, own));
        assert forall|index: usize| #[trigger]
            times_added(after.out, index) == as_count(is_taken(after.state, index)) by {
            assert(times_added(flow.out, index) == as_count(is_taken(flow.state, index)));
        }
        assert forall|index: usize| #[trigger] times_done(after.out, index) == 0 by {
            assert(times_done(flow.out, index) == 0);
        }
        assert forall|index: usize| index >= after.state.next_output_index implies (
        #[trigger] told_arguments(after.out, index)).len() == 0 by {
            assert(told_arguments(flow.out, index).len() == 0);
        }
    }
}

proof fn lemma_start_text_books(flow: Flow)
    requires
        keeps_books(flow),
        is_well_placed(flow.state),
        flow.state.next_output_index < usize::MAX,
    ensures
        keeps_books(flow.start_text()),
{
    lemma_item_kinds();
    if flow.state.places.text is None {
        lemma_start_message_books(flow);
        let begun = flow.start_message();
        let index: usize = if begun.state.places.refusal is Some {
            1
        } else {
            0
        };
        let placed = Flow {
            state: TranslatorView {
                places: Places { text: Some(index), ..begun.state.places },
                ..begun.state
            },
            out: begun.out,
        };
        let document = stream::part_document(
            "response.content_part.added"@,
            begun.state.msg_item_id,
            place(begun.state.places.message),
            index,
        ).with("part"@, response::output_text_part(""@));
        lemma_quiet_emit(placed, "response.content_part.added"@, document);
        lemma_quiet_keeps_books(begun, flow.start_text());
    }
}

proof fn lemma_start_refusal_books(flow: Flow)
    requires
        keeps_books(flow),
        is_well_placed(flow.state),
        flow.state.next_output_index < usize::MAX,
    ensures
        keeps_books(flow.start_refusal()),
{
    lemma_item_kinds();
    if flow.state.places.refusal is None {
        lemma_start_message_books(flow);
        let begun = flow.start_message();
        let index: usize = if begun.state.places.text is Some {
            1
        } else {
            0
        };
        let placed = Flow {
            state: TranslatorView {
                places: Places { refusal: Some(index), ..begun.state.places },
                ..begun.state
            },
            out: begun.out,
        };
        let document = stream::part_document(
            "response.content_part.added"@,
            begun.state.msg_item_id,
            place(begun.state.places.message),
            index,
        ).with("part"@, response::refusal_part(""@));
        lemma_quiet_emit(placed, "response.content_part.added"@, document);
        lemma_quiet_keeps_books(begun, flow.start_refusal());
    }
}

proof fn lemma_take_text_books(flow: Flow, piece: Seq<char>)
    requires
        keeps_books(flow),
        is_well_placed(flow.state),
        flow.state.next_output_index < usize::MAX,
    ensures
        keeps_books(flow.take_text(piece)),
        stream_laws::claims_at_most_one(flow.state, flow.take_text(piece).state),
{
    let held = Flow {
        state: TranslatorView { full_text: flow.state.full_text + piece, ..flow.state },
        out: flow.out,
    };
    lemma_quiet_keeps_books(flow, held);
    if !flow.state.structured_output {
        stream_laws::lemma_claim_keeps_places(flow.state, held.state);
        lemma_start_text_books(held);
        lemma_quiet_text(held.start_text(), piece);
        lemma_quiet_keeps_books(held.start_text(), flow.take_text(piece));
    }
}

proof fn lemma_take_refusal_books(flow: Flow, piece: Seq<char>)
    requires
        keeps_books(flow),
        is_well_placed(flow.state),
        flow.state.next_output_index < usize::MAX || flow.state.places.message is Some,
    ensures
        keeps_books(flow.take_refusal(piece)),
{
    lemma_item_kinds();
    if flow.state.places.message is Some && flow.state.places.refusal is None {
        lemma_start_refusal_of_begun_books(flow);
    } else if flow.state.places.refusal is None {
        lemma_start_refusal_books(flow);
    }
    let begun = flow.start_refusal();
    let held = Flow {
        state: TranslatorView {
            refusal_text: begun.state.refusal_text + piece,
            ..begun.state
        },
        out: begun.out,
    };
    let document = stream::part_document(
        "response.refusal.delta"@,
        held.state.msg_item_id,
        place(held.state.places.message),
        place(held.state.places.refusal),
    ).with("delta"@, JsonView::Text(piece));
    lemma_quiet_emit(held, "response.refusal.delta"@, document);
    lemma_quiet_keeps_books(begun, flow.take_refusal(piece));
}

proof fn lemma_start_refusal_of_begun_books(flow: Flow)
    requires
        keeps_books(flow),
        flow.state.places.message is Some,
        flow.state.places.refusal is None,
    ensures
        keeps_books(flow.start_refusal()),
{
    lemma_item_kinds();
    let index: usize = if flow.state.places.text is Some {
        1
    } else {
        0
    };
    let placed = Flow {
        state: TranslatorView {
            places: Places { refusal: Some(index), ..flow.state.places },
            ..flow.state
        },
        out: flow.out,
    };
    let document = stream::part_document(
        "response.content_part.added"@,
        flow.state.msg_item_id,
        place(flow.state.places.message),
        index,
    ).with("part"@, response::refusal_part(""@));
    lemma_quiet_emit(placed, "response.content_part.added"@, document);
    lemma_quiet_keeps_books(flow, flow.start_refusal());
}

proof fn lemma_spoken_books(flow: Flow, delta: JsonView)
    requires
        keeps_books(flow),
        is_well_placed(flow.state),
        flow.state.next_output_index < usize::MAX,
    ensures
        keeps_books(flow.spoken(delta)),
{
    let heard = match stream::delta_text(delta) {
        Some(text) => flow.take_text(text),
        None => flow,
    };
    if let Some(text) = stream::delta_text(delta) {
        lemma_take_text_books(flow, text);
        stream_laws::lemma_claim_keeps_places(flow.state, heard.state);
    }
    if let Some(refusal) = response::message_refusal(delta) {
        lemma_take_refusal_books(heard, refusal);
    }
}

proof fn lemma_call_books(flow: Flow, call: JsonView, position: int, fresh: Seq<char>)
    requires
        keeps_books(flow),
        is_well_placed(flow.state),
        in_order(flow.state.tool_calls),
        flow.state.next_output_index < usize::MAX,
        flow.take_call(call, position, fresh).failure is None,
    ensures
        keeps_books(flow.take_call(call, position, fresh).flow),
{
    let before = flow.state.tool_calls;
    let own = stream::stated_index(call, position);
    let informed = stream::informed_call(before, call, position, fresh);
    let start = CallFlow { flow, call: informed };
    let announced = start.announced();
    let told = announced.told();
    let after = flow.with_call(call, position, fresh);
    let calls = after.state.tool_calls;
    let spot = stream::slot(before, own);
    stream::lemma_slot(before, own);
    let known = known_call(before, own) is Some;
    if known {
        assert(before[spot].index == own);
        assert(is_in_step(before[spot]));
    }
    assert(told.call.index == own);
    stream_laws::lemma_call_keeps_places(flow, call, position, fresh);
    let next = flow.state.next_output_index;
    let is_new = informed.output_index is None && informed.id.len() > 0 && informed.name.len() > 0;
    assert(!is_taken(flow.state, next));
    if is_new {
        let claimed = Flow {
            state: TranslatorView { next_output_index: stream::next_index(next), ..flow.state },
            out: flow.out,
        };
        let item = response::call_item(
            informed.item_id,
            "in_progress"@,
            informed.id,
            informed.name,
            ""@,
        );
        lemma_added(claimed, next, item);
    }
    assert(forall|index: usize| #[trigger]
        times_added(announced.flow.out, index) == times_added(flow.out, index) + as_count(
            is_new && index == next,
        ));
    assert(forall|index: usize| #[trigger]
        times_done(announced.flow.out, index) == times_done(flow.out, index));
    assert(forall|index: usize| #[trigger]
        told_arguments(announced.flow.out, index) == told_arguments(flow.out, index));
    let tells = announced.call.output_index is Some && announced.call.unsent.len() > 0;
    let event = told.flow.out.last();
    assert forall|index: usize| #[trigger]
        times_added(after.out, index) == times_added(announced.flow.out, index) by {
        if tells {
            lemma_one_more_event(
                announced.flow.out,
                event,
                "response.output_item.added"@,
                index,
            );
        }
    }
    assert forall|index: usize| #[trigger]
        times_done(after.out, index) == times_done(announced.flow.out, index) by {
        if tells {
            lemma_one_more_event(announced.flow.out, event, "response.output_item.done"@, index);
        }
    }
    assert forall|index: usize| #[trigger]
        told_arguments(after.out, index) == if tells && announced.call.output_index == Some(index) {
            told_arguments(announced.flow.out, index) + announced.call.unsent
        } else {
            told_arguments(announced.flow.out, index)
        } by {
        if tells {
            lemma_one_more_event(announced.flow.out, event, "response.output_item.done"@, index);
        }
    }
    // The places that are taken.
    assert(calls[spot] == told.call);
    assert forall|i: int| 0 <= i < calls.len() && i != spot implies #[trigger] calls[i] == before[if known
        || i < spot {
        i
    } else {
        i - 1
    }] by {
    }
    assert forall|index: usize|
        is_call_at(calls, index) == (#[trigger] is_call_at(before, index) || (is_new && index
            == next)) by {
        if is_call_at(calls, index) {
            let i = choose|i: int|
                0 <= i < calls.len() && (#[trigger] calls[i]).output_index == Some(index);
            if i != spot {
                let k = if known || i < spot {
                    i
                } else {
                    i - 1
                };
                assert(before[k].output_index == Some(index));
            } else if !is_new {
                assert(known);
                assert(before[spot].output_index == Some(index));
            }
        }
        if is_call_at(before, index) {
            let k = choose|k: int|
                0 <= k < before.len() && (#[trigger] before[k]).output_index == Some(index);
            if known && k == spot {
                assert(calls[spot].output_index == Some(index));
            } else {
                let i = if known || k < spot {
                    k
                } else {
                    k + 1
                };
                assert(calls[i] == before[k]);
            }
        }
        if is_new && index == next {
            assert(calls[spot].output_index == Some(index));
        }
    }
    assert forall|index: usize| #[trigger]
        times_added(after.out, index) == as_count(is_taken(after.state, index)) by {
        assert(times_added(flow.out, index) == as_count(is_taken(flow.state, index)));
        assert(is_call_at(before, index) ==> index < next);
    }
    assert forall|index: usize| #[trigger] times_done(after.out, index) == 0 by {
        assert(times_done(flow.out, index) == 0);
    }
    assert forall|index: usize| index >= after.state.next_output_index implies (
    #[trigger] told_arguments(after.out, index)).len() == 0 by {
        assert(told_arguments(flow.out, index).len() == 0);
        assert(calls[spot].output_index == Some(index) ==> index < after.state.next_output_index);
    }
    assert forall|i: int|
        0 <= i < calls.len() && (#[trigger] calls[i]).output_index is Some implies told_arguments(
        after.out,
        calls[i].output_index->0,
    ) == calls[i].arguments by {
        let index = calls[i].output_index->0;
        if i != spot {
            let k = if known || i < spot {
                i
            } else {
                i - 1
            };
            assert(before[k] == calls[i]);
            assert(told_arguments(flow.out, index) == before[k].arguments);
            assert(calls[spot].output_index != Some(index)) by {
                if calls[spot].output_index is Some {
                    if i < spot {
                        assert(calls[i].output_index != calls[spot].output_index);
                    } else {
                        assert(calls[spot].output_index != calls[i].output_index);
                    }
                }
            }
        } else {
            let piece = stream::arguments_piece(response::call_function(call))->0;
            if is_new {
                assert(told_arguments(flow.out, next).len() == 0);
                assert(told_arguments(flow.out, next) =~= Seq::<char>::empty());
                assert(informed.unsent == informed.arguments);
                stream_laws::lemma_nothing_more(informed.arguments);
                if informed.unsent.len() == 0 {
                    assert(informed.arguments =~= Seq::<char>::empty());
                }
            } else {
                assert(told_arguments(flow.out, index) == before[spot].arguments);
                assert(before[spot].unsent =~= Seq::<char>::empty());
                stream_laws::lemma_nothing_more(piece);
                stream_laws::lemma_nothing_more(before[spot].arguments);
                if piece.len() == 0 {
                    assert(piece =~= Seq::<char>::empty());
                }
            }
        }
    }
}

proof fn lemma_calls_books(flow: Flow, calls: Seq<JsonView>, fresh: Seq<Seq<char>>)
    requires
        keeps_books(flow),
        is_well_placed(flow.state),
        in_order(flow.state.tool_calls),
        flow.state.next_output_index + calls.len() <= usize::MAX,
        flow.take_calls(calls, fresh).failure is None,
    ensures
        keeps_books(flow.take_calls(calls, fresh).flow),
        is_well_placed(flow.take_calls(calls, fresh).flow.state),
        in_order(flow.take_calls(calls, fresh).flow.state.tool_calls),
        flow.take_calls(calls, fresh).flow.state.next_output_index
            <= flow.state.next_output_index + calls.len(),
    decreases calls.len(),
{
    if calls.len() > 0 {
        lemma_calls_books(flow, calls.drop_last(), fresh);
        let earlier = flow.take_calls(calls.drop_last(), fresh).flow;
        let position = calls.len() - 1;
        stream_laws::lemma_call_keeps_places(earlier, calls.last(), position, fresh[position]);
        lemma_call_books(earlier, calls.last(), position, fresh[position]);
    }
}

/// The events of a chunk agree with the state after it, as long as the chunk
/// does not make the answer fail. The bound leaves out a chunk that would use up
/// all indexes.
pub proof fn law_chunk_keeps_books(flow: Flow, chunk: JsonView, fresh: Seq<Seq<char>>)
    requires
        keeps_books(flow),
        is_well_placed(flow.state),
        in_order(flow.state.tool_calls),
        flow.state.next_output_index + chunk_calls(chunk).len() + 1 <= usize::MAX,
        flow.push_chunk(chunk, fresh).failure is None,
    ensures
        keeps_books(flow.push_chunk(chunk, fresh).flow),
        is_well_placed(flow.push_chunk(chunk, fresh).flow.state),
        in_order(flow.push_chunk(chunk, fresh).flow.state.tool_calls),
        flow.push_chunk(chunk, fresh).flow.state.next_output_index
            <= flow.state.next_output_index + chunk_calls(chunk).len() + 1,
{
    stream_laws::law_places_are_unique(flow, chunk, fresh);
    let known = flow.informed(chunk);
    lemma_quiet_keeps_books(flow, known);
    if let Some(choice) = response::first_choice(chunk) {
        if let Some(delta) = stream::choice_delta(choice) {
            let reasoned = known.chosen(choice).reasoned(delta);
            lemma_quiet_keeps_books(flow, reasoned);
            stream_laws::lemma_claim_keeps_places(flow.state, reasoned.state);
            lemma_spoken_books(reasoned, delta);
            stream_laws::lemma_spoken_claims(reasoned, delta);
            let spoken = reasoned.spoken(delta);
            stream_laws::lemma_claim_keeps_places(reasoned.state, spoken.state);
            lemma_calls_books(spoken, response::message_calls(delta), fresh);
        }
    }
}

/// How many output indexes chunks may claim.
pub open spec fn most_claims(chunks: Seq<JsonView>) -> nat
    decreases chunks.len(),
{
    if chunks.len() == 0 {
        0
    } else {
        most_claims(chunks.drop_last()) + chunk_calls(chunks.last()).len() + 1
    }
}

/// Whether the text of an answer that is not structured is told piece by piece,
/// and structured text is held back.
pub open spec fn tells_text(flow: Flow) -> bool {
    if flow.state.structured_output {
        told_text(flow.out).len() == 0
    } else {
        joined(told_text(flow.out)) == flow.state.full_text
    }
}

proof fn lemma_joined_more(lists: Seq<Seq<char>>, more: Seq<Seq<char>>)
    ensures
        joined(lists + more) == joined(lists) + joined(more),
    decreases more.len(),
{
    if more.len() == 0 {
        assert(lists + more =~= lists);
        stream_laws::lemma_nothing_more(joined(lists));
    } else {
        lemma_joined_more(lists, more.drop_last());
        assert((lists + more).drop_last() =~= lists + more.drop_last());
        assert(joined(lists) + joined(more.drop_last()) + more.last() =~= joined(lists) + (joined(
            more.drop_last(),
        ) + more.last()));
    }
}

proof fn lemma_joined_one(piece: Seq<char>)
    ensures
        joined(seq![piece]) == piece,
        joined(Seq::<Seq<char>>::empty()) == Seq::<char>::empty(),
{
    let none = Seq::<Seq<char>>::empty();
    assert(joined(none) =~= Seq::<char>::empty());
    assert(seq![piece].drop_last() =~= none);
    assert(joined(seq![piece]) == joined(none) + piece);
    stream_laws::lemma_nothing_more(piece);
}

/// The events of chunks agree with the state after them, as long as none makes
/// the answer fail.
pub proof fn law_chunks_keep_books(
    start: Flow,
    chunks: Seq<JsonView>,
    fresh: Seq<Seq<Seq<char>>>,
)
    requires
        keeps_books(start),
        tells_text(start),
        is_well_placed(start.state),
        in_order(start.state.tool_calls),
        start.state.next_output_index + most_claims(chunks) <= usize::MAX,
        start.accepts(chunks, fresh),
    ensures
        ({
            let after = start.after_chunks(chunks, fresh);
            &&& keeps_books(after)
            &&& tells_text(after)
            &&& is_well_placed(after.state)
            &&& in_order(after.state.tool_calls)
            &&& after.state.next_output_index <= start.state.next_output_index + most_claims(chunks)
        }),
    decreases chunks.len(),
{
    if chunks.len() > 0 {
        let rest = chunks.drop_last();
        law_chunks_keep_books(start, rest, fresh);
        let flow = start.after_chunks(rest, fresh);
        let chunk = chunks.last();
        let drawn = fresh[chunks.len() - 1];
        law_chunk_keeps_books(flow, chunk, drawn);
        stream_laws::law_chunk(flow, chunk, drawn);
        let told = told_now(flow.state, chunk_text(chunk));
        lemma_joined_more(told_text(flow.out), told);
        lemma_joined_one(stream_laws::added(chunk_text(chunk)));
        stream_laws::lemma_nothing_more(told_text(flow.out));
    }
}

// ---------------------------------------------------------------------------
// The end
// ---------------------------------------------------------------------------

/// How many of the calls have an output index.
spec fn calls_at(calls: Seq<(usize, CallView)>, index: usize) -> nat
    decreases calls.len(),
{
    if calls.len() == 0 {
        0
    } else {
        calls_at(calls.drop_last(), index) + as_count(calls.last().0 == index)
    }
}

proof fn lemma_calls_at_insert(
    calls: Seq<(usize, CallView)>,
    place: int,
    call: (usize, CallView),
    index: usize,
)
    requires
        0 <= place <= calls.len(),
    ensures
        calls_at(calls.insert(place, call), index) == calls_at(calls, index) + as_count(
            call.0 == index,
        ),
    decreases calls.len(),
{
    let after = calls.insert(place, call);
    if place == calls.len() {
        assert(after.drop_last() =~= calls);
    } else {
        assert(after.drop_last() =~= calls.drop_last().insert(place, call));
        assert(after.last() == calls.last());
        lemma_calls_at_insert(calls.drop_last(), place, call, index);
    }
}

proof fn lemma_calls_at_ordered(calls: Seq<(usize, CallView)>, index: usize)
    ensures
        calls_at(ordered(calls), index) == calls_at(calls, index),
    decreases calls.len(),
{
    if calls.len() > 0 {
        lemma_calls_at_ordered(calls.drop_last(), index);
        let earlier = ordered(calls.drop_last());
        order::lemma_rank(earlier, calls.last().0);
        lemma_calls_at_insert(
            earlier,
            order::rank(earlier, calls.last().0),
            calls.last(),
            index,
        );
    }
}

proof fn lemma_calls_at_announced(calls: Seq<CallView>, index: usize)
    requires
        forall|i: int, j: int|
            0 <= i < j < calls.len() && (#[trigger] calls[i]).output_index is Some
                ==> calls[i].output_index != (#[trigger] calls[j]).output_index,
    ensures
        calls_at(announced_calls(calls), index) == as_count(is_call_at(calls, index)),
    decreases calls.len(),
{
    if calls.len() > 0 {
        let rest = calls.drop_last();
        assert forall|i: int, j: int|
            0 <= i < j < rest.len() && (#[trigger] rest[i]).output_index
                is Some implies rest[i].output_index != (#[trigger] rest[j]).output_index by {
            assert(rest[i] == calls[i] && rest[j] == calls[j]);
        }
        lemma_calls_at_announced(rest, index);
        let last = calls.len() - 1;
        if let Some(own) = calls.last().output_index {
            let earlier = announced_calls(rest);
            assert(announced_calls(calls).drop_last() =~= earlier);
        }
        if is_call_at(rest, index) {
            let i = choose|i: int|
                0 <= i < rest.len() && (#[trigger] rest[i]).output_index == Some(index);
            assert(calls[i].output_index == Some(index));
            assert(calls[i].output_index != calls[last].output_index);
        }
        if is_call_at(calls, index) && calls[last].output_index != Some(index) {
            let i = choose|i: int|
                0 <= i < calls.len() && (#[trigger] calls[i]).output_index == Some(index);
            assert(rest[i].output_index == Some(index));
        }
        if calls[last].output_index == Some(index) {
            assert(is_call_at(calls, index));
        }
    }
}

/// Closing calls closes each once, and tells nothing else of the items.
proof fn lemma_close_calls_books(flow: Flow, calls: Seq<(usize, CallView)>, ending: Ending)
    ensures
        ({
            let after = flow.close_calls(calls, ending).out;
            &&& forall|index: usize| #[trigger]
                times_done(after, index) == times_done(flow.out, index) + calls_at(calls, index)
            &&& forall|index: usize| #[trigger]
                times_added(after, index) == times_added(flow.out, index)
            &&& forall|index: usize| #[trigger]
                told_arguments(after, index) == told_arguments(flow.out, index)
        }),
    decreases calls.len(),
{
    lemma_item_kinds();
    if calls.len() > 0 {
        lemma_close_calls_books(flow, calls.drop_last(), ending);
        let earlier = flow.close_calls(calls.drop_last(), ending);
        let (own, call) = calls.last();
        let document = stream::typed("response.function_call_arguments.done"@).with(
            "item_id"@,
            JsonView::Text(call.item_id),
        ).with("output_index"@, index_view(own)).with(
            "arguments"@,
            JsonView::Text(call.arguments),
        ).with("name"@, JsonView::Text(call.name));
        let argued = if ending.incomplete() {
            earlier
        } else {
            earlier.emit("response.function_call_arguments.done"@, document)
        };
        lemma_quiet_emit(earlier, "response.function_call_arguments.done"@, document);
        assert(is_quiet(earlier.out, argued.out));
        lemma_done(argued, own, stream_end::final_call(call, ending));
        let after = flow.close_calls(calls, ending).out;
        assert forall|index: usize| #[trigger]
            times_done(after, index) == times_done(flow.out, index) + calls_at(calls, index) by {
            assert(times_done(argued.out, index) == times_done(earlier.out, index));
        }
        assert forall|index: usize| #[trigger]
            times_added(after, index) == times_added(flow.out, index) by {
            assert(times_added(argued.out, index) == times_added(earlier.out, index));
        }
        assert forall|index: usize| #[trigger]
            told_arguments(after, index) == told_arguments(flow.out, index) by {
            assert(told_arguments(argued.out, index) == told_arguments(earlier.out, index));
        }
    }
}

proof fn lemma_close_message_books(flow: Flow, ending: Ending)
    ensures
        ({
            let after = flow.close_message(ending).out;
            &&& forall|index: usize| #[trigger]
                times_done(after, index) == times_done(flow.out, index) + as_count(
                    flow.state.places.message == Some(index),
                )
            &&& forall|index: usize| #[trigger]
                times_added(after, index) == times_added(flow.out, index)
            &&& forall|index: usize| #[trigger]
                told_arguments(after, index) == told_arguments(flow.out, index)
        }),
{
    lemma_item_kinds();
    if let Some(own) = flow.state.places.message {
        let id = flow.state.msg_item_id;
        let text = flow.close_text();
        if let Some(place) = flow.state.places.text {
            let done = stream::part_document("response.output_text.done"@, id, own, place).with(
                "text"@,
                JsonView::Text(flow.state.full_text),
            ).with("logprobs"@, response::empty_array());
            lemma_quiet_emit(flow, "response.output_text.done"@, done);
            let ended = flow.emit("response.output_text.done"@, done);
            let part = stream::part_document(
                "response.content_part.done"@,
                id,
                own,
                place,
            ).with("part"@, response::output_text_part(flow.state.full_text));
            lemma_quiet_emit(ended, "response.content_part.done"@, part);
            lemma_quiet_twice(flow.out, ended.out, text.out);
        }
        assert(is_quiet(flow.out, text.out));
        let refused = text.close_refusal();
        if let Some(place) = text.state.places.refusal {
            let done = stream::part_document("response.refusal.done"@, id, own, place).with(
                "refusal"@,
                JsonView::Text(text.state.refusal_text),
            );
            lemma_quiet_emit(text, "response.refusal.done"@, done);
            let ended = text.emit("response.refusal.done"@, done);
            let part = stream::part_document(
                "response.content_part.done"@,
                id,
                own,
                place,
            ).with("part"@, response::refusal_part(text.state.refusal_text));
            lemma_quiet_emit(ended, "response.content_part.done"@, part);
            lemma_quiet_twice(text.out, ended.out, refused.out);
        }
        lemma_quiet_twice(flow.out, text.out, refused.out);
        lemma_done(refused, own, stream_end::final_message(flow.state, ending));
    }
}

proof fn lemma_quiet_twice(first: Seq<EventView>, second: Seq<EventView>, third: Seq<EventView>)
    requires
        is_quiet(first, second),
        is_quiet(second, third),
    ensures
        is_quiet(first, third),
{
    assert forall|index: usize| #[trigger]
        times_added(third, index) == times_added(first, index) by {
        assert(times_added(second, index) == times_added(first, index));
    }
    assert forall|index: usize| #[trigger] times_done(third, index) == times_done(first, index) by {
        assert(times_done(second, index) == times_done(first, index));
    }
    assert forall|index: usize| #[trigger]
        told_arguments(third, index) == told_arguments(first, index) by {
        assert(told_arguments(second, index) == told_arguments(first, index));
    }
}

proof fn lemma_released_books(flow: Flow)
    requires
        keeps_books(flow),
        is_well_placed(flow.state),
        flow.state.next_output_index < usize::MAX,
    ensures
        keeps_books(flow.released()),
        is_well_placed(flow.released().state),
{
    let after = flow.released();
    stream_laws::lemma_claim_keeps_places(flow.state, after.state);
    if holds_output(flow.state) {
        match stream_end::checked_text(flow.state) {
            Some(text) => {
                lemma_start_text_books(flow);
                let begun = flow.start_text();
                let replaced = Flow {
                    state: TranslatorView { full_text: text, ..begun.state },
                    out: begun.out,
                };
                lemma_quiet_text(replaced, text);
                lemma_quiet_keeps_books(begun, after);
            },
            None => lemma_quiet_keeps_books(flow, after),
        }
    }
}

/// A completed answer is told without a gap. The text that was told piece by
/// piece is the text of its message, where it has one. The arguments that were
/// told of a call are its arguments. Every output item was announced once and
/// closed once.
pub proof fn law_completed_answer_is_told(
    start: Flow,
    chunks: Seq<JsonView>,
    fresh: Seq<Seq<Seq<char>>>,
    entries: Seq<EntryView>,
)
    requires
        keeps_books(start),
        tells_text(start),
        has_heard(start.state, Seq::empty()),
        is_well_placed(start.state),
        start.state.next_output_index + most_claims(chunks) < usize::MAX,
        start.accepts(chunks, fresh),
        start.after_chunks(chunks, fresh).finish(entries).completed,
    ensures
        ({
            let state = start.after_chunks(chunks, fresh).released().state;
            let out = start.after_chunks(chunks, fresh).finish(entries).flow.out;
            &&& joined(told_text(out)) == if state.places.text is Some {
                state.full_text
            } else {
                Seq::empty()
            }
            &&& forall|i: int|
                0 <= i < state.tool_calls.len() && (#[trigger] state.tool_calls[i]).output_index
                    is Some ==> told_arguments(out, state.tool_calls[i].output_index->0)
                    == state.tool_calls[i].arguments
            &&& forall|index: usize| #[trigger]
                times_added(out, index) == as_count(is_taken(state, index))
            &&& forall|index: usize| #[trigger]
                times_done(out, index) == as_count(is_taken(state, index))
            &&& is_well_placed(state)
        }),
{
    lemma_item_kinds();
    law_chunks_keep_books(start, chunks, fresh);
    stream_sums::law_chunks_are_taken_in(start, chunks, fresh);
    let flow = start.after_chunks(chunks, fresh);
    stream_laws::law_finish(flow, entries);
    lemma_released_books(flow);
    let released = flow.released();
    let state = released.state;
    let end = flow.finish(entries).flow;
    let ending = response::ending_of(flow.state.finish_reason->0)->0;
    lemma_close_message_books(released, ending);
    let calls = ordered(announced_calls(state.tool_calls));
    let closed = released.close_message(ending);
    lemma_close_calls_books(closed, calls, ending);
    let last = closed.close_calls(calls, ending);
    let kind = stream_end::final_kind(ending);
    let document = stream_end::final_document(state, ending);
    lemma_quiet_emit(last, kind, document);
    assert(end == last.emit(kind, document));
    assert forall|index: usize| #[trigger]
        times_done(end.out, index) == as_count(is_taken(state, index)) by {
        assert(times_done(last.out, index) == times_done(closed.out, index) + calls_at(
            calls,
            index,
        ));
        assert(times_done(closed.out, index) == times_done(released.out, index) + as_count(
            state.places.message == Some(index),
        ));
        assert(times_done(released.out, index) == 0);
        lemma_calls_at_ordered(announced_calls(state.tool_calls), index);
        lemma_calls_at_announced(state.tool_calls, index);
    }
    assert forall|index: usize| #[trigger]
        times_added(end.out, index) == as_count(is_taken(state, index)) by {
        assert(times_added(last.out, index) == times_added(closed.out, index));
        assert(times_added(closed.out, index) == times_added(released.out, index));
        assert(times_added(released.out, index) == as_count(is_taken(state, index)));
    }
    assert forall|i: int|
        0 <= i < state.tool_calls.len() && (#[trigger] state.tool_calls[i]).output_index
            is Some implies told_arguments(end.out, state.tool_calls[i].output_index->0)
        == state.tool_calls[i].arguments by {
        let index = state.tool_calls[i].output_index->0;
        assert(told_arguments(last.out, index) == told_arguments(closed.out, index));
        assert(told_arguments(closed.out, index) == told_arguments(released.out, index));
    }
    let told = stream_laws::told_last(flow.state);
    lemma_joined_more(told_text(flow.out), told);
    lemma_joined_one(Seq::<char>::empty());
    if stream_end::checked_text(flow.state) is Some {
        lemma_joined_one(stream_end::checked_text(flow.state)->0);
    }
    stream_laws::lemma_nothing_more(joined(told_text(flow.out)));
    stream_laws::lemma_nothing_more(told);
    if flow.state.structured_output {
        assert(told_text(flow.out) =~= Seq::<Seq<char>>::empty());
    } else if state.places.text is None {
        assert(flow.state.full_text =~= Seq::<char>::empty());
    }
}

/// The events of an answer that has just begun agree with its state.
pub proof fn law_beginning_keeps_books(
    context: ContextView,
    msg_item_id: Seq<char>,
    message: Seq<char>,
)
    ensures
        keeps_books(context.opened(msg_item_id, message).flow),
        tells_text(context.opened(msg_item_id, message).flow),
        has_heard(context.opened(msg_item_id, message).flow.state, Seq::empty()),
        is_well_placed(context.opened(msg_item_id, message).flow.state),
        context.opened(msg_item_id, message).flow.state.next_output_index == 0,
{
    reveal_strlit("response.created");
    reveal_strlit("response.in_progress");
    reveal_strlit("response.output_item.added");
    reveal_strlit("response.output_item.done");
    assert("response.created"@.len() == 16 && "response.in_progress"@.len() == 20);
    assert("response.output_item.added"@.len() == 26 && "response.output_item.done"@.len() == 25);
    let state = stream::fresh_translator(
        context.response_id,
        context.model,
        context.created_at,
        context.structured_output,
        context.structured_schema,
        context.metadata,
        msg_item_id,
    );
    let empty = Flow { state, out: Seq::empty() };
    let created = stream::stub_document(state, "response.created"@, "in_progress"@);
    let progress = stream::stub_document(state, "response.in_progress"@, "in_progress"@);
    let first = empty.emit("response.created"@, created);
    lemma_quiet_emit(empty, "response.created"@, created);
    lemma_quiet_emit(first, "response.in_progress"@, progress);
    let flow = first.emit("response.in_progress"@, progress);
    assert(flow == context.opened(msg_item_id, message).flow);
    assert(keeps_books(empty));
    lemma_quiet_keeps_books(empty, first);
    lemma_quiet_keeps_books(first, flow);
    assert(flow.out.drop_last() =~= first.out);
    assert(first.out.drop_last() =~= empty.out);
    lemma_joined_one(Seq::<char>::empty());
    reveal_with_fuel(told_text, 3);
    assert(told_text(flow.out) =~= Seq::<Seq<char>>::empty());
}

} // verus!
