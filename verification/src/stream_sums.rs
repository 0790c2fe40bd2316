//! What the chunks of a streamed answer add up to.

use crate::content;
use crate::json::JsonView;
use crate::reasoning::EntryView;
use crate::response;
use crate::stream;
use crate::stream::{
    arguments_piece, chunk_calls, delta_text, in_order, known_call, replaced, stated_index,
    CallFlow, CallView, Flow, TranslatorView,
};
use crate::stream_end;
use crate::stream_end::{first_anonymous, is_anonymous};
use crate::stream_laws;
use crate::stream_laws::{added, chunk_text};
use crate::text;
use vstd::prelude::*;

verus! {

impl Flow {
    /// The flow after chunks, in their order.
    pub open spec fn after_chunks(
        self,
        chunks: Seq<JsonView>,
        fresh: Seq<Seq<Seq<char>>>,
    ) -> Flow
        decreases chunks.len(),
    {
        if chunks.len() == 0 {
            self
        } else {
            self.after_chunks(chunks.drop_last(), fresh).push_chunk(
                chunks.last(),
                fresh[chunks.len() - 1],
            ).flow
        }
    }

    /// Whether none of the chunks makes the answer fail.
    pub open spec fn accepts(self, chunks: Seq<JsonView>, fresh: Seq<Seq<Seq<char>>>) -> bool
        decreases chunks.len(),
    {
        chunks.len() > 0 ==> {
            &&& self.accepts(chunks.drop_last(), fresh)
            &&& self.after_chunks(chunks.drop_last(), fresh).push_chunk(
                chunks.last(),
                fresh[chunks.len() - 1],
            ).failure is None
        }
    }
}

// ---------------------------------------------------------------------------
// What chunks say
// ---------------------------------------------------------------------------

/// The delta of the first choice of a chunk.
pub open spec fn chunk_delta(chunk: JsonView) -> Option<JsonView> {
    match response::first_choice(chunk) {
        Some(choice) => stream::choice_delta(choice),
        None => None,
    }
}

/// Whether any chunk has a choice.
pub open spec fn have_choice(chunks: Seq<JsonView>) -> bool
    decreases chunks.len(),
{
    chunks.len() > 0 && (have_choice(chunks.drop_last()) || response::first_choice(chunks.last())
        is Some)
}

/// The reason for the end that was given last.
pub open spec fn last_reason(chunks: Seq<JsonView>) -> Option<Seq<char>>
    decreases chunks.len(),
{
    if chunks.len() == 0 {
        None
    } else {
        let earlier = last_reason(chunks.drop_last());
        match response::first_choice(chunks.last()) {
            Some(choice) => match choice.text_at("finish_reason"@) {
                Some(reason) => Some(reason),
                None => earlier,
            },
            None => earlier,
        }
    }
}

/// All the text that chunks bring.
pub open spec fn whole_text(chunks: Seq<JsonView>) -> Seq<char>
    decreases chunks.len(),
{
    if chunks.len() == 0 {
        Seq::empty()
    } else {
        whole_text(chunks.drop_last()) + added(chunk_text(chunks.last()))
    }
}

/// Whether any chunk brings a refusal.
pub open spec fn have_refusal(chunks: Seq<JsonView>) -> bool
    decreases chunks.len(),
{
    chunks.len() > 0 && (have_refusal(chunks.drop_last()) || (chunk_delta(chunks.last()) is Some
        && response::message_refusal(chunk_delta(chunks.last())->0) is Some))
}

/// The tool calls of a chunk, each with its position.
pub open spec fn placed_calls(calls: Seq<JsonView>) -> Seq<(JsonView, int)> {
    Seq::new(calls.len(), |i: int| (calls[i], i))
}

/// The tool calls of all chunks, in their order, each with its position in its
/// chunk.
pub open spec fn all_calls(chunks: Seq<JsonView>) -> Seq<(JsonView, int)>
    decreases chunks.len(),
{
    if chunks.len() == 0 {
        Seq::empty()
    } else {
        all_calls(chunks.drop_last()) + placed_calls(chunk_calls(chunks.last()))
    }
}

/// What is said of a tool call.
pub struct CallTold {
    pub id: Seq<char>,
    pub name: Seq<char>,
    pub arguments: Seq<char>,
}

/// What is said of the tool call with an index: its identity as it was stated
/// last, and all its arguments; nothing where it is not mentioned.
pub open spec fn call_told(calls: Seq<(JsonView, int)>, index: u64) -> Option<CallTold>
    decreases calls.len(),
{
    if calls.len() == 0 {
        None
    } else {
        let earlier = call_told(calls.drop_last(), index);
        let (call, position) = calls.last();
        if stated_index(call, position) != index {
            earlier
        } else {
            let known = match earlier {
                Some(known) => known,
                None => CallTold { id: Seq::empty(), name: Seq::empty(), arguments: Seq::empty() },
            };
            let function = response::call_function(call);
            Some(
                CallTold {
                    id: replaced(known.id, call.text_at("id"@)),
                    name: replaced(known.name, function.text_at("name"@)),
                    arguments: known.arguments + arguments_piece(function)->0,
                },
            )
        }
    }
}

/// Whether every tool call that is mentioned gets an identifier and a name.
pub open spec fn are_named(calls: Seq<(JsonView, int)>) -> bool {
    forall|index: u64|
        (#[trigger] call_told(calls, index)) matches Some(told) ==> told.id.len() > 0
            && told.name.len() > 0
}

/// What a known call says.
pub open spec fn told_by(call: Option<CallView>) -> Option<CallTold> {
    match call {
        Some(call) => Some(
            CallTold { id: call.id, name: call.name, arguments: call.arguments },
        ),
        None => None,
    }
}

// ---------------------------------------------------------------------------
// Calls
// ---------------------------------------------------------------------------

/// The call that stands at a place is the one with its index.
pub proof fn lemma_known_at(calls: Seq<CallView>, place: int)
    requires
        in_order(calls),
        0 <= place < calls.len(),
    ensures
        known_call(calls, calls[place].index) == Some(calls[place]),
        stream::slot(calls, calls[place].index) == place,
{
    let index = calls[place].index;
    stream::lemma_slot(calls, index);
    let found = stream::slot(calls, index);
    if found < place {
        assert(calls[found].index < calls[place].index);
    }
    if place < found {
        assert(calls[place].index < index);
    }
}

/// A call with another index stays as it is when a call is put in its place.
proof fn lemma_other_calls_stay(calls: Seq<CallView>, call: CallView, index: u64)
    requires
        in_order(calls),
        index != call.index,
    ensures
        known_call(stream::with_call(calls, call), index) == known_call(calls, index),
{
    stream::lemma_with_call_in_order(calls, call);
    let after = stream::with_call(calls, call);
    let spot = stream::slot(calls, call.index);
    stream::lemma_slot(calls, call.index);
    let known = known_call(calls, call.index) is Some;
    stream::lemma_slot(calls, index);
    stream::lemma_slot(after, index);
    match known_call(calls, index) {
        Some(found) => {
            let place = stream::slot(calls, index);
            let moved = if known || place < spot {
                place
            } else {
                place + 1
            };
            assert(after[moved] == found);
            lemma_known_at(after, moved);
        },
        None => {
            if known_call(after, index) is Some {
                let place = stream::slot(after, index);
                let moved = if known || place < spot {
                    place
                } else {
                    place - 1
                };
                assert(place != spot);
                assert(calls[moved] == after[place]);
                lemma_known_at(calls, moved);
            }
        },
    }
}

proof fn lemma_call_adds(flow: Flow, call: JsonView, position: int, fresh: Seq<char>, index: u64)
    requires
        in_order(flow.state.tool_calls),
        flow.take_call(call, position, fresh).failure is None,
    ensures
        ({
            let after = flow.take_call(call, position, fresh).flow.state;
            let before = flow.state;
            &&& in_order(after.tool_calls)
            &&& after == (TranslatorView {
                tool_calls: after.tool_calls,
                next_output_index: after.next_output_index,
                sequence: after.sequence,
                ..before
            })
            &&& after.tool_calls.len() > 0
            &&& stated_index(call, position) != index ==> known_call(after.tool_calls, index)
                == known_call(before.tool_calls, index)
            &&& stated_index(call, position) == index ==> known_call(after.tool_calls, index)
                is Some && told_by(known_call(after.tool_calls, index)) == Some(
                CallTold {
                    id: replaced(
                        known_or_new(before.tool_calls, index).id,
                        call.text_at("id"@),
                    ),
                    name: replaced(
                        known_or_new(before.tool_calls, index).name,
                        response::call_function(call).text_at("name"@),
                    ),
                    arguments: known_or_new(before.tool_calls, index).arguments + arguments_piece(
                        response::call_function(call),
                    )->0,
                },
            )
        }),
{
    let before = flow.state.tool_calls;
    let informed = stream::informed_call(before, call, position, fresh);
    let told = CallFlow { flow, call: informed }.announced().told();
    stream::lemma_slot(before, stated_index(call, position));
    assert(told.call.index == stated_index(call, position)) by {
        let own = stated_index(call, position);
        if known_call(before, own) is Some {
            assert(before[stream::slot(before, own)].index == own);
        }
    }
    stream::lemma_with_call_in_order(before, told.call);
    if stated_index(call, position) != index {
        lemma_other_calls_stay(before, told.call, index);
    }
}

/// What is known of a call, or nothing yet.
pub open spec fn known_or_new(calls: Seq<CallView>, index: u64) -> CallTold {
    match told_by(known_call(calls, index)) {
        Some(known) => known,
        None => CallTold { id: Seq::empty(), name: Seq::empty(), arguments: Seq::empty() },
    }
}

proof fn lemma_calls_add(
    flow: Flow,
    earlier: Seq<(JsonView, int)>,
    calls: Seq<JsonView>,
    fresh: Seq<Seq<char>>,
    index: u64,
)
    requires
        in_order(flow.state.tool_calls),
        told_by(known_call(flow.state.tool_calls, index)) == call_told(earlier, index),
        flow.state.tool_calls.len() == 0 <==> earlier.len() == 0,
        flow.take_calls(calls, fresh).failure is None,
    ensures
        ({
            let after = flow.take_calls(calls, fresh).flow.state;
            &&& in_order(after.tool_calls)
            &&& told_by(known_call(after.tool_calls, index)) == call_told(
                earlier + placed_calls(calls),
                index,
            )
            &&& after.tool_calls.len() == 0 <==> (earlier + placed_calls(calls)).len() == 0
            &&& after == (TranslatorView {
                tool_calls: after.tool_calls,
                next_output_index: after.next_output_index,
                sequence: after.sequence,
                ..flow.state
            })
        }),
    decreases calls.len(),
{
    if calls.len() == 0 {
        assert(earlier + placed_calls(calls) =~= earlier);
    } else {
        let rest = calls.drop_last();
        lemma_calls_add(flow, earlier, rest, fresh, index);
        let middle = flow.take_calls(rest, fresh).flow;
        let position = calls.len() - 1;
        lemma_call_adds(middle, calls.last(), position, fresh[position], index);
        let all = earlier + placed_calls(calls);
        assert(all.drop_last() =~= earlier + placed_calls(rest));
        assert(all.last() == (calls.last(), position));
    }
}

// ---------------------------------------------------------------------------
// Chunks
// ---------------------------------------------------------------------------

/// Whether a translator has taken in what chunks say: the choices, the reason
/// for the end, the text, the refusal and the calls.
pub open spec fn has_heard(state: TranslatorView, chunks: Seq<JsonView>) -> bool {
    &&& state.saw_valid_choice == have_choice(chunks)
    &&& state.finish_reason == last_reason(chunks)
    &&& state.full_text == whole_text(chunks)
    &&& state.places.refusal is Some <==> have_refusal(chunks)
    &&& state.structured_output ==> state.places.text is None
    &&& !state.structured_output ==> (state.places.text is Some <==> whole_text(chunks).len() > 0)
    &&& in_order(state.tool_calls)
    &&& state.tool_calls.len() == 0 <==> all_calls(chunks).len() == 0
    &&& forall|index: u64|
        told_by(known_call(state.tool_calls, index)) == #[trigger] call_told(
            all_calls(chunks),
            index,
        )
}

proof fn lemma_spoken_adds(flow: Flow, delta: JsonView)
    ensures
        ({
            let after = flow.spoken(delta).state;
            &&& after == (TranslatorView {
                full_text: flow.state.full_text + added(delta_text(delta)),
                refusal_text: after.refusal_text,
                places: after.places,
                next_output_index: after.next_output_index,
                sequence: after.sequence,
                ..flow.state
            })
            &&& after.places.refusal is Some <==> flow.state.places.refusal is Some
                || response::message_refusal(delta) is Some
            &&& after.places.text is Some <==> flow.state.places.text is Some || (
            !flow.state.structured_output && delta_text(delta) is Some)
        }),
{
    stream_laws::lemma_nothing_more(flow.state.full_text);
    let heard = match delta_text(delta) {
        Some(text) => flow.take_text(text),
        None => flow,
    };
    assert(heard.state.places.text is Some <==> flow.state.places.text is Some || (
    !flow.state.structured_output && delta_text(delta) is Some));
    assert(heard.state.places.refusal == flow.state.places.refusal);
}

/// Whatever chunks say is taken in, as long as none makes the answer fail.
pub proof fn law_chunks_are_taken_in(
    start: Flow,
    chunks: Seq<JsonView>,
    fresh: Seq<Seq<Seq<char>>>,
)
    requires
        has_heard(start.state, Seq::empty()),
        start.accepts(chunks, fresh),
    ensures
        has_heard(start.after_chunks(chunks, fresh).state, chunks),
        start.after_chunks(chunks, fresh).state.structured_output == start.state.structured_output,
        start.after_chunks(chunks, fresh).state.structured_schema == start.state.structured_schema,
        start.after_chunks(chunks, fresh).state.has_failed_event == start.state.has_failed_event,
    decreases chunks.len(),
{
    if chunks.len() == 0 {
        assert(chunks =~= Seq::<JsonView>::empty());
    } else {
        let rest = chunks.drop_last();
        law_chunks_are_taken_in(start, rest, fresh);
        let flow = start.after_chunks(rest, fresh);
        let chunk = chunks.last();
        let drawn = fresh[chunks.len() - 1];
        let after = flow.push_chunk(chunk, drawn).flow;
        stream_laws::lemma_nothing_more(flow.state.full_text);
        let known = flow.informed(chunk);
        match response::first_choice(chunk) {
            None => {
                assert(placed_calls(chunk_calls(chunk)) =~= Seq::<(JsonView, int)>::empty());
                assert(all_calls(chunks) =~= all_calls(rest));
            },
            Some(choice) => {
                let delta = stream::choice_delta(choice)->0;
                let reasoned = known.chosen(choice).reasoned(delta);
                lemma_spoken_adds(reasoned, delta);
                let spoken = reasoned.spoken(delta);
                let calls = response::message_calls(delta);
                assert forall|index: u64|
                    told_by(known_call(after.state.tool_calls, index)) == #[trigger] call_told(
                        all_calls(chunks),
                        index,
                    ) by {
                    assert(told_by(known_call(flow.state.tool_calls, index)) == call_told(
                        all_calls(rest),
                        index,
                    ));
                    lemma_calls_add(spoken, all_calls(rest), calls, drawn, index);
                }
                lemma_calls_add(spoken, all_calls(rest), calls, drawn, 0);
                let piece = delta_text(delta);
                assert(piece is Some ==> (piece->0).len() > 0);
            },
        }
    }
}

// ---------------------------------------------------------------------------
// When an answer is completed
// ---------------------------------------------------------------------------

proof fn lemma_first_anonymous(calls: Seq<CallView>)
    ensures
        first_anonymous(calls) is None <==> forall|i: int|
            0 <= i < calls.len() ==> !is_anonymous(#[trigger] calls[i]),
    decreases calls.len(),
{
    if calls.len() > 0 {
        let rest = calls.drop_last();
        lemma_first_anonymous(rest);
        if first_anonymous(calls) is None {
            assert forall|i: int| 0 <= i < calls.len() implies !is_anonymous(
                #[trigger] calls[i],
            ) by {
                if i < rest.len() {
                    assert(!is_anonymous(rest[i]));
                }
            }
        } else if forall|i: int| 0 <= i < calls.len() ==> !is_anonymous(#[trigger] calls[i]) {
            assert(!is_anonymous(calls[calls.len() - 1]));
            assert forall|i: int| 0 <= i < rest.len() implies !is_anonymous(#[trigger] rest[i]) by {
                assert(!is_anonymous(calls[i]));
            }
        }
    }
}

/// Whether the chunks of an answer allow it to be completed: one of them has a
/// choice, the last reason for the end is a known one, every tool call gets an
/// identifier and a name, and structured output, where it was asked for and the
/// answer neither refuses nor calls a tool, is what was asked for.
pub open spec fn can_complete(
    chunks: Seq<JsonView>,
    structured: bool,
    schema: Option<JsonView>,
) -> bool {
    &&& have_choice(chunks)
    &&& last_reason(chunks) is Some && response::ending_of(last_reason(chunks)->0) is Some
    &&& are_named(all_calls(chunks))
    &&& !structured || have_refusal(chunks) || all_calls(chunks).len() > 0 || (!text::blank(
        whole_text(chunks),
    ) && content::structured_text(whole_text(chunks), schema) is Some)
}

/// An answer whose chunks do not make it fail is completed exactly where they
/// allow it. The last event then tells so, and tells of a failure otherwise.
pub proof fn law_when_an_answer_is_completed(
    start: Flow,
    chunks: Seq<JsonView>,
    fresh: Seq<Seq<Seq<char>>>,
    entries: Seq<EntryView>,
)
    requires
        has_heard(start.state, Seq::empty()),
        !start.state.has_failed_event,
        start.accepts(chunks, fresh),
    ensures
        ({
            let end = start.after_chunks(chunks, fresh).finish(entries);
            &&& end.completed <==> can_complete(
                chunks,
                start.state.structured_output,
                start.state.structured_schema,
            )
            &&& end.flow.out.len() > 0
            &&& end.completed ==> stream_laws::is_ending_kind(end.flow.out.last().kind)
            &&& !end.completed ==> stream_laws::ends_in_failure(end.flow.out)
        }),
{
    law_chunks_are_taken_in(start, chunks, fresh);
    let flow = start.after_chunks(chunks, fresh);
    stream_laws::law_finish(flow, entries);
    let calls = flow.state.tool_calls;
    lemma_first_anonymous(calls);
    if first_anonymous(calls) is None {
        assert forall|index: u64|
            (#[trigger] call_told(all_calls(chunks), index)) matches Some(told) ==> told.id.len()
                > 0 && told.name.len() > 0 by {
            stream::lemma_slot(calls, index);
            if known_call(calls, index) is Some {
                assert(!is_anonymous(calls[stream::slot(calls, index)]));
            }
        }
    }
    if are_named(all_calls(chunks)) {
        assert forall|i: int| 0 <= i < calls.len() implies !is_anonymous(#[trigger] calls[i]) by {
            lemma_known_at(calls, i);
            assert(call_told(all_calls(chunks), calls[i].index) is Some);
        }
    }
    assert(stream_end::checked_text(flow.state) is Some <==> !text::blank(whole_text(chunks))
        && content::structured_text(whole_text(chunks), start.state.structured_schema) is Some);
}

/// A translator that has just begun has heard nothing.
pub proof fn law_fresh_translator_has_heard_nothing(
    response_id: Seq<char>,
    model: Seq<char>,
    created_at: i64,
    structured_output: bool,
    structured_schema: Option<JsonView>,
    metadata: JsonView,
    msg_item_id: Seq<char>,
)
    ensures
        has_heard(
            stream::fresh_translator(
                response_id,
                model,
                created_at,
                structured_output,
                structured_schema,
                metadata,
                msg_item_id,
            ),
            Seq::empty(),
        ),
{
}

} // verus!
