//! What holds of every streamed answer.

use crate::events;
use crate::events::{EventView, PayloadView};
use crate::json::JsonView;
use crate::order::ordered;
use crate::reasoning::EntryView;
use crate::response;
use crate::response::Ending;
use crate::stream;
use crate::stream::{
    chunk_calls, delta_text, informed_call, known_call, place, typed, CallFlow, CallView, Flow,
    Places, TranslatorView,
};
use crate::stream_end;
use crate::stream_end::{announced_calls, checked_text, holds_output};
use vstd::prelude::*;

verus! {

// ---------------------------------------------------------------------------
// Numbers, failures and told text
// ---------------------------------------------------------------------------

/// The number that stands `steps` after `sequence`; the greatest number
/// stays.
pub open spec fn number_after(sequence: u32, steps: int) -> u32 {
    if sequence + steps > u32::MAX {
        u32::MAX
    } else {
        (sequence + steps) as u32
    }
}

/// How many of the events tell of a failure.
pub open spec fn failures(events: Seq<EventView>) -> nat
    decreases events.len(),
{
    if events.len() == 0 {
        0
    } else if events.last().kind == "response.failed"@ {
        failures(events.drop_last()) + 1
    } else {
        failures(events.drop_last())
    }
}

/// How many of the events tell that an answer has ended, complete or not.
pub open spec fn endings(events: Seq<EventView>) -> nat
    decreases events.len(),
{
    if events.len() == 0 {
        0
    } else if is_ending_kind(events.last().kind) {
        endings(events.drop_last()) + 1
    } else {
        endings(events.drop_last())
    }
}

pub open spec fn is_ending_kind(kind: Seq<char>) -> bool {
    kind == "response.completed"@ || kind == "response.incomplete"@
}

/// The pieces of text that the events tell, in their order.
pub open spec fn told_text(events: Seq<EventView>) -> Seq<Seq<char>>
    decreases events.len(),
{
    if events.len() == 0 {
        Seq::empty()
    } else {
        match events.last().payload {
            PayloadView::TextDelta { delta, .. } => told_text(events.drop_last()).push(delta),
            _ => told_text(events.drop_last()),
        }
    }
}

/// The events after a step are those before it and new ones, which are
/// numbered without a gap.
pub open spec fn is_numbered(before: Flow, after: Flow) -> bool {
    let known = before.out.len() as int;
    &&& known <= after.out.len()
    &&& after.out.take(known) == before.out
    &&& after.state.sequence == number_after(before.state.sequence, after.out.len() - known)
    &&& forall|i: int|
        known <= i < after.out.len() ==> (#[trigger] after.out[i]).sequence() == Some(
            number_after(before.state.sequence, i - known) as u64,
        )
}

pub open spec fn as_count(flag: bool) -> nat {
    if flag {
        1
    } else {
        0
    }
}

/// A step is numbered, tells of a failure at most once in all, and tells the
/// pieces of text in `told`, without ending the answer.
pub open spec fn advances(before: Flow, after: Flow, told: Seq<Seq<char>>) -> bool {
    &&& is_numbered(before, after)
    &&& after.state.structured_output == before.state.structured_output
    &&& endings(after.out) == endings(before.out)
    &&& before.state.has_failed_event ==> after.state.has_failed_event
    &&& failures(after.out) + as_count(before.state.has_failed_event) == failures(before.out)
        + as_count(after.state.has_failed_event)
    &&& told_text(after.out) == told_text(before.out) + told
}

pub proof fn lemma_advances_twice(
    first: Flow,
    second: Flow,
    third: Flow,
    told: Seq<Seq<char>>,
    more: Seq<Seq<char>>,
)
    requires
        advances(first, second, told),
        advances(second, third, more),
    ensures
        advances(first, third, told + more),
{
    let known = first.out.len() as int;
    let middle = second.out.len() as int;
    assert(third.out.take(known) =~= second.out.take(known)) by {
        assert forall|i: int| 0 <= i < known implies third.out[i] == second.out[i] by {
            assert(third.out.take(middle)[i] == second.out[i]);
        }
    }
    assert forall|i: int| known <= i < third.out.len() implies (#[trigger] third.out[i]).sequence()
        == Some(number_after(first.state.sequence, i - known) as u64) by {
        if i < middle {
            assert(third.out.take(middle)[i] == second.out[i]);
            assert(second.out[i].sequence() == Some(
                number_after(first.state.sequence, i - known) as u64,
            ));
        }
    }
    assert(told_text(first.out) + told + more =~= told_text(first.out) + (told + more));
}

pub proof fn lemma_advances_not(flow: Flow)
    ensures
        advances(flow, flow, Seq::empty()),
{
    assert(flow.out.take(flow.out.len() as int) =~= flow.out);
    assert(told_text(flow.out) + Seq::<Seq<char>>::empty() =~= told_text(flow.out));
}

/// A step that changes neither the number, nor the events, nor whether the
/// answer failed.
pub proof fn lemma_advances_quietly(before: Flow, after: Flow)
    requires
        after.out == before.out,
        after.state.sequence == before.state.sequence,
        after.state.has_failed_event == before.state.has_failed_event,
        after.state.structured_output == before.state.structured_output,
    ensures
        advances(before, after, Seq::empty()),
{
    lemma_advances_not(before);
}

pub proof fn lemma_nothing_more<A>(told: Seq<A>)
    ensures
        told + Seq::<A>::empty() == told,
        Seq::<A>::empty() + told == told,
{
    assert(told + Seq::<A>::empty() =~= told);
    assert(Seq::<A>::empty() + told =~= told);
}

pub proof fn lemma_emit_advances(flow: Flow, kind: Seq<char>, document: JsonView)
    requires
        document is Object,
        kind.len() != 15,
        kind.len() != 18,
        kind.len() != 19,
    ensures
        advances(flow, flow.emit(kind, document), Seq::empty()),
{
    lemma_kinds();
    let after = flow.emit(kind, document);
    assert(after.out.drop_last() =~= flow.out);
    assert(after.out.take(flow.out.len() as int) =~= flow.out);
    lemma_nothing_more(told_text(flow.out));
}

/// Whether the last of the events tells of a failure.
pub open spec fn ends_in_failure(events: Seq<EventView>) -> bool {
    events.len() > 0 && events.last().kind == "response.failed"@
}

pub proof fn lemma_fail_advances(flow: Flow, message: Seq<char>)
    ensures
        advances(flow, flow.fail(message), Seq::empty()),
        flow.fail(message).state.has_failed_event,
        !flow.state.has_failed_event ==> ends_in_failure(flow.fail(message).out),
{
    lemma_kinds();
    if flow.state.has_failed_event {
        lemma_advances_not(flow);
    } else {
        let after = flow.fail(message);
        assert(after.out.drop_last() =~= flow.out);
        assert(after.out.take(flow.out.len() as int) =~= flow.out);
        lemma_nothing_more(told_text(flow.out));
    }
}

pub proof fn lemma_kinds()
    ensures
        "response.output_item.added"@.len() == 26,
        "response.content_part.added"@.len() == 27,
        "response.refusal.delta"@.len() == 22,
        "response.output_text.delta"@.len() == 26,
        "response.function_call_arguments.delta"@.len() == 38,
        "response.output_text.done"@.len() == 25,
        "response.content_part.done"@.len() == 26,
        "response.refusal.done"@.len() == 21,
        "response.output_item.done"@.len() == 25,
        "response.function_call_arguments.done"@.len() == 37,
        "response.completed"@.len() == 18,
        "response.incomplete"@.len() == 19,
        "response.failed"@.len() == 15,
{
    reveal_strlit("response.output_item.added");
    reveal_strlit("response.content_part.added");
    reveal_strlit("response.refusal.delta");
    reveal_strlit("response.output_text.delta");
    reveal_strlit("response.function_call_arguments.delta");
    reveal_strlit("response.output_text.done");
    reveal_strlit("response.content_part.done");
    reveal_strlit("response.refusal.done");
    reveal_strlit("response.output_item.done");
    reveal_strlit("response.function_call_arguments.done");
    reveal_strlit("response.completed");
    reveal_strlit("response.incomplete");
    reveal_strlit("response.failed");
}

/// Two steps that tell nothing, and the quiet change between them.
proof fn lemma_then_emit(
    first: Flow,
    second: Flow,
    told: Seq<Seq<char>>,
    kind: Seq<char>,
    document: JsonView,
)
    requires
        advances(first, second, told),
        document is Object,
        kind.len() != 15,
        kind.len() != 18,
        kind.len() != 19,
    ensures
        advances(first, second.emit(kind, document), told),
{
    lemma_emit_advances(second, kind, document);
    lemma_advances_twice(first, second, second.emit(kind, document), told, Seq::empty());
    lemma_nothing_more(told);
}

proof fn lemma_then_quietly(first: Flow, second: Flow, third: Flow, told: Seq<Seq<char>>)
    requires
        advances(first, second, told),
        third.out == second.out,
        third.state.sequence == second.state.sequence,
        third.state.has_failed_event == second.state.has_failed_event,
        third.state.structured_output == second.state.structured_output,
    ensures
        advances(first, third, told),
{
    lemma_advances_quietly(second, third);
    lemma_advances_twice(first, second, third, told, Seq::empty());
    lemma_nothing_more(told);
}

proof fn lemma_start_message_advances(flow: Flow)
    ensures
        advances(flow, flow.start_message(), Seq::empty()),
        flow.start_message().state == (TranslatorView {
            places: flow.start_message().state.places,
            next_output_index: flow.start_message().state.next_output_index,
            sequence: flow.start_message().state.sequence,
            ..flow.state
        }),
{
    lemma_kinds();
    if flow.state.places.message is Some {
        lemma_advances_not(flow);
    } else {
        let index = flow.state.next_output_index;
        let begun = Flow {
            state: TranslatorView {
                places: Places { message: Some(index), ..flow.state.places },
                next_output_index: stream::next_index(index),
                ..flow.state
            },
            out: flow.out,
        };
        lemma_advances_quietly(flow, begun);
        let item = response::message_item(flow.state.msg_item_id, "in_progress"@, Seq::empty());
        lemma_then_emit(
            flow,
            begun,
            Seq::empty(),
            "response.output_item.added"@,
            stream::item_added(index, item),
        );
    }
}

proof fn lemma_start_text_advances(flow: Flow)
    ensures
        advances(flow, flow.start_text(), Seq::empty()),
        flow.start_text().state == (TranslatorView {
            places: flow.start_text().state.places,
            next_output_index: flow.start_text().state.next_output_index,
            sequence: flow.start_text().state.sequence,
            ..flow.state
        }),
{
    lemma_kinds();
    if flow.state.places.text is Some {
        lemma_advances_not(flow);
    } else {
        lemma_start_message_advances(flow);
        let begun = flow.start_message();
        let index: usize = if begun.state.places.refusal is Some {
            1
        } else {
            0
        };
        let placed = Flow {
            state: TranslatorView {
                places: Places { text: Some(index), ..begun.state.places },
                ..begun.state
            },
            out: begun.out,
        };
        lemma_then_quietly(flow, begun, placed, Seq::empty());
        let document = stream::part_document(
            "response.content_part.added"@,
            begun.state.msg_item_id,
            place(begun.state.places.message),
            index,
        ).with("part"@, response::output_text_part(""@));
        lemma_then_emit(
            flow,
            placed,
            Seq::empty(),
            "response.content_part.added"@,
            document,
        );
    }
}

proof fn lemma_start_refusal_advances(flow: Flow)
    ensures
        advances(flow, flow.start_refusal(), Seq::empty()),
        flow.start_refusal().state == (TranslatorView {
            places: flow.start_refusal().state.places,
            next_output_index: flow.start_refusal().state.next_output_index,
            sequence: flow.start_refusal().state.sequence,
            ..flow.state
        }),
{
    lemma_kinds();
    if flow.state.places.refusal is Some {
        lemma_advances_not(flow);
    } else {
        lemma_start_message_advances(flow);
        let begun = flow.start_message();
        let index: usize = if begun.state.places.text is Some {
            1
        } else {
            0
        };
        let placed = Flow {
            state: TranslatorView {
                places: Places { refusal: Some(index), ..begun.state.places },
                ..begun.state
            },
            out: begun.out,
        };
        lemma_then_quietly(flow, begun, placed, Seq::empty());
        let document = stream::part_document(
            "response.content_part.added"@,
            begun.state.msg_item_id,
            place(begun.state.places.message),
            index,
        ).with("part"@, response::refusal_part(""@));
        lemma_then_emit(
            flow,
            placed,
            Seq::empty(),
            "response.content_part.added"@,
            document,
        );
    }
}

proof fn lemma_tell_text_advances(flow: Flow, delta: Seq<char>)
    ensures
        advances(flow, flow.tell_text(delta), seq![delta]),
{
    lemma_kinds();
    let after = flow.tell_text(delta);
    assert(after.out.drop_last() =~= flow.out);
    assert(told_text(flow.out).push(delta) =~= told_text(flow.out) + seq![delta]);
    assert(after.out.take(flow.out.len() as int) =~= flow.out);
}

/// The pieces that a piece of text tells right away.
pub open spec fn told_now(state: TranslatorView, text: Option<Seq<char>>) -> Seq<Seq<char>> {
    match text {
        Some(text) => if state.structured_output {
            Seq::empty()
        } else {
            seq![text]
        },
        None => Seq::empty(),
    }
}

/// The text that a piece of text adds.
pub open spec fn added(text: Option<Seq<char>>) -> Seq<char> {
    match text {
        Some(text) => text,
        None => Seq::empty(),
    }
}

proof fn lemma_spoken_advances(flow: Flow, delta: JsonView)
    ensures
        advances(flow, flow.spoken(delta), told_now(flow.state, delta_text(delta))),
        flow.spoken(delta).state.full_text == flow.state.full_text + added(delta_text(delta)),
        flow.spoken(delta).state.has_failed_event == flow.state.has_failed_event,
{
    lemma_kinds();
    lemma_nothing_more(flow.state.full_text);
    let told = told_now(flow.state, delta_text(delta));
    let heard = match delta_text(delta) {
        Some(text) => flow.take_text(text),
        None => flow,
    };
    match delta_text(delta) {
        Some(text) => {
            let held = Flow {
                state: TranslatorView {
                    full_text: flow.state.full_text + text,
                    ..flow.state
                },
                out: flow.out,
            };
            lemma_advances_quietly(flow, held);
            if !flow.state.structured_output {
                lemma_start_text_advances(held);
                lemma_advances_twice(flow, held, held.start_text(), Seq::empty(), Seq::empty());
                lemma_tell_text_advances(held.start_text(), text);
                lemma_nothing_more(Seq::<Seq<char>>::empty());
                lemma_nothing_more(seq![text]);
                lemma_advances_twice(
                    flow,
                    held.start_text(),
                    held.start_text().tell_text(text),
                    Seq::empty(),
                    seq![text],
                );
            }
        },
        None => {
            lemma_advances_not(flow);
        },
    }
    assert(advances(flow, heard, told));
    match response::message_refusal(delta) {
        Some(refusal) => {
            lemma_start_refusal_advances(heard);
            let begun = heard.start_refusal();
            lemma_advances_twice(flow, heard, begun, told, Seq::empty());
            lemma_nothing_more(told);
            let held = Flow {
                state: TranslatorView {
                    refusal_text: begun.state.refusal_text + refusal,
                    ..begun.state
                },
                out: begun.out,
            };
            lemma_then_quietly(flow, begun, held, told);
            let document = stream::part_document(
                "response.refusal.delta"@,
                held.state.msg_item_id,
                place(held.state.places.message),
                place(held.state.places.refusal),
            ).with("delta"@, JsonView::Text(refusal));
            lemma_then_emit(flow, held, told, "response.refusal.delta"@, document);
        },
        None => {},
    }
}

proof fn lemma_call_advances(flow: Flow, call: JsonView, position: int, fresh: Seq<char>)
    ensures
        advances(flow, flow.take_call(call, position, fresh).flow, Seq::empty()),
        flow.take_call(call, position, fresh).failure is Some ==> flow.take_call(
            call,
            position,
            fresh,
        ).flow.state.has_failed_event,
        flow.take_call(call, position, fresh).failure is None ==> flow.take_call(
            call,
            position,
            fresh,
        ).flow.state.has_failed_event == flow.state.has_failed_event,
        flow.take_call(call, position, fresh).failure is Some && !flow.state.has_failed_event
            ==> ends_in_failure(flow.take_call(call, position, fresh).flow.out),
        flow.take_call(call, position, fresh).flow.state.full_text == flow.state.full_text,
{
    lemma_kinds();
    match stream::call_failure(flow.state.tool_calls, call, position) {
        Some(message) => {
            lemma_fail_advances(flow, message);
        },
        None => {
            let start = CallFlow {
                flow,
                call: informed_call(flow.state.tool_calls, call, position, fresh),
            };
            lemma_advances_not(flow);
            let announced = start.announced();
            if start.call.output_index is None && start.call.id.len() > 0 && start.call.name.len()
                > 0 {
                let index = flow.state.next_output_index;
                let claimed = Flow {
                    state: TranslatorView {
                        next_output_index: stream::next_index(index),
                        ..flow.state
                    },
                    out: flow.out,
                };
                lemma_advances_quietly(flow, claimed);
                let item = response::call_item(
                    start.call.item_id,
                    "in_progress"@,
                    start.call.id,
                    start.call.name,
                    ""@,
                );
                lemma_then_emit(
                    flow,
                    claimed,
                    Seq::empty(),
                    "response.output_item.added"@,
                    stream::item_added(index, item),
                );
            }
            assert(advances(flow, announced.flow, Seq::empty()));
            let told = announced.told();
            if announced.call.output_index is Some && announced.call.unsent.len() > 0 {
                assert(told.flow.out.drop_last() =~= announced.flow.out);
                assert(told.flow.out.take(announced.flow.out.len() as int)
                    =~= announced.flow.out);
                lemma_nothing_more(told_text(announced.flow.out));
                assert(advances(announced.flow, told.flow, Seq::empty()));
                lemma_advances_twice(
                    flow,
                    announced.flow,
                    told.flow,
                    Seq::empty(),
                    Seq::empty(),
                );
                lemma_nothing_more(Seq::<Seq<char>>::empty());
            }
            lemma_then_quietly(flow, told.flow, flow.with_call(call, position, fresh), Seq::empty());
        },
    }
}

proof fn lemma_calls_advance(flow: Flow, calls: Seq<JsonView>, fresh: Seq<Seq<char>>)
    ensures
        advances(flow, flow.take_calls(calls, fresh).flow, Seq::empty()),
        flow.take_calls(calls, fresh).failure is Some ==> flow.take_calls(
            calls,
            fresh,
        ).flow.state.has_failed_event,
        flow.take_calls(calls, fresh).failure is None ==> flow.take_calls(
            calls,
            fresh,
        ).flow.state.has_failed_event == flow.state.has_failed_event,
        flow.take_calls(calls, fresh).failure is Some && !flow.state.has_failed_event
            ==> ends_in_failure(flow.take_calls(calls, fresh).flow.out),
        flow.take_calls(calls, fresh).flow.state.full_text == flow.state.full_text,
    decreases calls.len(),
{
    lemma_kinds();
    if calls.len() == 0 {
        lemma_advances_not(flow);
    } else {
        let earlier = flow.take_calls(calls.drop_last(), fresh);
        lemma_calls_advance(flow, calls.drop_last(), fresh);
        if earlier.failure is None {
            let position = calls.len() - 1;
            lemma_call_advances(earlier.flow, calls.last(), position, fresh[position]);
            lemma_advances_twice(
                flow,
                earlier.flow,
                earlier.flow.take_call(calls.last(), position, fresh[position]).flow,
                Seq::empty(),
                Seq::empty(),
            );
            lemma_nothing_more(Seq::<Seq<char>>::empty());
        }
    }
}

/// The text that a chunk adds to the answer.
pub open spec fn chunk_text(chunk: JsonView) -> Option<Seq<char>> {
    match chunk.get("error"@) {
        Some(_) => None,
        None => match response::first_choice(chunk) {
            Some(choice) => match stream::choice_delta(choice) {
                Some(delta) => delta_text(delta),
                None => None,
            },
            None => None,
        },
    }
}

/// The events of a chunk are numbered one after the other, they tell of a
/// failure at most once in the whole answer, and they tell exactly the text
/// of the chunk, in one piece: nothing is lost, nothing comes twice. Structured
/// output is not told before it is checked. A chunk that fails has its failure
/// told, as the last of its events.
pub proof fn law_chunk(flow: Flow, chunk: JsonView, fresh: Seq<Seq<char>>)
    ensures
        advances(
            flow,
            flow.push_chunk(chunk, fresh).flow,
            told_now(flow.state, chunk_text(chunk)),
        ),
        flow.push_chunk(chunk, fresh).flow.state.full_text == flow.state.full_text + added(
            chunk_text(chunk),
        ),
        flow.push_chunk(chunk, fresh).failure is Some ==> flow.push_chunk(
            chunk,
            fresh,
        ).flow.state.has_failed_event,
        flow.push_chunk(chunk, fresh).failure is None ==> flow.push_chunk(
            chunk,
            fresh,
        ).flow.state.has_failed_event == flow.state.has_failed_event,
        flow.push_chunk(chunk, fresh).failure is Some && !flow.state.has_failed_event
            ==> ends_in_failure(flow.push_chunk(chunk, fresh).flow.out),
{
    lemma_nothing_more(flow.state.full_text);
    let after = flow.push_chunk(chunk, fresh);
    match chunk.get("error"@) {
        Some(error) => {
            let message = match error.text_at("message"@) {
                Some(message) => message,
                None => "上游服务在流式响应中报告了错误。"@,
            };
            lemma_fail_advances(flow, message);
        },
        None => {
            let known = flow.informed(chunk);
            lemma_advances_quietly(flow, known);
            match chunk.array_at("choices"@) {
                None => {
                    if !chunk.has("usage"@) {
                        lemma_fail_advances(known, "上游流式响应缺少 choices 数组。"@);
                        lemma_advances_twice(
                            flow,
                            known,
                            after.flow,
                            Seq::empty(),
                            Seq::empty(),
                        );
                        lemma_nothing_more(Seq::<Seq<char>>::empty());
                    }
                },
                Some(choices) => {
                    if choices.len() > 0 {
                        let choice = choices[0];
                        match stream::choice_delta(choice) {
                            None => {
                                let seen = Flow {
                                    state: TranslatorView {
                                        saw_valid_choice: true,
                                        ..known.state
                                    },
                                    out: known.out,
                                };
                                lemma_advances_quietly(flow, seen);
                                lemma_fail_advances(seen, "上游流式响应包含无效 delta。"@);
                                lemma_advances_twice(
                                    flow,
                                    seen,
                                    after.flow,
                                    Seq::empty(),
                                    Seq::empty(),
                                );
                                lemma_nothing_more(Seq::<Seq<char>>::empty());
                            },
                            Some(delta) => {
                                let chosen = known.chosen(choice);
                                lemma_advances_quietly(flow, chosen.reasoned(delta));
                                lemma_delta(flow, chosen.reasoned(delta), chosen, delta, fresh);
                            },
                        }
                    }
                },
            }
        },
    }
}

proof fn lemma_delta(
    flow: Flow,
    reasoned: Flow,
    chosen: Flow,
    delta: JsonView,
    fresh: Seq<Seq<char>>,
)
    requires
        advances(flow, reasoned, Seq::empty()),
        reasoned == chosen.reasoned(delta),
        reasoned.state.full_text == flow.state.full_text,
        reasoned.state.has_failed_event == flow.state.has_failed_event,
    ensures
        advances(
            flow,
            chosen.take_delta(delta, fresh).flow,
            told_now(flow.state, delta_text(delta)),
        ),
        chosen.take_delta(delta, fresh).flow.state.full_text == flow.state.full_text + added(
            delta_text(delta),
        ),
        chosen.take_delta(delta, fresh).failure is Some ==> chosen.take_delta(
            delta,
            fresh,
        ).flow.state.has_failed_event,
        chosen.take_delta(delta, fresh).failure is None ==> chosen.take_delta(
            delta,
            fresh,
        ).flow.state.has_failed_event == flow.state.has_failed_event,
        chosen.take_delta(delta, fresh).failure is Some && !flow.state.has_failed_event
            ==> ends_in_failure(chosen.take_delta(delta, fresh).flow.out),
{
    let told = told_now(flow.state, delta_text(delta));
    let spoken = reasoned.spoken(delta);
    lemma_spoken_advances(reasoned, delta);
    lemma_advances_twice(flow, reasoned, spoken, Seq::empty(), told);
    lemma_nothing_more(told);
    let after = chosen.take_delta(delta, fresh).flow;
    if delta.has("function_call"@) {
        lemma_fail_advances(
            spoken,
            "上游返回了旧版 function_call；转换代理要求标准 tool_calls 格式。"@,
        );
    } else {
        lemma_calls_advance(spoken, response::message_calls(delta), fresh);
    }
    lemma_advances_twice(flow, spoken, after, told, Seq::empty());
}

// ---------------------------------------------------------------------------
// The end of an answer
// ---------------------------------------------------------------------------

proof fn lemma_close_message_advances(flow: Flow, ending: Ending)
    ensures
        advances(flow, flow.close_message(ending), Seq::empty()),
{
    lemma_kinds();
    lemma_advances_not(flow);
    if let Some(index) = flow.state.places.message {
        let id = flow.state.msg_item_id;
        let text = flow.close_text();
        if let Some(place) = flow.state.places.text {
            let done = stream::part_document("response.output_text.done"@, id, index, place).with(
                "text"@,
                JsonView::Text(flow.state.full_text),
            ).with("logprobs"@, response::empty_array());
            lemma_then_emit(flow, flow, Seq::empty(), "response.output_text.done"@, done);
            let part = stream::part_document(
                "response.content_part.done"@,
                id,
                index,
                place,
            ).with("part"@, response::output_text_part(flow.state.full_text));
            lemma_then_emit(
                flow,
                flow.emit("response.output_text.done"@, done),
                Seq::empty(),
                "response.content_part.done"@,
                part,
            );
        }
        assert(advances(flow, text, Seq::empty()));
        let refused = text.close_refusal();
        if let Some(place) = text.state.places.refusal {
            let done = stream::part_document("response.refusal.done"@, id, index, place).with(
                "refusal"@,
                JsonView::Text(text.state.refusal_text),
            );
            lemma_then_emit(flow, text, Seq::empty(), "response.refusal.done"@, done);
            let part = stream::part_document(
                "response.content_part.done"@,
                id,
                index,
                place,
            ).with("part"@, response::refusal_part(text.state.refusal_text));
            lemma_then_emit(
                flow,
                text.emit("response.refusal.done"@, done),
                Seq::empty(),
                "response.content_part.done"@,
                part,
            );
        }
        assert(advances(flow, refused, Seq::empty()));
        lemma_then_emit(
            flow,
            refused,
            Seq::empty(),
            "response.output_item.done"@,
            stream::item_done(index, stream_end::final_message(flow.state, ending)),
        );
    }
}

proof fn lemma_close_calls_advances(
    first: Flow,
    flow: Flow,
    calls: Seq<(usize, CallView)>,
    ending: Ending,
)
    requires
        advances(first, flow, Seq::empty()),
    ensures
        advances(first, flow.close_calls(calls, ending), Seq::empty()),
    decreases calls.len(),
{
    lemma_kinds();
    if calls.len() > 0 {
        lemma_close_calls_advances(first, flow, calls.drop_last(), ending);
        let earlier = flow.close_calls(calls.drop_last(), ending);
        let (index, call) = calls.last();
        let document = typed("response.function_call_arguments.done"@).with(
            "item_id"@,
            JsonView::Text(call.item_id),
        ).with("output_index"@, stream::index_view(index)).with(
            "arguments"@,
            JsonView::Text(call.arguments),
        ).with("name"@, JsonView::Text(call.name));
        let argued = if ending.incomplete() {
            earlier
        } else {
            earlier.emit("response.function_call_arguments.done"@, document)
        };
        if !ending.incomplete() {
            lemma_then_emit(
                first,
                earlier,
                Seq::empty(),
                "response.function_call_arguments.done"@,
                document,
            );
        }
        lemma_then_emit(
            first,
            argued,
            Seq::empty(),
            "response.output_item.done"@,
            stream::item_done(index, stream_end::final_call(call, ending)),
        );
    }
}

/// A step that ends the answer: it is numbered, tells of no failure and of one
/// ending, which comes last, and tells the pieces of text in `told`.
pub open spec fn ends(before: Flow, after: Flow, told: Seq<Seq<char>>) -> bool {
    &&& is_numbered(before, after)
    &&& endings(after.out) == endings(before.out) + 1
    &&& failures(after.out) == failures(before.out)
    &&& after.state.has_failed_event == before.state.has_failed_event
    &&& told_text(after.out) == told_text(before.out) + told
    &&& after.out.len() > 0 && is_ending_kind(after.out.last().kind)
}

proof fn lemma_advances_then_ends(
    first: Flow,
    second: Flow,
    third: Flow,
    told: Seq<Seq<char>>,
    more: Seq<Seq<char>>,
)
    requires
        advances(first, second, told),
        ends(second, third, more),
        second.state.has_failed_event == first.state.has_failed_event,
    ensures
        ends(first, third, told + more),
{
    let known = first.out.len() as int;
    let middle = second.out.len() as int;
    assert(third.out.take(known) =~= second.out.take(known)) by {
        assert forall|i: int| 0 <= i < known implies third.out[i] == second.out[i] by {
            assert(third.out.take(middle)[i] == second.out[i]);
        }
    }
    assert forall|i: int| known <= i < third.out.len() implies (#[trigger] third.out[i]).sequence()
        == Some(number_after(first.state.sequence, i - known) as u64) by {
        if i < middle {
            assert(third.out.take(middle)[i] == second.out[i]);
            assert(second.out[i].sequence() == Some(
                number_after(first.state.sequence, i - known) as u64,
            ));
        }
    }
    assert(told_text(first.out) + told + more =~= told_text(first.out) + (told + more));
}

proof fn lemma_concluded_ends(flow: Flow, ending: Ending)
    ensures
        ends(flow, flow.concluded(ending), Seq::empty()),
        flow.concluded(ending).out.last().kind == stream_end::final_kind(ending),
{
    lemma_kinds();
    lemma_close_message_advances(flow, ending);
    let calls = ordered(announced_calls(flow.state.tool_calls));
    lemma_close_calls_advances(flow, flow.close_message(ending), calls, ending);
    let closed = flow.close_message(ending).close_calls(calls, ending);
    lemma_close_calls_state(flow.close_message(ending), calls, ending);
    let after = closed.emit(
        stream_end::final_kind(ending),
        stream_end::final_document(flow.state, ending),
    );
    assert(after.out.drop_last() =~= closed.out);
    assert(after.out.take(closed.out.len() as int) =~= closed.out);
    lemma_nothing_more(told_text(closed.out));
    assert(ends(closed, after, Seq::empty()));
    lemma_nothing_more(Seq::<Seq<char>>::empty());
    lemma_advances_then_ends(flow, closed, after, Seq::empty(), Seq::empty());
}

proof fn lemma_close_calls_state(flow: Flow, calls: Seq<(usize, CallView)>, ending: Ending)
    ensures
        flow.close_calls(calls, ending).state.has_failed_event == flow.state.has_failed_event,
    decreases calls.len(),
{
    if calls.len() > 0 {
        lemma_close_calls_state(flow, calls.drop_last(), ending);
    }
}

/// The pieces of text that the end of a stream tells: structured output that
/// was held back, in its checked form.
pub open spec fn told_last(state: TranslatorView) -> Seq<Seq<char>> {
    match checked_text(state) {
        Some(text) => if holds_output(state) {
            seq![text]
        } else {
            Seq::empty()
        },
        None => Seq::empty(),
    }
}

/// The last events go on with the numbers, and a completed answer ends in
/// `response.completed` or `response.incomplete`, which is told once and last.
/// An answer that cannot be completed has its failure told, and last. The end
/// tells no text but checked structured output.
pub proof fn law_finish(flow: Flow, entries: Seq<EntryView>)
    ensures
        ({
            let end = flow.finish(entries);
            &&& end.completed ==> ends(flow, end.flow, told_last(flow.state))
            &&& !end.completed ==> {
                &&& advances(flow, end.flow, Seq::empty())
                &&& end.flow.state.has_failed_event
                &&& !flow.state.has_failed_event ==> ends_in_failure(end.flow.out)
            }
        }),
{
    let end = flow.finish(entries);
    match stream_end::ending_failure(flow.state) {
        Some(message) => {
            lemma_fail_advances(flow, message);
        },
        None => {
            if holds_output(flow.state) && checked_text(flow.state) is None
                && flow.state.tool_calls.len() == 0 {
                lemma_fail_advances(flow, "上游模型未返回有效的结构化 JSON 对象。"@);
            } else {
                let ending = response::ending_of(flow.state.finish_reason->0)->0;
                let released = flow.released();
                let told = told_last(flow.state);
                lemma_advances_not(flow);
                if holds_output(flow.state) {
                    match checked_text(flow.state) {
                        Some(text) => {
                            lemma_start_text_advances(flow);
                            let begun = flow.start_text();
                            let replaced = Flow {
                                state: TranslatorView { full_text: text, ..begun.state },
                                out: begun.out,
                            };
                            lemma_then_quietly(flow, begun, replaced, Seq::empty());
                            lemma_tell_text_advances(replaced, text);
                            lemma_advances_twice(
                                flow,
                                replaced,
                                replaced.tell_text(text),
                                Seq::empty(),
                                seq![text],
                            );
                            lemma_nothing_more(seq![text]);
                        },
                        None => {
                            lemma_advances_quietly(flow, released);
                        },
                    }
                }
                lemma_concluded_ends(released, ending);
                lemma_advances_then_ends(flow, released, end.flow, told, Seq::empty());
                lemma_nothing_more(told);
            }
        },
    }
}

/// After the first failure nothing tells of a failure again.
pub proof fn law_one_failure(flow: Flow, message: Seq<char>)
    requires
        flow.state.has_failed_event,
    ensures
        flow.fail(message) == flow,
{
}

// ---------------------------------------------------------------------------
// Reasoning stays inside
// ---------------------------------------------------------------------------

/// A flow with other reasoning.
pub open spec fn with_reasoning(flow: Flow, reasoning: Seq<char>) -> Flow {
    Flow {
        state: TranslatorView { reasoning_content: reasoning, ..flow.state },
        out: flow.out,
    }
}

/// Whether two flows differ in nothing but their reasoning.
pub open spec fn same_but_reasoning(one: Flow, other: Flow) -> bool {
    other == with_reasoning(one, other.state.reasoning_content)
}

proof fn lemma_spoken_blind(one: Flow, other: Flow, delta: JsonView)
    requires
        same_but_reasoning(one, other),
    ensures
        same_but_reasoning(one.spoken(delta), other.spoken(delta)),
{
    let r = other.state.reasoning_content;
    if let Some(text) = delta_text(delta) {
        let held = Flow {
            state: TranslatorView { full_text: one.state.full_text + text, ..one.state },
            out: one.out,
        };
        assert(with_reasoning(held, r).start_text() == with_reasoning(held.start_text(), r));
        assert(other.take_text(text) == with_reasoning(one.take_text(text), r));
    }
    let heard = match delta_text(delta) {
        Some(text) => one.take_text(text),
        None => one,
    };
    let echo = match delta_text(delta) {
        Some(text) => other.take_text(text),
        None => other,
    };
    assert(echo == with_reasoning(heard, r));
    if let Some(refusal) = response::message_refusal(delta) {
        assert(echo.start_refusal() == with_reasoning(heard.start_refusal(), r));
    }
}

proof fn lemma_fail_blind(one: Flow, other: Flow, message: Seq<char>)
    requires
        same_but_reasoning(one, other),
    ensures
        same_but_reasoning(one.fail(message), other.fail(message)),
{
}

proof fn lemma_calls_blind(one: Flow, other: Flow, calls: Seq<JsonView>, fresh: Seq<Seq<char>>)
    requires
        same_but_reasoning(one, other),
    ensures
        same_but_reasoning(one.take_calls(calls, fresh).flow, other.take_calls(calls, fresh).flow),
        one.take_calls(calls, fresh).failure == other.take_calls(calls, fresh).failure,
    decreases calls.len(),
{
    if calls.len() > 0 {
        lemma_calls_blind(one, other, calls.drop_last(), fresh);
        let a = one.take_calls(calls.drop_last(), fresh);
        let b = other.take_calls(calls.drop_last(), fresh);
        if a.failure is None {
            let position = calls.len() - 1;
            let call = calls.last();
            match stream::call_failure(a.flow.state.tool_calls, call, position) {
                Some(message) => {
                    lemma_fail_blind(a.flow, b.flow, message);
                },
                None => {
                    let r = b.flow.state.reasoning_content;
                    let informed = informed_call(
                        a.flow.state.tool_calls,
                        call,
                        position,
                        fresh[position],
                    );
                    let first = CallFlow { flow: a.flow, call: informed };
                    let second = CallFlow { flow: b.flow, call: informed };
                    assert(second.announced().flow == with_reasoning(first.announced().flow, r));
                    assert(second.announced().call == first.announced().call);
                    assert(second.announced().told().flow == with_reasoning(
                        first.announced().told().flow,
                        r,
                    ));
                },
            }
        }
    }
}

/// The reasoning of a provider never shows in an answer: taking it in tells
/// nothing, and flows that differ in their reasoning alone tell the same
/// events for every chunk.
pub proof fn law_reasoning_is_never_told(
    one: Flow,
    other: Flow,
    delta: JsonView,
    chunk: JsonView,
    fresh: Seq<Seq<char>>,
)
    requires
        same_but_reasoning(one, other),
    ensures
        same_but_reasoning(one, one.reasoned(delta)),
        same_but_reasoning(
            one.push_chunk(chunk, fresh).flow,
            other.push_chunk(chunk, fresh).flow,
        ),
        one.push_chunk(chunk, fresh).flow.out == other.push_chunk(chunk, fresh).flow.out,
        one.push_chunk(chunk, fresh).failure == other.push_chunk(chunk, fresh).failure,
{
    match chunk.get("error"@) {
        Some(error) => {},
        None => {
            if let Some(choices) = chunk.array_at("choices"@) {
                if choices.len() > 0 {
                    if let Some(delta) = stream::choice_delta(choices[0]) {
                        let a = one.informed(chunk).chosen(choices[0]).reasoned(delta);
                        let b = other.informed(chunk).chosen(choices[0]).reasoned(delta);
                        assert(same_but_reasoning(a, b));
                        lemma_spoken_blind(a, b, delta);
                        let c = a.spoken(delta);
                        let d = b.spoken(delta);
                        lemma_fail_blind(
                            c,
                            d,
                            "上游返回了旧版 function_call；转换代理要求标准 tool_calls 格式。"@,
                        );
                        lemma_calls_blind(c, d, response::message_calls(delta), fresh);
                    }
                }
            }
        },
    }
}

proof fn lemma_close_calls_blind(
    one: Flow,
    other: Flow,
    calls: Seq<(usize, CallView)>,
    ending: Ending,
)
    requires
        same_but_reasoning(one, other),
    ensures
        same_but_reasoning(one.close_calls(calls, ending), other.close_calls(calls, ending)),
    decreases calls.len(),
{
    if calls.len() > 0 {
        lemma_close_calls_blind(one, other, calls.drop_last(), ending);
    }
}

/// Nor does the end of a stream tell any reasoning.
pub proof fn law_reasoning_is_never_told_at_the_end(
    one: Flow,
    other: Flow,
    entries: Seq<EntryView>,
)
    requires
        same_but_reasoning(one, other),
    ensures
        one.finish(entries).flow.out == other.finish(entries).flow.out,
        one.finish(entries).completed == other.finish(entries).completed,
{
    let r = other.state.reasoning_content;
    if stream_end::ending_failure(one.state) is None && one.finish(entries).completed {
        let ending = response::ending_of(one.state.finish_reason->0)->0;
        if holds_output(one.state) {
            if let Some(text) = checked_text(one.state) {
                assert(other.start_text() == with_reasoning(one.start_text(), r));
            }
        }
        let a = one.released();
        let b = other.released();
        assert(b == with_reasoning(a, r));
        assert(b.close_text() == with_reasoning(a.close_text(), r));
        assert(b.close_text().close_refusal() == with_reasoning(
            a.close_text().close_refusal(),
            r,
        ));
        assert(b.close_message(ending) == with_reasoning(a.close_message(ending), r));
        lemma_close_calls_blind(
            a.close_message(ending),
            b.close_message(ending),
            ordered(announced_calls(a.state.tool_calls)),
            ending,
        );
    }
}

// ---------------------------------------------------------------------------
// Places
// ---------------------------------------------------------------------------

/// Whether a call holds back what it has to, and nothing else: it is
/// announced once its identity is complete, no earlier and no later, and an
/// announced call has told all its arguments.
pub open spec fn is_in_step(call: CallView) -> bool {
    match call.output_index {
        Some(_) => call.id.len() > 0 && call.name.len() > 0 && call.unsent.len() == 0,
        None => (call.id.len() == 0 || call.name.len() == 0) && call.unsent == call.arguments,
    }
}

/// Whether every output index was given out once.
pub open spec fn is_well_placed(state: TranslatorView) -> bool {
    let calls = state.tool_calls;
    &&& state.places.text is Some || state.places.refusal is Some ==> state.places.message is Some
    &&& state.places.message matches Some(index) ==> index < state.next_output_index
    &&& forall|i: int| 0 <= i < calls.len() ==> is_in_step(#[trigger] calls[i])
    &&& forall|i: int|
        0 <= i < calls.len() && (#[trigger] calls[i]).output_index is Some
            ==> calls[i].output_index->0 < state.next_output_index && calls[i].output_index
            != state.places.message
    &&& forall|i: int, j: int|
        0 <= i < j < calls.len() && (#[trigger] calls[i]).output_index is Some ==> calls[i].output_index
            != (#[trigger] calls[j]).output_index
}

/// Whether a step may give out the next output index, and no other, and
/// touches no call.
pub open spec fn claims_at_most_one(before: TranslatorView, after: TranslatorView) -> bool {
    &&& after.tool_calls == before.tool_calls
    &&& before.next_output_index <= after.next_output_index <= before.next_output_index + 1
    &&& after.places.message == before.places.message || (before.places.message is None
        && after.places.message == Some(before.next_output_index) && after.next_output_index
        == before.next_output_index + 1)
    &&& after.places.text is Some || after.places.refusal is Some ==> after.places.message is Some
}

pub proof fn lemma_claim_keeps_places(before: TranslatorView, after: TranslatorView)
    requires
        is_well_placed(before),
        claims_at_most_one(before, after),
    ensures
        is_well_placed(after),
{
    let calls = after.tool_calls;
    assert forall|i: int| 0 <= i < calls.len() implies is_in_step(#[trigger] calls[i]) by {
        assert(is_in_step(before.tool_calls[i]));
    }
    assert forall|i: int|
        0 <= i < calls.len() && (#[trigger] calls[i]).output_index is Some implies calls[i].output_index->0
        < after.next_output_index && calls[i].output_index != after.places.message by {
        assert(before.tool_calls[i].output_index->0 < before.next_output_index);
    }
}

pub proof fn lemma_spoken_claims(flow: Flow, delta: JsonView)
    requires
        is_well_placed(flow.state),
        flow.state.next_output_index < usize::MAX,
    ensures
        claims_at_most_one(flow.state, flow.spoken(delta).state),
{
}

/// The indexes of calls that are put in their places stay unique.
pub proof fn lemma_call_keeps_places(flow: Flow, call: JsonView, position: int, fresh: Seq<char>)
    requires
        is_well_placed(flow.state),
        stream::in_order(flow.state.tool_calls),
        flow.state.next_output_index < usize::MAX,
    ensures
        is_well_placed(flow.take_call(call, position, fresh).flow.state),
        stream::in_order(flow.take_call(call, position, fresh).flow.state.tool_calls),
        flow.state.next_output_index <= flow.take_call(
            call,
            position,
            fresh,
        ).flow.state.next_output_index <= flow.state.next_output_index + 1,
{
    if stream::call_failure(flow.state.tool_calls, call, position) is None {
        let before = flow.state.tool_calls;
        let informed = informed_call(before, call, position, fresh);
        let start = CallFlow { flow, call: informed };
        let told = start.announced().told();
        let after = flow.with_call(call, position, fresh).state;
        let calls = after.tool_calls;
        let index = stream::stated_index(call, position);
        let spot = stream::slot(before, index);
        stream::lemma_slot(before, index);
        stream::lemma_with_call_in_order(before, told.call);
        let known = known_call(before, index) is Some;
        if known {
            assert(is_in_step(before[spot]));
            assert(informed.output_index == before[spot].output_index);
        }
        lemma_nothing_more(stream::arguments_piece(response::call_function(call))->0);
        assert(is_in_step(told.call)) by {
            if known && before[spot].output_index is None {
                assert(informed.unsent == informed.arguments);
            }
            if known && before[spot].output_index is Some {
                assert(informed.id == before[spot].id);
                assert(informed.name == before[spot].name);
            }
        }
        assert(told.call.output_index is Some ==> {
            ||| known && told.call.output_index == before[spot].output_index
            ||| told.call.output_index == Some(flow.state.next_output_index) && after.next_output_index
                == flow.state.next_output_index + 1
        });
        assert forall|i: int| 0 <= i < calls.len() implies is_in_step(#[trigger] calls[i]) by {
            if i != spot {
                let k = if known || i < spot {
                    i
                } else {
                    i - 1
                };
                assert(calls[i] == before[k]);
                assert(is_in_step(before[k]));
            }
        }
        assert forall|i: int|
            0 <= i < calls.len() && (#[trigger] calls[i]).output_index is Some implies calls[i].output_index->0
            < after.next_output_index && calls[i].output_index != after.places.message by {
            let k = if known || i < spot {
                i
            } else {
                i - 1
            };
            if i != spot {
                assert(calls[i] == before[k]);
                assert(before[k].output_index->0 < flow.state.next_output_index);
            } else if known && told.call.output_index == before[spot].output_index {
                assert(before[spot].output_index->0 < flow.state.next_output_index);
            }
        }
        assert forall|i: int, j: int|
            0 <= i < j < calls.len() && (#[trigger] calls[i]).output_index is Some implies calls[i].output_index
            != (#[trigger] calls[j]).output_index by {
            let a = if known || i < spot {
                i
            } else {
                i - 1
            };
            let b = if known || j < spot {
                j
            } else {
                j - 1
            };
            if i != spot && j != spot {
                assert(calls[i] == before[a]);
                assert(calls[j] == before[b]);
            } else if i == spot {
                assert(calls[j] == before[b]);
                if calls[j].output_index is Some {
                    assert(before[b].output_index->0 < flow.state.next_output_index);
                }
                if known && told.call.output_index == before[spot].output_index {
                    assert(before[spot].output_index != before[b].output_index);
                }
            } else {
                assert(calls[i] == before[a]);
                assert(before[a].output_index->0 < flow.state.next_output_index);
                if known && told.call.output_index == before[spot].output_index {
                    assert(before[a].output_index != before[spot].output_index);
                }
            }
        }
    }
}

proof fn lemma_calls_keep_places(flow: Flow, calls: Seq<JsonView>, fresh: Seq<Seq<char>>)
    requires
        is_well_placed(flow.state),
        stream::in_order(flow.state.tool_calls),
        flow.state.next_output_index + calls.len() <= usize::MAX,
    ensures
        is_well_placed(flow.take_calls(calls, fresh).flow.state),
        stream::in_order(flow.take_calls(calls, fresh).flow.state.tool_calls),
        flow.take_calls(calls, fresh).flow.state.next_output_index
            <= flow.state.next_output_index + calls.len(),
    decreases calls.len(),
{
    if calls.len() > 0 {
        lemma_calls_keep_places(flow, calls.drop_last(), fresh);
        let earlier = flow.take_calls(calls.drop_last(), fresh);
        if earlier.failure is None {
            let position = calls.len() - 1;
            lemma_call_keeps_places(earlier.flow, calls.last(), position, fresh[position]);
        }
    }
}

/// No two items of an answer share an output index, a call is announced only
/// under its complete identity, and the arguments that arrived before wait
/// for it. The bound leaves out a chunk that would use up all indexes.
pub proof fn law_places_are_unique(flow: Flow, chunk: JsonView, fresh: Seq<Seq<char>>)
    requires
        is_well_placed(flow.state),
        stream::in_order(flow.state.tool_calls),
        flow.state.next_output_index + chunk_calls(chunk).len() + 1 <= usize::MAX,
    ensures
        is_well_placed(flow.push_chunk(chunk, fresh).flow.state),
        stream::in_order(flow.push_chunk(chunk, fresh).flow.state.tool_calls),
{
    let known = flow.informed(chunk);
    lemma_claim_keeps_places(flow.state, known.state);
    match chunk.get("error"@) {
        Some(error) => {
            let after = flow.push_chunk(chunk, fresh).flow;
            lemma_claim_keeps_places(flow.state, after.state);
        },
        None => match response::first_choice(chunk) {
            None => {
                let after = flow.push_chunk(chunk, fresh).flow;
                lemma_claim_keeps_places(flow.state, after.state);
            },
            Some(choice) => match stream::choice_delta(choice) {
                None => {
                    let after = flow.push_chunk(chunk, fresh).flow;
                    lemma_claim_keeps_places(flow.state, after.state);
                },
                Some(delta) => {
                    let reasoned = known.chosen(choice).reasoned(delta);
                    lemma_claim_keeps_places(flow.state, reasoned.state);
                    lemma_spoken_claims(reasoned, delta);
                    let spoken = reasoned.spoken(delta);
                    lemma_claim_keeps_places(reasoned.state, spoken.state);
                    if delta.has("function_call"@) {
                        let after = flow.push_chunk(chunk, fresh).flow;
                        lemma_claim_keeps_places(spoken.state, after.state);
                    } else {
                        lemma_calls_keep_places(spoken, response::message_calls(delta), fresh);
                    }
                },
            },
        },
    }
}

/// An answer begins well placed, without failure and without text.
pub proof fn law_fresh_translator(
    response_id: Seq<char>,
    model: Seq<char>,
    created_at: i64,
    structured_output: bool,
    structured_schema: Option<JsonView>,
    metadata: JsonView,
    msg_item_id: Seq<char>,
)
    ensures
        ({
            let state = stream::fresh_translator(
                response_id,
                model,
                created_at,
                structured_output,
                structured_schema,
                metadata,
                msg_item_id,
            );
            &&& is_well_placed(state)
            &&& stream::in_order(state.tool_calls)
            &&& !state.has_failed_event
            &&& state.sequence == 0
            &&& state.full_text.len() == 0
        }),
{
}

} // verus!
