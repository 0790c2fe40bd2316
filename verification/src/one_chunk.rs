//! An answer that arrives at once and is streamed as one chunk: it comes out as
//! it would without streaming.

use crate::chat_request::with_value_of;
use crate::completion::{
    completion_message, indexed_call, indexed_calls, whole_choice, whole_chunk, whole_delta,
};
use crate::content;
use crate::events::PayloadView;
use crate::json;
use crate::json::JsonView;
use crate::order;
use crate::order::{is_ordered, ordered};
use crate::reasoning::EntryView;
use crate::response;
use crate::response::{calls_problem, Ending};
use crate::stream;
use crate::stream::{known_call, CallFlow, CallView, Flow, TranslatorView};
use crate::stream_end;
use crate::stream_end::announced_calls;
use crate::stream_laws;
use crate::text;
use vstd::prelude::*;

verus! {

// ---------------------------------------------------------------------------
// The chunk says what the answer says
// ---------------------------------------------------------------------------

proof fn lemma_delta_keys()
    ensures
        "role"@.len() == 4,
        "content"@.len() == 7,
        "parsed"@.len() == 6,
        "refusal"@.len() == 7,
        "content"@ != "refusal"@,
        "reasoning_content"@.len() == 17,
        "reasoning"@.len() == 9,
        "analysis"@.len() == 8,
        "reasoning_details"@.len() == 17,
        "tool_calls"@.len() == 10,
        "function_call"@.len() == 13,
{
    reveal_strlit("role");
    reveal_strlit("content");
    reveal_strlit("parsed");
    reveal_strlit("refusal");
    reveal_strlit("reasoning_content");
    reveal_strlit("reasoning");
    reveal_strlit("analysis");
    reveal_strlit("reasoning_details");
    reveal_strlit("tool_calls");
    reveal_strlit("function_call");
    assert("content"@[0] != "refusal"@[0]);
}

/// A value that is copied is found, and other members stay.
proof fn lemma_copied(object: JsonView, source: JsonView, key: Seq<char>, other: Seq<char>)
    requires
        object is Object,
    ensures
        with_value_of(object, source, key) is Object,
        key != other ==> with_value_of(object, source, key).get(other) == object.get(other),
        object.get(key) is None ==> content::text_in(with_value_of(object, source, key), key)
            == content::text_in(source, key),
{
}

/// The delta that says all of a message says its text, its refusal and its
/// calls.
proof fn lemma_whole_delta(message: JsonView)
    requires
        !message.has("function_call"@),
    ensures
        ({
            let delta = whole_delta(message);
            &&& delta is Object
            &&& content::text_in(delta, "content"@) == content::text_in(message, "content"@)
            &&& response::message_refusal(delta) == response::message_refusal(message)
            &&& response::message_calls(delta) == indexed_calls(response::message_calls(message))
            &&& !delta.has("function_call"@)
        }),
{
    lemma_delta_keys();
    let start = json::empty_object().with("role"@, JsonView::Text("assistant"@));
    assert(start.get("content"@) is None);
    assert(start.get("refusal"@) is None);
    assert(start.get("tool_calls"@) is None);
    assert(start.get("function_call"@) is None);
    let one = with_value_of(start, message, "content"@);
    lemma_copied(start, message, "content"@, "refusal"@);
    lemma_copied(start, message, "content"@, "tool_calls"@);
    lemma_copied(start, message, "content"@, "function_call"@);
    let two = with_value_of(one, message, "parsed"@);
    lemma_kept(one, message, "parsed"@);
    let three = with_value_of(two, message, "refusal"@);
    lemma_copied(two, message, "refusal"@, "content"@);
    lemma_copied(two, message, "refusal"@, "tool_calls"@);
    lemma_copied(two, message, "refusal"@, "function_call"@);
    let four = with_value_of(three, message, "reasoning_content"@);
    lemma_kept(three, message, "reasoning_content"@);
    let five = with_value_of(four, message, "reasoning"@);
    lemma_kept(four, message, "reasoning"@);
    let six = with_value_of(five, message, "analysis"@);
    lemma_kept(five, message, "analysis"@);
    let seven = with_value_of(six, message, "reasoning_details"@);
    lemma_kept(six, message, "reasoning_details"@);
    assert(seven.get("content"@) == one.get("content"@));
    assert(seven.get("refusal"@) == three.get("refusal"@));
    assert(seven.get("tool_calls"@) is None);
    if message.array_at("tool_calls"@) is None {
        assert(indexed_calls(response::message_calls(message)) =~= Seq::<JsonView>::empty());
    }
}

/// The members that count stay when another one is copied.
proof fn lemma_kept(object: JsonView, source: JsonView, key: Seq<char>)
    requires
        object is Object,
        key != "content"@,
        key != "refusal"@,
        key != "tool_calls"@,
        key != "function_call"@,
    ensures
        with_value_of(object, source, key) is Object,
        with_value_of(object, source, key).get("content"@) == object.get("content"@),
        with_value_of(object, source, key).get("refusal"@) == object.get("refusal"@),
        with_value_of(object, source, key).get("tool_calls"@) == object.get("tool_calls"@),
        with_value_of(object, source, key).get("function_call"@) == object.get("function_call"@),
{
}

proof fn lemma_whole_chunk(completion: JsonView)
    requires
        response::first_choice(completion) is Some,
    ensures
        ({
            let chunk = whole_chunk(completion);
            let choice = whole_choice(completion);
            &&& chunk.get("error"@) is None
            &&& chunk.array_at("choices"@) == Some(seq![choice])
            &&& chunk.text_at("model"@) == completion.text_at("model"@)
            &&& stream::choice_delta(choice) == Some(whole_delta(completion_message(completion)))
            &&& choice.text_at("finish_reason"@) == (response::first_choice(
                completion,
            )->0).text_at("finish_reason"@)
        }),
{
    reveal_strlit("choices");
    reveal_strlit("model");
    reveal_strlit("usage");
    reveal_strlit("error");
    reveal_strlit("index");
    reveal_strlit("delta");
    reveal_strlit("finish_reason");
    assert("model"@[0] != "error"@[0]);
    assert("usage"@[0] != "error"@[0]);
    assert("usage"@[0] != "model"@[0]);
    assert("choices"@.len() != "model"@.len() && "choices"@.len() != "usage"@.len());
    assert("choices"@.len() != "error"@.len());
    assert("index"@[0] != "delta"@[0]);
    assert("finish_reason"@.len() != "delta"@.len());
    assert("finish_reason"@.len() != "index"@.len());
    let message = completion_message(completion);
    assert(whole_delta(message) is Object) by {
        let start = json::empty_object().with("role"@, JsonView::Text("assistant"@));
        assert(start is Object);
    }
}

// ---------------------------------------------------------------------------
// Calls
// ---------------------------------------------------------------------------

/// The calls of an answer as a stream gathers them, from an output index on.
spec fn gathered(calls: Seq<JsonView>, fresh: Seq<Seq<char>>, base: int) -> Seq<CallView> {
    Seq::new(calls.len(), |i: int| gathered_call(calls[i], i, fresh[i], base))
}

spec fn gathered_call(call: JsonView, position: int, fresh: Seq<char>, base: int) -> CallView {
    CallView {
        index: position as u64,
        id: call.text_at("id"@)->0,
        name: response::call_function(call).text_at("name"@)->0,
        arguments: response::call_function(call).text_at("arguments"@)->0,
        unsent: Seq::empty(),
        item_id: "fc_"@ + fresh,
        output_index: Some((base + position) as usize),
    }
}

proof fn lemma_sound_call(call: JsonView, position: int)
    requires
        response::call_problem(call, position) is None,
    ensures
        call.text_at("id"@) is Some && (call.text_at("id"@)->0).len() > 0,
        response::call_function(call).text_at("name"@) is Some && (response::call_function(
            call,
        ).text_at("name"@)->0).len() > 0,
        response::call_function(call).text_at("arguments"@) is Some,
        indexed_call(call, position).u64_at("index"@) == Some(position as u64),
        indexed_call(call, position).text_at("id"@) == call.text_at("id"@),
        response::call_function(indexed_call(call, position)) == response::call_function(call),
{
    reveal_strlit("");
    reveal_strlit("index");
    reveal_strlit("id");
    reveal_strlit("function");
    assert(""@.len() == 0);
    assert("index"@.len() != "id"@.len() && "index"@.len() != "function"@.len());
}

#[verifier::rlimit(40)]
proof fn lemma_calls_gathered(flow: Flow, calls: Seq<JsonView>, fresh: Seq<Seq<char>>)
    requires
        flow.state.tool_calls.len() == 0,
        flow.state.next_output_index + calls.len() < usize::MAX,
        calls_problem(calls) is None,
    ensures
        ({
            let outcome = flow.take_calls(indexed_calls(calls), fresh);
            let base = flow.state.next_output_index as int;
            &&& outcome.failure is None
            &&& outcome.flow.state == (TranslatorView {
                tool_calls: gathered(calls, fresh, base),
                next_output_index: (base + calls.len()) as usize,
                sequence: outcome.flow.state.sequence,
                ..flow.state
            })
        }),
    decreases calls.len(),
{
    let base = flow.state.next_output_index as int;
    let all = indexed_calls(calls);
    if calls.len() == 0 {
        assert(gathered(calls, fresh, base) =~= flow.state.tool_calls);
    } else {
        let rest = calls.drop_last();
        lemma_calls_gathered(flow, rest, fresh);
        assert(all.drop_last() =~= indexed_calls(rest));
        let earlier = flow.take_calls(indexed_calls(rest), fresh);
        let before = gathered(rest, fresh, base);
        let position = calls.len() - 1;
        let call = calls.last();
        lemma_sound_call(call, position);
        assert(all.last() == indexed_call(call, position));
        let index = position as u64;
        stream::lemma_slot(before, index);
        let spot = stream::slot(before, index);
        if spot < before.len() {
            assert(before[spot].index < index);
        }
        assert(known_call(before, index) is None);
        let own = gathered_call(call, position, fresh[position], base);
        let informed = stream::informed_call(before, all.last(), position, fresh[position]);
        stream_laws::lemma_nothing_more(own.arguments);
        assert(informed.arguments == own.arguments);
        let start = CallFlow { flow: earlier.flow, call: informed };
        let told = start.announced().told();
        if own.arguments.len() == 0 {
            assert(told.call.unsent =~= Seq::<char>::empty());
        }
        assert(told.call == own);
        assert(stream::with_call(before, own) =~= before.push(own));
        assert(before.push(own) =~= gathered(calls, fresh, base)) by {
            assert forall|i: int| 0 <= i < calls.len() implies before.push(own)[i] == gathered(
                calls,
                fresh,
                base,
            )[i] by {
                if i < before.len() {
                    assert(rest[i] == calls[i]);
                }
            }
        }
    }
}

/// Calls that were announced one after the other.
proof fn lemma_announced_in_a_row(calls: Seq<CallView>, base: int)
    requires
        forall|i: int|
            0 <= i < calls.len() ==> (#[trigger] calls[i]).output_index == Some(
                (base + i) as usize,
            ),
    ensures
        announced_calls(calls) == Seq::new(
            calls.len(),
            |i: int| ((base + i) as usize, calls[i]),
        ),
    decreases calls.len(),
{
    let row = Seq::new(calls.len(), |i: int| ((base + i) as usize, calls[i]));
    if calls.len() == 0 {
        assert(announced_calls(calls) =~= row);
    } else {
        let rest = calls.drop_last();
        assert forall|i: int| 0 <= i < rest.len() implies (#[trigger] rest[i]).output_index == Some(
            (base + i) as usize,
        ) by {
            assert(rest[i] == calls[i]);
        }
        lemma_announced_in_a_row(rest, base);
        assert(calls[calls.len() - 1].output_index is Some);
        assert(announced_calls(calls) =~= row);
    }
}

/// Items that are in order stay as they are.
proof fn lemma_ordered_stays<T>(items: Seq<(usize, T)>)
    requires
        is_ordered(items),
    ensures
        ordered(items) == items,
    decreases items.len(),
{
    if items.len() == 0 {
        assert(ordered(items) =~= items);
    } else {
        let rest = items.drop_last();
        assert forall|i: int, j: int| 0 <= i < j < rest.len() implies (#[trigger] rest[i]).0 <= (
        #[trigger] rest[j]).0 by {
            assert(rest[i] == items[i] && rest[j] == items[j]);
        }
        lemma_ordered_stays(rest);
        let last = items.last();
        assert forall|i: int| 0 <= i < rest.len() implies (#[trigger] rest[i]).0 <= last.0 by {
            assert(items[i].0 <= items[items.len() - 1].0);
        }
        order::lemma_rank_unique(rest, last.0, rest.len() as int);
        assert(rest.insert(rest.len() as int, last) =~= items);
    }
}

// ---------------------------------------------------------------------------
// The law
// ---------------------------------------------------------------------------

/// Whether two lists of output items are the same but for their identifiers.
pub open spec fn same_but_ids(one: Seq<JsonView>, other: Seq<JsonView>) -> bool {
    &&& one.len() == other.len()
    &&& forall|i: int|
        0 <= i < one.len() ==> (#[trigger] one[i]).with("id"@, JsonView::Null) == other[i].with(
            "id"@,
            JsonView::Null,
        )
}

proof fn lemma_same_message(
    one: Seq<char>,
    other: Seq<char>,
    status: Seq<char>,
    parts: Seq<JsonView>,
)
    ensures
        response::message_item(one, status, parts).with("id"@, JsonView::Null)
            == response::message_item(other, status, parts).with("id"@, JsonView::Null),
{
    let a = response::message_item(one, status, parts).with("id"@, JsonView::Null);
    let b = response::message_item(other, status, parts).with("id"@, JsonView::Null);
    assert(a->Object_0 =~= b->Object_0);
}

proof fn lemma_same_call(
    one: Seq<char>,
    other: Seq<char>,
    status: Seq<char>,
    id: Seq<char>,
    name: Seq<char>,
    arguments: Seq<char>,
)
    ensures
        response::call_item(one, status, id, name, arguments).with("id"@, JsonView::Null)
            == response::call_item(other, status, id, name, arguments).with("id"@, JsonView::Null),
{
    let a = response::call_item(one, status, id, name, arguments).with("id"@, JsonView::Null);
    let b = response::call_item(other, status, id, name, arguments).with("id"@, JsonView::Null);
    assert(a->Object_0 =~= b->Object_0);
}

/// Whether what an answer repeats of its request leaves alone what it says of
/// itself.
pub open spec fn is_about_the_request(metadata: JsonView) -> bool {
    &&& !metadata.has("id"@)
    &&& !metadata.has("created_at"@)
    &&& !metadata.has("status"@)
    &&& !metadata.has("model"@)
    &&& !metadata.has("output"@)
}

/// Whether two answers say the same of themselves, and have the same output but
/// for the identifiers of its items.
pub open spec fn same_answer(one: JsonView, other: JsonView) -> bool {
    &&& one.get("id"@) == other.get("id"@)
    &&& one.get("created_at"@) == other.get("created_at"@)
    &&& one.get("status"@) == other.get("status"@)
    &&& one.get("model"@) == other.get("model"@)
    &&& one.get("incomplete_details"@) == other.get("incomplete_details"@)
    &&& one.array_at("output"@) matches Some(output)
    &&& other.array_at("output"@) matches Some(given)
    &&& same_but_ids(output, given)
}

proof fn lemma_answer_keys()
    ensures
        "id"@.len() == 2,
        "object"@.len() == 6,
        "created_at"@.len() == 10,
        "status"@.len() == 6,
        "model"@.len() == 5,
        "output"@.len() == 6,
        "usage"@.len() == 5,
        "error"@.len() == 5,
        "incomplete_details"@.len() == 18,
        "object"@ != "status"@,
        "object"@ != "output"@,
        "status"@ != "output"@,
        "model"@ != "usage"@,
        "model"@ != "error"@,
        "model"@ != "tools"@,
        "model"@ != "top_p"@,
        "model"@ != "store"@,
        "output_text"@.len() == 11,
        "parallel_tool_calls"@.len() == 19,
        "previous_response_id"@.len() == 20,
        "reasoning"@.len() == 9,
        "text"@.len() == 4,
        "tools"@.len() == 5,
        "tool_choice"@.len() == 11,
        "temperature"@.len() == 11,
        "top_p"@.len() == 5,
        "truncation"@.len() == 10,
        "truncation"@ != "created_at"@,
        "store"@.len() == 5,
        "metadata"@.len() == 8,
        "user"@.len() == 4,
        "instructions"@.len() == 12,
{
    reveal_strlit("id");
    reveal_strlit("object");
    reveal_strlit("created_at");
    reveal_strlit("status");
    reveal_strlit("model");
    reveal_strlit("output");
    reveal_strlit("usage");
    reveal_strlit("error");
    reveal_strlit("incomplete_details");
    reveal_strlit("output_text");
    reveal_strlit("parallel_tool_calls");
    reveal_strlit("previous_response_id");
    reveal_strlit("reasoning");
    reveal_strlit("text");
    reveal_strlit("tools");
    reveal_strlit("tool_choice");
    reveal_strlit("temperature");
    reveal_strlit("top_p");
    reveal_strlit("truncation");
    reveal_strlit("store");
    reveal_strlit("metadata");
    reveal_strlit("user");
    reveal_strlit("instructions");
    assert("object"@[0] != "status"@[0]);
    assert("object"@[1] != "output"@[1]);
    assert("status"@[0] != "output"@[0]);
    assert("model"@[0] != "usage"@[0]);
    assert("model"@[0] != "error"@[0]);
    assert("model"@[0] != "tools"@[0]);
    assert("model"@[0] != "top_p"@[0]);
    assert("model"@[0] != "store"@[0]);
    assert("truncation"@[0] != "created_at"@[0]);
}

/// The `response` member of the event that ends an answer.
pub open spec fn told_answer(state: TranslatorView, ending: Ending) -> JsonView {
    response::member_or(
        stream_end::final_document(state, ending),
        "response"@,
        JsonView::Null,
    )
}

pub proof fn lemma_told_answer(state: TranslatorView, ending: Ending)
    requires
        is_about_the_request(state.metadata),
    ensures
        ({
            let answer = told_answer(state, ending);
            &&& answer.get("id"@) == Some(JsonView::Text(state.response_id))
            &&& answer.get("created_at"@) == Some(json::signed_view(state.created_at))
            &&& answer.get("status"@) == Some(JsonView::Text(ending.status()))
            &&& answer.get("model"@) == Some(JsonView::Text(state.model))
            &&& answer.get("incomplete_details"@) == Some(ending.details())
            &&& answer.array_at("output"@) == Some(stream_end::final_output(state, ending))
        }),
{
    lemma_answer_keys();
    let plain = json::empty_object().with("id"@, JsonView::Text(state.response_id)).with(
        "object"@,
        JsonView::Text("response"@),
    ).with("created_at"@, json::signed_view(state.created_at)).with(
        "status"@,
        JsonView::Text(ending.status()),
    ).with("model"@, JsonView::Text(state.model)).with(
        "output"@,
        JsonView::Array(stream_end::final_output(state, ending)),
    ).with("usage"@, stream_end::final_usage(state.usage)).with(
        "parallel_tool_calls"@,
        JsonView::Bool(true),
    ).with("tool_choice"@, JsonView::Text("auto"@)).with("tools"@, response::empty_array()).with(
        "instructions"@,
        JsonView::Null,
    ).with("error"@, JsonView::Null);
    assert(plain.get("id"@) == Some(JsonView::Text(state.response_id)));
    assert(plain.get("created_at"@) == Some(json::signed_view(state.created_at)));
    assert(plain.get("status"@) == Some(JsonView::Text(ending.status())));
    assert(plain.get("model"@) == Some(JsonView::Text(state.model)));
    assert(plain.get("output"@) == Some(
        JsonView::Array(stream_end::final_output(state, ending)),
    ));
    let merged = plain.merged(state.metadata);
    assert(merged.get("id"@) == plain.get("id"@));
    assert(merged.get("created_at"@) == plain.get("created_at"@));
    assert(merged.get("status"@) == plain.get("status"@));
    assert(merged.get("model"@) == plain.get("model"@));
    assert(merged.get("output"@) == plain.get("output"@));
    assert(told_answer(state, ending) == merged.with("incomplete_details"@, ending.details()));
}

proof fn lemma_direct_answer(
    response_id: Seq<char>,
    created_at: i64,
    ending: Ending,
    model: Seq<char>,
    output: Seq<JsonView>,
    usage: JsonView,
    shown: Seq<char>,
)
    ensures
        ({
            let answer = response::response_document(
                response_id,
                created_at,
                ending,
                model,
                output,
                usage,
                shown,
            );
            &&& answer.get("id"@) == Some(JsonView::Text(response_id))
            &&& answer.get("created_at"@) == Some(json::signed_view(created_at))
            &&& answer.get("status"@) == Some(JsonView::Text(ending.status()))
            &&& answer.get("model"@) == Some(JsonView::Text(model))
            &&& answer.get("incomplete_details"@) == Some(ending.details())
            &&& answer.array_at("output"@) == Some(output)
        }),
{
    lemma_answer_keys();
}

/// The state of a stream once an answer has come as one chunk.
proof fn lemma_one_chunk(
    start: Flow,
    completion: JsonView,
    said: Seq<char>,
    fresh: Seq<Seq<char>>,
)
    requires
        start.state == stream::fresh_translator(
            start.state.response_id,
            start.state.model,
            start.state.created_at,
            false,
            start.state.structured_schema,
            start.state.metadata,
            start.state.msg_item_id,
        ),
        response::answer_problem(completion, false, start.state.structured_schema) is None,
        completion_message(completion).get("content"@) == Some(JsonView::Text(said)),
        said.len() > 0,
        response::message_calls(completion_message(completion)).len() + 1 < usize::MAX,
    ensures
        ({
            let outcome = start.push_chunk(whole_chunk(completion), fresh);
            let state = outcome.flow.state;
            let message = completion_message(completion);
            let calls = response::message_calls(message);
            &&& outcome.failure is None
            &&& state.response_id == start.state.response_id
            &&& state.created_at == start.state.created_at
            &&& state.metadata == start.state.metadata
            &&& state.structured_output == false
            &&& state.model == response::answering_model(completion, start.state.model)
            &&& state.saw_valid_choice
            &&& state.finish_reason == (response::first_choice(completion)->0).text_at(
                "finish_reason"@,
            )
            &&& state.full_text == said
            &&& state.places.message == Some(0usize)
            &&& state.places.text == Some(0usize)
            &&& state.tool_calls == gathered(calls, fresh, 1)
            &&& match response::message_refusal(message) {
                Some(refusal) => state.places.refusal == Some(1usize) && state.refusal_text
                    == refusal,
                None => state.places.refusal is None,
            }
        }),
{
    let chunk = whole_chunk(completion);
    let choice = whole_choice(completion);
    let message = completion_message(completion);
    let delta = whole_delta(message);
    lemma_whole_chunk(completion);
    lemma_whole_delta(message);
    let known = start.informed(chunk);
    let reasoned = known.chosen(choice).reasoned(delta);
    assert(seq![choice][0] == choice);
    assert(content::text_in(delta, "content"@) == Some(said)) by {
        assert(content::text_in(message, "content"@) == Some(said));
    }
    assert(stream::delta_text(delta) == Some(said));
    stream_laws::lemma_nothing_more(said);
    let heard = reasoned.take_text(said);
    assert(heard.state.full_text == said);
    let spoken = reasoned.spoken(delta);
    if let Some(refusal) = response::message_refusal(message) {
        stream_laws::lemma_nothing_more(refusal);
        assert(spoken.state.refusal_text == refusal);
    }
    assert(spoken.state.next_output_index == 1);
    assert(spoken.state.tool_calls.len() == 0);
    lemma_calls_gathered(spoken, response::message_calls(message), fresh);
}

/// An answer that arrives at once, with a text in it, and is streamed as one
/// chunk is completed wherever it can be translated without streaming. The last
/// event then holds the same answer: the same identity, state and model, and
/// the same output but for the identifiers of its items.
pub proof fn law_streaming_at_once_is_translating(
    start: Flow,
    completion: JsonView,
    said: Seq<char>,
    fresh: Seq<Seq<char>>,
    suffix: Seq<char>,
    entries: Seq<EntryView>,
)
    requires
        start.state == stream::fresh_translator(
            start.state.response_id,
            start.state.model,
            start.state.created_at,
            false,
            start.state.structured_schema,
            start.state.metadata,
            start.state.msg_item_id,
        ),
        is_about_the_request(start.state.metadata),
        response::answer_problem(completion, false, start.state.structured_schema) is None,
        completion_message(completion).get("content"@) == Some(JsonView::Text(said)),
        !text::blank(said),
        response::message_calls(completion_message(completion)).len() + 1 < usize::MAX,
    ensures
        ({
            let outcome = start.push_chunk(whole_chunk(completion), fresh);
            let end = outcome.flow.finish(entries);
            let direct = response::translated(
                completion,
                start.state.response_id,
                start.state.model,
                start.state.created_at,
                false,
                start.state.structured_schema,
                suffix,
            );
            &&& outcome.failure is None
            &&& end.completed
            &&& end.flow.out.len() > 0
            &&& end.flow.out.last().payload matches PayloadView::Document(document)
            &&& document.get("response"@) matches Some(answer)
            &&& same_answer(answer, direct)
        }),
{
    let outcome = start.push_chunk(whole_chunk(completion), fresh);
    let flow = outcome.flow;
    let state = flow.state;
    let message = completion_message(completion);
    let calls = response::message_calls(message);
    let choice = response::first_choice(completion)->0;
    let ending = response::ending_of(choice.text_at("finish_reason"@)->0)->0;
    lemma_one_chunk(start, completion, said, fresh);
    assert(response::choice_message(choice) == Some(message));
    let listed = gathered(calls, fresh, 1);
    lemma_calls_are_sound(calls);
    assert forall|i: int| 0 <= i < listed.len() implies !stream_end::is_anonymous(
        #[trigger] listed[i],
    ) by {
        lemma_sound_call(calls[i], i);
    }
    lemma_none_anonymous(listed);
    assert(stream_end::ending_failure(state) is None);
    let end = flow.finish(entries);
    assert(flow.released() == flow);
    assert(end.completed);
    lemma_told_answer(state, ending);
    let document = stream_end::final_document(state, ending);
    reveal_strlit("sequence_number");
    reveal_strlit("response");
    reveal_strlit("type");
    assert("sequence_number"@.len() != "response"@.len());
    let told = document.with(
        "sequence_number"@,
        json::unsigned_view(
            flow.close_message(ending).close_calls(
                ordered(announced_calls(state.tool_calls)),
                ending,
            ).state.sequence as u64,
        ),
    );
    assert(end.flow.out.last().payload == PayloadView::Document(told));
    assert(told.get("response"@) == Some(told_answer(state, ending)));
    // The output.
    lemma_announced_in_a_row(listed, 1);
    let row = announced_calls(listed);
    assert(is_ordered(row));
    lemma_ordered_stays(row);
    let spoken = stream_end::final_message(state, ending);
    let indexed = stream_end::indexed_output(state, ending);
    assert(is_ordered(indexed));
    lemma_ordered_stays(indexed);
    let output = stream_end::final_output(state, ending);
    assert(output.len() == calls.len() + 1);
    assert(output[0] == spoken);
    assert(forall|i: int|
        1 <= i < output.len() ==> #[trigger] output[i] == stream_end::final_call(
            listed[i - 1],
            ending,
        ));
    let shown = content::output_text(message, false);
    assert(shown == said);
    lemma_direct_answer(
        start.state.response_id,
        start.state.created_at,
        ending,
        response::answering_model(completion, start.state.model),
        response::output_items(message, shown, suffix, ending.status()),
        response::answer_usage(completion),
        shown,
    );
    let direct = response::output_items(message, shown, suffix, ending.status());
    let parts = response::message_parts(shown, response::message_refusal(message));
    assert(stream_end::message_content(state) =~= parts);
    assert(direct.len() == output.len());
    assert forall|i: int| 0 <= i < output.len() implies (#[trigger] output[i]).with(
        "id"@,
        JsonView::Null,
    ) == direct[i].with("id"@, JsonView::Null) by {
        if i == 0 {
            lemma_same_message(
                state.msg_item_id,
                response::message_id(suffix),
                ending.status(),
                parts,
            );
        } else {
            let call = listed[i - 1];
            lemma_sound_call(calls[i - 1], i - 1);
            lemma_same_call(
                call.item_id,
                response::call_item_id(suffix, i - 1),
                ending.status(),
                call.id,
                call.name,
                call.arguments,
            );
            assert(direct[i] == response::call_items(calls, suffix, ending.status())[i - 1]);
        }
    }
}

proof fn lemma_calls_are_sound(calls: Seq<JsonView>)
    requires
        calls_problem(calls) is None,
    ensures
        forall|i: int|
            0 <= i < calls.len() ==> response::call_problem(#[trigger] calls[i], i) is None,
    decreases calls.len(),
{
    if calls.len() > 0 {
        let rest = calls.drop_last();
        lemma_calls_are_sound(rest);
        assert forall|i: int| 0 <= i < calls.len() implies response::call_problem(
            #[trigger] calls[i],
            i,
        ) is None by {
            if i < rest.len() {
                assert(rest[i] == calls[i]);
            }
        }
    }
}

proof fn lemma_none_anonymous(calls: Seq<CallView>)
    requires
        forall|i: int| 0 <= i < calls.len() ==> !stream_end::is_anonymous(#[trigger] calls[i]),
    ensures
        stream_end::first_anonymous(calls) is None,
    decreases calls.len(),
{
    if calls.len() > 0 {
        let rest = calls.drop_last();
        assert forall|i: int| 0 <= i < rest.len() implies !stream_end::is_anonymous(
            #[trigger] rest[i],
        ) by {
            assert(rest[i] == calls[i]);
        }
        lemma_none_anonymous(rest);
        assert(!stream_end::is_anonymous(calls[calls.len() - 1]));
    }
}

/// What an answer repeats of its request leaves alone what it says of itself.
pub proof fn law_repeated_members_are_about_the_request(body: JsonView)
    ensures
        is_about_the_request(response::request_metadata(body)),
{
    lemma_answer_keys();
    reveal_strlit("max_output_tokens");
    assert("max_output_tokens"@.len() == 17);
}

} // verus!
