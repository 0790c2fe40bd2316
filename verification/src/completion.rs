//! A complete Chat Completions answer as the one chunk of a stream.

use crate::chat_request::{copy_value, with_value_of};
use crate::json;
use crate::json::{Json, JsonView};
use crate::response;
use crate::response::read_first_choice;
use vstd::prelude::*;

verus! {

/// A tool call with its position as its index.
pub open spec fn indexed_call(call: JsonView, position: int) -> JsonView {
    call.with("index"@, json::unsigned_view(position as u64))
}

/// The tool calls with their positions as their indexes.
pub open spec fn indexed_calls(calls: Seq<JsonView>) -> Seq<JsonView> {
    Seq::new(calls.len(), |i: int| indexed_call(calls[i], i))
}

/// The message of the first choice, whatever it is.
pub open spec fn completion_message(completion: JsonView) -> JsonView {
    match response::first_choice(completion) {
        Some(choice) => response::member_or(choice, "message"@, JsonView::Null),
        None => JsonView::Null,
    }
}

/// The delta that says all of a message at once.
pub open spec fn whole_delta(message: JsonView) -> JsonView {
    let start = json::empty_object().with("role"@, JsonView::Text("assistant"@));
    let spoken = with_value_of(
        with_value_of(with_value_of(start, message, "content"@), message, "parsed"@),
        message,
        "refusal"@,
    );
    let reasoned = with_value_of(
        with_value_of(
            with_value_of(
                with_value_of(spoken, message, "reasoning_content"@),
                message,
                "reasoning"@,
            ),
            message,
            "analysis"@,
        ),
        message,
        "reasoning_details"@,
    );
    let called = match message.array_at("tool_calls"@) {
        Some(calls) => reasoned.with("tool_calls"@, JsonView::Array(indexed_calls(calls))),
        None => reasoned,
    };
    match message.get("function_call"@) {
        Some(call) => called.with("function_call"@, call),
        None => called,
    }
}

/// The choice of the one chunk.
pub open spec fn whole_choice(completion: JsonView) -> JsonView {
    let choice = json::empty_object().with("index"@, json::unsigned_view(0)).with(
        "delta"@,
        whole_delta(completion_message(completion)),
    );
    match response::first_choice(completion) {
        Some(given) => match given.get("finish_reason"@) {
            Some(reason) => choice.with("finish_reason"@, reason),
            None => choice,
        },
        None => choice,
    }
}

/// The one chunk that says a complete answer.
pub open spec fn whole_chunk(completion: JsonView) -> JsonView {
    let chunk = json::empty_object().with(
        "choices"@,
        JsonView::Array(seq![whole_choice(completion)]),
    );
    let named = match completion.get("model"@) {
        Some(model) => chunk.with("model"@, model),
        None => chunk,
    };
    match completion.get("usage"@) {
        Some(usage) => named.with("usage"@, usage),
        None => named,
    }
}

fn index_calls(calls: &Vec<Json>) -> (indexed: Vec<Json>)
    ensures
        json::items_view(indexed@) == indexed_calls(json::items_view(calls@)),
{
    let mut indexed: Vec<Json> = Vec::new();
    let ghost views = json::items_view(calls@);
    proof {
        json::lemma_items_view(calls@);
        json::lemma_items_view(indexed@);
    }
    assert(indexed_calls(views).take(0) =~= json::items_view(indexed@));
    for index in 0..calls.len()
        invariant
            views.len() == calls.len(),
            forall|i: int| 0 <= i < calls.len() ==> #[trigger] views[i] == calls[i]@,
            json::items_view(indexed@) == indexed_calls(views).take(index as int),
    {
        let call = calls[index].duplicate().with("index", Json::unsigned(index as u64));
        proof {
            assert(views[index as int] == calls[index as int]@);
            json::lemma_items_view_push(indexed@, call);
            assert(indexed_calls(views).take(index + 1) =~= indexed_calls(views).take(
                index as int,
            ).push(call@));
        }
        indexed.push(call);
    }
    assert(indexed_calls(views).take(calls.len() as int) =~= indexed_calls(views));
    indexed
}

fn make_delta(message: &Json) -> (delta: Json)
    ensures
        delta@ == whole_delta(message@),
{
    let delta = Json::object().with("role", Json::text("assistant"));
    let delta = copy_value(delta, message, "content");
    let delta = copy_value(delta, message, "parsed");
    let delta = copy_value(delta, message, "refusal");
    let delta = copy_value(delta, message, "reasoning_content");
    let delta = copy_value(delta, message, "reasoning");
    let delta = copy_value(delta, message, "analysis");
    let delta = copy_value(delta, message, "reasoning_details");
    let delta = match message.array_at("tool_calls") {
        Some(calls) => delta.with("tool_calls", Json::Array(index_calls(calls))),
        None => delta,
    };
    match message.get("function_call") {
        Some(call) => delta.with("function_call", call.duplicate()),
        None => delta,
    }
}

/// The one chunk that says a complete answer, so that it can be streamed.
/// The calls of a complete answer have no index, and get their positions.
pub fn completion_to_chunk(completion: &Json) -> (chunk: Json)
    ensures
        chunk@ == whole_chunk(completion@),
{
    let nothing = Json::Null;
    let given = read_first_choice(completion);
    let message = match given {
        Some(choice) => match choice.get("message") {
            Some(message) => message,
            None => &nothing,
        },
        None => &nothing,
    };
    let mut choice = Json::object().with("index", Json::unsigned(0)).with(
        "delta",
        make_delta(message),
    );
    if let Some(given) = given {
        if let Some(reason) = given.get("finish_reason") {
            choice.set("finish_reason", reason.duplicate());
        }
    }
    let mut choices: Vec<Json> = Vec::new();
    choices.push(choice);
    proof {
        json::lemma_items_view(choices@);
        assert(json::items_view(choices@) =~= seq![choice@]);
    }
    let chunk = Json::object().with("choices", Json::Array(choices));
    let chunk = match completion.get("model") {
        Some(model) => chunk.with("model", model.duplicate()),
        None => chunk,
    };
    match completion.get("usage") {
        Some(usage) => chunk.with("usage", usage.duplicate()),
        None => chunk,
    }
}

/// Every call of a complete answer keeps an index of its own.
pub proof fn law_calls_are_indexed_by_position(calls: Seq<JsonView>, position: int)
    requires
        0 <= position < calls.len() <= u64::MAX,
        calls[position] is Object,
    ensures
        indexed_calls(calls)[position].u64_at("index"@) == Some(position as u64),
        indexed_calls(calls).len() == calls.len(),
{
}

} // verus!
