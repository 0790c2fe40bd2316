//! What an answer says once it is put in the terms of Responses, member by member.

use crate::chat_request;
use crate::completion;
use crate::content;
use crate::events;
use crate::events::{EventView, PayloadView};
use crate::json;
use crate::json::JsonView;
use crate::response;
use crate::response::{Ending, TokenCounts};
use crate::stream;
use crate::stream::{CallView, Flow, TranslatorView, UsageState};
use crate::stream_end;
use crate::text;
use vstd::prelude::*;

verus! {

proof fn lemma_answer_words()
    ensures
        "id"@.len() == 2,
        "object"@.len() == 6,
        "created_at"@.len() == 10,
        "status"@.len() == 6,
        "model"@.len() == 5,
        "output"@.len() == 6,
        "error"@.len() == 5,
        "incomplete_details"@.len() == 18,
        "usage"@.len() == 5,
        "output_text"@.len() == 11,
        "parallel_tool_calls"@.len() == 19,
        "previous_response_id"@.len() == 20,
        "reasoning"@.len() == 9,
        "text"@.len() == 4,
        "tools"@.len() == 5,
        "tool_choice"@.len() == 11,
        "temperature"@.len() == 11,
        "top_p"@.len() == 5,
        "truncation"@.len() == 10,
        "store"@.len() == 5,
        "metadata"@.len() == 8,
        "user"@.len() == 4,
        "instructions"@.len() == 12,
        "max_output_tokens"@.len() == 17,
        "response"@.len() == 8,
        "type"@.len() == 4,
        "sequence_number"@.len() == 15,
        "code"@.len() == 4,
        "message"@.len() == 7,
        "failed"@.len() == 6,
        "object"@ != "status"@,
        "object"@ != "output"@,
        "object"@ != "failed"@,
        "created_at"@ != "truncation"@,
        "status"@ != "output"@,
        "status"@ != "failed"@,
        "model"@ != "error"@,
        "model"@ != "usage"@,
        "model"@ != "tools"@,
        "model"@ != "top_p"@,
        "model"@ != "store"@,
        "output"@ != "failed"@,
        "error"@ != "usage"@,
        "error"@ != "tools"@,
        "error"@ != "top_p"@,
        "error"@ != "store"@,
        "usage"@ != "tools"@,
        "usage"@ != "top_p"@,
        "usage"@ != "store"@,
        "output_text"@ != "tool_choice"@,
        "output_text"@ != "temperature"@,
        "text"@ != "user"@,
        "text"@ != "type"@,
        "text"@ != "code"@,
        "tools"@ != "top_p"@,
        "tools"@ != "store"@,
        "tool_choice"@ != "temperature"@,
        "top_p"@ != "store"@,
        "metadata"@ != "response"@,
        "user"@ != "type"@,
        "user"@ != "code"@,
        "type"@ != "code"@,
{
    reveal_strlit("id");
    reveal_strlit("object");
    reveal_strlit("created_at");
    reveal_strlit("status");
    reveal_strlit("model");
    reveal_strlit("output");
    reveal_strlit("error");
    reveal_strlit("incomplete_details");
    reveal_strlit("usage");
    reveal_strlit("output_text");
    reveal_strlit("parallel_tool_calls");
    reveal_strlit("previous_response_id");
    reveal_strlit("reasoning");
    reveal_strlit("text");
    reveal_strlit("tools");
    reveal_strlit("tool_choice");
    reveal_strlit("temperature");
    reveal_strlit("top_p");
    reveal_strlit("truncation");
    reveal_strlit("store");
    reveal_strlit("metadata");
    reveal_strlit("user");
    reveal_strlit("instructions");
    reveal_strlit("max_output_tokens");
    reveal_strlit("response");
    reveal_strlit("type");
    reveal_strlit("sequence_number");
    reveal_strlit("code");
    reveal_strlit("message");
    reveal_strlit("failed");
    assert("object"@[0] != "status"@[0]);
    assert("object"@[1] != "output"@[1]);
    assert("object"@[0] != "failed"@[0]);
    assert("created_at"@[0] != "truncation"@[0]);
    assert("status"@[0] != "output"@[0]);
    assert("status"@[0] != "failed"@[0]);
    assert("model"@[0] != "error"@[0]);
    assert("model"@[0] != "usage"@[0]);
    assert("model"@[0] != "tools"@[0]);
    assert("model"@[0] != "top_p"@[0]);
    assert("model"@[0] != "store"@[0]);
    assert("output"@[0] != "failed"@[0]);
    assert("error"@[0] != "usage"@[0]);
    assert("error"@[0] != "tools"@[0]);
    assert("error"@[0] != "top_p"@[0]);
    assert("error"@[0] != "store"@[0]);
    assert("usage"@[0] != "tools"@[0]);
    assert("usage"@[0] != "top_p"@[0]);
    assert("usage"@[0] != "store"@[0]);
    assert("output_text"@[0] != "tool_choice"@[0]);
    assert("output_text"@[0] != "temperature"@[0]);
    assert("text"@[0] != "user"@[0]);
    assert("text"@[1] != "type"@[1]);
    assert("text"@[0] != "code"@[0]);
    assert("tools"@[2] != "top_p"@[2]);
    assert("tools"@[0] != "store"@[0]);
    assert("tool_choice"@[1] != "temperature"@[1]);
    assert("top_p"@[0] != "store"@[0]);
    assert("metadata"@[0] != "response"@[0]);
    assert("user"@[0] != "type"@[0]);
    assert("user"@[0] != "code"@[0]);
    assert("type"@[0] != "code"@[0]);
}

proof fn lemma_usage_words()
    ensures
        "input_tokens"@.len() == 12,
        "input_tokens_details"@.len() == 20,
        "cached_tokens"@.len() == 13,
        "cache_write_tokens"@.len() == 18,
        "output_tokens"@.len() == 13,
        "output_tokens_details"@.len() == 21,
        "reasoning_tokens"@.len() == 16,
        "total_tokens"@.len() == 12,
        "prompt_tokens"@.len() == 13,
        "completion_tokens"@.len() == 17,
        "prompt_tokens_details"@.len() == 21,
        "completion_tokens_details"@.len() == 25,
        "input_tokens"@ != "total_tokens"@,
        "cached_tokens"@ != "output_tokens"@,
        "cached_tokens"@ != "prompt_tokens"@,
        "output_tokens"@ != "prompt_tokens"@,
        "output_tokens_details"@ != "prompt_tokens_details"@,
{
    reveal_strlit("input_tokens");
    reveal_strlit("input_tokens_details");
    reveal_strlit("cached_tokens");
    reveal_strlit("cache_write_tokens");
    reveal_strlit("output_tokens");
    reveal_strlit("output_tokens_details");
    reveal_strlit("reasoning_tokens");
    reveal_strlit("total_tokens");
    reveal_strlit("prompt_tokens");
    reveal_strlit("completion_tokens");
    reveal_strlit("prompt_tokens_details");
    reveal_strlit("completion_tokens_details");
    assert("input_tokens"@[0] != "total_tokens"@[0]);
    assert("cached_tokens"@[0] != "output_tokens"@[0]);
    assert("cached_tokens"@[0] != "prompt_tokens"@[0]);
    assert("output_tokens"@[0] != "prompt_tokens"@[0]);
    assert("output_tokens_details"@[0] != "prompt_tokens_details"@[0]);
}

proof fn lemma_reason_words()
    ensures
        "stop"@.len() == 4,
        "tool_calls"@.len() == 10,
        "function_call"@.len() == 13,
        "length"@.len() == 6,
        "content_filter"@.len() == 14,
        "completed"@.len() == 9,
        "incomplete"@.len() == 10,
        "reason"@.len() == 6,
        "max_output_tokens"@.len() == 17,
        "tool_calls"@ != "incomplete"@,
        "length"@ != "reason"@,
{
    reveal_strlit("stop");
    reveal_strlit("tool_calls");
    reveal_strlit("function_call");
    reveal_strlit("length");
    reveal_strlit("content_filter");
    reveal_strlit("completed");
    reveal_strlit("incomplete");
    reveal_strlit("reason");
    reveal_strlit("max_output_tokens");
    assert("tool_calls"@[0] != "incomplete"@[0]);
    assert("length"@[0] != "reason"@[0]);
}

proof fn lemma_message_words()
    ensures
        "choices"@.len() == 7,
        "index"@.len() == 5,
        "delta"@.len() == 5,
        "finish_reason"@.len() == 13,
        "model"@.len() == 5,
        "usage"@.len() == 5,
        "role"@.len() == 4,
        "content"@.len() == 7,
        "parsed"@.len() == 6,
        "refusal"@.len() == 7,
        "reasoning_content"@.len() == 17,
        "reasoning"@.len() == 9,
        "analysis"@.len() == 8,
        "reasoning_details"@.len() == 17,
        "tool_calls"@.len() == 10,
        "function_call"@.len() == 13,
        "assistant"@.len() == 9,
        "type"@.len() == 4,
        "text"@.len() == 4,
        "id"@.len() == 2,
        "name"@.len() == 4,
        "arguments"@.len() == 9,
        "call_id"@.len() == 7,
        "status"@.len() == 6,
        "function"@.len() == 8,
        "annotations"@.len() == 11,
        "message"@.len() == 7,
        "output_text"@.len() == 11,
        "output"@.len() == 6,
        "choices"@ != "content"@,
        "choices"@ != "refusal"@,
        "choices"@ != "call_id"@,
        "choices"@ != "message"@,
        "index"@ != "delta"@,
        "index"@ != "model"@,
        "index"@ != "usage"@,
        "delta"@ != "model"@,
        "delta"@ != "usage"@,
        "finish_reason"@ != "function_call"@,
        "model"@ != "usage"@,
        "role"@ != "type"@,
        "role"@ != "text"@,
        "role"@ != "name"@,
        "content"@ != "refusal"@,
        "content"@ != "call_id"@,
        "content"@ != "message"@,
        "parsed"@ != "status"@,
        "parsed"@ != "output"@,
        "refusal"@ != "call_id"@,
        "refusal"@ != "message"@,
        "reasoning_content"@ != "reasoning_details"@,
        "reasoning"@ != "assistant"@,
        "reasoning"@ != "arguments"@,
        "analysis"@ != "function"@,
        "assistant"@ != "arguments"@,
        "type"@ != "text"@,
        "type"@ != "name"@,
        "text"@ != "name"@,
        "call_id"@ != "message"@,
        "status"@ != "output"@,
        "annotations"@ != "output_text"@,
{
    reveal_strlit("choices");
    reveal_strlit("index");
    reveal_strlit("delta");
    reveal_strlit("finish_reason");
    reveal_strlit("model");
    reveal_strlit("usage");
    reveal_strlit("role");
    reveal_strlit("content");
    reveal_strlit("parsed");
    reveal_strlit("refusal");
    reveal_strlit("reasoning_content");
    reveal_strlit("reasoning");
    reveal_strlit("analysis");
    reveal_strlit("reasoning_details");
    reveal_strlit("tool_calls");
    reveal_strlit("function_call");
    reveal_strlit("assistant");
    reveal_strlit("type");
    reveal_strlit("text");
    reveal_strlit("id");
    reveal_strlit("name");
    reveal_strlit("arguments");
    reveal_strlit("call_id");
    reveal_strlit("status");
    reveal_strlit("function");
    reveal_strlit("annotations");
    reveal_strlit("message");
    reveal_strlit("output_text");
    reveal_strlit("output");
    assert("choices"@[1] != "content"@[1]);
    assert("choices"@[0] != "refusal"@[0]);
    assert("choices"@[1] != "call_id"@[1]);
    assert("choices"@[0] != "message"@[0]);
    assert("index"@[0] != "delta"@[0]);
    assert("index"@[0] != "model"@[0]);
    assert("index"@[0] != "usage"@[0]);
    assert("delta"@[0] != "model"@[0]);
    assert("delta"@[0] != "usage"@[0]);
    assert("finish_reason"@[1] != "function_call"@[1]);
    assert("model"@[0] != "usage"@[0]);
    assert("role"@[0] != "type"@[0]);
    assert("role"@[0] != "text"@[0]);
    assert("role"@[0] != "name"@[0]);
    assert("content"@[0] != "refusal"@[0]);
    assert("content"@[1] != "call_id"@[1]);
    assert("content"@[0] != "message"@[0]);
    assert("parsed"@[0] != "status"@[0]);
    assert("parsed"@[0] != "output"@[0]);
    assert("refusal"@[0] != "call_id"@[0]);
    assert("refusal"@[0] != "message"@[0]);
    assert("reasoning_content"@[10] != "reasoning_details"@[10]);
    assert("reasoning"@[0] != "assistant"@[0]);
    assert("reasoning"@[0] != "arguments"@[0]);
    assert("analysis"@[0] != "function"@[0]);
    assert("assistant"@[1] != "arguments"@[1]);
    assert("type"@[1] != "text"@[1]);
    assert("type"@[0] != "name"@[0]);
    assert("text"@[0] != "name"@[0]);
    assert("call_id"@[0] != "message"@[0]);
    assert("status"@[0] != "output"@[0]);
    assert("annotations"@[0] != "output_text"@[0]);
}

// ---------------------------------------------------------------------------
// Usage
// ---------------------------------------------------------------------------

/// A count that a usage states under a name, or under a name within another.
pub open spec fn stated(usage: JsonView, key: Seq<char>) -> u64 {
    match usage.u64_at(key) {
        Some(count) => count,
        None => 0,
    }
}

/// A count that a usage states under a name within another.
pub open spec fn stated_in(usage: JsonView, outer: Seq<char>, inner: Seq<char>) -> u64 {
    match usage.get(outer) {
        Some(details) => stated(details, inner),
        None => 0,
    }
}

/// Whether a usage holds these counts.
pub open spec fn holds_counts(usage: JsonView, counts: TokenCounts) -> bool {
    &&& usage.u64_at("input_tokens"@) == Some(counts.input)
    &&& usage.u64_at("output_tokens"@) == Some(counts.output)
    &&& usage.u64_at("total_tokens"@) == Some(counts.total)
    &&& stated_in(usage, "input_tokens_details"@, "cached_tokens"@) == counts.cached
    &&& stated_in(usage, "input_tokens_details"@, "cache_write_tokens"@) == counts.cache_write
    &&& stated_in(usage, "output_tokens_details"@, "reasoning_tokens"@) == counts.reasoning
}

proof fn lemma_counts_are_held(counts: TokenCounts)
    ensures
        holds_counts(response::usage_document(counts), counts),
{
    lemma_usage_words();
    let usage = response::usage_document(counts);
    let input = usage.get("input_tokens_details"@)->0;
    let output = usage.get("output_tokens_details"@)->0;
    assert(usage.get("input_tokens"@) == Some(json::unsigned_view(counts.input)));
    assert(usage.get("output_tokens"@) == Some(json::unsigned_view(counts.output)));
    assert(usage.get("total_tokens"@) == Some(json::unsigned_view(counts.total)));
    assert(input.get("cached_tokens"@) == Some(json::unsigned_view(counts.cached)));
    assert(input.get("cache_write_tokens"@) == Some(json::unsigned_view(counts.cache_write)));
    assert(output.get("reasoning_tokens"@) == Some(json::unsigned_view(counts.reasoning)));
}

/// The usage of an answer holds the counts that were stated, each under its name
/// here. A total that was not stated is the sum of input and output, where that
/// fits.
pub proof fn law_usage_is_told(chat: JsonView, usage: JsonView)
    requires
        chat.get("usage"@) == Some(usage),
        usage is Object,
    ensures
        ({
            let told = response::answer_usage(chat);
            &&& told.u64_at("input_tokens"@) == Some(stated(usage, "prompt_tokens"@))
            &&& told.u64_at("output_tokens"@) == Some(stated(usage, "completion_tokens"@))
            &&& usage.u64_at("total_tokens"@) is Some ==> told.u64_at("total_tokens"@)
                == usage.u64_at("total_tokens"@)
            &&& usage.u64_at("total_tokens"@) is None && stated(usage, "prompt_tokens"@) + stated(
                usage,
                "completion_tokens"@,
            ) <= u64::MAX ==> told.u64_at("total_tokens"@) == Some(
                (stated(usage, "prompt_tokens"@) + stated(usage, "completion_tokens"@)) as u64,
            )
            &&& stated_in(told, "input_tokens_details"@, "cached_tokens"@) == stated_in(
                usage,
                "prompt_tokens_details"@,
                "cached_tokens"@,
            )
            &&& stated_in(told, "input_tokens_details"@, "cache_write_tokens"@) == stated_in(
                usage,
                "prompt_tokens_details"@,
                "cache_write_tokens"@,
            )
            &&& stated_in(told, "output_tokens_details"@, "reasoning_tokens"@) == stated_in(
                usage,
                "completion_tokens_details"@,
                "reasoning_tokens"@,
            )
        }),
{
    lemma_counts_are_held(response::chat_counts(usage));
}

/// A usage that a stream states replaces what it states, and keeps the rest.
pub proof fn law_stream_keeps_the_last_counts(known: UsageState, usage: JsonView)
    ensures
        ({
            let after = stream::usage_after(known, usage);
            &&& usage.u64_at("prompt_tokens"@) matches Some(count) ==> after.input == count
                && after.seen
            &&& usage.u64_at("prompt_tokens"@) is None ==> after.input == known.input
            &&& usage.u64_at("completion_tokens"@) matches Some(count) ==> after.output == count
                && after.seen
            &&& usage.u64_at("completion_tokens"@) is None ==> after.output == known.output
            &&& usage.u64_at("total_tokens"@) matches Some(count) ==> after.total == Some(count)
                && after.seen
            &&& usage.u64_at("total_tokens"@) is None ==> after.total == known.total
            &&& usage.get("prompt_tokens_details"@) matches Some(details) ==> {
                &&& details.u64_at("cached_tokens"@) matches Some(count) ==> after.cached == count
                &&& details.u64_at("cache_write_tokens"@) matches Some(count)
                    ==> after.cache_write == count
            }
            &&& usage.get("completion_tokens_details"@) matches Some(details) ==> (
            details.u64_at("reasoning_tokens"@) matches Some(count) ==> after.reasoning == count)
            &&& known.seen ==> after.seen
        }),
{
}

/// A chunk with a usage is taken into account, and so is the model that it names.
pub proof fn law_chunk_informs(flow: Flow, chunk: JsonView)
    ensures
        chunk.get("usage"@) matches Some(usage) ==> flow.informed(chunk).state.usage
            == stream::usage_after(flow.state.usage, usage),
        chunk.get("usage"@) is None ==> flow.informed(chunk).state.usage == flow.state.usage,
        chunk.text_at("model"@) matches Some(model) ==> (model.len() > 0 ==> flow.informed(
            chunk,
        ).state.model == model),
        chunk.text_at("model"@) is None ==> flow.informed(chunk).state.model == flow.state.model,
        flow.informed(chunk).out == flow.out,
{
}

/// The usage of a streamed answer holds the counts that the stream stated last, and
/// there is one only where the stream stated any.
pub proof fn law_stream_usage_is_told(usage: UsageState)
    ensures
        !usage.seen ==> stream_end::final_usage(usage) is Null,
        usage.seen ==> ({
            let told = stream_end::final_usage(usage);
            &&& told.u64_at("input_tokens"@) == Some(usage.input)
            &&& told.u64_at("output_tokens"@) == Some(usage.output)
            &&& usage.total is Some ==> told.u64_at("total_tokens"@) == usage.total
            &&& usage.total is None && usage.input + usage.output <= u64::MAX ==> told.u64_at(
                "total_tokens"@,
            ) == Some((usage.input + usage.output) as u64)
            &&& stated_in(told, "input_tokens_details"@, "cached_tokens"@) == usage.cached
            &&& stated_in(told, "input_tokens_details"@, "cache_write_tokens"@)
                == usage.cache_write
            &&& stated_in(told, "output_tokens_details"@, "reasoning_tokens"@) == usage.reasoning
        }),
{
    if usage.seen {
        lemma_counts_are_held(stream_end::final_counts(usage));
    }
}

// ---------------------------------------------------------------------------
// Answers
// ---------------------------------------------------------------------------

/// Why an answer ended decides its status: an answer that reached its limit or was
/// filtered is incomplete and says which; every other known reason completes it.
pub proof fn law_reason_decides_the_status(reason: Seq<char>, ending: Ending)
    requires
        response::ending_of(reason) == Some(ending),
    ensures
        reason == "length"@ ==> ending.status() == "incomplete"@ && ending.details().text_at(
            "reason"@,
        ) == Some("max_output_tokens"@) && stream_end::final_kind(ending)
            == "response.incomplete"@,
        reason == "content_filter"@ ==> ending.status() == "incomplete"@
            && ending.details().text_at("reason"@) == Some("content_filter"@)
            && stream_end::final_kind(ending) == "response.incomplete"@,
        reason != "length"@ && reason != "content_filter"@ ==> {
            &&& reason == "stop"@ || reason == "tool_calls"@ || reason == "function_call"@
            &&& ending.status() == "completed"@
            &&& ending.details() is Null
            &&& stream_end::final_kind(ending) == "response.completed"@
        },
{
    lemma_reason_words();
}

/// Every known reason is taken.
pub proof fn law_known_reasons_are_taken(reason: Seq<char>)
    requires
        reason == "stop"@ || reason == "tool_calls"@ || reason == "function_call"@ || reason
            == "length"@ || reason == "content_filter"@,
    ensures
        response::ending_of(reason) is Some,
{
}

/// An answer says under which identifier, when, by which model and how it ended,
/// and holds the text, the output and the usage.
pub proof fn law_answer_members(
    response_id: Seq<char>,
    created_at: i64,
    ending: Ending,
    model: Seq<char>,
    output: Seq<JsonView>,
    usage: JsonView,
    shown: Seq<char>,
)
    ensures
        ({
            let answer = response::response_document(
                response_id,
                created_at,
                ending,
                model,
                output,
                usage,
                shown,
            );
            &&& answer.text_at("id"@) == Some(response_id)
            &&& answer.text_at("object"@) == Some("response"@)
            &&& answer.get("created_at"@) == Some(json::signed_view(created_at))
            &&& answer.text_at("status"@) == Some(ending.status())
            &&& answer.text_at("model"@) == Some(model)
            &&& answer.array_at("output"@) == Some(output)
            &&& answer.get("error"@) == Some(JsonView::Null)
            &&& answer.get("incomplete_details"@) == Some(ending.details())
            &&& answer.get("usage"@) == Some(usage)
            &&& answer.text_at("output_text"@) == Some(shown)
        }),
{
    lemma_answer_words();
    let first = json::empty_object().with("id"@, JsonView::Text(response_id)).with(
        "object"@,
        JsonView::Text("response"@),
    ).with("created_at"@, json::signed_view(created_at)).with(
        "status"@,
        JsonView::Text(ending.status()),
    ).with("model"@, JsonView::Text(model)).with("output"@, JsonView::Array(output)).with(
        "error"@,
        JsonView::Null,
    ).with("incomplete_details"@, ending.details()).with("usage"@, usage).with(
        "output_text"@,
        JsonView::Text(shown),
    );
    assert(first.get("id"@) == Some(JsonView::Text(response_id)));
    assert(first.get("object"@) == Some(JsonView::Text("response"@)));
    assert(first.get("created_at"@) == Some(json::signed_view(created_at)));
    assert(first.get("status"@) == Some(JsonView::Text(ending.status())));
    assert(first.get("model"@) == Some(JsonView::Text(model)));
    assert(first.get("output"@) == Some(JsonView::Array(output)));
    assert(first.get("error"@) == Some(JsonView::Null));
    assert(first.get("incomplete_details"@) == Some(ending.details()));
    assert(first.get("usage"@) == Some(usage));
    assert(first.get("output_text"@) == Some(JsonView::Text(shown)));
    let answer = response::response_document(
        response_id,
        created_at,
        ending,
        model,
        output,
        usage,
        shown,
    );
    assert(answer.get("id"@) == first.get("id"@));
    assert(answer.get("object"@) == first.get("object"@));
    assert(answer.get("created_at"@) == first.get("created_at"@));
    assert(answer.get("status"@) == first.get("status"@));
    assert(answer.get("model"@) == first.get("model"@));
    assert(answer.get("output"@) == first.get("output"@));
    assert(answer.get("error"@) == first.get("error"@));
    assert(answer.get("incomplete_details"@) == first.get("incomplete_details"@));
    assert(answer.get("usage"@) == first.get("usage"@));
    assert(answer.get("output_text"@) == first.get("output_text"@));
}

/// The answer to a request is that of the first choice: its text, and its output in
/// the order of message and calls.
pub proof fn law_answer_is_the_first_choice(
    chat: JsonView,
    choices: Seq<JsonView>,
    message: JsonView,
    reason: Seq<char>,
    said: Seq<char>,
    response_id: Seq<char>,
    model: Seq<char>,
    created_at: i64,
    suffix: Seq<char>,
)
    requires
        chat.array_at("choices"@) == Some(choices),
        choices.len() > 0,
        choices[0].get("message"@) == Some(message),
        message is Object,
        choices[0].text_at("finish_reason"@) == Some(reason),
        response::ending_of(reason) is Some,
        message.text_at("content"@) == Some(said),
        !text::blank(said),
        !message.has("refusal"@),
    ensures
        ({
            let answer = response::translated(
                chat,
                response_id,
                model,
                created_at,
                false,
                None,
                suffix,
            );
            &&& answer.text_at("id"@) == Some(response_id)
            &&& answer.get("created_at"@) == Some(json::signed_view(created_at))
            &&& answer.text_at("output_text"@) == Some(said)
            &&& chat.text_at("model"@) matches Some(name) ==> (name.len() > 0 ==> answer.text_at(
                "model"@,
            ) == Some(name))
            &&& !chat.has("model"@) ==> answer.text_at("model"@) == Some(model)
            &&& answer.get("usage"@) == Some(response::answer_usage(chat))
            &&& answer.array_at("output"@) matches Some(output)
            &&& output.len() == 1 + response::message_calls(message).len()
            &&& output[0].text_at("type"@) == Some("message"@)
            &&& output[0].text_at("role"@) == Some("assistant"@)
            &&& output[0].text_at("status"@) == answer.text_at("status"@)
            &&& output[0].array_at("content"@) matches Some(parts)
            &&& parts.len() == 1
            &&& parts[0].text_at("type"@) == Some("output_text"@)
            &&& parts[0].text_at("text"@) == Some(said)
        }),
{
    lemma_message_words();
    let ending = response::ending_of(reason)->0;
    assert(content::text_in(message, "content"@) == Some(said));
    assert(said.len() > 0) by {
        if said.len() == 0 {
            assert(text::blank(said));
        }
    }
    let shown = response::shown_text(message, false, None)->0;
    assert(shown == said);
    let output = response::output_items(message, shown, suffix, ending.status());
    law_answer_members(
        response_id,
        created_at,
        ending,
        response::answering_model(chat, model),
        output,
        response::answer_usage(chat),
        shown,
    );
    let parts = response::message_parts(shown, None);
    assert(response::message_refusal(message) is None);
    let item = response::message_item(response::message_id(suffix), ending.status(), parts);
    assert(output[0] == item);
    assert(item.get("type"@) == Some(JsonView::Text("message"@)));
    assert(item.get("role"@) == Some(JsonView::Text("assistant"@)));
    assert(item.get("status"@) == Some(JsonView::Text(ending.status())));
    assert(item.get("content"@) == Some(JsonView::Array(parts)));
    let part = response::output_text_part(said);
    assert(parts[0] == part);
    assert(part.get("type"@) == Some(JsonView::Text("output_text"@)));
    assert(part.get("text"@) == Some(JsonView::Text(said)));
}

/// A refusal is told as a refusal, after the text where there is any.
pub proof fn law_refusal_is_told(shown: Seq<char>, refusal: Seq<char>)
    ensures
        ({
            let parts = response::message_parts(shown, Some(refusal));
            &&& parts.len() == if shown.len() == 0 {
                1int
            } else {
                2int
            }
            &&& parts.last().text_at("type"@) == Some("refusal"@)
            &&& parts.last().text_at("refusal"@) == Some(refusal)
            &&& shown.len() > 0 ==> parts[0].text_at("text"@) == Some(shown)
        }),
{
    lemma_message_words();
    let part = response::refusal_part(refusal);
    assert(part.get("type"@) == Some(JsonView::Text("refusal"@)));
    assert(part.get("refusal"@) == Some(JsonView::Text(refusal)));
    let said = response::output_text_part(shown);
    assert(said.get("text"@) == Some(JsonView::Text(shown)));
}

/// Every call of an answer is told, in its place, with its identifier, its name and
/// its arguments.
pub proof fn law_calls_are_told(
    message: JsonView,
    calls: Seq<JsonView>,
    shown: Seq<char>,
    suffix: Seq<char>,
    status: Seq<char>,
    i: int,
)
    requires
        message.array_at("tool_calls"@) == Some(calls),
        response::calls_problem(calls) is None,
        0 <= i < calls.len(),
    ensures
        ({
            let output = response::output_items(message, shown, suffix, status);
            &&& output.len() >= calls.len()
            &&& ({
                let told = output[output.len() - calls.len() + i];
                &&& told.text_at("type"@) == Some("function_call"@)
                &&& told.text_at("status"@) == Some(status)
                &&& told.get("call_id"@) == calls[i].get("id"@)
                &&& told.get("name"@) == calls[i].get_in("function"@, "name"@)
                &&& told.get("arguments"@) == calls[i].get_in("function"@, "arguments"@)
            })
        }),
{
    lemma_message_words();
    reveal_strlit("");
    lemma_no_call_problem(calls, i);
    let output = response::output_items(message, shown, suffix, status);
    let items = response::call_items(calls, suffix, status);
    let told = items[i];
    assert(output[output.len() - calls.len() + i] == told);
    assert(told.get("type"@) == Some(JsonView::Text("function_call"@)));
    assert(told.get("status"@) == Some(JsonView::Text(status)));
    assert(told.get("call_id"@) == Some(
        JsonView::Text(chat_request::or_empty(calls[i].text_at("id"@))),
    ));
    assert(told.get("name"@) == Some(
        JsonView::Text(chat_request::or_empty(response::call_function(calls[i]).text_at("name"@))),
    ));
    assert(told.get("arguments"@) == Some(
        JsonView::Text(
            chat_request::or_empty(response::call_function(calls[i]).text_at("arguments"@)),
        ),
    ));
}

proof fn lemma_no_call_problem(calls: Seq<JsonView>, i: int)
    requires
        response::calls_problem(calls) is None,
        0 <= i < calls.len(),
    ensures
        response::call_problem(calls[i], i) is None,
    decreases calls.len(),
{
    if i < calls.len() - 1 {
        lemma_no_call_problem(calls.drop_last(), i);
    }
}

/// A call is told only where it has an identifier, a name and arguments.
pub proof fn law_calls_without_a_name_are_refused(calls: Seq<JsonView>, i: int)
    requires
        0 <= i < calls.len(),
        calls[i].text_at("id"@) is None || calls[i].text_at("id"@)->0.len() == 0
            || calls[i].get_in("function"@, "name"@) is None || calls[i].get_in(
            "function"@,
            "name"@,
        ) == Some(JsonView::Text(Seq::empty())) || calls[i].get_in("function"@, "arguments"@)
            is None,
    ensures
        response::calls_problem(calls) is Some,
{
    reveal_strlit("");
    if response::calls_problem(calls) is None {
        lemma_no_call_problem(calls, i);
    }
}

// ---------------------------------------------------------------------------
// What an answer repeats of its request
// ---------------------------------------------------------------------------

/// Whether a member of the request is repeated, or a value in its place where the
/// request has none.
pub open spec fn is_repeated(
    body: JsonView,
    answer: JsonView,
    key: Seq<char>,
    otherwise: JsonView,
) -> bool {
    answer.get(key) == if body.has(key) {
        body.get(key)
    } else {
        Some(otherwise)
    }
}

/// An answer repeats the settings of its request, and keeps what it says of
/// itself.
pub proof fn law_settings_are_repeated(body: JsonView, answer: JsonView)
    requires
        answer is Object,
    ensures
        ({
            let told = answer.merged(response::request_metadata(body));
            &&& is_repeated(body, told, "instructions"@, JsonView::Null)
            &&& is_repeated(body, told, "metadata"@, json::empty_object())
            &&& is_repeated(body, told, "parallel_tool_calls"@, JsonView::Bool(true))
            &&& is_repeated(body, told, "tool_choice"@, JsonView::Text("auto"@))
            &&& is_repeated(body, told, "tools"@, JsonView::Array(Seq::empty()))
            &&& is_repeated(body, told, "temperature"@, JsonView::Null)
            &&& is_repeated(body, told, "top_p"@, JsonView::Null)
            &&& is_repeated(body, told, "max_output_tokens"@, JsonView::Null)
            &&& is_repeated(body, told, "store"@, JsonView::Bool(true))
            &&& is_repeated(body, told, "truncation"@, JsonView::Text("disabled"@))
            &&& is_repeated(body, told, "user"@, JsonView::Null)
            &&& body.has("reasoning"@) ==> told.get("reasoning"@) == body.get("reasoning"@)
            &&& body.has("text"@) ==> told.get("text"@) == body.get("text"@)
            &&& told.get("id"@) == answer.get("id"@)
            &&& told.get("status"@) == answer.get("status"@)
            &&& told.get("model"@) == answer.get("model"@)
            &&& told.get("output"@) == answer.get("output"@)
            &&& told.get("usage"@) == answer.get("usage"@)
            &&& told.get("error"@) == answer.get("error"@)
            &&& told.get("created_at"@) == answer.get("created_at"@)
            &&& told.get("output_text"@) == answer.get("output_text"@)
            &&& told.get("incomplete_details"@) == answer.get("incomplete_details"@)
        }),
{
    lemma_answer_words();
    let repeated = response::request_metadata(body);
    lemma_repeated(body);
    let told = answer.merged(repeated);
    assert(forall|key: Seq<char>| repeated.has(key) ==> #[trigger] told.get(key) == repeated.get(key));
    assert(forall|key: Seq<char>| !repeated.has(key) ==> #[trigger] told.get(key) == answer.get(key));
}

proof fn lemma_repeated(body: JsonView)
    ensures
        ({
            let told = response::request_metadata(body);
            &&& is_repeated(body, told, "instructions"@, JsonView::Null)
            &&& is_repeated(body, told, "metadata"@, json::empty_object())
            &&& is_repeated(body, told, "parallel_tool_calls"@, JsonView::Bool(true))
            &&& is_repeated(body, told, "tool_choice"@, JsonView::Text("auto"@))
            &&& is_repeated(body, told, "tools"@, JsonView::Array(Seq::empty()))
            &&& is_repeated(body, told, "temperature"@, JsonView::Null)
            &&& is_repeated(body, told, "top_p"@, JsonView::Null)
            &&& is_repeated(body, told, "max_output_tokens"@, JsonView::Null)
            &&& is_repeated(body, told, "store"@, JsonView::Bool(true))
            &&& is_repeated(body, told, "truncation"@, JsonView::Text("disabled"@))
            &&& is_repeated(body, told, "user"@, JsonView::Null)
            &&& body.has("reasoning"@) ==> told.get("reasoning"@) == body.get("reasoning"@)
            &&& body.has("text"@) ==> told.get("text"@) == body.get("text"@)
            &&& told.has("reasoning"@) && told.has("text"@)
            &&& forall|key: Seq<char>| #[trigger]
                told.has(key) ==> key == "instructions"@ || key == "metadata"@ || key
                    == "parallel_tool_calls"@ || key == "tool_choice"@ || key == "tools"@ || key
                    == "temperature"@ || key == "top_p"@ || key == "max_output_tokens"@ || key
                    == "store"@ || key == "truncation"@ || key == "user"@ || key == "reasoning"@
                    || key == "text"@
        }),
{
    lemma_answer_words();
}

/// The answer that ends a stream repeats its request and says of itself what the
/// stream told: its identifier, its model, its usage, and that there was no error.
pub proof fn law_last_answer_of_a_stream(state: TranslatorView, ending: Ending, body: JsonView)
    requires
        state.metadata == response::request_metadata(body),
    ensures
        stream_end::final_document(state, ending).text_at("type"@) == Some(
            stream_end::final_kind(ending),
        ),
        stream_end::final_document(state, ending).get("response"@) matches Some(answer) && {
            &&& answer.text_at("id"@) == Some(state.response_id)
            &&& answer.text_at("object"@) == Some("response"@)
            &&& answer.text_at("model"@) == Some(state.model)
            &&& answer.text_at("status"@) == Some(ending.status())
            &&& answer.get("created_at"@) == Some(json::signed_view(state.created_at))
            &&& answer.get("usage"@) == Some(stream_end::final_usage(state.usage))
            &&& answer.get("error"@) == Some(JsonView::Null)
            &&& answer.get("incomplete_details"@) == Some(ending.details())
            &&& answer.array_at("output"@) == Some(stream_end::final_output(state, ending))
            &&& is_repeated(body, answer, "instructions"@, JsonView::Null)
            &&& is_repeated(body, answer, "metadata"@, json::empty_object())
            &&& is_repeated(body, answer, "tools"@, JsonView::Array(Seq::empty()))
            &&& is_repeated(body, answer, "tool_choice"@, JsonView::Text("auto"@))
            &&& is_repeated(body, answer, "store"@, JsonView::Bool(true))
            &&& is_repeated(body, answer, "temperature"@, JsonView::Null)
        },
{
    lemma_answer_words();
    let plain = json::empty_object().with("id"@, JsonView::Text(state.response_id)).with(
        "object"@,
        JsonView::Text("response"@),
    ).with("created_at"@, json::signed_view(state.created_at)).with(
        "status"@,
        JsonView::Text(ending.status()),
    ).with("model"@, JsonView::Text(state.model)).with(
        "output"@,
        JsonView::Array(stream_end::final_output(state, ending)),
    ).with("usage"@, stream_end::final_usage(state.usage)).with(
        "parallel_tool_calls"@,
        JsonView::Bool(true),
    ).with("tool_choice"@, JsonView::Text("auto"@)).with("tools"@, response::empty_array()).with(
        "instructions"@,
        JsonView::Null,
    ).with("error"@, JsonView::Null);
    assert(plain.get("id"@) == Some(JsonView::Text(state.response_id)));
    assert(plain.get("object"@) == Some(JsonView::Text("response"@)));
    assert(plain.get("created_at"@) == Some(json::signed_view(state.created_at)));
    assert(plain.get("status"@) == Some(JsonView::Text(ending.status())));
    assert(plain.get("model"@) == Some(JsonView::Text(state.model)));
    assert(plain.get("usage"@) == Some(stream_end::final_usage(state.usage)));
    assert(plain.get("error"@) == Some(JsonView::Null));
    assert(plain.get("output"@) == Some(
        JsonView::Array(stream_end::final_output(state, ending)),
    ));
    law_settings_are_repeated(body, plain);
    lemma_repeated(body);
    let merged = plain.merged(state.metadata);
    assert(!state.metadata.has("object"@));
    assert(merged.get("object"@) == plain.get("object"@));
    let answer = merged.with("incomplete_details"@, ending.details());
    assert(forall|key: Seq<char>|
        key != "incomplete_details"@ ==> #[trigger] answer.get(key) == merged.get(key));
    let document = stream_end::final_document(state, ending);
    assert(document.get("response"@) == Some(answer));
    assert(document.get("type"@) == Some(JsonView::Text(stream_end::final_kind(ending))));
}

/// The answer that a stream begins with says under which identifier and by which
/// model it is made, and holds no output yet.
pub proof fn law_first_answer_of_a_stream(
    state: TranslatorView,
    kind: Seq<char>,
    status: Seq<char>,
    body: JsonView,
)
    requires
        state.metadata == response::request_metadata(body),
    ensures
        stream::stub_document(state, kind, status).text_at("type"@) == Some(kind),
        stream::stub_document(state, kind, status).get("response"@) matches Some(answer) && {
            &&& answer.text_at("id"@) == Some(state.response_id)
            &&& answer.text_at("object"@) == Some("response"@)
            &&& answer.text_at("model"@) == Some(state.model)
            &&& answer.text_at("status"@) == Some(status)
            &&& answer.get("created_at"@) == Some(json::signed_view(state.created_at))
            &&& answer.get("usage"@) == Some(JsonView::Null)
            &&& answer.get("error"@) == Some(JsonView::Null)
            &&& answer.array_at("output"@) == Some(Seq::<JsonView>::empty())
            &&& is_repeated(body, answer, "instructions"@, JsonView::Null)
            &&& is_repeated(body, answer, "metadata"@, json::empty_object())
            &&& is_repeated(body, answer, "tools"@, JsonView::Array(Seq::empty()))
        },
{
    lemma_answer_words();
    lemma_stub(state, status, body);
    let document = stream::stub_document(state, kind, status);
    assert(document.get("response"@) == Some(stream::stub_response(state, status)));
    assert(document.get("type"@) == Some(JsonView::Text(kind)));
}

proof fn lemma_stub(state: TranslatorView, status: Seq<char>, body: JsonView)
    requires
        state.metadata == response::request_metadata(body),
    ensures
        ({
            let answer = stream::stub_response(state, status);
            &&& answer is Object
            &&& answer.text_at("id"@) == Some(state.response_id)
            &&& answer.text_at("object"@) == Some("response"@)
            &&& answer.text_at("model"@) == Some(state.model)
            &&& answer.text_at("status"@) == Some(status)
            &&& answer.get("created_at"@) == Some(json::signed_view(state.created_at))
            &&& answer.get("usage"@) == Some(JsonView::Null)
            &&& answer.get("error"@) == Some(JsonView::Null)
            &&& answer.array_at("output"@) == Some(Seq::<JsonView>::empty())
            &&& is_repeated(body, answer, "instructions"@, JsonView::Null)
            &&& is_repeated(body, answer, "metadata"@, json::empty_object())
            &&& is_repeated(body, answer, "tools"@, JsonView::Array(Seq::empty()))
        }),
{
    lemma_answer_words();
    let plain = json::empty_object().with("id"@, JsonView::Text(state.response_id)).with(
        "object"@,
        JsonView::Text("response"@),
    ).with("created_at"@, json::signed_view(state.created_at)).with(
        "status"@,
        JsonView::Text(status),
    ).with("model"@, JsonView::Text(state.model)).with("output"@, response::empty_array()).with(
        "usage"@,
        JsonView::Null,
    ).with("error"@, JsonView::Null).with("incomplete_details"@, JsonView::Null).with(
        "instructions"@,
        JsonView::Null,
    ).with("parallel_tool_calls"@, JsonView::Bool(true)).with(
        "tool_choice"@,
        JsonView::Text("auto"@),
    ).with("tools"@, response::empty_array());
    assert(plain.get("id"@) == Some(JsonView::Text(state.response_id)));
    assert(plain.get("object"@) == Some(JsonView::Text("response"@)));
    assert(plain.get("created_at"@) == Some(json::signed_view(state.created_at)));
    assert(plain.get("status"@) == Some(JsonView::Text(status)));
    assert(plain.get("model"@) == Some(JsonView::Text(state.model)));
    assert(plain.get("usage"@) == Some(JsonView::Null));
    assert(plain.get("error"@) == Some(JsonView::Null));
    assert(plain.get("output"@) == Some(response::empty_array()));
    law_settings_are_repeated(body, plain);
    lemma_repeated(body);
    assert(!state.metadata.has("object"@));
    assert(plain.merged(state.metadata).get("object"@) == plain.get("object"@));
}

/// A stream that fails says so once, with the message, under the identifier of its
/// answer.
pub proof fn law_failure_is_told(flow: Flow, message: Seq<char>, body: JsonView)
    requires
        !flow.state.has_failed_event,
        flow.state.metadata == response::request_metadata(body),
    ensures
        ({
            let after = flow.fail(message);
            &&& after.state.has_failed_event
            &&& after.out.len() == flow.out.len() + 1
            &&& after.out.drop_last() == flow.out
            &&& after.out.last().kind == "response.failed"@
            &&& after.out.last().payload matches PayloadView::Document(document)
            &&& document.text_at("type"@) == Some("response.failed"@)
            &&& document.u64_at("sequence_number"@) == Some(flow.state.sequence as u64)
            &&& document.get("response"@) matches Some(answer)
            &&& answer.text_at("id"@) == Some(flow.state.response_id)
            &&& answer.text_at("status"@) == Some("failed"@)
            &&& answer.text_at("model"@) == Some(flow.state.model)
            &&& answer.get_in("error"@, "message"@) == Some(JsonView::Text(message))
            &&& answer.get_in("error"@, "code"@) == Some(JsonView::Text("server_error"@))
            &&& after.fail(message) == after
        }),
{
    lemma_answer_words();
    lemma_stub(flow.state, "failed"@, body);
    let after = flow.fail(message);
    assert(after.out.drop_last() =~= flow.out);
    let stub = stream::stub_response(flow.state, "failed"@);
    let error = json::empty_object().with("code"@, JsonView::Text("server_error"@)).with(
        "message"@,
        JsonView::Text(message),
    );
    assert(error.get("code"@) == Some(JsonView::Text("server_error"@)));
    assert(error.get("message"@) == Some(JsonView::Text(message)));
    let answer = stub.with("error"@, error).with("incomplete_details"@, JsonView::Null);
    assert(answer.get("error"@) == Some(error));
    assert(answer.get("id"@) == stub.get("id"@));
    assert(answer.get("status"@) == stub.get("status"@));
    assert(answer.get("model"@) == stub.get("model"@));
    let document = stream::failure_document(flow.state, message);
    assert(document.get("response"@) == Some(answer));
    assert(document.get("type"@) == Some(JsonView::Text("response.failed"@)));
    let told = document.with(
        "sequence_number"@,
        json::unsigned_view(flow.state.sequence as u64),
    );
    assert(told.get("response"@) == document.get("response"@));
    assert(told.get("type"@) == document.get("type"@));
}

/// An event keeps what its document says, and adds its number.
pub proof fn law_events_say_their_documents(
    kind: Seq<char>,
    document: JsonView,
    sequence: u32,
    key: Seq<char>,
)
    requires
        document is Object,
        key != "sequence_number"@,
    ensures
        events::numbered_event(kind, document, sequence).payload matches PayloadView::Document(
            said,
        ) && said.get(key) == document.get(key) && said.u64_at("sequence_number"@) == Some(
            sequence as u64,
        ),
        events::numbered_event(kind, document, sequence).kind == kind,
{
}

/// What is written of a piece of text holds its type, its item, and the piece, in
/// quotes.
pub proof fn law_pieces_are_written(event: EventView)
    ensures
        event.payload matches PayloadView::TextDelta { item_id, delta, .. } ==> {
            &&& text::finishes_with(
                event.data(),
                ",\"delta\":"@ + events::quoted(delta) + ",\"logprobs\":[]}"@,
            )
            &&& text::begins_with(
                event.data(),
                "{\"type\":\""@ + event.kind + "\",\"item_id\":\""@ + item_id + "\""@,
            )
        },
        event.payload matches PayloadView::ArgumentsDelta { item_id, delta, .. } ==> {
            &&& text::finishes_with(event.data(), ",\"delta\":"@ + events::quoted(delta) + "}"@)
            &&& text::begins_with(
                event.data(),
                "{\"type\":\""@ + event.kind + "\",\"item_id\":\""@ + item_id + "\""@,
            )
        },
{
    let data = event.data();
    reveal_strlit("\"");
    reveal_strlit("\",\"output_index\":");
    match event.payload {
        PayloadView::TextDelta { item_id, delta, .. } => {
            let end = ",\"delta\":"@ + events::quoted(delta) + ",\"logprobs\":[]}"@;
            assert(data.skip(data.len() - end.len()) =~= end);
            let start = "{\"type\":\""@ + event.kind + "\",\"item_id\":\""@ + item_id + "\""@;
            assert(data.take(start.len() as int) =~= start);
        },
        PayloadView::ArgumentsDelta { item_id, delta, .. } => {
            let end = ",\"delta\":"@ + events::quoted(delta) + "}"@;
            assert(data.skip(data.len() - end.len()) =~= end);
            let start = "{\"type\":\""@ + event.kind + "\",\"item_id\":\""@ + item_id + "\""@;
            assert(data.take(start.len() as int) =~= start);
        },
        _ => {},
    }
}

// ---------------------------------------------------------------------------
// A completion as one chunk
// ---------------------------------------------------------------------------

/// A completion that came at once is taken as one chunk that says the same: its
/// model, its usage, why it ended, and all that its message holds.
pub proof fn law_completion_is_one_chunk(
    completion: JsonView,
    choices: Seq<JsonView>,
    message: JsonView,
    key: Seq<char>,
)
    requires
        completion.array_at("choices"@) == Some(choices),
        choices.len() > 0,
        choices[0].get("message"@) == Some(message),
        key == "content"@ || key == "parsed"@ || key == "refusal"@ || key == "reasoning_content"@
            || key == "reasoning"@ || key == "analysis"@ || key == "reasoning_details"@,
    ensures
        ({
            let chunk = completion::whole_chunk(completion);
            &&& chunk.get("model"@) == completion.get("model"@)
            &&& chunk.get("usage"@) == completion.get("usage"@)
            &&& chunk.array_at("choices"@) matches Some(told)
            &&& told.len() == 1
            &&& told[0].get("finish_reason"@) == choices[0].get("finish_reason"@)
            &&& told[0].get("delta"@) matches Some(delta)
            &&& delta.text_at("role"@) == Some("assistant"@)
            &&& message.get(key) matches Some(value) ==> (!(value is Null) ==> delta.get(key)
                == Some(value))
            &&& !message.has(key) ==> !delta.has(key)
            &&& message.array_at("tool_calls"@) matches Some(calls) ==> (delta.array_at(
                "tool_calls"@,
            ) matches Some(given) && given.len() == calls.len())
            &&& delta.get("function_call"@) == message.get("function_call"@)
        }),
{
    lemma_message_words();
    let start = json::empty_object().with("role"@, JsonView::Text("assistant"@));
    assert(start.get("role"@) == Some(JsonView::Text("assistant"@)));
    let a = chat_request::with_value_of(start, message, "content"@);
    let b = chat_request::with_value_of(a, message, "parsed"@);
    let c = chat_request::with_value_of(b, message, "refusal"@);
    let d = chat_request::with_value_of(c, message, "reasoning_content"@);
    let e = chat_request::with_value_of(d, message, "reasoning"@);
    let f = chat_request::with_value_of(e, message, "analysis"@);
    let g = chat_request::with_value_of(f, message, "reasoning_details"@);
    lemma_added(start, message, "content"@);
    lemma_added(a, message, "parsed"@);
    lemma_added(b, message, "refusal"@);
    lemma_added(c, message, "reasoning_content"@);
    lemma_added(d, message, "reasoning"@);
    lemma_added(e, message, "analysis"@);
    lemma_added(f, message, "reasoning_details"@);
    assert(g.get("role"@) == start.get("role"@));
    assert(!start.has(key));
    assert(!g.has("function_call"@) && !g.has("tool_calls"@));
    assert(message.get(key) matches Some(value) ==> (!(value is Null) ==> g.get(key) == Some(
        value,
    )));
    assert(!message.has(key) ==> !g.has(key));
    let delta = completion::whole_delta(message);
    assert(forall|other: Seq<char>|
        other != "tool_calls"@ && other != "function_call"@ ==> #[trigger] delta.get(other) == g.get(
            other,
        ));
    assert(delta.get("role"@) == g.get("role"@));
    assert(delta.get(key) == g.get(key));
    assert(delta.get("function_call"@) == message.get("function_call"@));
    let choice = completion::whole_choice(completion);
    assert(completion::completion_message(completion) == message);
    assert(choice.get("delta"@) == Some(delta));
    assert(choice.get("finish_reason"@) == choices[0].get("finish_reason"@));
}

proof fn lemma_added(object: JsonView, message: JsonView, key: Seq<char>)
    requires
        object is Object,
    ensures
        ({
            let after = chat_request::with_value_of(object, message, key);
            &&& after is Object
            &&& forall|other: Seq<char>|
                other != key ==> #[trigger] after.get(other) == object.get(other)
            &&& message.get(key) matches Some(value) ==> (!(value is Null) ==> after.get(key)
                == Some(value))
            &&& !message.has(key) ==> after.get(key) == object.get(key)
        }),
{
}

// ---------------------------------------------------------------------------
// Texts
// ---------------------------------------------------------------------------

/// The text of content that comes in parts is that of its parts, one after the
/// other; a part is a text, or holds one.
pub proof fn law_parts_are_read_one_after_the_other(
    parts: Seq<JsonView>,
    part: JsonView,
    said: Seq<char>,
)
    requires
        part == JsonView::Text(said) || part.text_at("text"@) == Some(said),
    ensures
        content::parts_text(parts.push(part)) == content::parts_text(parts) + said,
        content::parts_text(parts.push(part)).len() > 0 ==> content::content_text(
            JsonView::Array(parts.push(part)),
        ) == Some(content::parts_text(parts) + said),
        content::parts_text(Seq::empty()) == Seq::<char>::empty(),
{
    assert(parts.push(part).drop_last() =~= parts);
    assert(parts.push(part).last() == part);
    assert(content::part_text(part) == said);
}

/// The reasoning of a message is found under the first of its names that holds any.
pub proof fn law_reasoning_is_found(message: JsonView, thought: Seq<char>)
    requires
        !text::blank(thought),
    ensures
        message.text_at("reasoning_content"@) == Some(thought) ==> content::reasoning_text(message)
            == Some(thought),
        !message.has("reasoning_content"@) && message.text_at("reasoning"@) == Some(thought)
            ==> content::reasoning_text(message) == Some(thought),
        !message.has("reasoning_content"@) && !message.has("reasoning"@) && message.text_at(
            "analysis"@,
        ) == Some(thought) ==> content::reasoning_text(message) == Some(thought),
        !message.has("reasoning_content"@) && !message.has("reasoning"@) && !message.has(
            "analysis"@,
        ) && message.text_at("reasoning_details"@) == Some(thought) ==> content::reasoning_text(
            message,
        ) == Some(thought),
        !message.has("reasoning_content"@) && !message.has("reasoning"@) && !message.has(
            "analysis"@,
        ) && !message.has("reasoning_details"@) ==> content::reasoning_text(message) is None,
{
}

/// Structured output is the document that the text holds, written without white
/// space, where it is an object that meets the schema; without a schema every
/// object will do.
pub proof fn law_objects_are_structured_output(
    said: Seq<char>,
    document: JsonView,
    schema: JsonView,
)
    requires
        json::parsed_text(said) == Some(document),
        document is Object,
    ensures
        content::structured_text(said, None) == json::compact_text(document),
        json::schema_verdict(schema, document) == Some(true) ==> content::structured_text(
            said,
            Some(schema),
        ) == json::compact_text(document),
        json::schema_verdict(schema, document) != Some(true) ==> content::structured_text(
            said,
            Some(schema),
        ) is None,
{
}

// ---------------------------------------------------------------------------
// Answers that cannot be told
// ---------------------------------------------------------------------------

/// An answer that reports an error is told as that error, in its words.
pub proof fn law_reported_errors_are_told(
    chat: JsonView,
    error: JsonView,
    message: Seq<char>,
    structured: bool,
    schema: Option<JsonView>,
)
    requires
        chat.get("error"@) == Some(error),
        error.text_at("message"@) == Some(message),
    ensures
        response::answer_problem(chat, structured, schema) == Some(message),
{
}

/// An answer without an error, with a message, a known reason and complete calls is
/// told.
pub proof fn law_sound_answers_are_told(
    chat: JsonView,
    choices: Seq<JsonView>,
    message: JsonView,
    reason: Seq<char>,
)
    requires
        !chat.has("error"@),
        chat.array_at("choices"@) == Some(choices),
        choices.len() > 0,
        choices[0].get("message"@) == Some(message),
        message is Object,
        !message.has("function_call"@),
        choices[0].text_at("finish_reason"@) == Some(reason),
        reason == "stop"@ || reason == "tool_calls"@ || reason == "function_call"@ || reason
            == "length"@ || reason == "content_filter"@,
        response::calls_problem(response::message_calls(message)) is None,
    ensures
        response::answer_problem(chat, false, None) is None,
{
}

/// An answer without choices, without a message, or without a known reason is not
/// told.
pub proof fn law_unsound_answers_are_refused(
    chat: JsonView,
    structured: bool,
    schema: Option<JsonView>,
)
    requires
        response::answer_problem(chat, structured, schema) is None,
    ensures
        !chat.has("error"@),
        chat.array_at("choices"@) matches Some(choices) && choices.len() > 0 && {
            &&& choices[0].get("message"@) matches Some(message)
            &&& message is Object
            &&& !message.has("function_call"@)
            &&& choices[0].text_at("finish_reason"@) matches Some(reason)
            &&& reason == "stop"@ || reason == "tool_calls"@ || reason == "function_call"@ || reason
                == "length"@ || reason == "content_filter"@
        },
{
}

/// The text of an answer that is not structured is its content, or else what was
/// parsed; that of a structured one is the document that its content is or holds.
pub proof fn law_text_of_an_answer(message: JsonView, said: Seq<char>, document: JsonView)
    requires
        !text::blank(said),
    ensures
        message.text_at("content"@) == Some(said) ==> content::output_text(message, false) == said
            && content::output_text(message, true) == said,
        !message.has("content"@) && message.text_at("parsed"@) == Some(said)
            ==> content::output_text(message, false) == said && content::output_text(message, true)
            == said,
        message.get("content"@) == Some(document) && document is Object && json::compact_text(
            document,
        ) == Some(said) ==> content::output_text(message, true) == said,
        !message.has("content"@) && !message.has("parsed"@) ==> content::output_text(
            message,
            false,
        ).len() == 0,
{
    lemma_message_words();
}

/// What a request leaves open of its reasoning and of its text is told as what
/// holds then: no effort, no summary, and plain text.
pub proof fn law_open_settings_are_told(body: JsonView)
    requires
        !body.has("reasoning"@),
        !body.has("text"@),
    ensures
        ({
            let told = response::request_metadata(body);
            &&& told.get_in("reasoning"@, "effort"@) == Some(JsonView::Null)
            &&& told.get_in("reasoning"@, "summary"@) == Some(JsonView::Null)
            &&& told.get("text"@) matches Some(format)
            &&& format.get_in("format"@, "type"@) == Some(JsonView::Text("text"@))
        }),
{
    lemma_answer_words();
    reveal_strlit("effort");
    reveal_strlit("summary");
    reveal_strlit("format");
    assert("effort"@.len() == 6 && "summary"@.len() == 7 && "format"@.len() == 6);
    let reasoning = response::default_reasoning();
    assert(reasoning.get("effort"@) == Some(JsonView::Null));
    assert(reasoning.get("summary"@) == Some(JsonView::Null));
    let told = response::request_metadata(body);
    assert(told.get("reasoning"@) == Some(reasoning));
    assert(told.get("text"@) == Some(response::default_format()));
}

/// The items of an answer that has ended say how it ended, and each says what it is:
/// the message under its identifier, a call under its own and that of the call, with
/// its name and its arguments.
pub proof fn law_items_say_how_the_answer_ended(
    state: TranslatorView,
    call: CallView,
    ending: Ending,
)
    ensures
        ({
            let item = stream_end::final_message(state, ending);
            &&& item.text_at("type"@) == Some("message"@)
            &&& item.text_at("id"@) == Some(state.msg_item_id)
            &&& item.text_at("status"@) == Some(ending.status())
            &&& item.text_at("role"@) == Some("assistant"@)
        }),
        ({
            let item = stream_end::final_call(call, ending);
            &&& item.text_at("type"@) == Some("function_call"@)
            &&& item.text_at("id"@) == Some(call.item_id)
            &&& item.text_at("status"@) == Some(ending.status())
            &&& item.text_at("call_id"@) == Some(call.id)
            &&& item.text_at("name"@) == Some(call.name)
            &&& item.text_at("arguments"@) == Some(call.arguments)
        }),
{
    lemma_message_words();
    let message = stream_end::final_message(state, ending);
    assert(message.get("type"@) == Some(JsonView::Text("message"@)));
    assert(message.get("id"@) == Some(JsonView::Text(state.msg_item_id)));
    assert(message.get("status"@) == Some(JsonView::Text(ending.status())));
    assert(message.get("role"@) == Some(JsonView::Text("assistant"@)));
    let item = stream_end::final_call(call, ending);
    assert(item.get("type"@) == Some(JsonView::Text("function_call"@)));
    assert(item.get("id"@) == Some(JsonView::Text(call.item_id)));
    assert(item.get("status"@) == Some(JsonView::Text(ending.status())));
    assert(item.get("call_id"@) == Some(JsonView::Text(call.id)));
    assert(item.get("name"@) == Some(JsonView::Text(call.name)));
    assert(item.get("arguments"@) == Some(JsonView::Text(call.arguments)));
}

/// The text of content that is an object is that under its name, or else that of
/// its content; an object without either is told as it is written.
pub proof fn law_objects_are_read(document: JsonView, said: Seq<char>)
    requires
        document is Object,
    ensures
        document.text_at("text"@) == Some(said) ==> content::content_text(document) == Some(said),
        !document.has("text"@) && document.text_at("content"@) == Some(said)
            ==> content::content_text(document) == Some(said),
        !document.has("text"@) && !document.has("content"@) ==> content::content_text(document)
            == json::compact_text(document),
        content::content_text(JsonView::Text(said)) == Some(said),
        content::content_text(JsonView::Null) is None,
{
    lemma_message_words();
}

} // verus!
