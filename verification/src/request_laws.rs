//! What a request says once it is put in the terms of Chat Completions, member by
//! member.

use crate::chat_request;
use crate::chat_request::InputView;
use crate::content;
use crate::json;
use crate::json::JsonView;
use crate::message_laws;
use crate::message_laws::{calls_of, with_role};
use crate::reasoning::EntryView;
use crate::request;
use crate::text;
use vstd::prelude::*;

verus! {

proof fn lemma_call_words()
    ensures
        "id"@.len() == 2,
        "type"@.len() == 4,
        "function"@.len() == 8,
        "name"@.len() == 4,
        "arguments"@.len() == 9,
        "call_id"@.len() == 7,
        "tool_calls"@.len() == 10,
        "role"@.len() == 4,
        "content"@.len() == 7,
        "tool_call_id"@.len() == 12,
        "output"@.len() == 6,
        "text"@.len() == 4,
        "image_url"@.len() == 9,
        "url"@.len() == 3,
        "detail"@.len() == 6,
        "refusal"@.len() == 7,
        "input_text"@.len() == 10,
        "output_text"@.len() == 11,
        "input_image"@.len() == 11,
        "function_call"@.len() == 13,
        "function_call_output"@.len() == 20,
        "message"@.len() == 7,
        "reasoning_content"@.len() == 17,
        "user"@.len() == 4,
        "assistant"@.len() == 9,
        "system"@.len() == 6,
        "developer"@.len() == 9,
        "tool"@.len() == 4,
        "reasoning"@.len() == 9,
        "description"@.len() == 11,
        "parameters"@.len() == 10,
        "strict"@.len() == 6,
        "type"@ != "name"@,
        "type"@ != "role"@,
        "type"@ != "text"@,
        "type"@ != "user"@,
        "type"@ != "tool"@,
        "name"@ != "role"@,
        "name"@ != "text"@,
        "name"@ != "user"@,
        "name"@ != "tool"@,
        "arguments"@ != "image_url"@,
        "arguments"@ != "assistant"@,
        "arguments"@ != "developer"@,
        "arguments"@ != "reasoning"@,
        "call_id"@ != "content"@,
        "call_id"@ != "refusal"@,
        "call_id"@ != "message"@,
        "tool_calls"@ != "input_text"@,
        "tool_calls"@ != "parameters"@,
        "role"@ != "text"@,
        "role"@ != "user"@,
        "role"@ != "tool"@,
        "content"@ != "refusal"@,
        "content"@ != "message"@,
        "output"@ != "detail"@,
        "output"@ != "system"@,
        "output"@ != "strict"@,
        "text"@ != "user"@,
        "text"@ != "tool"@,
        "image_url"@ != "assistant"@,
        "image_url"@ != "developer"@,
        "image_url"@ != "reasoning"@,
        "detail"@ != "system"@,
        "detail"@ != "strict"@,
        "refusal"@ != "message"@,
        "input_text"@ != "parameters"@,
        "output_text"@ != "input_image"@,
        "output_text"@ != "description"@,
        "input_image"@ != "description"@,
        "user"@ != "tool"@,
        "assistant"@ != "developer"@,
        "assistant"@ != "reasoning"@,
        "system"@ != "strict"@,
        "developer"@ != "reasoning"@,
{
    reveal_strlit("id");
    reveal_strlit("type");
    reveal_strlit("function");
    reveal_strlit("name");
    reveal_strlit("arguments");
    reveal_strlit("call_id");
    reveal_strlit("tool_calls");
    reveal_strlit("role");
    reveal_strlit("content");
    reveal_strlit("tool_call_id");
    reveal_strlit("output");
    reveal_strlit("text");
    reveal_strlit("image_url");
    reveal_strlit("url");
    reveal_strlit("detail");
    reveal_strlit("refusal");
    reveal_strlit("input_text");
    reveal_strlit("output_text");
    reveal_strlit("input_image");
    reveal_strlit("function_call");
    reveal_strlit("function_call_output");
    reveal_strlit("message");
    reveal_strlit("reasoning_content");
    reveal_strlit("user");
    reveal_strlit("assistant");
    reveal_strlit("system");
    reveal_strlit("developer");
    reveal_strlit("tool");
    reveal_strlit("reasoning");
    reveal_strlit("description");
    reveal_strlit("parameters");
    reveal_strlit("strict");
    assert("type"@[0] != "name"@[0]);
    assert("type"@[0] != "role"@[0]);
    assert("type"@[1] != "text"@[1]);
    assert("type"@[0] != "user"@[0]);
    assert("type"@[1] != "tool"@[1]);
    assert("name"@[0] != "role"@[0]);
    assert("name"@[0] != "text"@[0]);
    assert("name"@[0] != "user"@[0]);
    assert("name"@[0] != "tool"@[0]);
    assert("arguments"@[0] != "image_url"@[0]);
    assert("arguments"@[1] != "assistant"@[1]);
    assert("arguments"@[0] != "developer"@[0]);
    assert("arguments"@[0] != "reasoning"@[0]);
    assert("call_id"@[1] != "content"@[1]);
    assert("call_id"@[0] != "refusal"@[0]);
    assert("call_id"@[0] != "message"@[0]);
    assert("tool_calls"@[0] != "input_text"@[0]);
    assert("tool_calls"@[0] != "parameters"@[0]);
    assert("role"@[0] != "text"@[0]);
    assert("role"@[0] != "user"@[0]);
    assert("role"@[0] != "tool"@[0]);
    assert("content"@[0] != "refusal"@[0]);
    assert("content"@[0] != "message"@[0]);
    assert("output"@[0] != "detail"@[0]);
    assert("output"@[0] != "system"@[0]);
    assert("output"@[0] != "strict"@[0]);
    assert("text"@[0] != "user"@[0]);
    assert("text"@[1] != "tool"@[1]);
    assert("image_url"@[0] != "assistant"@[0]);
    assert("image_url"@[0] != "developer"@[0]);
    assert("image_url"@[0] != "reasoning"@[0]);
    assert("detail"@[0] != "system"@[0]);
    assert("detail"@[0] != "strict"@[0]);
    assert("refusal"@[0] != "message"@[0]);
    assert("input_text"@[0] != "parameters"@[0]);
    assert("output_text"@[0] != "input_image"@[0]);
    assert("output_text"@[0] != "description"@[0]);
    assert("input_image"@[0] != "description"@[0]);
    assert("user"@[0] != "tool"@[0]);
    assert("assistant"@[0] != "developer"@[0]);
    assert("assistant"@[0] != "reasoning"@[0]);
    assert("system"@[1] != "strict"@[1]);
    assert("developer"@[0] != "reasoning"@[0]);
}

proof fn lemma_body_words()
    ensures
        "model"@.len() == 5,
        "messages"@.len() == 8,
        "stream"@.len() == 6,
        "stream_options"@.len() == 14,
        "include_usage"@.len() == 13,
        "tools"@.len() == 5,
        "tool_choice"@.len() == 11,
        "parallel_tool_calls"@.len() == 19,
        "max_completion_tokens"@.len() == 21,
        "max_output_tokens"@.len() == 17,
        "temperature"@.len() == 11,
        "top_p"@.len() == 5,
        "store"@.len() == 5,
        "metadata"@.len() == 8,
        "user"@.len() == 4,
        "response_format"@.len() == 15,
        "json_schema"@.len() == 11,
        "json_object"@.len() == 11,
        "schema"@.len() == 6,
        "reasoning_effort"@.len() == 16,
        "reasoning"@.len() == 9,
        "effort"@.len() == 6,
        "text"@.len() == 4,
        "format"@.len() == 6,
        "input"@.len() == 5,
        "instructions"@.len() == 12,
        "name"@.len() == 4,
        "strict"@.len() == 6,
        "description"@.len() == 11,
        "type"@.len() == 4,
        "auto"@.len() == 4,
        "function"@.len() == 8,
        "model"@ != "tools"@,
        "model"@ != "top_p"@,
        "model"@ != "store"@,
        "model"@ != "input"@,
        "messages"@ != "metadata"@,
        "messages"@ != "function"@,
        "stream"@ != "schema"@,
        "stream"@ != "effort"@,
        "stream"@ != "format"@,
        "stream"@ != "strict"@,
        "tools"@ != "top_p"@,
        "tools"@ != "store"@,
        "tools"@ != "input"@,
        "tool_choice"@ != "temperature"@,
        "tool_choice"@ != "json_schema"@,
        "tool_choice"@ != "json_object"@,
        "tool_choice"@ != "description"@,
        "temperature"@ != "json_schema"@,
        "temperature"@ != "json_object"@,
        "temperature"@ != "description"@,
        "top_p"@ != "store"@,
        "top_p"@ != "input"@,
        "store"@ != "input"@,
        "metadata"@ != "function"@,
        "user"@ != "text"@,
        "user"@ != "name"@,
        "user"@ != "type"@,
        "user"@ != "auto"@,
        "json_schema"@ != "json_object"@,
        "json_schema"@ != "description"@,
        "json_object"@ != "description"@,
        "schema"@ != "effort"@,
        "schema"@ != "format"@,
        "schema"@ != "strict"@,
        "effort"@ != "format"@,
        "effort"@ != "strict"@,
        "text"@ != "name"@,
        "text"@ != "type"@,
        "text"@ != "auto"@,
        "format"@ != "strict"@,
        "name"@ != "type"@,
        "name"@ != "auto"@,
        "type"@ != "auto"@,
{
    reveal_strlit("model");
    reveal_strlit("messages");
    reveal_strlit("stream");
    reveal_strlit("stream_options");
    reveal_strlit("include_usage");
    reveal_strlit("tools");
    reveal_strlit("tool_choice");
    reveal_strlit("parallel_tool_calls");
    reveal_strlit("max_completion_tokens");
    reveal_strlit("max_output_tokens");
    reveal_strlit("temperature");
    reveal_strlit("top_p");
    reveal_strlit("store");
    reveal_strlit("metadata");
    reveal_strlit("user");
    reveal_strlit("response_format");
    reveal_strlit("json_schema");
    reveal_strlit("json_object");
    reveal_strlit("schema");
    reveal_strlit("reasoning_effort");
    reveal_strlit("reasoning");
    reveal_strlit("effort");
    reveal_strlit("text");
    reveal_strlit("format");
    reveal_strlit("input");
    reveal_strlit("instructions");
    reveal_strlit("name");
    reveal_strlit("strict");
    reveal_strlit("description");
    reveal_strlit("type");
    reveal_strlit("auto");
    reveal_strlit("function");
    assert("model"@[0] != "tools"@[0]);
    assert("model"@[0] != "top_p"@[0]);
    assert("model"@[0] != "store"@[0]);
    assert("model"@[0] != "input"@[0]);
    assert("messages"@[2] != "metadata"@[2]);
    assert("messages"@[0] != "function"@[0]);
    assert("stream"@[1] != "schema"@[1]);
    assert("stream"@[0] != "effort"@[0]);
    assert("stream"@[0] != "format"@[0]);
    assert("stream"@[3] != "strict"@[3]);
    assert("tools"@[2] != "top_p"@[2]);
    assert("tools"@[0] != "store"@[0]);
    assert("tools"@[0] != "input"@[0]);
    assert("tool_choice"@[1] != "temperature"@[1]);
    assert("tool_choice"@[0] != "json_schema"@[0]);
    assert("tool_choice"@[0] != "json_object"@[0]);
    assert("tool_choice"@[0] != "description"@[0]);
    assert("temperature"@[0] != "json_schema"@[0]);
    assert("temperature"@[0] != "json_object"@[0]);
    assert("temperature"@[0] != "description"@[0]);
    assert("top_p"@[0] != "store"@[0]);
    assert("top_p"@[0] != "input"@[0]);
    assert("store"@[0] != "input"@[0]);
    assert("metadata"@[0] != "function"@[0]);
    assert("user"@[0] != "text"@[0]);
    assert("user"@[0] != "name"@[0]);
    assert("user"@[0] != "type"@[0]);
    assert("user"@[0] != "auto"@[0]);
    assert("json_schema"@[5] != "json_object"@[5]);
    assert("json_schema"@[0] != "description"@[0]);
    assert("json_object"@[0] != "description"@[0]);
    assert("schema"@[0] != "effort"@[0]);
    assert("schema"@[0] != "format"@[0]);
    assert("schema"@[1] != "strict"@[1]);
    assert("effort"@[0] != "format"@[0]);
    assert("effort"@[0] != "strict"@[0]);
    assert("text"@[0] != "name"@[0]);
    assert("text"@[1] != "type"@[1]);
    assert("text"@[0] != "auto"@[0]);
    assert("format"@[0] != "strict"@[0]);
    assert("name"@[0] != "type"@[0]);
    assert("name"@[0] != "auto"@[0]);
    assert("type"@[0] != "auto"@[0]);
}

// ---------------------------------------------------------------------------
// Function calls of the input
// ---------------------------------------------------------------------------

/// The function calls among input items.
pub open spec fn given_calls(items: Seq<JsonView>) -> Seq<JsonView> {
    items.filter(
        |item: JsonView| item is Object && item.text_at("type"@) == Some("function_call"@),
    )
}

/// Whether no message of the input holds a function call in its content.
pub open spec fn calls_stand_alone(items: Seq<JsonView>) -> bool {
    forall|i: int, parts: Seq<JsonView>, k: int|
        0 <= i < items.len() && (#[trigger] items[i]).get("content"@) == Some(
            JsonView::Array(parts),
        ) && 0 <= k < parts.len() ==> (#[trigger] parts[k]).text_at("type"@) != Some(
            "function_call"@,
        )
}

/// A call that is sent says what a call of the input says: its identifier, its
/// name and its arguments.
pub open spec fn is_sent_as(given: JsonView, sent: JsonView) -> bool {
    &&& sent.text_at("type"@) == Some("function"@)
    &&& sent.text_at("id"@) == if given.has("call_id"@) {
        given.text_at("call_id"@)
    } else {
        given.text_at("id"@)
    }
    &&& sent.get_in("function"@, "name"@) == given.get("name"@)
    &&& sent.get_in("function"@, "arguments"@) == given.get("arguments"@)
}

proof fn lemma_call_is_sent(item: JsonView)
    requires
        item is Object,
        item.text_at("type"@) == Some("function_call"@),
        request::item_problem(item) is None,
    ensures
        is_sent_as(item, chat_request::chat_call(item)),
{
    lemma_call_words();
    reveal_strlit("");
    let call = chat_request::chat_call(item);
    assert(call.get("type"@) == Some(JsonView::Text("function"@)));
    let function = call.get("function"@)->0;
    assert(function.get("name"@) == Some(JsonView::Text(item.text_at("name"@)->0)));
    assert(function.get("arguments"@) == Some(JsonView::Text(item.text_at("arguments"@)->0)));
}

proof fn lemma_calls_are_sent(items: Seq<JsonView>)
    requires
        request::items_problem(items) is None,
    ensures
        message_laws::called(items).len() == given_calls(items).len(),
        forall|i: int|
            0 <= i < given_calls(items).len() ==> is_sent_as(
                #[trigger] given_calls(items)[i],
                message_laws::called(items)[i],
            ),
    decreases items.len(),
{
    let wanted = |item: JsonView| item is Object && item.text_at("type"@) == Some("function_call"@);
    reveal(Seq::filter);
    if items.len() > 0 {
        lemma_call_words();
        let rest = items.drop_last();
        let item = items.last();
        lemma_calls_are_sent(rest);
        assert(given_calls(items) == if wanted(item) {
            given_calls(rest).push(item)
        } else {
            given_calls(rest)
        });
        if wanted(item) {
            lemma_call_is_sent(item);
        }
    }
}

proof fn lemma_standing_alone(items: Seq<JsonView>)
    requires
        calls_stand_alone(items),
    ensures
        message_laws::holds_no_inner_calls(items),
{
    assert forall|i: int| 0 <= i < items.len() implies match (#[trigger] items[i]).get("content"@) {
        Some(content) => chat_request::calls_in_content(content) is None,
        None => true,
    } by {
        if let Some(JsonView::Array(parts)) = items[i].get("content"@) {
            assert forall|k: int| 0 <= k < parts.len() implies (#[trigger] parts[k]).text_at(
                "type"@,
            ) != Some("function_call"@) by {
                assert(items[i].get("content"@) == Some(JsonView::Array(parts)));
            }
            lemma_no_calls_inside(parts);
        }
    }
}

proof fn lemma_no_calls_inside(parts: Seq<JsonView>)
    requires
        forall|k: int|
            0 <= k < parts.len() ==> (#[trigger] parts[k]).text_at("type"@) != Some(
                "function_call"@,
            ),
    ensures
        chat_request::content_calls(parts).len() == 0,
    decreases parts.len(),
{
    if parts.len() > 0 {
        let rest = parts.drop_last();
        assert forall|k: int| 0 <= k < rest.len() implies (#[trigger] rest[k]).text_at("type"@)
            != Some("function_call"@) by {
            assert(rest[k] == parts[k]);
        }
        lemma_no_calls_inside(rest);
        assert(parts[parts.len() - 1].text_at("type"@) != Some("function_call"@));
    }
}

/// The messages that are sent.
pub open spec fn sent_messages(body: JsonView, known: Seq<EntryView>) -> Seq<JsonView> {
    match chat_request::chat_body(body, known).array_at("messages"@) {
        Some(messages) => messages,
        None => Seq::empty(),
    }
}

proof fn lemma_sent_messages(body: JsonView, known: Seq<EntryView>)
    ensures
        chat_request::chat_body(body, known).array_at("messages"@) == Some(
            chat_request::input_messages(body, known),
        ),
        sent_messages(body, known) == chat_request::input_messages(body, known),
{
    law_members_are_sent(body, known);
}

/// Every function call of a sound input is sent, in its place among the calls,
/// with its identifier, its name and its arguments. Left out are inputs with
/// calls inside the content of a message.
pub proof fn law_calls_are_sent_as_they_were(
    body: JsonView,
    items: Seq<JsonView>,
    known: Seq<EntryView>,
    i: int,
)
    requires
        request::request_problem(body) is None,
        body.get("input"@) == Some(JsonView::Array(items)),
        calls_stand_alone(items),
    ensures
        calls_of(sent_messages(body, known)).len() == given_calls(items).len(),
        0 <= i < given_calls(items).len() ==> is_sent_as(
            given_calls(items)[i],
            calls_of(sent_messages(body, known))[i],
        ),
{
    lemma_sent_messages(body, known);
    lemma_standing_alone(items);
    message_laws::law_nothing_of_the_input_is_dropped(body, items, known);
    lemma_calls_are_sent(items);
}

/// Calls inside the content of a message are sent with that message, each with its
/// identifier, its name and its arguments.
pub proof fn law_inner_calls_are_sent(parts: Seq<JsonView>, i: int)
    requires
        0 <= i < parts.len(),
        parts[i] is Object,
        parts[i].text_at("type"@) == Some("function_call"@),
        parts[i].text_at("name"@) is Some,
        parts[i].text_at("arguments"@) is Some,
        (if parts[i].has("call_id"@) {
            parts[i].text_at("call_id"@)
        } else {
            parts[i].text_at("id"@)
        }) is Some,
    ensures
        exists|k: int|
            0 <= k < chat_request::content_calls(parts).len() && is_sent_as(
                parts[i],
                #[trigger] chat_request::content_calls(parts)[k],
            ),
        chat_request::calls_in_content(JsonView::Array(parts)) == Some(
            JsonView::Array(chat_request::content_calls(parts)),
        ),
    decreases parts.len(),
{
    lemma_call_words();
    let rest = parts.drop_last();
    let all = chat_request::content_calls(parts);
    let earlier = chat_request::content_calls(rest);
    if i < rest.len() {
        assert(rest[i] == parts[i]);
        law_inner_calls_are_sent(rest, i);
        let k = choose|k: int|
            0 <= k < earlier.len() && is_sent_as(rest[i], #[trigger] earlier[k]);
        assert(all[k] == earlier[k]);
    } else {
        let call = chat_request::chat_call(parts[i]);
        assert(call.get("type"@) == Some(JsonView::Text("function"@)));
        let function = call.get("function"@)->0;
        assert(function.get("name"@) == Some(JsonView::Text(parts[i].text_at("name"@)->0)));
        assert(function.get("arguments"@) == Some(
            JsonView::Text(parts[i].text_at("arguments"@)->0),
        ));
        assert(is_sent_as(parts[i], call));
        assert(all[all.len() - 1] == call);
    }
}

// ---------------------------------------------------------------------------
// Messages
// ---------------------------------------------------------------------------

/// A message is sent with the role and the text that it has; what a developer says
/// is sent as what the system says.
pub proof fn law_messages_are_sent_as_they_were(
    item: JsonView,
    role: Seq<char>,
    said: Seq<char>,
    known: Seq<EntryView>,
)
    requires
        item.text_at("role"@) == Some(role),
        item.get("content"@) == Some(JsonView::Text(said)),
    ensures
        ({
            let sent = chat_request::item_message(item, known);
            &&& role != "developer"@ ==> sent.text_at("role"@) == Some(role)
            &&& role == "developer"@ ==> sent.text_at("role"@) == Some("system"@)
            &&& sent.text_at("content"@) == Some(said)
            &&& !sent.has("tool_calls"@)
        }),
{
    lemma_call_words();
    let plain = chat_request::chat_message(
        chat_request::chat_role(item),
        chat_request::chat_content(JsonView::Text(said)),
    );
    assert(plain.get("role"@) == Some(JsonView::Text(chat_request::chat_role(item))));
    assert(plain.get("content"@) == Some(JsonView::Text(said)));
    assert(!plain.has("tool_calls"@));
}

/// The result of a tool is sent under the identifier of its call.
pub proof fn law_results_are_sent_as_they_were(item: JsonView, id: Seq<char>, said: Seq<char>)
    requires
        item.text_at("call_id"@) == Some(id),
        item.get("output"@) == Some(JsonView::Text(said)),
    ensures
        ({
            let sent = chat_request::tool_message(item);
            &&& sent.text_at("role"@) == Some("tool"@)
            &&& sent.text_at("tool_call_id"@) == Some(id)
            &&& sent.text_at("content"@) == Some(said)
        }),
{
    lemma_call_words();
    let sent = chat_request::tool_message(item);
    assert(sent.get("role"@) == Some(JsonView::Text("tool"@)));
    assert(sent.get("tool_call_id"@) == Some(JsonView::Text(id)));
    assert(sent.get("content"@) == Some(JsonView::Text(said)));
}

/// The result of a tool that comes in parts is sent as the texts of the parts,
/// each on a line of its own.
pub proof fn law_results_in_parts_are_joined(item: JsonView, parts: Seq<JsonView>)
    requires
        item.get("output"@) == Some(JsonView::Array(parts)),
        forall|i: int| 0 <= i < parts.len() ==> (#[trigger] parts[i]).text_at("text"@) is Some,
    ensures
        chat_request::tool_message(item).text_at("content"@) == Some(
            text::joined(
                parts.map_values(|part: JsonView| part.text_at("text"@)->0),
                "\n"@,
            ),
        ),
{
    lemma_call_words();
    lemma_part_texts(parts);
    let sent = chat_request::tool_message(item);
    assert(sent.get("content"@) == Some(
        JsonView::Text(text::joined(chat_request::part_texts(parts), "\n"@)),
    ));
}

proof fn lemma_part_texts(parts: Seq<JsonView>)
    requires
        forall|i: int| 0 <= i < parts.len() ==> (#[trigger] parts[i]).text_at("text"@) is Some,
    ensures
        chat_request::part_texts(parts) == parts.map_values(
            |part: JsonView| part.text_at("text"@)->0,
        ),
    decreases parts.len(),
{
    let texts = parts.map_values(|part: JsonView| part.text_at("text"@)->0);
    if parts.len() > 0 {
        let rest = parts.drop_last();
        assert forall|i: int| 0 <= i < rest.len() implies (#[trigger] rest[i]).text_at("text"@)
            is Some by {
            assert(rest[i] == parts[i]);
        }
        lemma_part_texts(rest);
        assert(parts[parts.len() - 1].text_at("text"@) is Some);
        assert(chat_request::part_texts(parts) =~= texts);
    } else {
        assert(chat_request::part_texts(parts) =~= texts);
    }
}

/// Whether a content part holds a text under the name that its type asks for.
pub open spec fn says(part: JsonView, said: Seq<char>) -> bool {
    &&& part is Object
    &&& match part.text_at("type"@) {
        None => part.text_at("text"@) == Some(said),
        Some(kind) => if kind == "refusal"@ {
            part.text_at("refusal"@) == Some(said)
        } else {
            (kind == "input_text"@ || kind == "output_text"@ || kind == "text"@) && part.text_at(
                "text"@,
            ) == Some(said)
        },
    }
}

/// Whether a content part is sent as it is: a text as the same text, an image with
/// the same address and detail.
pub open spec fn is_part_sent_as(part: JsonView, sent: JsonView) -> bool {
    &&& forall|said: Seq<char>| #[trigger]
        says(part, said) ==> sent.text_at("type"@) == Some("text"@) && sent.text_at("text"@)
            == Some(said)
    &&& part.text_at("type"@) == Some("input_image"@) ==> {
        &&& sent.text_at("type"@) == Some("image_url"@)
        &&& part.text_at("image_url"@) is Some ==> sent.get_in("image_url"@, "url"@) == part.get(
            "image_url"@,
        )
        &&& sent.get_in("image_url"@, "detail"@) == if part.has("detail"@) {
            part.get("detail"@)
        } else {
            Some(JsonView::Text("auto"@))
        }
    }
}

/// Whether a content part is a text or an image.
pub open spec fn is_readable(part: JsonView) -> bool {
    (exists|said: Seq<char>| #[trigger] says(part, said)) || part is Object && part.text_at(
        "type"@,
    ) == Some("input_image"@)
}

proof fn lemma_part_is_sent(part: JsonView)
    requires
        is_readable(part),
    ensures
        chat_request::chat_part(part) matches Some(sent) && is_part_sent_as(part, sent),
        part.text_at("type"@) == Some("input_image"@) ==> (chat_request::chat_part(
            part,
        ) matches Some(sent) && sent.text_at("text"@) is None),
{
    lemma_call_words();
    if part.text_at("type"@) == Some("input_image"@) {
        let sent = chat_request::image_part(part);
        assert(sent.get("type"@) == Some(JsonView::Text("image_url"@)));
        let image = sent.get("image_url"@)->0;
        assert(image.get("url"@) == Some(
            JsonView::Text(chat_request::or_empty(part.text_at("image_url"@))),
        ));
        assert(!sent.has("text"@));
    } else {
        let said = choose|said: Seq<char>| #[trigger] says(part, said);
        let sent = chat_request::text_part(said);
        assert(sent.get("type"@) == Some(JsonView::Text("text"@)));
        assert(sent.get("text"@) == Some(JsonView::Text(said)));
    }
}

proof fn lemma_parts_are_sent(parts: Seq<JsonView>)
    requires
        forall|i: int| 0 <= i < parts.len() ==> is_readable(#[trigger] parts[i]),
    ensures
        chat_request::chat_parts(parts).len() == parts.len(),
        forall|i: int|
            0 <= i < parts.len() ==> is_part_sent_as(
                #[trigger] parts[i],
                chat_request::chat_parts(parts)[i],
            ),
        forall|i: int|
            0 <= i < parts.len() ==> Some(chat_request::chat_parts(parts)[i])
                == chat_request::chat_part(#[trigger] parts[i]),
    decreases parts.len(),
{
    if parts.len() > 0 {
        let rest = parts.drop_last();
        let last = parts.len() - 1;
        assert forall|i: int| 0 <= i < rest.len() implies is_readable(#[trigger] rest[i]) by {
            assert(rest[i] == parts[i]);
        }
        lemma_parts_are_sent(rest);
        assert(is_readable(parts[last]));
        lemma_part_is_sent(parts[last]);
        let all = chat_request::chat_parts(parts);
        let earlier = chat_request::chat_parts(rest);
        assert forall|i: int| 0 <= i < parts.len() implies is_part_sent_as(
            #[trigger] parts[i],
            all[i],
        ) by {
            if i < last {
                assert(rest[i] == parts[i]);
                assert(all[i] == earlier[i]);
            }
        }
        assert forall|i: int| 0 <= i < parts.len() implies Some(all[i]) == chat_request::chat_part(
            #[trigger] parts[i],
        ) by {
            if i < last {
                assert(rest[i] == parts[i]);
                assert(all[i] == earlier[i]);
            }
        }
    }
}

/// The content of a message is sent part by part, texts and images in their order,
/// none dropped. A single text is sent as that text.
pub proof fn law_content_is_sent_part_by_part(parts: Seq<JsonView>, said: Seq<char>)
    requires
        forall|i: int| 0 <= i < parts.len() ==> is_readable(#[trigger] parts[i]),
    ensures
        ({
            let sent = chat_request::chat_content(JsonView::Array(parts));
            &&& parts.len() == 1 && says(parts[0], said) ==> sent == JsonView::Text(said)
            &&& parts.len() >= 2 || parts.len() == 1 && parts[0].text_at("type"@) == Some(
                "input_image"@,
            ) ==> {
                &&& sent matches JsonView::Array(given)
                &&& given.len() == parts.len()
                &&& forall|i: int|
                    0 <= i < parts.len() ==> is_part_sent_as(#[trigger] parts[i], given[i])
            }
            &&& parts.len() == 0 ==> sent == JsonView::Text(Seq::empty())
        }),
{
    lemma_parts_are_sent(parts);
    if parts.len() == 1 {
        lemma_call_words();
        assert(is_readable(parts[0]));
        lemma_part_is_sent(parts[0]);
        assert(is_part_sent_as(parts[0], chat_request::chat_parts(parts)[0]));
        assert(Some(chat_request::chat_parts(parts)[0]) == chat_request::chat_part(parts[0]));
    }
}

/// Calls that wait are sent with a message of the assistant before the result of a
/// tool: with the last message, where that is one of the assistant without calls,
/// or else with one of their own.
pub proof fn law_calls_come_before_their_results(
    state: InputView,
    item: JsonView,
    known: Seq<EntryView>,
)
    requires
        item is Object,
        item.text_at("type"@) == Some("function_call_output"@),
        state.calls.len() > 0,
        state.messages.len() > 0 ==> state.messages.last() is Object,
    ensures
        ({
            let after = state.after(item, known);
            let count = after.messages.len();
            &&& count >= 2
            &&& after.messages[count - 1] == chat_request::tool_message(item)
            &&& after.messages[count - 2].text_at("role"@) == Some("assistant"@)
            &&& after.messages[count - 2].array_at("tool_calls"@) == Some(state.calls)
            &&& state.reasoning matches Some(thought) ==> after.messages[count - 2].text_at(
                "reasoning_content"@,
            ) == Some(thought)
            &&& after.calls.len() == 0
            &&& state.messages.len() > 0 ==> forall|key: Seq<char>|
                key != "tool_calls"@ && key != "reasoning_content"@ && count
                    == state.messages.len() + 1 ==> #[trigger] after.messages[count - 2].get(key)
                    == state.messages.last().get(key)
            &&& count == state.messages.len() + 1 || count == state.messages.len() + 2
            &&& forall|i: int|
                0 <= i < state.messages.len() - 1 ==> #[trigger] after.messages[i]
                    == state.messages[i]
        }),
{
    lemma_call_words();
    let after = state.after(item, known);
    let count = after.messages.len();
    let own = chat_request::chat_message("assistant"@, JsonView::Text(""@)).with(
        "tool_calls"@,
        JsonView::Array(state.calls),
    );
    assert(own.get("role"@) == Some(JsonView::Text("assistant"@)));
    let calls = after.messages[count - 2];
    assert(calls.get("tool_calls"@) == Some(JsonView::Array(state.calls)));
    assert(calls.get("role"@) == Some(JsonView::Text("assistant"@)));
}

/// A function call waits to be sent, after those that wait already.
pub proof fn law_calls_are_gathered(state: InputView, item: JsonView, known: Seq<EntryView>)
    requires
        item is Object,
        item.text_at("type"@) == Some("function_call"@),
        request::item_problem(item) is None,
    ensures
        ({
            let after = state.after(item, known);
            &&& after.messages == state.messages
            &&& after.calls.len() == state.calls.len() + 1
            &&& after.calls.drop_last() == state.calls
            &&& is_sent_as(item, after.calls.last())
            &&& state.reasoning is Some ==> after.reasoning == state.reasoning
        }),
{
    lemma_call_words();
    lemma_call_is_sent(item);
    assert(state.after(item, known).calls.drop_last() =~= state.calls);
}

/// Instructions come first, as what the system says, and a plain input is what the
/// user says.
pub proof fn law_instructions_and_plain_input(
    body: JsonView,
    instructions: Seq<char>,
    said: Seq<char>,
    known: Seq<EntryView>,
)
    requires
        body.text_at("instructions"@) == Some(instructions),
        !text::blank(instructions),
        body.get("input"@) == Some(JsonView::Text(said)),
    ensures
        ({
            let sent = sent_messages(body, known);
            &&& sent.len() == 2
            &&& sent[0].text_at("role"@) == Some("system"@)
            &&& sent[0].text_at("content"@) == Some(instructions)
            &&& sent[1].text_at("role"@) == Some("user"@)
            &&& sent[1].text_at("content"@) == Some(said)
        }),
{
    lemma_call_words();
    lemma_sent_messages(body, known);
    let first = chat_request::chat_message("system"@, JsonView::Text(instructions));
    let second = chat_request::chat_message("user"@, JsonView::Text(said));
    let raw = chat_request::raw_messages(body, known);
    assert(raw =~= seq![first, second]);
    assert(first.get("role"@) == Some(JsonView::Text("system"@)));
    assert(first.get("content"@) == Some(JsonView::Text(instructions)));
    assert(second.get("role"@) == Some(JsonView::Text("user"@)));
    assert(second.get("content"@) == Some(JsonView::Text(said)));
    assert(chat_request::is_system(raw[0]));
    assert(!chat_request::is_system(raw[1]));
    assert(content::text_in(first, "content"@) == Some(instructions));
    reveal_with_fuel(chat_request::system_text, 3);
    assert(raw.drop_last() =~= seq![first]);
    assert(seq![first].drop_last() =~= Seq::<JsonView>::empty());
    assert(chat_request::system_text(raw) =~= instructions);
    reveal(Seq::filter);
    let regular = |message: JsonView| !chat_request::is_system(message);
    reveal_with_fuel(Seq::filter, 3);
    assert(seq![first].filter(regular) =~= Seq::<JsonView>::empty());
    assert(raw.filter(regular) =~= seq![second]);
    assert(chat_request::regular_messages(raw) =~= seq![second]);
    assert(chat_request::normalized(raw) =~= seq![first, second]);
}

// ---------------------------------------------------------------------------
// Tools
// ---------------------------------------------------------------------------

/// A tool is offered with its name, its description, its parameters and whether it
/// is strict.
pub proof fn law_tools_are_offered_as_they_are(tool: JsonView)
    ensures
        ({
            let offered = chat_request::chat_tool(tool);
            &&& offered.text_at("type"@) == Some("function"@)
            &&& offered.get("function"@) matches Some(function)
            &&& tool.text_at("name"@) is Some ==> function.get("name"@) == tool.get("name"@)
            &&& tool.text_at("description"@) is Some ==> function.get("description"@) == tool.get(
                "description"@,
            )
            &&& function.get("parameters"@) == tool.get("parameters"@)
            &&& tool.get("strict"@) matches Some(strict) ==> (!(strict is Null) ==> function.get(
                "strict"@,
            ) == Some(strict))
            &&& !tool.has("strict"@) ==> !function.has("strict"@)
            &&& !tool.has("description"@) ==> !function.has("description"@)
        }),
{
    lemma_call_words();
    let offered = chat_request::chat_tool(tool);
    let function = offered.get("function"@)->0;
    assert(offered.get("type"@) == Some(JsonView::Text("function"@)));
    let named = chat_request::with_text_of(
        chat_request::with_text_of(json::empty_object(), tool, "name"@),
        tool,
        "description"@,
    );
    assert(tool.text_at("name"@) is Some ==> named.get("name"@) == tool.get("name"@));
    assert(!named.has("parameters"@) && !named.has("strict"@));
    let shaped = chat_request::with_member_of(named, tool, "parameters"@);
    assert(shaped.get("parameters"@) == tool.get("parameters"@));
    assert(shaped.get("name"@) == named.get("name"@));
    assert(shaped.get("description"@) == named.get("description"@));
    assert(!shaped.has("strict"@));
}

/// A choice of a tool is passed on: a word as it is, a function by its name.
pub proof fn law_choice_is_passed_on(choice: JsonView, name: Seq<char>)
    ensures
        choice is Text ==> chat_request::chat_choice(choice) == choice,
        choice is Object && choice.text_at("type"@) == Some("function"@) && choice.text_at("name"@)
            == Some(name) ==> ({
            let sent = chat_request::chat_choice(choice);
            sent.text_at("type"@) == Some("function"@) && sent.get_in("function"@, "name"@) == Some(
                JsonView::Text(name),
            )
        }),
{
    lemma_call_words();
    if choice is Object && choice.text_at("type"@) == Some("function"@) {
        let sent = chat_request::chat_choice(choice);
        assert(sent.get("type"@) == Some(JsonView::Text("function"@)));
    }
}

// ---------------------------------------------------------------------------
// The other members
// ---------------------------------------------------------------------------

/// Whether a member that may be absent is passed on, unless it is null.
pub open spec fn is_passed_on(body: JsonView, sent: JsonView, key: Seq<char>) -> bool {
    sent.get(key) == match body.get(key) {
        Some(value) => if value is Null {
            None
        } else {
            Some(value)
        },
        None => None,
    }
}

/// The members of a request are passed on under their names: the model and the
/// settings as they are, the limit of tokens and the effort under the names that
/// Chat Completions has for them. A stream is asked for with its usage.
pub proof fn law_members_are_sent(body: JsonView, known: Seq<EntryView>)
    ensures
        ({
            let sent = chat_request::chat_body(body, known);
            &&& sent.array_at("messages"@) == Some(chat_request::input_messages(body, known))
            &&& sent.get("model"@) == body.get("model"@)
            &&& is_passed_on(body, sent, "temperature"@)
            &&& is_passed_on(body, sent, "top_p"@)
            &&& is_passed_on(body, sent, "store"@)
            &&& is_passed_on(body, sent, "metadata"@)
            &&& is_passed_on(body, sent, "user"@)
            &&& sent.get("max_completion_tokens"@) == body.get("max_output_tokens"@)
            &&& body.get("stream"@) == Some(JsonView::Bool(true)) ==> sent.get("stream"@) == Some(
                JsonView::Bool(true),
            ) && sent.get_in("stream_options"@, "include_usage"@) == Some(JsonView::Bool(true))
            &&& body.get("stream"@) != Some(JsonView::Bool(true)) ==> !sent.has("stream"@)
                && !sent.has("stream_options"@)
            &&& body.get_in("reasoning"@, "effort"@) matches Some(effort) ==> (effort is Text
                && effort->Text_0.len() > 0 ==> sent.get("reasoning_effort"@) == Some(effort))
            &&& body.get_in("reasoning"@, "effort"@) is None ==> !sent.has("reasoning_effort"@)
            &&& body.get_in("text"@, "format"@) is None ==> !sent.has("response_format"@)
            &&& body.get_in("text"@, "format"@) matches Some(format) ==> sent.get(
                "response_format"@,
            ) == chat_request::response_format(format)
        }),
{
    lemma_body_words();
    let start = chat_request::with_member_of(json::empty_object(), body, "model"@).with(
        "messages"@,
        JsonView::Array(chat_request::input_messages(body, known)),
    );
    assert(start.get("model"@) == body.get("model"@));
    assert(start.get("messages"@) == Some(
        JsonView::Array(chat_request::input_messages(body, known)),
    ));
    let streamed = chat_request::with_stream(start, body);
    lemma_stream_member(start, body);
    let equipped = chat_request::with_tools(streamed, body);
    lemma_tools_keep(streamed, body);
    let limited = chat_request::with_limit(equipped, body);
    assert(!equipped.has("max_completion_tokens"@));
    assert(limited.get("max_completion_tokens"@) == body.get("max_output_tokens"@));
    let a = chat_request::with_value_of(limited, body, "temperature"@);
    let b = chat_request::with_value_of(a, body, "top_p"@);
    let c = chat_request::with_value_of(b, body, "store"@);
    let d = chat_request::with_value_of(c, body, "metadata"@);
    let e = chat_request::with_value_of(d, body, "user"@);
    lemma_value(limited, body, "temperature"@);
    lemma_value(a, body, "top_p"@);
    lemma_value(b, body, "store"@);
    lemma_value(c, body, "metadata"@);
    lemma_value(d, body, "user"@);
    let f = chat_request::with_effort(e, body);
    assert(forall|key: Seq<char>| key != "reasoning_effort"@ ==> #[trigger] f.get(key) == e.get(key));
    assert(!e.has("reasoning_effort"@) && !e.has("response_format"@));
    let g = chat_request::with_format(f, body);
    assert(forall|key: Seq<char>| key != "response_format"@ ==> #[trigger] g.get(key) == f.get(key));
    assert(g == chat_request::chat_body(body, known));
    assert(g.get("messages"@) == start.get("messages"@));
}

proof fn lemma_value(object: JsonView, body: JsonView, key: Seq<char>)
    requires
        object is Object,
        !object.has(key),
    ensures
        is_passed_on(body, chat_request::with_value_of(object, body, key), key),
        chat_request::with_value_of(object, body, key) is Object,
        forall|other: Seq<char>|
            other != key ==> #[trigger] chat_request::with_value_of(object, body, key).get(other)
                == object.get(other),
{
}

proof fn lemma_stream_member(start: JsonView, body: JsonView)
    requires
        start is Object,
        !start.has("stream"@),
        !start.has("stream_options"@),
    ensures
        ({
            let sent = chat_request::with_stream(start, body);
            &&& sent is Object
            &&& body.get("stream"@) == Some(JsonView::Bool(true)) ==> sent.get("stream"@) == Some(
                JsonView::Bool(true),
            ) && sent.get_in("stream_options"@, "include_usage"@) == Some(JsonView::Bool(true))
            &&& body.get("stream"@) != Some(JsonView::Bool(true)) ==> sent == start
            &&& forall|key: Seq<char>|
                key != "stream"@ && key != "stream_options"@ ==> #[trigger] sent.get(key)
                    == start.get(key)
        }),
{
    lemma_body_words();
}

proof fn lemma_tools_keep(chat: JsonView, body: JsonView)
    requires
        chat is Object,
    ensures
        chat_request::with_tools(chat, body) is Object,
        forall|key: Seq<char>|
            key != "tools"@ && key != "tool_choice"@ && key != "parallel_tool_calls"@
                ==> #[trigger] chat_request::with_tools(chat, body).get(key) == chat.get(key),
{
}

/// The tools of a request are offered all together, with the choice among them.
pub proof fn law_tools_are_sent(body: JsonView, known: Seq<EntryView>, tools: Seq<JsonView>)
    requires
        body.array_at("tools"@) == Some(tools),
    ensures
        ({
            let sent = chat_request::chat_body(body, known);
            let offered = chat_request::chat_tools(tools);
            &&& offered.len() == 0 ==> !sent.has("tools"@) && !sent.has("tool_choice"@)
            &&& offered.len() > 0 ==> sent.array_at("tools"@) == Some(offered) && sent.get(
                "parallel_tool_calls"@,
            ) == body.get("parallel_tool_calls"@)
            &&& offered.len() > 0 ==> sent.get("tool_choice"@) == match body.get("tool_choice"@) {
                Some(choice) => if chat_request::chat_choice(choice) == JsonView::Text("auto"@) {
                    None
                } else {
                    Some(chat_request::chat_choice(choice))
                },
                None => None,
            }
        }),
{
    lemma_body_words();
    let start = chat_request::with_member_of(json::empty_object(), body, "model"@).with(
        "messages"@,
        JsonView::Array(chat_request::input_messages(body, known)),
    );
    let streamed = chat_request::with_stream(start, body);
    assert(!streamed.has("tools"@) && !streamed.has("tool_choice"@) && !streamed.has(
        "parallel_tool_calls"@,
    ));
    let equipped = chat_request::with_tools(streamed, body);
    let limited = chat_request::with_limit(equipped, body);
    let a = chat_request::with_value_of(limited, body, "temperature"@);
    let b = chat_request::with_value_of(a, body, "top_p"@);
    let c = chat_request::with_value_of(b, body, "store"@);
    let d = chat_request::with_value_of(c, body, "metadata"@);
    let e = chat_request::with_value_of(d, body, "user"@);
    let f = chat_request::with_effort(e, body);
    let g = chat_request::with_format(f, body);
    assert(g == chat_request::chat_body(body, known));
    assert(forall|key: Seq<char>|
        key == "tools"@ || key == "tool_choice"@ || key == "parallel_tool_calls"@
            ==> #[trigger] limited.get(key) == equipped.get(key));
    assert(forall|key: Seq<char>|
        key == "tools"@ || key == "tool_choice"@ || key == "parallel_tool_calls"@
            ==> #[trigger] e.get(key) == limited.get(key));
    assert(forall|key: Seq<char>|
        key == "tools"@ || key == "tool_choice"@ || key == "parallel_tool_calls"@
            ==> #[trigger] g.get(key) == e.get(key));
    assert(g.get("tools"@) == equipped.get("tools"@));
    assert(g.get("tool_choice"@) == equipped.get("tool_choice"@));
    assert(g.get("parallel_tool_calls"@) == equipped.get("parallel_tool_calls"@));
}

/// A format that is asked for is asked for with its name, its schema, whether it
/// is strict, and its description.
pub proof fn law_format_is_asked_for(format: JsonView)
    ensures
        format.text_at("type"@) == Some("json_schema"@) ==> (chat_request::response_format(
            format,
        ) matches Some(sent) && {
            &&& sent.text_at("type"@) == Some("json_schema"@)
            &&& sent.get_in("json_schema"@, "name"@) == format.get("name"@)
            &&& sent.get_in("json_schema"@, "schema"@) == format.get("schema"@)
            &&& sent.get_in("json_schema"@, "strict"@) == format.get("strict"@)
            &&& sent.get_in("json_schema"@, "description"@) == format.get("description"@)
            &&& chat_request::requested_schema(
                json::empty_object().with("response_format"@, sent),
            ) == format.get("schema"@)
        }),
        format.text_at("type"@) == Some("json_object"@) ==> (chat_request::response_format(
            format,
        ) matches Some(sent) && sent.text_at("type"@) == Some("json_object"@)),
        format.text_at("type"@) == Some("text"@) ==> chat_request::response_format(format) is None,
{
    lemma_body_words();
    if format.text_at("type"@) == Some("json_schema"@) {
        let sent = chat_request::response_format(format)->0;
        assert(sent.get("type"@) == Some(JsonView::Text("json_schema"@)));
        let a = chat_request::with_member_of(json::empty_object(), format, "name"@);
        let b = chat_request::with_member_of(a, format, "schema"@);
        let c = chat_request::with_member_of(b, format, "strict"@);
        let d = chat_request::with_member_of(c, format, "description"@);
        assert(a.get("name"@) == format.get("name"@));
        assert(b.get("schema"@) == format.get("schema"@));
        assert(c.get("strict"@) == format.get("strict"@));
        assert(d.get("description"@) == format.get("description"@));
        assert(d.get("name"@) == a.get("name"@));
        assert(d.get("schema"@) == b.get("schema"@));
        assert(d.get("strict"@) == c.get("strict"@));
        assert(sent.get("json_schema"@) == Some(d));
    } else if format.text_at("type"@) == Some("json_object"@) {
        let sent = chat_request::response_format(format)->0;
        assert(sent.get("type"@) == Some(JsonView::Text("json_object"@)));
    }
}

// ---------------------------------------------------------------------------
// Asking for JSON in words
// ---------------------------------------------------------------------------

/// The request for JSON in words ends in the schema, and names every field that the
/// schema requires.
pub proof fn law_schema_is_put_in_words(schema: JsonView, printed: Seq<char>)
    requires
        !(schema is Null),
        json::pretty_text(schema) == Some(printed),
    ensures
        text::finishes_with(chat_request::json_instruction(Some(schema)), "\n"@ + printed),
        chat_request::required_names(schema).len() > 0 ==> text::occurs(
            chat_request::json_instruction(Some(schema)),
            text::joined(chat_request::required_names(schema), ", "@),
        ),
{
    let words = chat_request::json_instruction(Some(schema));
    let last = "\n"@ + printed;
    assert(words.skip(words.len() - last.len()) =~= last);
    if chat_request::required_names(schema).len() > 0 {
        let names = text::joined(chat_request::required_names(schema), ", "@);
        let plain =
            "You MUST respond with ONLY a single valid JSON object. Do not wrap it in markdown code fences, do not add any explanation, preamble, or trailing text before or after the JSON object."@;
        let before = plain
            + "\nThe JSON object MUST conform exactly to the following JSON Schema:"@
            + "\nThe object MUST include every one of these top-level fields: "@;
        let at = before.len() as int;
        assert(words.subrange(at, at + names.len()) =~= names);
        assert(text::occurs_at(words, names, at));
    }
}

/// The fields that a schema requires are the texts of its list, in their order.
pub proof fn law_required_fields(items: Seq<JsonView>, i: int)
    requires
        forall|k: int| 0 <= k < items.len() ==> #[trigger] items[k] is Text,
        0 <= i < items.len(),
    ensures
        chat_request::text_items(items).len() == items.len(),
        JsonView::Text(chat_request::text_items(items)[i]) == items[i],
    decreases items.len(),
{
    let rest = items.drop_last();
    assert forall|k: int| 0 <= k < rest.len() implies #[trigger] rest[k] is Text by {
        assert(rest[k] == items[k]);
    }
    assert(items[items.len() - 1] is Text);
    if rest.len() > 0 {
        law_required_fields(rest, 0);
    } else {
        assert(chat_request::text_items(rest).len() == 0);
    }
    assert(items.last() == items[items.len() - 1]);
    if i < rest.len() {
        law_required_fields(rest, i);
    }
}

/// The instructions that are there stay, followed by the request for JSON; where
/// there are none, that request is what the system says first. No other message
/// changes.
pub proof fn law_messages_ask_for_json(messages: Seq<JsonView>, words: Seq<char>, i: int)
    ensures
        ({
            let asked = chat_request::instructed_messages(messages, words);
            &&& 0 <= i < messages.len() && messages[i].text_at("role"@) == Some("system"@) && (
            forall|k: int|
                0 <= k < i ==> (#[trigger] messages[k]).text_at("role"@) != Some("system"@)) ==> {
                &&& asked.len() == messages.len()
                &&& messages[i].text_at("content"@) matches Some(said) ==> asked[i].text_at(
                    "content"@,
                ) == Some(said + "\n\n"@ + words)
                &&& asked[i].text_at("role"@) == Some("system"@)
                &&& forall|k: int|
                    0 <= k < messages.len() && k != i ==> #[trigger] asked[k] == messages[k]
            }
            &&& (forall|k: int|
                0 <= k < messages.len() ==> (#[trigger] messages[k]).text_at("role"@) != Some(
                    "system"@,
                )) ==> {
                &&& asked.len() == messages.len() + 1
                &&& asked[0].text_at("role"@) == Some("system"@)
                &&& asked[0].text_at("content"@) == Some(words)
                &&& asked.skip(1) == messages
            }
        }),
{
    lemma_call_words();
    lemma_first_system(messages);
    let asked = chat_request::instructed_messages(messages, words);
    let lead = chat_request::chat_message("system"@, JsonView::Text(words));
    assert(lead.get("role"@) == Some(JsonView::Text("system"@)));
    assert(lead.get("content"@) == Some(JsonView::Text(words)));
    let found = chat_request::first_system(messages);
    if found < messages.len() {
        assert(messages[found].text_at("role"@) == Some("system"@));
        if 0 <= i < messages.len() && messages[i].text_at("role"@) == Some("system"@) && (
        forall|k: int|
            0 <= k < i ==> (#[trigger] messages[k]).text_at("role"@) != Some("system"@)) {
            if found < i {
                assert(messages[found].text_at("role"@) != Some("system"@));
            }
            if i < found {
                assert(messages[i].text_at("role"@) != Some("system"@));
            }
            assert(found == i);
            assert(asked[i].get("role"@) == messages[i].get("role"@));
        }
    } else {
        assert(asked.skip(1) =~= messages);
    }
}

proof fn lemma_first_system(messages: Seq<JsonView>)
    ensures
        0 <= chat_request::first_system(messages) <= messages.len(),
        chat_request::first_system(messages) < messages.len() ==> messages[chat_request::first_system(
            messages,
        )].text_at("role"@) == Some("system"@),
        forall|k: int|
            0 <= k < chat_request::first_system(messages) ==> (#[trigger] messages[k]).text_at(
                "role"@,
            ) != Some("system"@),
    decreases messages.len(),
{
    if messages.len() > 0 && !chat_request::is_system(messages[0]) {
        let rest = messages.drop_first();
        lemma_first_system(rest);
        assert forall|k: int| 0 <= k < chat_request::first_system(messages) implies (
        #[trigger] messages[k]).text_at("role"@) != Some("system"@) by {
            if k > 0 {
                assert(rest[k - 1] == messages[k]);
            }
        }
    }
}

/// A request that asks for JSON in words holds the messages that do so, with the
/// schema of the format that it had.
pub proof fn law_degraded_messages(chat: JsonView, messages: Seq<JsonView>, schema: JsonView)
    requires
        chat.array_at("messages"@) == Some(messages),
        chat.get_in("response_format"@, "json_schema"@) matches Some(format) && format.get(
            "schema"@,
        ) == Some(schema),
    ensures
        chat_request::degraded(chat).array_at("messages"@) == Some(
            chat_request::instructed_messages(
                messages,
                chat_request::json_instruction(Some(schema)),
            ),
        ),
        !chat_request::degraded(chat).has("response_format"@),
{
    lemma_body_words();
}

// ---------------------------------------------------------------------------
// What is refused
// ---------------------------------------------------------------------------

/// A request that is taken has a model, keeps its state to itself, and names only
/// functions that it offers.
pub proof fn law_what_a_taken_request_holds(body: JsonView)
    requires
        request::request_problem(body) is None,
    ensures
        body.text_at("model"@) matches Some(model) && !text::blank(model) && text::byte_count(model)
            <= 512,
        body.get("stream"@) matches Some(value) ==> value is Bool,
        body.get("previous_response_id"@) matches Some(value) ==> value is Null,
        body.get("conversation"@) matches Some(value) ==> value is Null,
        body.get("background"@) != Some(JsonView::Bool(true)),
        body.get("input"@) matches Some(input) ==> input is Text || input is Array,
        body.get("tool_choice"@) matches Some(choice) ==> choice is Text || choice is Object
            && choice.text_at("type"@) == Some("function"@),
{
}

/// Every item of an input that is taken can be told in Chat Completions: it is a
/// text, a message with a known role, reasoning, a complete call or the result of
/// one.
pub proof fn law_what_a_taken_item_holds(items: Seq<JsonView>, i: int)
    requires
        request::items_problem(items) is None,
        0 <= i < items.len(),
    ensures
        items[i] is Text || items[i] is Object && ({
            let kind = items[i].text_at("type"@);
            ||| kind == Some("reasoning"@)
            ||| (kind is None || kind == Some("message"@) || kind == Some(""@)) && (items[i].text_at(
                "role"@,
            ) == Some("user"@) || items[i].text_at("role"@) == Some("assistant"@)
                || items[i].text_at("role"@) == Some("system"@) || items[i].text_at("role"@)
                == Some("developer"@)) && items[i].has("content"@)
            ||| kind == Some("function_call"@) && items[i].text_at("name"@) is Some
                && items[i].text_at("arguments"@) is Some && (items[i].text_at("call_id"@) is Some
                || items[i].text_at("id"@) is Some)
            ||| kind == Some("function_call_output"@) && items[i].text_at("call_id"@) is Some
                && items[i].has("output"@)
        }),
    decreases items.len(),
{
    if i < items.len() - 1 {
        law_what_a_taken_item_holds(items.drop_last(), i);
    }
}

/// Whether a message of the input is one of a known role, with content.
pub open spec fn is_plain_message(item: JsonView) -> bool {
    &&& item is Object
    &&& !item.has("type"@) || item.text_at("type"@) == Some("message"@)
    &&& item.text_at("role"@) == Some("user"@) || item.text_at("role"@) == Some("assistant"@)
        || item.text_at("role"@) == Some("system"@) || item.text_at("role"@) == Some("developer"@)
    &&& item.get("content"@) matches Some(content) && (content is Text || content is Array)
}

/// Whether a call of the input is complete.
pub open spec fn is_plain_call(item: JsonView) -> bool {
    &&& item is Object
    &&& item.text_at("type"@) == Some("function_call"@)
    &&& item.text_at("call_id"@) matches Some(id) && id.len() > 0
    &&& item.text_at("name"@) matches Some(name) && name.len() > 0
    &&& item.text_at("arguments"@) is Some
}

/// Whether a result of the input is complete.
pub open spec fn is_plain_result(item: JsonView) -> bool {
    &&& item is Object
    &&& item.text_at("type"@) == Some("function_call_output"@)
    &&& item.text_at("call_id"@) matches Some(id) && id.len() > 0
    &&& item.has("output"@)
}

/// An input of texts, messages, complete calls and their results is taken.
pub proof fn law_plain_items_are_taken(items: Seq<JsonView>)
    requires
        forall|i: int|
            0 <= i < items.len() ==> (#[trigger] items[i]) is Text || is_plain_message(items[i])
                || is_plain_call(items[i]) || is_plain_result(items[i]),
    ensures
        request::items_problem(items) is None,
    decreases items.len(),
{
    if items.len() > 0 {
        lemma_call_words();
        reveal_strlit("");
        let rest = items.drop_last();
        assert forall|i: int| 0 <= i < rest.len() implies (#[trigger] rest[i]) is Text
            || is_plain_message(rest[i]) || is_plain_call(rest[i]) || is_plain_result(
            rest[i],
        ) by {
            assert(rest[i] == items[i]);
        }
        law_plain_items_are_taken(rest);
        let last = items[items.len() - 1];
        assert(last is Text || is_plain_message(last) || is_plain_call(last) || is_plain_result(
            last,
        ));
        assert(request::item_problem(last) is None);
    }
}

/// A request with a model and a plain input, and nothing that asks for more, is
/// taken.
pub proof fn law_plain_requests_are_taken(body: JsonView, model: Seq<char>)
    requires
        body.text_at("model"@) == Some(model),
        !text::blank(model),
        text::byte_count(model) <= 512,
        body.get("stream"@) matches Some(value) ==> value is Bool,
        !body.has("previous_response_id"@),
        !body.has("conversation"@),
        !body.has("background"@),
        !body.has("text"@),
        !body.has("tools"@),
        !body.has("tool_choice"@),
        body.get("input"@) matches Some(input) ==> (input is Text || (
        input matches JsonView::Array(items) && request::items_problem(items) is None)),
    ensures
        request::request_problem(body) is None,
{
}

/// The tools of a request that is taken: every function has a name, and parameters
/// that are a schema.
pub proof fn law_what_a_taken_tool_holds(tools: Seq<JsonView>, i: int)
    requires
        request::tools_problem(tools) is None,
        0 <= i < tools.len(),
        tools[i].text_at("type"@) == Some("function"@),
    ensures
        tools[i].text_at("name"@) matches Some(name) && name.len() > 0,
        tools[i].get("parameters"@) matches Some(parameters) ==> json::is_schema(parameters),
    decreases tools.len(),
{
    if i < tools.len() - 1 {
        law_what_a_taken_tool_holds(tools.drop_last(), i);
    }
}

/// Tools are taken where every function among them has a name and parameters that
/// are a schema.
pub proof fn law_sound_tools_are_taken(tools: Seq<JsonView>)
    requires
        forall|i: int|
            0 <= i < tools.len() && (#[trigger] tools[i]).text_at("type"@) == Some("function"@)
                ==> (tools[i].text_at("name"@) matches Some(name) && name.len() > 0) && (
            tools[i].get("parameters"@) matches Some(parameters) ==> json::is_schema(parameters)),
    ensures
        request::tools_problem(tools) is None,
    decreases tools.len(),
{
    if tools.len() > 0 {
        let rest = tools.drop_last();
        assert forall|i: int|
            0 <= i < rest.len() && (#[trigger] rest[i]).text_at("type"@) == Some(
                "function"@,
            ) implies (rest[i].text_at("name"@) matches Some(name) && name.len() > 0) && (
        rest[i].get("parameters"@) matches Some(parameters) ==> json::is_schema(parameters)) by {
            assert(rest[i] == tools[i]);
        }
        law_sound_tools_are_taken(rest);
        assert(tools[tools.len() - 1] == tools.last());
    }
}

/// The format of a request that is taken is text, JSON, or JSON by a schema of an
/// object.
pub proof fn law_what_a_taken_format_holds(body: JsonView, format: JsonView, kind: Seq<char>)
    requires
        request::request_problem(body) is None,
        body.get_in("text"@, "format"@) == Some(format),
        format.text_at("type"@) == Some(kind),
    ensures
        kind == "text"@ || kind == "json_object"@ || kind == "json_schema"@,
        kind == "json_schema"@ ==> (format.get("schema"@) matches Some(schema) && json::is_schema(
            schema,
        ) && schema.text_at("type"@) == Some("object"@)),
{
    lemma_body_words();
}

/// The choice of a request that is taken is a known word, or a function that is
/// offered; a tool can be required only where one is offered.
pub proof fn law_what_a_taken_choice_holds(body: JsonView, choice: JsonView, tools: Seq<JsonView>)
    requires
        request::request_problem(body) is None,
        body.get("tool_choice"@) == Some(choice),
        body.array_at("tools"@) == Some(tools),
    ensures
        choice matches JsonView::Text(word) ==> word == "auto"@ || word == "none"@ || word
            == "required"@,
        choice == JsonView::Text("required"@) ==> exists|i: int|
            0 <= i < tools.len() && (#[trigger] tools[i]).text_at("type"@) == Some("function"@)
                && tools[i].text_at("name"@) is Some,
        choice is Object ==> (choice.text_at("name"@) matches Some(name) && exists|i: int|
            0 <= i < tools.len() && (#[trigger] tools[i]).text_at("type"@) == Some("function"@)
                && tools[i].text_at("name"@) == Some(name)),
{
}

/// A request without a model, for a stream by anything but a flag, or for what the
/// server keeps, is refused.
pub proof fn law_what_is_refused(body: JsonView)
    ensures
        !body.has("model"@) ==> request::request_problem(body) is Some,
        body.get("stream"@) == Some(JsonView::Null) ==> request::request_problem(body) is Some,
        body.get("previous_response_id"@) matches Some(id) ==> (!(id is Null)
            ==> request::request_problem(body) is Some),
        body.get("conversation"@) matches Some(id) ==> (!(id is Null) ==> request::request_problem(
            body,
        ) is Some),
        body.get("background"@) == Some(JsonView::Bool(true)) ==> request::request_problem(body)
            is Some,
        body.get("input"@) matches Some(input) ==> (!(input is Text) && !(input is Array)
            ==> request::request_problem(body) is Some),
{
}

// ---------------------------------------------------------------------------
// All messages of the input
// ---------------------------------------------------------------------------

/// The results of tools among input items.
pub open spec fn given_results(items: Seq<JsonView>) -> Seq<JsonView> {
    items.filter(
        |item: JsonView|
            item is Object && item.text_at("type"@) == Some("function_call_output"@),
    )
}

/// Whether a message tells the result of a tool: under the identifier of its call,
/// with its text.
pub open spec fn tells_result(given: JsonView, sent: JsonView) -> bool {
    &&& sent.text_at("role"@) == Some("tool"@)
    &&& sent.get("tool_call_id"@) == given.get("call_id"@)
    &&& given.text_at("output"@) is Some ==> sent.get("content"@) == given.get("output"@)
}

proof fn lemma_results_are_sent(items: Seq<JsonView>)
    requires
        request::items_problem(items) is None,
    ensures
        message_laws::tool_results(items).len() == given_results(items).len(),
        forall|i: int|
            0 <= i < given_results(items).len() ==> tells_result(
                #[trigger] given_results(items)[i],
                message_laws::tool_results(items)[i],
            ),
    decreases items.len(),
{
    let wanted = |item: JsonView|
        item is Object && item.text_at("type"@) == Some("function_call_output"@);
    reveal(Seq::filter);
    if items.len() > 0 {
        lemma_call_words();
        reveal_strlit("");
        let rest = items.drop_last();
        let item = items.last();
        lemma_results_are_sent(rest);
        assert(given_results(items) == if wanted(item) {
            given_results(rest).push(item)
        } else {
            given_results(rest)
        });
        if wanted(item) {
            let sent = chat_request::tool_message(item);
            assert(sent.get("role"@) == Some(JsonView::Text("tool"@)));
            assert(sent.get("tool_call_id"@) == Some(JsonView::Text(item.text_at("call_id"@)->0)));
            assert(item.text_at("output"@) is Some ==> sent.get("content"@) == Some(
                JsonView::Text(item.text_at("output"@)->0),
            ));
            assert(tells_result(item, sent));
        }
    }
}

/// Every result of a tool is sent, in its place among the results, under the
/// identifier of its call and with its text. Left out are inputs with calls inside
/// the content of a message.
pub proof fn law_all_results_are_sent(
    body: JsonView,
    items: Seq<JsonView>,
    known: Seq<EntryView>,
    i: int,
)
    requires
        request::request_problem(body) is None,
        body.get("input"@) == Some(JsonView::Array(items)),
        calls_stand_alone(items),
    ensures
        with_role(sent_messages(body, known), "tool"@).len() == given_results(items).len(),
        0 <= i < given_results(items).len() ==> tells_result(
            given_results(items)[i],
            with_role(sent_messages(body, known), "tool"@)[i],
        ),
{
    lemma_sent_messages(body, known);
    lemma_standing_alone(items);
    message_laws::law_nothing_of_the_input_is_dropped(body, items, known);
    lemma_results_are_sent(items);
}

/// What users say among input items: plain texts, and messages in their name.
pub open spec fn given_turns(items: Seq<JsonView>) -> Seq<JsonView> {
    items.filter(
        |item: JsonView|
            item is Text || item is Object && (!item.has("type"@) || item.text_at("type"@) == Some(
                "message"@,
            )) && item.text_at("role"@) == Some("user"@),
    )
}

/// Whether a message says what a user said, where that is a text.
pub open spec fn says_turn(given: JsonView, sent: JsonView) -> bool {
    &&& sent.text_at("role"@) == Some("user"@)
    &&& given is Text ==> sent.get("content"@) == Some(given)
    &&& given.text_at("content"@) is Some ==> sent.get("content"@) == given.get("content"@)
}

/// Whether every item states its kind in words, or not at all.
pub open spec fn state_kinds(items: Seq<JsonView>) -> bool {
    forall|i: int|
        0 <= i < items.len() && (#[trigger] items[i]).has("type"@) ==> (items[i].text_at(
            "type"@,
        ) matches Some(kind) && kind.len() > 0)
}

proof fn lemma_turns_are_sent(items: Seq<JsonView>, known: Seq<EntryView>)
    requires
        request::items_problem(items) is None,
        state_kinds(items),
    ensures
        message_laws::user_turns(items, known).len() == given_turns(items).len(),
        forall|i: int|
            0 <= i < given_turns(items).len() ==> says_turn(
                #[trigger] given_turns(items)[i],
                message_laws::user_turns(items, known)[i],
            ),
    decreases items.len(),
{
    let wanted = |item: JsonView|
        item is Text || item is Object && (!item.has("type"@) || item.text_at("type"@) == Some(
            "message"@,
        )) && item.text_at("role"@) == Some("user"@);
    reveal(Seq::filter);
    if items.len() > 0 {
        lemma_call_words();
        reveal_strlit("");
        let rest = items.drop_last();
        let item = items[items.len() - 1];
        assert forall|i: int| 0 <= i < rest.len() && (#[trigger] rest[i]).has("type"@) implies (
        rest[i].text_at("type"@) matches Some(kind) && kind.len() > 0) by {
            assert(rest[i] == items[i]);
        }
        lemma_turns_are_sent(rest, known);
        assert(given_turns(items) == if wanted(item) {
            given_turns(rest).push(item)
        } else {
            given_turns(rest)
        });
        assert(item.has("type"@) ==> item.text_at("type"@) is Some);
        if let JsonView::Text(said) = item {
            let sent = chat_request::chat_message("user"@, JsonView::Text(said));
            assert(sent.get("role"@) == Some(JsonView::Text("user"@)));
            assert(sent.get("content"@) == Some(JsonView::Text(said)));
            assert(says_turn(item, sent));
        } else if wanted(item) {
            let sent = chat_request::item_message(item, known);
            let content = item.get("content"@)->0;
            let plain = chat_request::chat_message(
                chat_request::chat_role(item),
                chat_request::chat_content(content),
            );
            assert(plain.get("role"@) == Some(JsonView::Text("user"@)));
            assert(plain.get("content"@) == Some(chat_request::chat_content(content)));
            assert(sent.get("role"@) == plain.get("role"@));
            assert(sent.get("content"@) == plain.get("content"@));
            assert(says_turn(item, sent));
        }
    }
}

/// Everything that users say is sent, in its order and, where it is a text, as it
/// was said. Left out are inputs with calls inside the content of a message, and
/// items whose kind is not stated in words.
pub proof fn law_all_turns_are_sent(
    body: JsonView,
    items: Seq<JsonView>,
    known: Seq<EntryView>,
    i: int,
)
    requires
        request::request_problem(body) is None,
        body.get("input"@) == Some(JsonView::Array(items)),
        calls_stand_alone(items),
        state_kinds(items),
    ensures
        with_role(sent_messages(body, known), "user"@).len() == given_turns(items).len(),
        0 <= i < given_turns(items).len() ==> says_turn(
            given_turns(items)[i],
            with_role(sent_messages(body, known), "user"@)[i],
        ),
{
    lemma_sent_messages(body, known);
    lemma_standing_alone(items);
    message_laws::law_nothing_of_the_input_is_dropped(body, items, known);
    lemma_turns_are_sent(items, known);
}

/// A message of the input follows those before it, which stay, but for calls that
/// the last of them takes up.
pub proof fn law_messages_follow_each_other(
    state: InputView,
    item: JsonView,
    known: Seq<EntryView>,
)
    requires
        item is Object,
        item.text_at("type"@) == Some("message"@),
    ensures
        ({
            let after = state.after(item, known);
            &&& after.messages.len() > state.messages.len()
            &&& after.messages.last() == chat_request::item_message(item, known)
            &&& after.calls.len() == 0
            &&& forall|i: int|
                0 <= i < state.messages.len() - 1 ==> #[trigger] after.messages[i]
                    == state.messages[i]
            &&& state.calls.len() == 0 ==> after.messages.drop_last() == state.messages
        }),
{
    lemma_call_words();
    reveal_strlit("");
    let after = state.after(item, known);
    if state.calls.len() == 0 {
        assert(after.messages.drop_last() =~= state.messages);
    }
}

/// Calls that wait go with the last message where that is one of the assistant
/// without calls, which keeps what it says; otherwise they get a message of their
/// own, which says nothing else, and every message stays.
pub proof fn law_where_calls_go(state: InputView)
    requires
        state.calls.len() > 0,
        state.messages.len() > 0 ==> state.messages.last() is Object,
    ensures
        ({
            let sent = state.flushed();
            let joins = state.messages.len() > 0 && state.messages.last().text_at("role"@) == Some(
                "assistant"@,
            ) && !state.messages.last().has("tool_calls"@);
            &&& sent.calls.len() == 0
            &&& sent.reasoning is None
            &&& sent.messages.last().array_at("tool_calls"@) == Some(state.calls)
            &&& state.reasoning matches Some(thought) ==> sent.messages.last().text_at(
                "reasoning_content"@,
            ) == Some(thought)
            &&& joins ==> sent.messages.len() == state.messages.len()
                && sent.messages.drop_last() == state.messages.drop_last()
                && sent.messages.last().get("content"@) == state.messages.last().get("content"@)
                && sent.messages.last().get("role"@) == state.messages.last().get("role"@)
            &&& !joins ==> sent.messages.drop_last() == state.messages
                && sent.messages.last().text_at("role"@) == Some("assistant"@)
                && sent.messages.last().text_at("content"@) == Some(""@)
        }),
{
    lemma_call_words();
    let sent = state.flushed();
    let own = chat_request::chat_message("assistant"@, JsonView::Text(""@));
    assert(own.get("role"@) == Some(JsonView::Text("assistant"@)));
    assert(own.get("content"@) == Some(JsonView::Text(""@)));
    let called = own.with("tool_calls"@, JsonView::Array(state.calls));
    assert(called.get("role"@) == own.get("role"@));
    assert(called.get("content"@) == own.get("content"@));
    let last = sent.messages.last();
    assert(last.get("tool_calls"@) == Some(JsonView::Array(state.calls)));
    if state.messages.len() > 0 && state.messages.last().text_at("role"@) == Some("assistant"@)
        && !state.messages.last().has("tool_calls"@) {
        assert(sent.messages.drop_last() =~= state.messages.drop_last());
    } else {
        assert(sent.messages.drop_last() =~= state.messages);
    }
}

/// Where no calls wait, nothing is added.
pub proof fn law_no_calls_no_message(state: InputView)
    requires
        state.calls.len() == 0,
    ensures
        state.flushed().messages == state.messages,
{
}

/// A plain text among the items is what the user says; reasoning among them is not
/// sent as a message.
pub proof fn law_other_items(state: InputView, item: JsonView, said: Seq<char>, known: Seq<EntryView>)
    requires
        state.calls.len() == 0,
    ensures
        ({
            let after = state.after(JsonView::Text(said), known);
            &&& after.messages.drop_last() == state.messages
            &&& after.messages.last().text_at("role"@) == Some("user"@)
            &&& after.messages.last().text_at("content"@) == Some(said)
        }),
        item is Object && item.text_at("type"@) == Some("reasoning"@) ==> state.after(
            item,
            known,
        ).messages == state.messages,
{
    lemma_call_words();
    reveal_strlit("");
    let after = state.after(JsonView::Text(said), known);
    assert(after.messages.drop_last() =~= state.messages);
    let sent = chat_request::chat_message("user"@, JsonView::Text(said));
    assert(sent.get("role"@) == Some(JsonView::Text("user"@)));
    assert(sent.get("content"@) == Some(JsonView::Text(said)));
}

/// Parts that hold neither a text nor an image are left out, and content that is
/// neither a text nor parts is empty.
pub proof fn law_other_parts_are_left_out(parts: Seq<JsonView>, part: JsonView)
    requires
        !(part is Object) || (part.text_at("type"@) matches Some(kind) && kind != "input_text"@
            && kind != "output_text"@ && kind != "text"@ && kind != "input_image"@ && kind
            != "refusal"@),
    ensures
        chat_request::chat_parts(parts.push(part)) == chat_request::chat_parts(parts),
        chat_request::chat_content(JsonView::Null) == JsonView::Text(Seq::empty()),
{
    assert(parts.push(part).drop_last() =~= parts);
}

} // verus!
