//! What holds of the messages of a request as a whole: nothing of the input is
//! dropped, and the instructions are joined.

use crate::chat_request;
use crate::chat_request::{
    calls_in_content, chat_call, chat_message, chat_role, gathered, input_messages, is_system,
    item_message, normalized, raw_messages, regular_messages, system_text, takes_calls,
    tool_message, with_reasoning, InputView,
};
use crate::content;
use crate::json::JsonView;
use crate::reasoning::EntryView;
use crate::request;
use crate::request::{item_kind, item_problem, items_problem};
use crate::response::message_calls;
use crate::text;
use vstd::prelude::*;

verus! {

// ---------------------------------------------------------------------------
// What an input holds
// ---------------------------------------------------------------------------

/// Whether an input item is a message.
pub open spec fn is_message(item: JsonView) -> bool {
    item is Object && (item_kind(item) == "message"@ || item_kind(item) == ""@)
}

/// The messages of the user: the texts and the messages in the role of the
/// user, in their order.
pub open spec fn user_turns(items: Seq<JsonView>, known: Seq<EntryView>) -> Seq<JsonView>
    decreases items.len(),
{
    if items.len() == 0 {
        Seq::empty()
    } else {
        let earlier = user_turns(items.drop_last(), known);
        let item = items.last();
        match item {
            JsonView::Text(text) => earlier.push(chat_message("user"@, JsonView::Text(text))),
            _ => if is_message(item) && chat_role(item) == "user"@ {
                earlier.push(item_message(item, known))
            } else {
                earlier
            },
        }
    }
}

/// The results of tools, in their order.
pub open spec fn tool_results(items: Seq<JsonView>) -> Seq<JsonView>
    decreases items.len(),
{
    if items.len() == 0 {
        Seq::empty()
    } else {
        let earlier = tool_results(items.drop_last());
        if items.last() is Object && item_kind(items.last()) == "function_call_output"@ {
            earlier.push(tool_message(items.last()))
        } else {
            earlier
        }
    }
}

/// The function calls, in their order.
pub open spec fn called(items: Seq<JsonView>) -> Seq<JsonView>
    decreases items.len(),
{
    if items.len() == 0 {
        Seq::empty()
    } else {
        let earlier = called(items.drop_last());
        if items.last() is Object && item_kind(items.last()) == "function_call"@ {
            earlier.push(chat_call(items.last()))
        } else {
            earlier
        }
    }
}

/// Whether no message of an input holds calls inside its content.
pub open spec fn holds_no_inner_calls(items: Seq<JsonView>) -> bool {
    forall|i: int|
        0 <= i < items.len() ==> match (#[trigger] items[i]).get("content"@) {
            Some(content) => calls_in_content(content) is None,
            None => true,
        }
}

// ---------------------------------------------------------------------------
// What messages hold
// ---------------------------------------------------------------------------

/// The messages with a role, in their order.
pub open spec fn with_role(messages: Seq<JsonView>, role: Seq<char>) -> Seq<JsonView>
    decreases messages.len(),
{
    if messages.len() == 0 {
        Seq::empty()
    } else {
        let earlier = with_role(messages.drop_last(), role);
        if messages.last().text_at("role"@) == Some(role) {
            earlier.push(messages.last())
        } else {
            earlier
        }
    }
}

/// The tool calls of all messages, one after the other.
pub open spec fn calls_of(messages: Seq<JsonView>) -> Seq<JsonView>
    decreases messages.len(),
{
    if messages.len() == 0 {
        Seq::empty()
    } else {
        calls_of(messages.drop_last()) + message_calls(messages.last())
    }
}

/// Whether only messages of the assistant hold tool calls.
spec fn only_assistants_call(messages: Seq<JsonView>) -> bool {
    forall|i: int|
        0 <= i < messages.len() && is_system(#[trigger] messages[i]) ==> message_calls(
            messages[i],
        ).len() == 0
}

proof fn lemma_one_more(messages: Seq<JsonView>, message: JsonView, role: Seq<char>)
    ensures
        with_role(messages.push(message), role) == if message.text_at("role"@) == Some(role) {
            with_role(messages, role).push(message)
        } else {
            with_role(messages, role)
        },
        calls_of(messages.push(message)) == calls_of(messages) + message_calls(message),
{
    assert(messages.push(message).drop_last() =~= messages);
}

proof fn lemma_message_keys()
    ensures
        "role"@.len() == 4,
        "content"@.len() == 7,
        "tool_calls"@.len() == 10,
        "reasoning_content"@.len() == 17,
        "tool_call_id"@.len() == 12,
        "user"@ != "assistant"@,
        "tool"@ != "assistant"@,
        "system"@ != "assistant"@,
        "user"@ != "tool"@,
        "user"@ != "system"@,
        "tool"@ != "system"@,
        "tool"@ != "developer"@,
        "tool"@ != "user"@,
        "function_call"@ != "message"@,
        "function_call"@ != ""@,
        "function_call_output"@ != "message"@,
        "function_call_output"@ != ""@,
        "function_call_output"@ != "function_call"@,
        "reasoning"@ != "message"@,
        "reasoning"@ != ""@,
        "reasoning"@ != "function_call"@,
        "reasoning"@ != "function_call_output"@,
{
    reveal_strlit("role");
    reveal_strlit("content");
    reveal_strlit("tool_calls");
    reveal_strlit("reasoning_content");
    reveal_strlit("tool_call_id");
    reveal_strlit("user");
    reveal_strlit("tool");
    reveal_strlit("system");
    reveal_strlit("developer");
    reveal_strlit("assistant");
    reveal_strlit("function_call");
    reveal_strlit("function_call_output");
    reveal_strlit("message");
    reveal_strlit("reasoning");
    reveal_strlit("");
    assert("user"@[0] != "tool"@[0]);
    assert("user"@.len() == 4 && "tool"@.len() == 4 && "system"@.len() == 6);
    assert("assistant"@.len() == 9 && "developer"@.len() == 9);
    assert("function_call"@.len() == 13 && "function_call_output"@.len() == 20);
    assert("message"@.len() == 7 && "reasoning"@.len() == 9 && ""@.len() == 0);
}

/// Attaching the calls that wait changes nothing but messages of the assistant,
/// and loses no call.
proof fn lemma_flushed(state: InputView, role: Seq<char>)
    requires
        role != "assistant"@,
    ensures
        with_role(state.flushed().messages, role) == with_role(state.messages, role),
        calls_of(state.flushed().messages) == calls_of(state.messages) + state.calls,
        state.flushed().calls.len() == 0,
        only_assistants_call(state.messages) ==> only_assistants_call(state.flushed().messages),
{
    lemma_message_keys();
    let calls = JsonView::Array(state.calls);
    if state.calls.len() == 0 {
        assert(calls_of(state.messages) + state.calls =~= calls_of(state.messages));
    } else if state.messages.len() > 0 && takes_calls(state.messages.last()) {
        let rest = state.messages.drop_last();
        let last = state.messages.last();
        let message = with_reasoning(last.with("tool_calls"@, calls), state.reasoning);
        lemma_one_more(rest, message, role);
        lemma_one_more(rest, last, role);
        assert(rest.push(last) =~= state.messages);
        assert(last is Object);
        assert(message.text_at("role"@) == Some("assistant"@));
        assert(message_calls(message) == state.calls);
        assert(message_calls(last) =~= Seq::<JsonView>::empty());
        assert(calls_of(rest) + Seq::<JsonView>::empty() =~= calls_of(rest));
        if only_assistants_call(state.messages) {
            let after = state.flushed().messages;
            assert forall|i: int| 0 <= i < after.len() && is_system(
                #[trigger] after[i],
            ) implies message_calls(after[i]).len() == 0 by {
                assert(i < rest.len());
                assert(after[i] == state.messages[i]);
            }
        }
    } else {
        let message = with_reasoning(
            chat_message("assistant"@, JsonView::Text(""@)).with("tool_calls"@, calls),
            state.reasoning,
        );
        lemma_one_more(state.messages, message, role);
        assert(message.text_at("role"@) == Some("assistant"@));
        assert(message_calls(message) == state.calls);
        if only_assistants_call(state.messages) {
            let after = state.flushed().messages;
            assert forall|i: int| 0 <= i < after.len() && is_system(
                #[trigger] after[i],
            ) implies message_calls(after[i]).len() == 0 by {
                assert(i < state.messages.len());
                assert(after[i] == state.messages[i]);
            }
        }
    }
}

/// A message that is pushed after the calls that wait are attached.
proof fn lemma_flushed_and_pushed(state: InputView, message: JsonView, role: Seq<char>)
    requires
        role != "assistant"@,
        message_calls(message).len() == 0,
    ensures
        ({
            let after = state.flushed().push(message);
            &&& with_role(after.messages, role) == if message.text_at("role"@) == Some(role) {
                with_role(state.messages, role).push(message)
            } else {
                with_role(state.messages, role)
            }
            &&& calls_of(after.messages) + after.calls == calls_of(state.messages) + state.calls
            &&& only_assistants_call(state.messages) ==> only_assistants_call(after.messages)
        }),
{
    lemma_flushed(state, role);
    let flushed = state.flushed();
    let after = flushed.push(message);
    lemma_one_more(flushed.messages, message, role);
    assert(message_calls(message) =~= Seq::<JsonView>::empty());
    assert(after.calls =~= Seq::<JsonView>::empty());
    assert(calls_of(after.messages) + after.calls =~= calls_of(flushed.messages));
    if only_assistants_call(state.messages) {
        assert forall|i: int| 0 <= i < after.messages.len() && is_system(
            #[trigger] after.messages[i],
        ) implies message_calls(after.messages[i]).len() == 0 by {
            if i < flushed.messages.len() {
                assert(after.messages[i] == flushed.messages[i]);
            }
        }
    }
}

/// What is gathered from sound items.
proof fn lemma_gathered(start: InputView, items: Seq<JsonView>, known: Seq<EntryView>)
    requires
        items_problem(items) is None,
        holds_no_inner_calls(items),
        only_assistants_call(start.messages),
        with_role(start.messages, "user"@).len() == 0,
        with_role(start.messages, "tool"@).len() == 0,
        calls_of(start.messages).len() == 0,
        start.calls.len() == 0,
    ensures
        ({
            let state = gathered(start, items, known);
            &&& with_role(state.messages, "user"@) == user_turns(items, known)
            &&& with_role(state.messages, "tool"@) == tool_results(items)
            &&& calls_of(state.messages) + state.calls == called(items)
            &&& only_assistants_call(state.messages)
        }),
    decreases items.len(),
{
    lemma_message_keys();
    if items.len() == 0 {
        assert(with_role(start.messages, "user"@) =~= user_turns(items, known));
        assert(with_role(start.messages, "tool"@) =~= tool_results(items));
        assert(calls_of(start.messages) + start.calls =~= called(items));
    } else {
        let rest = items.drop_last();
        let item = items.last();
        assert forall|i: int| 0 <= i < rest.len() implies match (#[trigger] rest[i]).get(
            "content"@,
        ) {
            Some(content) => calls_in_content(content) is None,
            None => true,
        } by {
            assert(rest[i] == items[i]);
        }
        lemma_gathered(start, rest, known);
        let state = gathered(start, rest, known);
        assert(item_problem(item) is None);
        assert(items[items.len() - 1] == item);
        match item {
            JsonView::Text(text) => {
                let message = chat_message("user"@, JsonView::Text(text));
                assert(message.text_at("role"@) == Some("user"@));
                lemma_flushed_and_pushed(state, message, "user"@);
                lemma_flushed_and_pushed(state, message, "tool"@);
            },
            JsonView::Object(_) => {
                let kind = item_kind(item);
                if kind == "function_call"@ {
                    assert(calls_of(state.messages) + state.calls.push(chat_call(item))
                        =~= (calls_of(state.messages) + state.calls).push(chat_call(item)));
                } else if kind == "function_call_output"@ {
                    let message = tool_message(item);
                    assert(message.text_at("role"@) == Some("tool"@));
                    lemma_flushed_and_pushed(state, message, "user"@);
                    lemma_flushed_and_pushed(state, message, "tool"@);
                } else if kind == "message"@ || kind == ""@ {
                    let message = item_message(item, known);
                    assert(message.text_at("role"@) == Some(chat_role(item)));
                    assert(message_calls(message).len() == 0);
                    lemma_flushed_and_pushed(state, message, "user"@);
                    lemma_flushed_and_pushed(state, message, "tool"@);
                    assert(chat_role(item) != "tool"@);
                }
            },
            _ => {},
        }
    }
}

// ---------------------------------------------------------------------------
// Instructions
// ---------------------------------------------------------------------------

/// The instructions that are not blank, in their order.
pub open spec fn system_texts(messages: Seq<JsonView>) -> Seq<Seq<char>>
    decreases messages.len(),
{
    if messages.len() == 0 {
        Seq::empty()
    } else {
        let earlier = system_texts(messages.drop_last());
        if is_system(messages.last()) {
            match content::unless_blank(content::text_in(messages.last(), "content"@)) {
                Some(text) => earlier.push(text),
                None => earlier,
            }
        } else {
            earlier
        }
    }
}

/// Whether there is a system message.
pub open spec fn has_system(messages: Seq<JsonView>) -> bool {
    exists|i: int| 0 <= i < messages.len() && is_system(#[trigger] messages[i])
}

proof fn lemma_system_text(messages: Seq<JsonView>)
    ensures
        system_text(messages) == text::joined(system_texts(messages), "\n\n"@),
        system_text(messages).len() == 0 <==> system_texts(messages).len() == 0,
        text::blank(system_text(messages)) ==> system_text(messages).len() == 0,
    decreases messages.len(),
{
    if messages.len() > 0 {
        let rest = messages.drop_last();
        lemma_system_text(rest);
        let texts = system_texts(messages);
        let earlier = system_texts(rest);
        if texts.len() > earlier.len() {
            assert(texts.drop_last() =~= earlier);
            let last = texts.last();
            assert(!text::blank(last));
            let place = choose|i: int| 0 <= i < last.len() && !text::is_white_space(last[i]);
            let all = system_text(messages);
            assert(all[all.len() - last.len() + place] == last[place]);
            assert(!text::blank(all));
        }
    }
}

/// The messages but for the system ones hold the same of every other role, and
/// the same calls.
proof fn lemma_regular(messages: Seq<JsonView>, role: Seq<char>)
    requires
        role != "system"@,
        only_assistants_call(messages),
    ensures
        with_role(regular_messages(messages), role) == with_role(messages, role),
        calls_of(regular_messages(messages)) == calls_of(messages),
        system_text(regular_messages(messages)).len() == 0,
        !has_system(messages) ==> regular_messages(messages) == messages,
        !has_system(regular_messages(messages)),
    decreases messages.len(),
{
    reveal(Seq::filter);
    let keeps = |message: JsonView| !is_system(message);
    if messages.len() == 0 {
        assert(regular_messages(messages) =~= messages);
    } else {
        let rest = messages.drop_last();
        let last = messages.last();
        assert forall|i: int| 0 <= i < rest.len() && is_system(
            #[trigger] rest[i],
        ) implies message_calls(rest[i]).len() == 0 by {
            assert(rest[i] == messages[i]);
        }
        lemma_regular(rest, role);
        let kept = regular_messages(rest);
        assert(messages[messages.len() - 1] == last);
        if is_system(last) {
            assert(message_calls(last) =~= Seq::<JsonView>::empty());
            assert(calls_of(rest) + message_calls(last) =~= calls_of(rest));
            assert(regular_messages(messages) == kept);
        } else {
            lemma_one_more(kept, last, role);
            assert(regular_messages(messages) == kept.push(last));
            assert(kept.push(last).drop_last() =~= kept);
            if !has_system(messages) {
                assert forall|i: int| 0 <= i < rest.len() implies !is_system(
                    #[trigger] rest[i],
                ) by {
                    assert(rest[i] == messages[i]);
                }
                assert(rest.push(last) =~= messages);
            }
            assert forall|i: int| 0 <= i < kept.push(last).len() implies !is_system(
                #[trigger] kept.push(last)[i],
            ) by {
                if i < kept.len() {
                    assert(kept.push(last)[i] == kept[i]);
                }
            }
        }
    }
}

proof fn lemma_lead(lead: JsonView, messages: Seq<JsonView>, role: Seq<char>)
    requires
        lead.text_at("role"@) != Some(role),
        message_calls(lead).len() == 0,
    ensures
        with_role(seq![lead] + messages, role) == with_role(messages, role),
        calls_of(seq![lead] + messages) == calls_of(messages),
    decreases messages.len(),
{
    if messages.len() == 0 {
        let none = Seq::<JsonView>::empty();
        assert(messages =~= none);
        assert(seq![lead] + messages =~= none.push(lead));
        lemma_one_more(none, lead, role);
        assert(message_calls(lead) =~= none);
        assert(calls_of(none) + message_calls(lead) =~= none);
    } else {
        lemma_lead(lead, messages.drop_last(), role);
        assert((seq![lead] + messages).drop_last() =~= seq![lead] + messages.drop_last());
        assert((seq![lead] + messages).last() == messages.last());
    }
}

/// All instructions are joined in one message that leads, those that are not
/// blank, in their order, with a blank line between two of them. The other
/// messages follow as they were. Messages without instructions stay as they
/// are.
pub proof fn law_instructions_are_joined(messages: Seq<JsonView>)
    ensures
        if has_system(messages) {
            &&& normalized(messages).len() > 0
            &&& normalized(messages)[0] == chat_message(
                "system"@,
                JsonView::Text(text::joined(system_texts(messages), "\n\n"@)),
            )
            &&& normalized(messages).skip(1) == regular_messages(messages)
        } else {
            normalized(messages) == messages
        },
        forall|i: int|
            0 <= i < regular_messages(messages).len() ==> !is_system(
                #[trigger] regular_messages(messages)[i],
            ),
{
    lemma_system_text(messages);
    broadcast use vstd::seq_lib::group_filter_ensures;

    let keeps = |message: JsonView| !is_system(message);
    let regular = regular_messages(messages);
    assert forall|i: int| 0 <= i < regular.len() implies !is_system(#[trigger] regular[i]) by {
        assert(keeps(regular[i]));
    }
    if has_system(messages) {
        let lead = chat_message("system"@, JsonView::Text(system_text(messages)));
        assert((seq![lead] + regular).skip(1) =~= regular);
    } else {
        assert forall|i: int| 0 <= i < messages.len() implies keeps(#[trigger] messages[i]) by {
        }
        chat_request::lemma_filter_all(messages, keeps);
    }
}

proof fn lemma_text_of_lead(lead: JsonView, messages: Seq<JsonView>)
    requires
        is_system(lead),
        forall|i: int| 0 <= i < messages.len() ==> !is_system(#[trigger] messages[i]),
    ensures
        system_text(seq![lead] + messages) == match content::unless_blank(
            content::text_in(lead, "content"@),
        ) {
            Some(text) => text,
            None => Seq::empty(),
        },
    decreases messages.len(),
{
    let all = seq![lead] + messages;
    if messages.len() == 0 {
        assert(all.drop_last() =~= Seq::<JsonView>::empty());
        assert(all.last() == lead);
        assert(system_text(Seq::<JsonView>::empty()) =~= Seq::<char>::empty());
    } else {
        let rest = messages.drop_last();
        assert forall|i: int| 0 <= i < rest.len() implies !is_system(#[trigger] rest[i]) by {
            assert(rest[i] == messages[i]);
        }
        lemma_text_of_lead(lead, rest);
        assert(all.drop_last() =~= seq![lead] + rest);
        assert(!is_system(messages[messages.len() - 1]));
        assert(all.last() == messages.last());
    }
}

/// Joining the instructions a second time changes nothing.
pub proof fn law_joining_twice_is_joining_once(messages: Seq<JsonView>)
    ensures
        normalized(normalized(messages)) == normalized(messages),
{
    law_instructions_are_joined(messages);
    if has_system(messages) {
        lemma_joined_again(messages, regular_messages(messages), system_text(messages));
    }
}

proof fn lemma_joined_again(messages: Seq<JsonView>, regular: Seq<JsonView>, said: Seq<char>)
    requires
        has_system(messages),
        regular == regular_messages(messages),
        said == system_text(messages),
        forall|i: int| 0 <= i < regular.len() ==> !is_system(#[trigger] regular[i]),
    ensures
        normalized(normalized(messages)) == normalized(messages),
{
    lemma_message_keys();
    chat_request::law_regular_messages_are_kept(messages);
    lemma_system_text(messages);
    let lead = chat_message("system"@, JsonView::Text(said));
    let merged = seq![lead] + regular;
    assert(normalized(messages) == merged);
    assert(is_system(lead));
    assert(merged[0] == lead);
    assert(is_system(merged[0]));
    assert(has_system(merged));
    lemma_text_of_lead(lead, regular);
    assert(lead.get("content"@) == Some(JsonView::Text(said)));
    assert(content::text_in(lead, "content"@) == Some(said));
    if text::blank(said) {
        assert(said =~= Seq::<char>::empty());
    }
    assert(system_text(merged) == said);
    assert(normalized(merged) == seq![chat_message("system"@, JsonView::Text(said))] + regular);
}

// ---------------------------------------------------------------------------
// Nothing is dropped
// ---------------------------------------------------------------------------

/// Nothing of a sound input is dropped. The messages of the user, the results of
/// tools and the function calls of the request are those of its input, in their
/// order. Left out are inputs with calls inside the content of a message: those
/// become calls as well.
pub proof fn law_nothing_of_the_input_is_dropped(
    body: JsonView,
    items: Seq<JsonView>,
    known: Seq<EntryView>,
)
    requires
        request::request_problem(body) is None,
        body.get("input"@) == Some(JsonView::Array(items)),
        holds_no_inner_calls(items),
    ensures
        with_role(input_messages(body, known), "user"@) == user_turns(items, known),
        with_role(input_messages(body, known), "tool"@) == tool_results(items),
        calls_of(input_messages(body, known)) == called(items),
{
    lemma_message_keys();
    let none = Seq::<JsonView>::empty();
    let start = match content::unless_blank(body.text_at("instructions"@)) {
        Some(instructions) => InputView::new().push(
            chat_message("system"@, JsonView::Text(instructions)),
        ),
        None => InputView::new(),
    };
    if let Some(instructions) = content::unless_blank(body.text_at("instructions"@)) {
        let message = chat_message("system"@, JsonView::Text(instructions));
        assert(message.text_at("role"@) == Some("system"@));
        assert(message_calls(message) =~= none);
        lemma_one_more(none, message, "user"@);
        lemma_one_more(none, message, "tool"@);
        assert(start.messages =~= none.push(message));
        assert(calls_of(none) + message_calls(message) =~= none);
    }
    lemma_gathered(start, items, known);
    let state = gathered(start, items, known);
    lemma_flushed(state, "user"@);
    lemma_flushed(state, "tool"@);
    let raw = raw_messages(body, known);
    assert(raw == state.flushed().messages);
    lemma_regular(raw, "user"@);
    lemma_regular(raw, "tool"@);
    if has_system(raw) {
        let lead = chat_message("system"@, JsonView::Text(system_text(raw)));
        assert(lead.text_at("role"@) == Some("system"@));
        assert(message_calls(lead) =~= none);
        lemma_lead(lead, regular_messages(raw), "user"@);
        lemma_lead(lead, regular_messages(raw), "tool"@);
    }
}

} // verus!
