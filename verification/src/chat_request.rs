//! The Chat Completions request that stands for a Responses request.

use crate::content;
use crate::json;
use crate::json::{Json, JsonView};
use crate::reasoning;
use crate::reasoning::{EntryView, ReasoningStore};
use crate::request;
use crate::request::{identifier_of, is_function, kind_of};
use crate::text;
use crate::text::same_text;
use vstd::prelude::*;

verus! {

// ---------------------------------------------------------------------------
// Message contents
// ---------------------------------------------------------------------------

pub open spec fn or_empty(text: Option<Seq<char>>) -> Seq<char> {
    match text {
        Some(text) => text,
        None => ""@,
    }
}

pub fn or_blank(text: Option<&str>) -> (found: &str)
    ensures
        found@ == or_empty(text::text_of(text)),
{
    match text {
        Some(text) => text,
        None => "",
    }
}

/// A content part that holds text.
pub open spec fn text_part(text: Seq<char>) -> JsonView {
    json::empty_object().with("type"@, JsonView::Text("text"@)).with("text"@, JsonView::Text(text))
}

fn make_text_part(text: &str) -> (part: Json)
    ensures
        part@ == text_part(text@),
{
    Json::object().with("type", Json::text("text")).with("text", Json::text(text))
}

/// A content part that shows an image.
pub open spec fn image_part(part: JsonView) -> JsonView {
    let detail = match part.get("detail"@) {
        Some(detail) => detail,
        None => JsonView::Text("auto"@),
    };
    let image = json::empty_object().with(
        "url"@,
        JsonView::Text(or_empty(part.text_at("image_url"@))),
    ).with("detail"@, detail);
    json::empty_object().with("type"@, JsonView::Text("image_url"@)).with("image_url"@, image)
}

fn make_image_part(part: &Json) -> (image: Json)
    ensures
        image@ == image_part(part@),
{
    let detail = match part.get("detail") {
        Some(detail) => detail.duplicate(),
        None => Json::text("auto"),
    };
    let image = Json::object().with("url", Json::text(or_blank(part.text_at("image_url")))).with(
        "detail",
        detail,
    );
    Json::object().with("type", Json::text("image_url")).with("image_url", image)
}

/// The Chat form of a content part; nothing for a part that has none.
pub open spec fn chat_part(part: JsonView) -> Option<JsonView> {
    match part {
        JsonView::Object(_) => {
            let kind = match part.text_at("type"@) {
                Some(kind) => kind,
                None => "text"@,
            };
            if kind == "input_text"@ || kind == "output_text"@ || kind == "text"@ {
                match part.text_at("text"@) {
                    Some(text) => Some(text_part(text)),
                    None => None,
                }
            } else if kind == "input_image"@ {
                Some(image_part(part))
            } else if kind == "refusal"@ {
                match part.text_at("refusal"@) {
                    Some(text) => Some(text_part(text)),
                    None => None,
                }
            } else {
                None
            }
        },
        _ => None,
    }
}

fn part_to_chat(part: &Json) -> (converted: Option<Json>)
    ensures
        match converted {
            Some(converted) => chat_part(part@) == Some(converted@),
            None => chat_part(part@) is None,
        },
{
    if !part.is_object() {
        return None;
    }
    let kind = match part.text_at("type") {
        Some(kind) => kind,
        None => "text",
    };
    if same_text(kind, "input_text") || same_text(kind, "output_text") || same_text(kind, "text") {
        match part.text_at("text") {
            Some(text) => Some(make_text_part(text)),
            None => None,
        }
    } else if same_text(kind, "input_image") {
        Some(make_image_part(part))
    } else if same_text(kind, "refusal") {
        match part.text_at("refusal") {
            Some(text) => Some(make_text_part(text)),
            None => None,
        }
    } else {
        None
    }
}

/// The Chat forms of the parts that have one, in their order.
pub open spec fn chat_parts(parts: Seq<JsonView>) -> Seq<JsonView>
    decreases parts.len(),
{
    if parts.len() == 0 {
        Seq::empty()
    } else {
        match chat_part(parts.last()) {
            Some(part) => chat_parts(parts.drop_last()).push(part),
            None => chat_parts(parts.drop_last()),
        }
    }
}

/// The Chat content of a Responses message content: text stays text, a
/// single text part becomes text, several parts stay a list.
pub open spec fn chat_content(content: JsonView) -> JsonView {
    match content {
        JsonView::Text(text) => JsonView::Text(text),
        JsonView::Array(parts) => {
            let converted = chat_parts(parts);
            if converted.len() == 1 && converted[0].text_at("text"@) is Some {
                JsonView::Text(converted[0].text_at("text"@)->0)
            } else if converted.len() == 0 {
                JsonView::Text(Seq::empty())
            } else {
                JsonView::Array(converted)
            }
        },
        _ => JsonView::Text(Seq::empty()),
    }
}

/// The Chat content of a Responses message content.
pub fn message_content_to_chat(content: &Json) -> (converted: Json)
    ensures
        converted@ == chat_content(content@),
{
    match content {
        Json::Text(text) => Json::Text(text.clone()),
        Json::Array(parts) => {
            let mut converted: Vec<Json> = Vec::new();
            let ghost views = json::items_view(parts@);
            proof {
                json::lemma_items_view(parts@);
            }
            assert(views.take(0) =~= Seq::<JsonView>::empty());
            for index in 0..parts.len()
                invariant
                    views.len() == parts.len(),
                    forall|i: int| 0 <= i < parts.len() ==> #[trigger] views[i] == parts[i]@,
                    json::items_view(converted@) == chat_parts(views.take(index as int)),
            {
                let part = part_to_chat(&parts[index]);
                proof {
                    assert(views[index as int] == parts[index as int]@);
                    assert(views.take(index + 1).drop_last() =~= views.take(index as int));
                    assert(views.take(index + 1).last() == views[index as int]);
                }
                if let Some(part) = part {
                    proof {
                        json::lemma_items_view_push(converted@, part);
                    }
                    converted.push(part);
                }
            }
            assert(views.take(parts.len() as int) =~= views);
            proof {
                json::lemma_items_view(converted@);
            }
            if converted.len() == 1 {
                assert(json::items_view(converted@)[0] == converted[0]@);
                if let Some(text) = converted[0].text_at("text") {
                    return Json::text(text);
                }
            }
            if converted.len() == 0 {
                Json::Text(String::new())
            } else {
                Json::Array(converted)
            }
        },
        _ => Json::Text(String::new()),
    }
}

// ---------------------------------------------------------------------------
// Tools and tool calls
// ---------------------------------------------------------------------------

/// A Chat tool call out of a Responses function call.
pub open spec fn chat_call(item: JsonView) -> JsonView {
    let arguments = match item.text_at("arguments"@) {
        Some(arguments) => arguments,
        None => "{}"@,
    };
    let function = json::empty_object().with(
        "name"@,
        JsonView::Text(or_empty(item.text_at("name"@))),
    ).with("arguments"@, JsonView::Text(arguments));
    json::empty_object().with(
        "id"@,
        JsonView::Text(or_empty(request::call_identifier(item))),
    ).with("type"@, JsonView::Text("function"@)).with("function"@, function)
}

fn call_to_chat(item: &Json) -> (call: Json)
    ensures
        call@ == chat_call(item@),
{
    let arguments = match item.text_at("arguments") {
        Some(arguments) => arguments,
        None => "{}",
    };
    let function = Json::object().with("name", Json::text(or_blank(item.text_at("name")))).with(
        "arguments",
        Json::text(arguments),
    );
    Json::object().with("id", Json::text(or_blank(identifier_of(item)))).with(
        "type",
        Json::text("function"),
    ).with("function", function)
}

/// The calls among the content parts of a message.
pub open spec fn content_calls(parts: Seq<JsonView>) -> Seq<JsonView>
    decreases parts.len(),
{
    if parts.len() == 0 {
        Seq::empty()
    } else if parts.last() is Object && parts.last().text_at("type"@) == Some("function_call"@) {
        content_calls(parts.drop_last()).push(chat_call(parts.last()))
    } else {
        content_calls(parts.drop_last())
    }
}

/// The calls that a message carries inside its content, if there are any.
pub open spec fn calls_in_content(content: JsonView) -> Option<JsonView> {
    match content {
        JsonView::Array(parts) => if content_calls(parts).len() == 0 {
            None
        } else {
            Some(JsonView::Array(content_calls(parts)))
        },
        _ => None,
    }
}

/// The calls that a message carries inside its content.
pub fn extract_tool_calls_from_content(content: &Json) -> (calls: Option<Json>)
    ensures
        match calls {
            Some(calls) => calls_in_content(content@) == Some(calls@),
            None => calls_in_content(content@) is None,
        },
{
    let parts = match content.as_array() {
        Some(parts) => parts,
        None => return None,
    };
    let mut calls: Vec<Json> = Vec::new();
    let ghost views = json::items_view(parts@);
    proof {
        json::lemma_items_view(parts@);
    }
    assert(views.take(0) =~= Seq::<JsonView>::empty());
    for index in 0..parts.len()
        invariant
            views.len() == parts.len(),
            forall|i: int| 0 <= i < parts.len() ==> #[trigger] views[i] == parts[i]@,
            json::items_view(calls@) == content_calls(views.take(index as int)),
    {
        let part = &parts[index];
        proof {
            assert(views[index as int] == part@);
            assert(views.take(index + 1).drop_last() =~= views.take(index as int));
            assert(views.take(index + 1).last() == views[index as int]);
        }
        let is_call = match part.text_at("type") {
            Some(kind) => same_text(kind, "function_call"),
            None => false,
        };
        if part.is_object() && is_call {
            let call = call_to_chat(part);
            proof {
                json::lemma_items_view_push(calls@, call);
            }
            calls.push(call);
        }
    }
    assert(views.take(parts.len() as int) =~= views);
    proof {
        json::lemma_items_view(calls@);
    }
    if calls.len() == 0 {
        None
    } else {
        Some(Json::Array(calls))
    }
}

/// The object with the text member `key` of `source`, where it has one.
pub open spec fn with_text_of(object: JsonView, source: JsonView, key: Seq<char>) -> JsonView {
    match source.text_at(key) {
        Some(text) => object.with(key, JsonView::Text(text)),
        None => object,
    }
}

fn copy_text(object: Json, source: &Json, key: &str) -> (copy: Json)
    ensures
        copy@ == with_text_of(object@, source@, key@),
{
    match source.text_at(key) {
        Some(text) => object.with(key, Json::text(text)),
        None => object,
    }
}

/// The object with the member `key` of `source`, where it has one.
pub open spec fn with_member_of(object: JsonView, source: JsonView, key: Seq<char>) -> JsonView {
    match source.get(key) {
        Some(value) => object.with(key, value),
        None => object,
    }
}

fn copy_member(object: Json, source: &Json, key: &str) -> (copy: Json)
    ensures
        copy@ == with_member_of(object@, source@, key@),
{
    match source.get(key) {
        Some(value) => object.with(key, value.duplicate()),
        None => object,
    }
}

/// The object with the member `key` of `source`, where it has one that is
/// not null.
pub open spec fn with_value_of(object: JsonView, source: JsonView, key: Seq<char>) -> JsonView {
    match source.get(key) {
        Some(value) => if value is Null {
            object
        } else {
            object.with(key, value)
        },
        None => object,
    }
}

pub fn copy_value(object: Json, source: &Json, key: &str) -> (copy: Json)
    ensures
        copy@ == with_value_of(object@, source@, key@),
{
    match source.get(key) {
        Some(value) => if value.is_null() {
            object
        } else {
            object.with(key, value.duplicate())
        },
        None => object,
    }
}

/// The nested Chat form of a flat Responses function tool. Its schema and its
/// strictness stay as they are.
pub open spec fn chat_tool(tool: JsonView) -> JsonView {
    let function = with_value_of(
        with_member_of(
            with_text_of(with_text_of(json::empty_object(), tool, "name"@), tool, "description"@),
            tool,
            "parameters"@,
        ),
        tool,
        "strict"@,
    );
    json::empty_object().with("type"@, JsonView::Text("function"@)).with("function"@, function)
}

fn tool_to_chat(tool: &Json) -> (converted: Json)
    ensures
        converted@ == chat_tool(tool@),
{
    let function = copy_text(Json::object(), tool, "name");
    let function = copy_text(function, tool, "description");
    let function = copy_member(function, tool, "parameters");
    let function = copy_value(function, tool, "strict");
    Json::object().with("type", Json::text("function")).with("function", function)
}

/// The Chat forms of the function tools, in their order.
pub open spec fn chat_tools(tools: Seq<JsonView>) -> Seq<JsonView>
    decreases tools.len(),
{
    if tools.len() == 0 {
        Seq::empty()
    } else if request::is_function_tool(tools.last()) {
        chat_tools(tools.drop_last()).push(chat_tool(tools.last()))
    } else {
        chat_tools(tools.drop_last())
    }
}

/// Converts the function tools and leaves out the others.
pub fn convert_tools(tools: &Vec<Json>) -> (converted: Vec<Json>)
    ensures
        json::items_view(converted@) == chat_tools(json::items_view(tools@)),
        converted.len() == chat_tools(json::items_view(tools@)).len(),
{
    let mut converted: Vec<Json> = Vec::new();
    let ghost views = json::items_view(tools@);
    proof {
        json::lemma_items_view(tools@);
    }
    assert(views.take(0) =~= Seq::<JsonView>::empty());
    for index in 0..tools.len()
        invariant
            views.len() == tools.len(),
            forall|i: int| 0 <= i < tools.len() ==> #[trigger] views[i] == tools[i]@,
            json::items_view(converted@) == chat_tools(views.take(index as int)),
    {
        let tool = &tools[index];
        proof {
            assert(views[index as int] == tool@);
            assert(views.take(index + 1).drop_last() =~= views.take(index as int));
            assert(views.take(index + 1).last() == views[index as int]);
        }
        if is_function(tool) {
            let tool = tool_to_chat(tool);
            proof {
                json::lemma_items_view_push(converted@, tool);
            }
            converted.push(tool);
        }
    }
    assert(views.take(tools.len() as int) =~= views);
    proof {
        json::lemma_items_view(converted@);
    }
    converted
}

/// The Chat form of a tool choice.
pub open spec fn chat_choice(choice: JsonView) -> JsonView {
    match choice {
        JsonView::Text(value) => JsonView::Text(value),
        JsonView::Object(_) => if request::is_function_tool(choice) {
            let function = json::empty_object().with(
                "name"@,
                JsonView::Text(or_empty(choice.text_at("name"@))),
            );
            json::empty_object().with("type"@, JsonView::Text("function"@)).with(
                "function"@,
                function,
            )
        } else {
            JsonView::Text("auto"@)
        },
        _ => JsonView::Text("auto"@),
    }
}

/// The Chat form of a tool choice.
pub fn convert_tool_choice(choice: &Json) -> (converted: Json)
    ensures
        converted@ == chat_choice(choice@),
{
    match choice {
        Json::Text(value) => Json::Text(value.clone()),
        Json::Object(_) => if is_function(choice) {
            let function = Json::object().with(
                "name",
                Json::text(or_blank(choice.text_at("name"))),
            );
            Json::object().with("type", Json::text("function")).with("function", function)
        } else {
            Json::text("auto")
        },
        _ => Json::text("auto"),
    }
}

/// The texts of the parts that have a text of their own.
pub open spec fn part_texts(parts: Seq<JsonView>) -> Seq<Seq<char>>
    decreases parts.len(),
{
    if parts.len() == 0 {
        Seq::empty()
    } else {
        match parts.last().text_at("text"@) {
            Some(text) => part_texts(parts.drop_last()).push(text),
            None => part_texts(parts.drop_last()),
        }
    }
}

/// The text of a tool's output: parts stand on lines of their own.
pub open spec fn tool_output(output: JsonView) -> Seq<char> {
    match output {
        JsonView::Text(text) => text,
        JsonView::Array(parts) => text::joined(part_texts(parts), "\n"@),
        _ => Seq::empty(),
    }
}

/// The text of a tool's output.
pub fn output_to_text(output: &Json) -> (text: String)
    ensures
        text@ == tool_output(output@),
{
    match output {
        Json::Text(text) => text.clone(),
        Json::Array(parts) => {
            let mut lines: Vec<String> = Vec::new();
            let ghost views = json::items_view(parts@);
            proof {
                json::lemma_items_view(parts@);
            }
            assert(views.take(0) =~= Seq::<JsonView>::empty());
            assert(text::texts(lines@) =~= Seq::<Seq<char>>::empty());
            for index in 0..parts.len()
                invariant
                    views.len() == parts.len(),
                    forall|i: int| 0 <= i < parts.len() ==> #[trigger] views[i] == parts[i]@,
                    text::texts(lines@) == part_texts(views.take(index as int)),
            {
                proof {
                    assert(views[index as int] == parts[index as int]@);
                    assert(views.take(index + 1).drop_last() =~= views.take(index as int));
                    assert(views.take(index + 1).last() == views[index as int]);
                }
                if let Some(line) = parts[index].text_at("text") {
                    let line = line.to_owned();
                    assert(text::texts(lines@.push(line)) =~= text::texts(lines@).push(line@));
                    lines.push(line);
                }
            }
            assert(views.take(parts.len() as int) =~= views);
            text::join(&lines, "\n")
        },
        _ => String::new(),
    }
}

// ---------------------------------------------------------------------------
// Messages
// ---------------------------------------------------------------------------

/// The messages gathered so far, and the tool calls and the reasoning that
/// wait for the assistant message they belong to.
pub struct InputView {
    pub messages: Seq<JsonView>,
    pub calls: Seq<JsonView>,
    pub reasoning: Option<Seq<char>>,
}

struct InputState {
    messages: Vec<Json>,
    calls: Vec<Json>,
    reasoning: Option<String>,
}

impl View for InputState {
    type V = InputView;

    closed spec fn view(&self) -> InputView {
        InputView {
            messages: json::items_view(self.messages@),
            calls: json::items_view(self.calls@),
            reasoning: text::string_of(self.reasoning),
        }
    }
}

/// The message with its reasoning, where there is any.
pub open spec fn with_reasoning(message: JsonView, reasoning: Option<Seq<char>>) -> JsonView {
    match reasoning {
        Some(reasoning) => message.with("reasoning_content"@, JsonView::Text(reasoning)),
        None => message,
    }
}

fn add_reasoning(message: Json, reasoning: Option<&str>) -> (complete: Json)
    ensures
        complete@ == with_reasoning(message@, text::text_of(reasoning)),
{
    match reasoning {
        Some(reasoning) => message.with("reasoning_content", Json::text(reasoning)),
        None => message,
    }
}

/// A message with a role and a content.
pub open spec fn chat_message(role: Seq<char>, content: JsonView) -> JsonView {
    json::empty_object().with("role"@, JsonView::Text(role)).with("content"@, content)
}

fn make_message(role: &str, content: Json) -> (message: Json)
    ensures
        message@ == chat_message(role@, content@),
{
    Json::object().with("role", Json::text(role)).with("content", content)
}

/// Whether a message can take the calls that wait: it is an assistant message
/// without calls of its own.
pub open spec fn takes_calls(message: JsonView) -> bool {
    message.text_at("role"@) == Some("assistant"@) && !message.has("tool_calls"@)
}

impl InputView {
    /// Nothing gathered yet.
    pub open spec fn new() -> InputView {
        InputView { messages: Seq::empty(), calls: Seq::empty(), reasoning: None }
    }

    pub open spec fn push(self, message: JsonView) -> InputView {
        InputView { messages: self.messages.push(message), ..self }
    }

    /// The waiting calls attached to the assistant message before them, or
    /// else to an assistant message of their own.
    pub open spec fn flushed(self) -> InputView {
        let calls = JsonView::Array(self.calls);
        let messages = if self.calls.len() == 0 {
            self.messages
        } else if self.messages.len() > 0 && takes_calls(self.messages.last()) {
            self.messages.drop_last().push(
                with_reasoning(self.messages.last().with("tool_calls"@, calls), self.reasoning),
            )
        } else {
            self.messages.push(
                with_reasoning(
                    chat_message("assistant"@, JsonView::Text(""@)).with("tool_calls"@, calls),
                    self.reasoning,
                ),
            )
        };
        InputView { messages, calls: Seq::empty(), reasoning: None }
    }

    /// The state after a function call: the call waits, with the reasoning
    /// that is remembered for its item or, failing that, for its call.
    pub open spec fn with_call(self, item: JsonView, known: Seq<EntryView>) -> InputView {
        let reasoning = match self.reasoning {
            Some(reasoning) => Some(reasoning),
            None => match recalled_for(item, "id"@, known) {
                Some(reasoning) => Some(reasoning),
                None => recalled_for(item, "call_id"@, known),
            },
        };
        InputView { messages: self.messages, calls: self.calls.push(chat_call(item)), reasoning }
    }

    /// The state after one more input item.
    pub open spec fn after(self, item: JsonView, known: Seq<EntryView>) -> InputView {
        match item {
            JsonView::Text(text) => self.flushed().push(
                chat_message("user"@, JsonView::Text(text)),
            ),
            JsonView::Object(_) => {
                let kind = request::item_kind(item);
                if kind == "function_call"@ {
                    self.with_call(item, known)
                } else if kind == "function_call_output"@ {
                    self.flushed().push(tool_message(item))
                } else if kind == "message"@ || kind == ""@ {
                    self.flushed().push(item_message(item, known))
                } else {
                    self
                }
            },
            _ => self,
        }
    }
}

/// The reasoning that is remembered for the identifier in the member `key`.
pub open spec fn recalled_for(
    item: JsonView,
    key: Seq<char>,
    known: Seq<EntryView>,
) -> Option<Seq<char>> {
    match item.text_at(key) {
        Some(id) => reasoning::recalled(known, id),
        None => None,
    }
}

fn recall<'a>(item: &Json, key: &str, store: &'a ReasoningStore) -> (found: Option<&'a str>)
    ensures
        text::text_of(found) == recalled_for(item@, key@, store@),
{
    match item.text_at(key) {
        Some(id) => store.get(id),
        None => None,
    }
}

/// The message that carries the output of a tool.
pub open spec fn tool_message(item: JsonView) -> JsonView {
    let output = match item.get("output"@) {
        Some(output) => tool_output(output),
        None => Seq::empty(),
    };
    json::empty_object().with("role"@, JsonView::Text("tool"@)).with(
        "tool_call_id"@,
        JsonView::Text(or_empty(item.text_at("call_id"@))),
    ).with("content"@, JsonView::Text(output))
}

fn make_tool_message(item: &Json) -> (message: Json)
    ensures
        message@ == tool_message(item@),
{
    let output = match item.get("output") {
        Some(output) => output_to_text(output),
        None => String::new(),
    };
    Json::object().with("role", Json::text("tool")).with(
        "tool_call_id",
        Json::text(or_blank(item.text_at("call_id"))),
    ).with("content", Json::Text(output))
}

/// The Chat role of a message item. Developers speak as the system.
pub open spec fn chat_role(item: JsonView) -> Seq<char> {
    match item.text_at("role"@) {
        Some(role) => if role == "developer"@ {
            "system"@
        } else {
            role
        },
        None => "user"@,
    }
}

/// The Chat message of a message item.
pub open spec fn item_message(item: JsonView, known: Seq<EntryView>) -> JsonView {
    let content = match item.get("content"@) {
        Some(content) => content,
        None => JsonView::Null,
    };
    let plain = chat_message(chat_role(item), chat_content(content));
    let remembered = if chat_role(item) == "assistant"@ {
        with_reasoning(plain, recalled_for(item, "id"@, known))
    } else {
        plain
    };
    match calls_in_content(content) {
        Some(calls) => remembered.with("tool_calls"@, calls),
        None => remembered,
    }
}

fn make_item_message(item: &Json, store: &ReasoningStore) -> (message: Json)
    ensures
        message@ == item_message(item@, store@),
{
    let role = match item.text_at("role") {
        Some(role) => if same_text(role, "developer") {
            "system"
        } else {
            role
        },
        None => "user",
    };
    let missing = Json::Null;
    let content = match item.get("content") {
        Some(content) => content,
        None => &missing,
    };
    let mut message = make_message(role, message_content_to_chat(content));
    if same_text(role, "assistant") {
        message = add_reasoning(message, recall(item, "id", store));
    }
    match extract_tool_calls_from_content(content) {
        Some(calls) => message.with("tool_calls", calls),
        None => message,
    }
}

impl InputState {
    fn push(&mut self, message: Json)
        ensures
            final(self)@ == old(self)@.push(message@),
    {
        proof {
            json::lemma_items_view_push(self.messages@, message);
        }
        self.messages.push(message);
    }

    /// Attaches the waiting calls to an assistant message.
    fn flush_tool_calls(&mut self)
        ensures
            final(self)@ == old(self)@.flushed(),
    {
        proof {
            json::lemma_items_view(self.messages@);
            json::lemma_items_view(self.calls@);
        }
        let reasoning = self.reasoning.take();
        if self.calls.len() == 0 {
            assert(json::items_view(self.calls@) =~= Seq::<JsonView>::empty());
            return;
        }
        let mut calls: Vec<Json> = Vec::new();
        std::mem::swap(&mut calls, &mut self.calls);
        let calls = Json::Array(calls);
        assert(json::items_view(self.calls@) =~= Seq::<JsonView>::empty());
        let reasoning = match &reasoning {
            Some(reasoning) => Some(reasoning.as_str()),
            None => None,
        };
        if self.messages.len() > 0 {
            let last: usize = self.messages.len() - 1;
            let is_assistant = match self.messages[last].text_at("role") {
                Some(role) => same_text(role, "assistant"),
                None => false,
            };
            assert(json::items_view(self.messages@).last() == self.messages[last as int]@);
            if is_assistant && !self.messages[last].has("tool_calls") {
                let ghost before = self.messages@;
                let message = self.messages.pop().unwrap();
                assert(json::items_view(before).drop_last() =~= json::items_view(self.messages@));
                let message = add_reasoning(message.with("tool_calls", calls), reasoning);
                proof {
                    json::lemma_items_view_push(self.messages@, message);
                }
                self.messages.push(message);
                return;
            }
        }
        let message = make_message("assistant", Json::text("")).with("tool_calls", calls);
        let message = add_reasoning(message, reasoning);
        self.push(message);
    }

    fn add_call(&mut self, item: &Json, store: &ReasoningStore)
        ensures
            final(self)@ == old(self)@.with_call(item@, store@),
    {
        let call = call_to_chat(item);
        proof {
            json::lemma_items_view_push(self.calls@, call);
        }
        self.calls.push(call);
        if self.reasoning.is_none() {
            let by_item = recall(item, "id", store);
            let found = match by_item {
                Some(reasoning) => Some(reasoning),
                None => recall(item, "call_id", store),
            };
            if let Some(reasoning) = found {
                self.reasoning = Some(reasoning.to_owned());
            }
        }
    }

    fn take_item(&mut self, item: &Json, store: &ReasoningStore)
        ensures
            final(self)@ == old(self)@.after(item@, store@),
    {
        match item {
            Json::Text(text) => {
                self.flush_tool_calls();
                self.push(make_message("user", Json::text(text.as_str())));
            },
            Json::Object(_) => {
                let kind = kind_of(item);
                if same_text(kind, "function_call") {
                    self.add_call(item, store);
                } else if same_text(kind, "function_call_output") {
                    self.flush_tool_calls();
                    self.push(make_tool_message(item));
                } else if same_text(kind, "message") || same_text(kind, "") {
                    self.flush_tool_calls();
                    self.push(make_item_message(item, store));
                }
            },
            _ => {},
        }
    }
}

/// The state after a list of input items.
pub open spec fn gathered(
    start: InputView,
    items: Seq<JsonView>,
    known: Seq<EntryView>,
) -> InputView
    decreases items.len(),
{
    if items.len() == 0 {
        start
    } else {
        gathered(start, items.drop_last(), known).after(items.last(), known)
    }
}

/// The messages of a request before the system messages are merged.
pub open spec fn raw_messages(body: JsonView, known: Seq<EntryView>) -> Seq<JsonView> {
    let start = match content::unless_blank(body.text_at("instructions"@)) {
        Some(instructions) => InputView::new().push(
            chat_message("system"@, JsonView::Text(instructions)),
        ),
        None => InputView::new(),
    };
    match body.get("input"@) {
        Some(JsonView::Text(text)) => start.push(
            chat_message("user"@, JsonView::Text(text)),
        ).messages,
        Some(JsonView::Array(items)) => gathered(start, items, known).flushed().messages,
        _ => start.messages,
    }
}

/// Whether a message gives instructions to the model.
pub open spec fn is_system(message: JsonView) -> bool {
    message.text_at("role"@) == Some("system"@)
}

/// The instructions of all system messages, in their order, a blank line
/// between two of them.
pub open spec fn system_text(messages: Seq<JsonView>) -> Seq<char>
    decreases messages.len(),
{
    if messages.len() == 0 {
        Seq::empty()
    } else {
        let earlier = system_text(messages.drop_last());
        if is_system(messages.last()) {
            match content::unless_blank(content::text_in(messages.last(), "content"@)) {
                Some(text) => if earlier.len() == 0 {
                    text
                } else {
                    earlier + "\n\n"@ + text
                },
                None => earlier,
            }
        } else {
            earlier
        }
    }
}

/// The messages that are not system messages, in their order.
pub open spec fn regular_messages(messages: Seq<JsonView>) -> Seq<JsonView> {
    messages.filter(|message: JsonView| !is_system(message))
}

/// The messages with every instruction merged into one leading system
/// message.
pub open spec fn normalized(messages: Seq<JsonView>) -> Seq<JsonView> {
    if exists|i: int| 0 <= i < messages.len() && is_system(#[trigger] messages[i]) {
        seq![chat_message("system"@, JsonView::Text(system_text(messages)))] + regular_messages(
            messages,
        )
    } else {
        regular_messages(messages)
    }
}

/// Merges every system message into one that leads.
pub fn normalize_system_messages(messages: Vec<Json>) -> (merged: Vec<Json>)
    ensures
        json::items_view(merged@) == normalized(json::items_view(messages@)),
{
    let mut system_content = String::new();
    let mut regular: Vec<Json> = Vec::new();
    let mut had_system = false;
    let ghost views = json::items_view(messages@);
    let ghost keeps = |message: JsonView| !is_system(message);
    proof {
        json::lemma_items_view(messages@);
    }
    assert(views.take(0) =~= Seq::<JsonView>::empty());
    assert(views.take(0).filter(keeps) =~= Seq::<JsonView>::empty()) by {
        reveal(Seq::filter);
    }
    for index in 0..messages.len()
        invariant
            views.len() == messages.len(),
            keeps == (|message: JsonView| !is_system(message)),
            forall|i: int| 0 <= i < messages.len() ==> #[trigger] views[i] == messages[i]@,
            had_system == exists|i: int| 0 <= i < index && is_system(#[trigger] views[i]),
            system_content@ == system_text(views.take(index as int)),
            json::items_view(regular@) == views.take(index as int).filter(keeps),
    {
        let message = &messages[index];
        proof {
            assert(views[index as int] == message@);
            assert(views.take(index + 1).drop_last() =~= views.take(index as int));
            assert(views.take(index + 1).last() == views[index as int]);
            assert(views.take(index + 1).filter(keeps) == if keeps(message@) {
                views.take(index as int).filter(keeps).push(message@)
            } else {
                views.take(index as int).filter(keeps)
            }) by {
                reveal(Seq::filter);
            }
        }
        let speaks_as_system = match message.text_at("role") {
            Some(role) => same_text(role, "system"),
            None => false,
        };
        if speaks_as_system {
            had_system = true;
            let text = content::keep_unless_blank(content::text_within(message, "content"));
            if let Some(text) = text {
                if !system_content.as_str().is_empty() {
                    system_content.append("\n\n");
                } else {
                    assert(system_content@ =~= Seq::<char>::empty());
                    assert(system_content@ + text@ =~= text@);
                }
                system_content.append(text.as_str());
            }
        } else {
            let copy = message.duplicate();
            proof {
                json::lemma_items_view_push(regular@, copy);
            }
            regular.push(copy);
        }
    }
    assert(views.take(messages.len() as int) =~= views);
    if had_system {
        let merged = make_message("system", Json::Text(system_content));
        let mut all: Vec<Json> = Vec::new();
        all.push(merged);
        let ghost tail = regular@;
        proof {
            json::lemma_items_view(all@);
            json::lemma_items_view(tail);
            json::lemma_items_view(all@ + tail);
            assert(json::items_view(all@ + tail) =~= seq![merged@] + json::items_view(tail));
        }
        all.append(&mut regular);
        all
    } else {
        regular
    }
}

/// The messages of a request.
pub open spec fn input_messages(body: JsonView, known: Seq<EntryView>) -> Seq<JsonView> {
    normalized(raw_messages(body, known))
}

/// The messages of a request, with the reasoning that the store remembers
/// for them.
pub fn input_to_messages(body: &Json, store: &ReasoningStore) -> (messages: Vec<Json>)
    ensures
        json::items_view(messages@) == input_messages(body@, store@),
{
    let mut state = InputState { messages: Vec::new(), calls: Vec::new(), reasoning: None };
    proof {
        json::lemma_items_view(state.messages@);
        json::lemma_items_view(state.calls@);
    }
    assert(state@.messages =~= Seq::<JsonView>::empty());
    assert(state@.calls =~= Seq::<JsonView>::empty());
    assert(state@ == InputView::new());
    if let Some(instructions) = body.text_at("instructions") {
        if !text::is_blank(instructions) {
            state.push(make_message("system", Json::text(instructions)));
        }
    }
    let ghost start = state@;
    match body.get("input") {
        Some(Json::Text(text)) => {
            state.push(make_message("user", Json::text(text.as_str())));
        },
        Some(Json::Array(items)) => {
            let ghost views = json::items_view(items@);
            proof {
                json::lemma_items_view(items@);
            }
            assert(views.take(0) =~= Seq::<JsonView>::empty());
            for index in 0..items.len()
                invariant
                    views.len() == items.len(),
                    forall|i: int| 0 <= i < items.len() ==> #[trigger] views[i] == items[i]@,
                    state@ == gathered(start, views.take(index as int), store@),
            {
                proof {
                    assert(views[index as int] == items[index as int]@);
                    assert(views.take(index + 1).drop_last() =~= views.take(index as int));
                    assert(views.take(index + 1).last() == views[index as int]);
                }
                state.take_item(&items[index], store);
            }
            assert(views.take(items.len() as int) =~= views);
            state.flush_tool_calls();
        },
        _ => {},
    }
    assert(state@.messages == raw_messages(body@, store@));
    normalize_system_messages(state.messages)
}

/// The identifiers that an input item may be remembered by.
pub open spec fn names_item(item: JsonView, id: Seq<char>) -> bool {
    item is Object && (item.text_at("id"@) == Some(id) || item.text_at("call_id"@) == Some(id))
}

/// Whether any of the items may be remembered by an identifier.
pub open spec fn names_any_item(items: Seq<JsonView>, id: Seq<char>) -> bool {
    exists|i: int| 0 <= i < items.len() && #[trigger] names_item(items[i], id)
}

/// Whether two memories say the same of every identifier of the items.
pub open spec fn agree_on(
    items: Seq<JsonView>,
    one: Seq<EntryView>,
    other: Seq<EntryView>,
) -> bool {
    forall|i: int, id: Seq<char>|
        0 <= i < items.len() && #[trigger] names_item(items[i], id) ==> reasoning::recalled(one, id)
            == reasoning::recalled(other, id)
}

proof fn lemma_gathered_agrees(
    start: InputView,
    items: Seq<JsonView>,
    one: Seq<EntryView>,
    other: Seq<EntryView>,
)
    requires
        agree_on(items, one, other),
    ensures
        gathered(start, items, one) == gathered(start, items, other),
    decreases items.len(),
{
    if items.len() > 0 {
        let rest = items.drop_last();
        assert forall|i: int, id: Seq<char>|
            0 <= i < rest.len() && #[trigger] names_item(rest[i], id) implies reasoning::recalled(
            one,
            id,
        ) == reasoning::recalled(other, id) by {
            assert(names_item(items[i], id));
        }
        lemma_gathered_agrees(start, rest, one, other);
        let item = items.last();
        if item is Object {
            if let Some(id) = item.text_at("id"@) {
                assert(names_item(items[items.len() - 1], id));
            }
            if let Some(id) = item.text_at("call_id"@) {
                assert(names_item(items[items.len() - 1], id));
            }
        }
    }
}

/// The messages of a request depend on nothing in the memory but what it
/// says of the identifiers in the input.
pub proof fn law_messages_need_only_their_own_reasoning(
    body: JsonView,
    one: Seq<EntryView>,
    other: Seq<EntryView>,
)
    requires
        body.array_at("input"@) matches Some(items) ==> agree_on(items, one, other),
    ensures
        input_messages(body, one) == input_messages(body, other),
{
    if let Some(JsonView::Array(items)) = body.get("input"@) {
        assert(body.array_at("input"@) == Some(items));
        let start = match content::unless_blank(body.text_at("instructions"@)) {
            Some(instructions) => InputView::new().push(
                chat_message("system"@, JsonView::Text(instructions)),
            ),
            None => InputView::new(),
        };
        lemma_gathered_agrees(start, items, one, other);
    }
}

/// The part of the memory that a request needs.
pub fn reasoning_lookup_for_body(body: &Json, store: &ReasoningStore) -> (part: ReasoningStore)
    requires
        store.wf(),
    ensures
        part.wf(),
        body@.array_at("input"@) matches Some(items) ==> agree_on(items, part@, store@),
        forall|id: Seq<char>| #[trigger]
            part.recalls(id) == store.recalls(id) || part.recalls(id) is None,
        body@.array_at("input"@) is None ==> forall|id: Seq<char>| #[trigger]
            part.recalls(id) is None,
        body@.array_at("input"@) matches Some(items) ==> forall|id: Seq<char>| #[trigger]
            part.recalls(id) is Some ==> names_any_item(items, id),
{
    let mut ids: Vec<String> = Vec::new();
    assert(text::texts(ids@) =~= Seq::<Seq<char>>::empty());
    if let Some(items) = body.array_at("input") {
        let ghost views = json::items_view(items@);
        proof {
            json::lemma_items_view(items@);
        }
        for index in 0..items.len()
            invariant
                views.len() == items.len(),
                forall|i: int| 0 <= i < items.len() ==> #[trigger] views[i] == items[i]@,
                forall|i: int, id: Seq<char>|
                    0 <= i < index && #[trigger] names_item(views[i], id) ==> text::texts(
                        ids@,
                    ).contains(id),
                forall|id: Seq<char>| #[trigger]
                    text::texts(ids@).contains(id) ==> names_any_item(
                        views.take(index as int),
                        id,
                    ),
        {
            let item = &items[index];
            assert(views[index as int] == item@);
            let ghost start = ids@;
            if item.is_object() {
                if let Some(id) = item.text_at("id") {
                    push_text(&mut ids, id);
                    assert(names_item(views[index as int], id@));
                }
                if let Some(id) = item.text_at("call_id") {
                    push_text(&mut ids, id);
                    assert(names_item(views[index as int], id@));
                }
            }
            assert forall|id: Seq<char>| #[trigger]
                text::texts(ids@).contains(id) implies names_any_item(
                views.take(index + 1),
                id,
            ) by {
                if text::texts(start).contains(id) {
                    let earlier = views.take(index as int);
                    let i = choose|i: int|
                        0 <= i < earlier.len() && #[trigger] names_item(earlier[i], id);
                    assert(names_item(views.take(index + 1)[i], id));
                } else {
                    assert(names_item(views.take(index + 1)[index as int], id));
                }
            }
        }
        assert(views.take(items.len() as int) =~= views);
        let part = store.subset(&ids);
        assert(agree_on(views, part@, store@)) by {
            assert forall|i: int, id: Seq<char>|
                0 <= i < views.len() && #[trigger] names_item(
                    views[i],
                    id,
                ) implies reasoning::recalled(part@, id) == reasoning::recalled(store@, id) by {
                assert(part.recalls(id) == store.recalls(id));
            }
        }
        assert forall|id: Seq<char>| #[trigger] part.recalls(id) is Some implies names_any_item(
            views,
            id,
        ) by {
            assert(text::texts(ids@).contains(id));
        }
        part
    } else {
        store.subset(&ids)
    }
}

/// Adds a text to a list.
fn push_text(list: &mut Vec<String>, text: &str)
    ensures
        text::texts(final(list)@) == text::texts(old(list)@).push(text@),
        forall|id: Seq<char>| #[trigger]
            text::texts(final(list)@).contains(id) <==> text::texts(old(list)@).contains(id) || id
                == text@,
{
    let ghost before = text::texts(list@);
    let text = text.to_owned();
    list.push(text);
    let ghost after = text::texts(list@);
    assert(after =~= before.push(text@));
    assert forall|id: Seq<char>| #[trigger] after.contains(id) <==> before.contains(id) || id
        == text@ by {
        if before.contains(id) {
            let i = choose|i: int| 0 <= i < before.len() && before[i] == id;
            assert(after[i] == id);
        }
        if id == text@ {
            assert(after[before.len() as int] == id);
        }
        if after.contains(id) {
            let i = choose|i: int| 0 <= i < after.len() && after[i] == id;
            if i < before.len() {
                assert(before[i] == id);
            }
        }
    }
}

// ---------------------------------------------------------------------------
// The whole request
// ---------------------------------------------------------------------------

/// The request with what a stream needs: the usage at its end.
pub open spec fn with_stream(chat: JsonView, body: JsonView) -> JsonView {
    if body.bool_at("stream"@) == Some(true) {
        chat.with("stream"@, JsonView::Bool(true)).with(
            "stream_options"@,
            json::empty_object().with("include_usage"@, JsonView::Bool(true)),
        )
    } else {
        chat
    }
}

fn add_stream(chat: Json, body: &Json) -> (complete: Json)
    ensures
        complete@ == with_stream(chat@, body@),
{
    if let Some(true) = body.bool_at("stream") {
        chat.with("stream", Json::Bool(true)).with(
            "stream_options",
            Json::object().with("include_usage", Json::Bool(true)),
        )
    } else {
        chat
    }
}

/// The request with its function tools. Without any, no member that speaks
/// of tools is sent, and neither is the default choice.
pub open spec fn with_tools(chat: JsonView, body: JsonView) -> JsonView {
    let tools = chat_tools(request::request_tools(body));
    if tools.len() == 0 {
        chat
    } else {
        let equipped = with_member_of(
            chat.with("tools"@, JsonView::Array(tools)),
            body,
            "parallel_tool_calls"@,
        );
        match body.get("tool_choice"@) {
            Some(choice) => if chat_choice(choice) == JsonView::Text("auto"@) {
                equipped
            } else {
                equipped.with("tool_choice"@, chat_choice(choice))
            },
            None => equipped,
        }
    }
}

fn add_tools(chat: Json, body: &Json) -> (complete: Json)
    ensures
        complete@ == with_tools(chat@, body@),
{
    let tools = match body.array_at("tools") {
        Some(tools) => convert_tools(tools),
        None => return chat,
    };
    if tools.len() == 0 {
        return chat;
    }
    let chat = copy_member(
        chat.with("tools", Json::Array(tools)),
        body,
        "parallel_tool_calls",
    );
    match body.get("tool_choice") {
        Some(choice) => {
            let choice = convert_tool_choice(choice);
            let is_default = match choice.as_str() {
                Some(value) => same_text(value, "auto"),
                None => false,
            };
            if is_default {
                chat
            } else {
                chat.with("tool_choice", choice)
            }
        },
        None => chat,
    }
}

/// The request with its reasoning effort.
pub open spec fn with_effort(chat: JsonView, body: JsonView) -> JsonView {
    match body.get_in("reasoning"@, "effort"@) {
        Some(JsonView::Text(effort)) => if effort.len() == 0 {
            chat
        } else {
            chat.with("reasoning_effort"@, JsonView::Text(effort))
        },
        _ => chat,
    }
}

fn add_effort(chat: Json, body: &Json) -> (complete: Json)
    ensures
        complete@ == with_effort(chat@, body@),
{
    if let Some(effort) = body.get_in("reasoning", "effort") {
        if let Some(effort) = effort.as_str() {
            if !effort.is_empty() {
                return chat.with("reasoning_effort", Json::text(effort));
            }
        }
    }
    chat
}

/// The Chat form of an output format, where it has one.
pub open spec fn response_format(format: JsonView) -> Option<JsonView> {
    let kind = format.text_at("type"@);
    if kind == Some("json_schema"@) {
        let schema = with_member_of(
            with_member_of(
                with_member_of(
                    with_member_of(json::empty_object(), format, "name"@),
                    format,
                    "schema"@,
                ),
                format,
                "strict"@,
            ),
            format,
            "description"@,
        );
        Some(
            json::empty_object().with("type"@, JsonView::Text("json_schema"@)).with(
                "json_schema"@,
                schema,
            ),
        )
    } else if kind == Some("json_object"@) {
        Some(json::empty_object().with("type"@, JsonView::Text("json_object"@)))
    } else {
        None
    }
}

fn format_to_chat(format: &Json) -> (converted: Option<Json>)
    ensures
        match converted {
            Some(converted) => response_format(format@) == Some(converted@),
            None => response_format(format@) is None,
        },
{
    let kind = match format.text_at("type") {
        Some(kind) => kind,
        None => return None,
    };
    if same_text(kind, "json_schema") {
        let schema = copy_member(Json::object(), format, "name");
        let schema = copy_member(schema, format, "schema");
        let schema = copy_member(schema, format, "strict");
        let schema = copy_member(schema, format, "description");
        Some(
            Json::object().with("type", Json::text("json_schema")).with("json_schema", schema),
        )
    } else if same_text(kind, "json_object") {
        Some(Json::object().with("type", Json::text("json_object")))
    } else {
        None
    }
}

/// The request with its output format.
pub open spec fn with_format(chat: JsonView, body: JsonView) -> JsonView {
    match body.get_in("text"@, "format"@) {
        Some(format) => match response_format(format) {
            Some(converted) => chat.with("response_format"@, converted),
            None => chat,
        },
        None => chat,
    }
}

fn add_format(chat: Json, body: &Json) -> (complete: Json)
    ensures
        complete@ == with_format(chat@, body@),
{
    if let Some(format) = body.get_in("text", "format") {
        if let Some(converted) = format_to_chat(format) {
            return chat.with("response_format", converted);
        }
    }
    chat
}

/// The request with its limit on the answer's length.
pub open spec fn with_limit(chat: JsonView, body: JsonView) -> JsonView {
    match body.get("max_output_tokens"@) {
        Some(limit) => chat.with("max_completion_tokens"@, limit),
        None => chat,
    }
}

/// The Chat request that stands for a Responses request.
pub open spec fn chat_body(body: JsonView, known: Seq<EntryView>) -> JsonView {
    let start = with_member_of(json::empty_object(), body, "model"@).with(
        "messages"@,
        JsonView::Array(input_messages(body, known)),
    );
    let limited = with_limit(with_tools(with_stream(start, body), body), body);
    let tuned = with_value_of(
        with_value_of(
            with_value_of(
                with_value_of(with_value_of(limited, body, "temperature"@), body, "top_p"@),
                body,
                "store"@,
            ),
            body,
            "metadata"@,
        ),
        body,
        "user"@,
    );
    with_format(with_effort(tuned, body), body)
}

/// The Chat request that stands for a Responses request.
pub fn responses_to_chat_body(body: &Json, store: &ReasoningStore) -> (chat: Json)
    requires
        store.wf(),
    ensures
        chat@ == chat_body(body@, store@),
{
    let part = reasoning_lookup_for_body(body, store);
    proof {
        law_messages_need_only_their_own_reasoning(body@, part@, store@);
    }
    let messages = input_to_messages(body, &part);
    let chat = copy_member(Json::object(), body, "model").with("messages", Json::Array(messages));
    let chat = add_tools(add_stream(chat, body), body);
    let chat = match body.get("max_output_tokens") {
        Some(limit) => chat.with("max_completion_tokens", limit.duplicate()),
        None => chat,
    };
    let chat = copy_value(chat, body, "temperature");
    let chat = copy_value(chat, body, "top_p");
    let chat = copy_value(chat, body, "store");
    let chat = copy_value(chat, body, "metadata");
    let chat = copy_value(chat, body, "user");
    add_format(add_effort(chat, body), body)
}

// ---------------------------------------------------------------------------
// Structured output as an instruction
// ---------------------------------------------------------------------------

/// The texts of a list; items of another kind are left out.
pub open spec fn text_items(items: Seq<JsonView>) -> Seq<Seq<char>>
    decreases items.len(),
{
    if items.len() == 0 {
        Seq::empty()
    } else {
        match items.last().as_text() {
            Some(text) => text_items(items.drop_last()).push(text),
            None => text_items(items.drop_last()),
        }
    }
}

/// The fields that a schema asks for. Without a `required` list every field
/// is optional.
pub open spec fn required_names(schema: JsonView) -> Seq<Seq<char>> {
    match schema.array_at("required"@) {
        Some(items) => text_items(items),
        None => Seq::empty(),
    }
}

/// The fields that a schema asks for.
pub fn required_fields(schema: &Json) -> (names: Vec<String>)
    ensures
        text::texts(names@) == required_names(schema@),
{
    let mut names: Vec<String> = Vec::new();
    assert(text::texts(names@) =~= Seq::<Seq<char>>::empty());
    let items = match schema.array_at("required") {
        Some(items) => items,
        None => return names,
    };
    let ghost views = json::items_view(items@);
    proof {
        json::lemma_items_view(items@);
    }
    assert(views.take(0) =~= Seq::<JsonView>::empty());
    for index in 0..items.len()
        invariant
            views.len() == items.len(),
            forall|i: int| 0 <= i < items.len() ==> #[trigger] views[i] == items[i]@,
            text::texts(names@) == text_items(views.take(index as int)),
    {
        proof {
            assert(views[index as int] == items[index as int]@);
            assert(views.take(index + 1).drop_last() =~= views.take(index as int));
            assert(views.take(index + 1).last() == views[index as int]);
        }
        if let Some(name) = items[index].as_str() {
            push_text(&mut names, name);
        }
    }
    assert(views.take(items.len() as int) =~= views);
    names
}

/// The schema that a Chat request asks the answer to follow.
pub open spec fn requested_schema(chat: JsonView) -> Option<JsonView> {
    match chat.get_in("response_format"@, "json_schema"@) {
        Some(format) => format.get("schema"@),
        None => None,
    }
}

/// The schema that a Chat request asks the answer to follow.
pub fn schema_of(chat: &Json) -> (schema: Option<&Json>)
    ensures
        json::json_of(schema) == requested_schema(chat@),
{
    match chat.get_in("response_format", "json_schema") {
        Some(format) => format.get("schema"),
        None => None,
    }
}

/// The schema as text, indented where it can be.
pub open spec fn schema_text(schema: JsonView) -> Seq<char> {
    match json::pretty_text(schema) {
        Some(text) => text,
        None => or_empty(json::compact_text(schema)),
    }
}

/// What a model is told to answer with.
pub open spec fn json_instruction(schema: Option<JsonView>) -> Seq<char> {
    let plain =
        "You MUST respond with ONLY a single valid JSON object. Do not wrap it in markdown code fences, do not add any explanation, preamble, or trailing text before or after the JSON object."@;
    match schema {
        Some(schema) => if schema is Null {
            plain
        } else {
            let names = required_names(schema);
            let opening = plain
                + "\nThe JSON object MUST conform exactly to the following JSON Schema:"@;
            let listed = if names.len() == 0 {
                opening
            } else {
                opening
                    + "\nThe object MUST include every one of these top-level fields: "@
                    + text::joined(names, ", "@)
                    + ".\nDo not omit any field; use the exact field names and value types defined by the schema."@
            };
            listed + "\n"@ + schema_text(schema)
        },
        None => plain,
    }
}

fn make_instruction(schema: Option<&Json>) -> (instruction: String)
    ensures
        instruction@ == json_instruction(json::json_of(schema)),
{
    let mut instruction =
        "You MUST respond with ONLY a single valid JSON object. Do not wrap it in markdown code fences, do not add any explanation, preamble, or trailing text before or after the JSON object.".to_owned();
    if let Some(schema) = schema {
        if schema.is_null() {
            return instruction;
        }
        instruction.append("\nThe JSON object MUST conform exactly to the following JSON Schema:");
        let names = required_fields(schema);
        assert(text::texts(names@).len() == names.len());
        if names.len() > 0 {
            instruction.append(
                "\nThe object MUST include every one of these top-level fields: ",
            );
            instruction.append(text::join(&names, ", ").as_str());
            instruction.append(
                ".\nDo not omit any field; use the exact field names and value types defined by the schema.",
            );
        }
        instruction.append("\n");
        let rendered = match schema.render_pretty() {
            Some(rendered) => rendered,
            None => match schema.render() {
                Some(rendered) => rendered,
                None => "".to_owned(),
            },
        };
        instruction.append(rendered.as_str());
    }
    instruction
}

/// A system message with one more instruction at its end.
pub open spec fn instructed(message: JsonView, instruction: Seq<char>) -> JsonView {
    message.with(
        "content"@,
        match message.get("content"@) {
            Some(JsonView::Text(text)) => JsonView::Text(text + "\n\n"@ + instruction),
            Some(JsonView::Array(parts)) => JsonView::Array(parts.push(text_part(instruction))),
            _ => JsonView::Text(instruction),
        },
    )
}

fn instruct(message: &Json, instruction: &str) -> (complete: Json)
    ensures
        complete@ == instructed(message@, instruction@),
{
    let content = match message.get("content") {
        Some(Json::Text(text)) => {
            let mut text = text.clone();
            text.append("\n\n");
            text.append(instruction);
            Json::Text(text)
        },
        Some(Json::Array(parts)) => {
            let mut copies: Vec<Json> = Vec::new();
            let ghost views = json::items_view(parts@);
            proof {
                json::lemma_items_view(parts@);
            }
            assert(views.take(0) =~= json::items_view(copies@));
            for index in 0..parts.len()
                invariant
                    views.len() == parts.len(),
                    forall|i: int| 0 <= i < parts.len() ==> #[trigger] views[i] == parts[i]@,
                    json::items_view(copies@) == views.take(index as int),
            {
                let copy = parts[index].duplicate();
                proof {
                    json::lemma_items_view_push(copies@, copy);
                    assert(views[index as int] == copy@);
                    assert(views.take(index + 1) =~= views.take(index as int).push(copy@));
                }
                copies.push(copy);
            }
            assert(views.take(parts.len() as int) =~= views);
            let part = make_text_part(instruction);
            proof {
                json::lemma_items_view_push(copies@, part);
            }
            copies.push(part);
            Json::Array(copies)
        },
        _ => Json::text(instruction),
    };
    message.duplicate().with("content", content)
}

/// The position of the first system message; the number of messages where
/// there is none.
pub open spec fn first_system(messages: Seq<JsonView>) -> int
    decreases messages.len(),
{
    if messages.len() == 0 || is_system(messages[0]) {
        0
    } else {
        1 + first_system(messages.drop_first())
    }
}

proof fn lemma_first_system(messages: Seq<JsonView>, position: int)
    requires
        0 <= position <= messages.len(),
        position < messages.len() ==> is_system(messages[position]),
        forall|i: int| 0 <= i < position ==> !is_system(#[trigger] messages[i]),
    ensures
        first_system(messages) == position,
    decreases messages.len(),
{
    if messages.len() > 0 && position > 0 {
        assert(!is_system(messages[0]));
        let rest = messages.drop_first();
        assert forall|i: int| 0 <= i < position - 1 implies !is_system(#[trigger] rest[i]) by {
            assert(!is_system(messages[i + 1]));
        }
        lemma_first_system(rest, position - 1);
    }
}

/// The messages with an instruction: at the end of the first system message,
/// or in a system message that leads.
pub open spec fn instructed_messages(
    messages: Seq<JsonView>,
    instruction: Seq<char>,
) -> Seq<JsonView> {
    let position = first_system(messages);
    if position < messages.len() {
        messages.update(position, instructed(messages[position], instruction))
    } else {
        seq![chat_message("system"@, JsonView::Text(instruction))] + messages
    }
}

fn instruct_messages(messages: &Vec<Json>, instruction: &str) -> (complete: Vec<Json>)
    ensures
        json::items_view(complete@) == instructed_messages(
            json::items_view(messages@),
            instruction@,
        ),
{
    let ghost views = json::items_view(messages@);
    proof {
        json::lemma_items_view(messages@);
    }
    let mut position: usize = 0;
    while position < messages.len() && !has_system_role(&messages[position])
        invariant
            position <= messages.len(),
            views.len() == messages.len(),
            forall|i: int| 0 <= i < messages.len() ==> #[trigger] views[i] == messages[i]@,
            forall|i: int| 0 <= i < position ==> !is_system(#[trigger] views[i]),
        decreases messages.len() - position,
    {
        assert(views[position as int] == messages[position as int]@);
        position = position + 1;
    }
    proof {
        if position < messages.len() {
            assert(views[position as int] == messages[position as int]@);
        }
        lemma_first_system(views, position as int);
    }
    let mut complete: Vec<Json> = Vec::new();
    if position >= messages.len() {
        complete.push(make_message("system", Json::text(instruction)));
    }
    let lead: usize = complete.len();
    proof {
        json::lemma_items_view(complete@);
        assert(json::items_view(complete@) =~= instructed_messages(views, instruction@).take(
            lead as int,
        ));
    }
    for index in 0..messages.len()
        invariant
            views.len() == messages.len(),
            forall|i: int| 0 <= i < messages.len() ==> #[trigger] views[i] == messages[i]@,
            position == first_system(views),
            lead == (if position < messages.len() {
                0int
            } else {
                1int
            }),
            json::items_view(complete@) == instructed_messages(views, instruction@).take(
                lead + index,
            ),
    {
        let message = if index == position {
            instruct(&messages[index], instruction)
        } else {
            messages[index].duplicate()
        };
        proof {
            assert(views[index as int] == messages[index as int]@);
            json::lemma_items_view_push(complete@, message);
            let whole = instructed_messages(views, instruction@);
            assert(whole[lead + index] == message@);
            assert(whole.take(lead + index + 1) =~= whole.take(lead + index).push(message@));
        }
        complete.push(message);
    }
    assert(instructed_messages(views, instruction@).take(lead + messages.len())
        =~= instructed_messages(views, instruction@));
    complete
}

fn has_system_role(message: &Json) -> (answer: bool)
    ensures
        answer == is_system(message@),
{
    match message.text_at("role") {
        Some(role) => same_text(role, "system"),
        None => false,
    }
}

/// A Chat request for a provider that knows no `response_format`: the format
/// becomes an instruction.
pub open spec fn degraded(chat: JsonView) -> JsonView {
    let plain = chat.without("response_format"@);
    match plain.array_at("messages"@) {
        Some(messages) => plain.with(
            "messages"@,
            JsonView::Array(
                instructed_messages(messages, json_instruction(requested_schema(chat))),
            ),
        ),
        None => plain,
    }
}

/// Turns the `response_format` of a Chat request into an instruction.
pub fn degrade_structured_output(chat: &Json) -> (plain: Json)
    ensures
        plain@ == degraded(chat@),
{
    let mut plain = chat.duplicate();
    plain.remove("response_format");
    let instruction = make_instruction(schema_of(chat));
    let messages = match plain.array_at("messages") {
        Some(messages) => instruct_messages(messages, instruction.as_str()),
        None => return plain,
    };
    plain.with("messages", Json::Array(messages))
}

// ---------------------------------------------------------------------------
// Laws
// ---------------------------------------------------------------------------

/// However many instructions a request holds, the provider gets at most one
/// system message, and it leads.
pub proof fn law_one_leading_system_message(
    body: JsonView,
    known: Seq<EntryView>,
    position: int,
)
    requires
        0 <= position < input_messages(body, known).len(),
        is_system(input_messages(body, known)[position]),
    ensures
        position == 0,
{
    let messages = raw_messages(body, known);
    let keeps = |message: JsonView| !is_system(message);
    broadcast use vstd::seq_lib::group_filter_ensures;

    let regular = regular_messages(messages);
    let merged = normalized(messages);
    if position > 0 {
        let lead = merged.len() - regular.len();
        assert(merged[position] == regular[position - lead]);
        assert(keeps(regular[position - lead]));
    } else if merged.len() == regular.len() {
        assert(keeps(regular[0]));
    }
}

/// No message is lost or moved when the instructions are merged: those that
/// are not system messages keep their order and their content.
pub proof fn law_regular_messages_are_kept(messages: Seq<JsonView>)
    ensures
        regular_messages(normalized(messages)) == regular_messages(messages),
{
    let keeps = |message: JsonView| !is_system(message);
    broadcast use vstd::seq_lib::group_filter_ensures;

    let regular = regular_messages(messages);
    lemma_filter_all(regular, keeps);
    if exists|i: int| 0 <= i < messages.len() && is_system(#[trigger] messages[i]) {
        let lead = chat_message("system"@, JsonView::Text(system_text(messages)));
        lemma_role_of_message("system"@, JsonView::Text(system_text(messages)));
        Seq::filter_distributes_over_add(seq![lead], regular, keeps);
        assert(seq![lead].filter(keeps) =~= Seq::<JsonView>::empty()) by {
            reveal_with_fuel(Seq::filter, 2);
            assert(seq![lead].drop_last() =~= Seq::<JsonView>::empty());
        }
        assert(Seq::<JsonView>::empty() + regular =~= regular);
    }
}

proof fn lemma_role_of_message(role: Seq<char>, content: JsonView)
    ensures
        chat_message(role, content).text_at("role"@) == Some(role),
{
    reveal_strlit("role");
    reveal_strlit("content");
    assert("role"@ != "content"@) by {
        assert("role"@.len() != "content"@.len());
    }
}

/// A filter that every item passes keeps all of them.
pub proof fn lemma_filter_all(items: Seq<JsonView>, keeps: spec_fn(JsonView) -> bool)
    requires
        forall|i: int| 0 <= i < items.len() ==> keeps(#[trigger] items[i]),
    ensures
        items.filter(keeps) == items,
    decreases items.len(),
{
    reveal(Seq::filter);
    if items.len() > 0 {
        lemma_filter_all(items.drop_last(), keeps);
        assert(items.drop_last().push(items.last()) =~= items);
    }
}

/// Every function tool of a request reaches the provider, each in its place
/// among the function tools, and nothing else does.
pub proof fn law_function_tools_are_all_converted(tools: Seq<JsonView>)
    ensures
        chat_tools(tools) == tools.filter(
            |tool: JsonView| request::is_function_tool(tool),
        ).map_values(|tool: JsonView| chat_tool(tool)),
    decreases tools.len(),
{
    reveal(Seq::filter);
    let wanted = |tool: JsonView| request::is_function_tool(tool);
    let convert = |tool: JsonView| chat_tool(tool);
    if tools.len() > 0 {
        law_function_tools_are_all_converted(tools.drop_last());
        let earlier = tools.drop_last().filter(wanted);
        assert(earlier.push(tools.last()).map_values(convert) =~= earlier.map_values(convert).push(
            chat_tool(tools.last()),
        ));
    } else {
        assert(tools.filter(wanted).map_values(convert) =~= Seq::<JsonView>::empty());
    }
}

/// A request that was degraded asks for no `response_format` any more.
pub proof fn law_degraded_request_has_no_format(chat: JsonView)
    ensures
        !degraded(chat).has("response_format"@),
{
    reveal_strlit("response_format");
    reveal_strlit("messages");
    assert("response_format"@.len() != "messages"@.len());
}

/// Degrading a request leaves everything but its format and its messages as
/// it was.
pub proof fn law_degrading_keeps_other_members(chat: JsonView, key: Seq<char>)
    requires
        key != "response_format"@,
        key != "messages"@,
    ensures
        degraded(chat).get(key) == chat.get(key),
{
}

/// A tool choice that forces a function, on a request that can be served,
/// names a tool that the provider is given.
pub proof fn law_forced_function_is_offered(body: JsonView, name: Seq<char>)
    requires
        request::request_problem(body) is None,
        body.get("tool_choice"@) matches Some(choice) && choice.text_at("name"@) == Some(name),
    ensures
        exists|i: int|
            0 <= i < chat_tools(request::request_tools(body)).len() && (#[trigger] chat_tools(
                request::request_tools(body),
            )[i]).get_in("function"@, "name"@) == Some(JsonView::Text(name)),
{
    let tools = request::request_tools(body);
    assert(request::names_function(tools, name));
    let i = choose|i: int|
        0 <= i < tools.len() && request::is_function_tool(#[trigger] tools[i]) && tools[i].text_at(
            "name"@,
        ) == Some(name);
    lemma_tool_is_offered(tools, i, name);
}

proof fn lemma_tool_is_offered(tools: Seq<JsonView>, position: int, name: Seq<char>)
    requires
        0 <= position < tools.len(),
        request::is_function_tool(tools[position]),
        tools[position].text_at("name"@) == Some(name),
    ensures
        exists|i: int|
            0 <= i < chat_tools(tools).len() && (#[trigger] chat_tools(tools)[i]).get_in(
                "function"@,
                "name"@,
            ) == Some(JsonView::Text(name)),
    decreases tools.len(),
{
    let earlier = chat_tools(tools.drop_last());
    if position == tools.len() - 1 {
        let tool = tools[position];
        lemma_converted_name(tool, name);
        let all = chat_tools(tools);
        assert(all[earlier.len() as int] == chat_tool(tool));
    } else {
        lemma_tool_is_offered(tools.drop_last(), position, name);
        let i = choose|i: int|
            0 <= i < earlier.len() && (#[trigger] earlier[i]).get_in("function"@, "name"@) == Some(
                JsonView::Text(name),
            );
        assert(chat_tools(tools)[i] == earlier[i]);
    }
}

proof fn lemma_converted_name(tool: JsonView, name: Seq<char>)
    requires
        tool.text_at("name"@) == Some(name),
    ensures
        chat_tool(tool).get_in("function"@, "name"@) == Some(JsonView::Text(name)),
{
    reveal_strlit("name");
    reveal_strlit("description");
    reveal_strlit("parameters");
    reveal_strlit("strict");
    assert("name"@.len() == 4);
    assert("description"@.len() == 11);
    assert("parameters"@.len() == 10);
    assert("strict"@.len() == 6);
}

} // verus!
