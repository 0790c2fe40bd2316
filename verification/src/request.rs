//! Responses API requests, and which of them can be served.

use crate::json;
use crate::json::{Json, JsonView};
use crate::text;
use crate::text::same_text;
use vstd::prelude::*;

verus! {

/// Whether a document is a tool of the kind that Chat Completions knows.
pub open spec fn is_function_tool(tool: JsonView) -> bool {
    tool.text_at("type"@) == Some("function"@)
}

pub fn is_function(tool: &Json) -> (answer: bool)
    ensures
        answer == is_function_tool(tool@),
{
    match tool.text_at("type") {
        Some(kind) => same_text(kind, "function"),
        None => false,
    }
}

/// Whether the text member `key` is missing or empty.
pub open spec fn lacks_text(value: JsonView, key: Seq<char>) -> bool {
    match value.text_at(key) {
        Some(text) => text.len() == 0,
        None => true,
    }
}

fn lacks(value: &Json, key: &str) -> (answer: bool)
    ensures
        answer == lacks_text(value@, key@),
{
    match value.text_at(key) {
        Some(text) => text.is_empty(),
        None => true,
    }
}

/// The first problem of two.
pub open spec fn first_problem(
    first: Option<Seq<char>>,
    second: Option<Seq<char>>,
) -> Option<Seq<char>> {
    match first {
        Some(problem) => Some(problem),
        None => second,
    }
}

/// What is wrong with the model of a request.
pub open spec fn model_problem(body: JsonView) -> Option<Seq<char>> {
    match body.text_at("model"@) {
        Some(model) => if text::blank(model) || text::byte_count(model) > 512 {
            Some("Responses 请求缺少有效的 model。"@)
        } else {
            None
        },
        None => Some("Responses 请求缺少有效的 model。"@),
    }
}

/// What is wrong with the stream flag of a request.
pub open spec fn stream_problem(body: JsonView) -> Option<Seq<char>> {
    match body.get("stream"@) {
        Some(value) => if value is Bool {
            None
        } else {
            Some("Responses stream 必须是布尔值。"@)
        },
        None => None,
    }
}

/// Whether the member `key` is there and not null.
pub open spec fn is_set(body: JsonView, key: Seq<char>) -> bool {
    match body.get(key) {
        Some(value) => !(value is Null),
        None => false,
    }
}

/// Whether a request asks the server to keep state.
pub open spec fn state_problem(body: JsonView) -> Option<Seq<char>> {
    if is_set(body, "previous_response_id"@) || is_set(body, "conversation"@) || body.bool_at(
        "background"@,
    ) == Some(true) {
        Some("Chat Completions 转换不支持服务端会话状态，请发送完整 input 历史。"@)
    } else {
        None
    }
}

/// What is wrong with the output format of a request.
pub open spec fn format_problem(body: JsonView) -> Option<Seq<char>> {
    match body.get_in("text"@, "format"@) {
        None => None,
        Some(format) => match format.text_at("type"@) {
            None => None,
            Some(kind) => if kind == "text"@ || kind == "json_object"@ {
                None
            } else if kind == "json_schema"@ {
                match format.get("schema"@) {
                    None => Some("Responses text.format.json_schema 缺少 schema。"@),
                    Some(schema) => if !json::is_schema(schema) {
                        Some("Responses text.format 包含无效的 JSON Schema。"@)
                    } else if schema.text_at("type"@) != Some("object"@) {
                        Some("Responses 结构化输出仅支持 object 根 Schema。"@)
                    } else {
                        None
                    },
                }
            } else {
                Some("Chat Completions 转换不支持 text.format 类型："@ + kind + "。"@)
            },
        },
    }
}

/// What is wrong with one tool of a request.
pub open spec fn tool_problem(tool: JsonView) -> Option<Seq<char>> {
    if !is_function_tool(tool) {
        None
    } else if lacks_text(tool, "name"@) {
        Some("Responses function 工具缺少 name。"@)
    } else {
        match tool.get("parameters"@) {
            Some(parameters) => if json::is_schema(parameters) {
                None
            } else {
                Some("Responses function 工具包含无效的 parameters Schema。"@)
            },
            None => None,
        }
    }
}

/// The first problem of the tools, in their order.
pub open spec fn tools_problem(tools: Seq<JsonView>) -> Option<Seq<char>>
    decreases tools.len(),
{
    if tools.len() == 0 {
        None
    } else {
        first_problem(tools_problem(tools.drop_last()), tool_problem(tools.last()))
    }
}

/// Whether a function tool has the given name.
pub open spec fn names_function(tools: Seq<JsonView>, name: Seq<char>) -> bool {
    exists|i: int|
        0 <= i < tools.len() && is_function_tool(#[trigger] tools[i]) && tools[i].text_at(
            "name"@,
        ) == Some(name)
}

/// Whether any function tool has a name.
pub open spec fn names_any_function(tools: Seq<JsonView>) -> bool {
    exists|i: int|
        0 <= i < tools.len() && is_function_tool(#[trigger] tools[i]) && tools[i].text_at(
            "name"@,
        ) is Some
}

/// The tools of a request; none where they are not a list.
pub open spec fn request_tools(body: JsonView) -> Seq<JsonView> {
    match body.array_at("tools"@) {
        Some(tools) => tools,
        None => Seq::empty(),
    }
}

/// Whether a tool choice is of a kind that Chat Completions knows.
pub open spec fn is_supported_choice(choice: JsonView) -> bool {
    match choice {
        JsonView::Text(value) => value == "auto"@ || value == "none"@ || value == "required"@,
        JsonView::Object(_) => is_function_tool(choice) && !lacks_text(choice, "name"@),
        _ => false,
    }
}

/// What is wrong with the tool choice of a request.
pub open spec fn choice_problem(body: JsonView) -> Option<Seq<char>> {
    match body.get("tool_choice"@) {
        None => None,
        Some(choice) => if !is_supported_choice(choice) {
            Some("Chat Completions 转换不支持此 tool_choice。"@)
        } else if choice.as_text() == Some("required"@) && !names_any_function(
            request_tools(body),
        ) {
            Some("tool_choice=required，但没有可转换的 function 工具。"@)
        } else {
            match choice.text_at("name"@) {
                Some(name) => if names_function(request_tools(body), name) {
                    None
                } else {
                    Some("tool_choice 指定的 function 未出现在工具列表中。"@)
                },
                None => None,
            }
        },
    }
}

/// The identifier that a call goes by: its `call_id`, or else its `id`.
pub open spec fn call_identifier(item: JsonView) -> Option<Seq<char>> {
    match item.get("call_id"@) {
        Some(value) => value.as_text(),
        None => item.text_at("id"@),
    }
}

/// The kind of an input item. An item without one is a message.
pub open spec fn item_kind(item: JsonView) -> Seq<char> {
    match item.text_at("type"@) {
        Some(kind) => kind,
        None => "message"@,
    }
}

pub open spec fn is_known_role(role: Option<Seq<char>>) -> bool {
    match role {
        Some(role) => role == "system"@ || role == "developer"@ || role == "user"@ || role
            == "assistant"@,
        None => false,
    }
}

pub open spec fn is_message_content(content: Option<JsonView>) -> bool {
    match content {
        Some(content) => content is Text || content is Array || content is Null,
        None => false,
    }
}

/// What is wrong with one input item.
pub open spec fn item_problem(item: JsonView) -> Option<Seq<char>> {
    match item {
        JsonView::Text(_) => None,
        JsonView::Object(_) => {
            let kind = item_kind(item);
            if kind == "message"@ || kind == ""@ {
                if !is_known_role(item.text_at("role"@)) {
                    Some("Responses message 包含不支持的 role。"@)
                } else if !is_message_content(item.get("content"@)) {
                    Some("Responses message 缺少有效的 content。"@)
                } else {
                    None
                }
            } else if kind == "reasoning"@ {
                None
            } else if kind == "function_call"@ {
                let identifier = call_identifier(item);
                if identifier is None || identifier->0.len() == 0 || lacks_text(item, "name"@)
                    || item.text_at("arguments"@) is None {
                    Some("Responses function_call 缺少有效的 call_id、name 或 arguments。"@)
                } else {
                    None
                }
            } else if kind == "function_call_output"@ {
                if lacks_text(item, "call_id"@) {
                    Some("Responses function_call_output 缺少 call_id。"@)
                } else if !item.has("output"@) {
                    Some("Responses function_call_output 缺少 output。"@)
                } else {
                    None
                }
            } else {
                Some("Chat Completions 转换不支持 Responses input 类型："@ + kind + "。"@)
            }
        },
        _ => Some("Responses input 包含不支持的条目。"@),
    }
}

/// The first problem of the input items, in their order.
pub open spec fn items_problem(items: Seq<JsonView>) -> Option<Seq<char>>
    decreases items.len(),
{
    if items.len() == 0 {
        None
    } else {
        first_problem(items_problem(items.drop_last()), item_problem(items.last()))
    }
}

/// What is wrong with the input of a request.
pub open spec fn input_problem(body: JsonView) -> Option<Seq<char>> {
    match body.get("input"@) {
        None => None,
        Some(input) => match input {
            JsonView::Text(_) => None,
            JsonView::Array(items) => items_problem(items),
            _ => Some("Responses input 必须是字符串或条目数组。"@),
        },
    }
}

/// Why a request cannot be served; nothing where it can be.
pub open spec fn request_problem(body: JsonView) -> Option<Seq<char>> {
    first_problem(
        model_problem(body),
        first_problem(
            stream_problem(body),
            first_problem(
                state_problem(body),
                first_problem(
                    format_problem(body),
                    first_problem(
                        tools_problem(request_tools(body)),
                        first_problem(choice_problem(body), input_problem(body)),
                    ),
                ),
            ),
        ),
    )
}

fn check_model(body: &Json) -> (problem: Option<String>)
    ensures
        text::string_of(problem) == model_problem(body@),
{
    match body.text_at("model") {
        Some(model) => if text::is_blank(model) || text::byte_len(model) > 512 {
            Some("Responses 请求缺少有效的 model。".to_owned())
        } else {
            None
        },
        None => Some("Responses 请求缺少有效的 model。".to_owned()),
    }
}

fn check_stream(body: &Json) -> (problem: Option<String>)
    ensures
        text::string_of(problem) == stream_problem(body@),
{
    match body.get("stream") {
        Some(value) => if value.is_bool() {
            None
        } else {
            Some("Responses stream 必须是布尔值。".to_owned())
        },
        None => None,
    }
}

fn has_value(body: &Json, key: &str) -> (answer: bool)
    ensures
        answer == is_set(body@, key@),
{
    match body.get(key) {
        Some(value) => !value.is_null(),
        None => false,
    }
}

fn check_state(body: &Json) -> (problem: Option<String>)
    ensures
        text::string_of(problem) == state_problem(body@),
{
    let background = match body.bool_at("background") {
        Some(value) => value,
        None => false,
    };
    if has_value(body, "previous_response_id") || has_value(body, "conversation") || background {
        Some("Chat Completions 转换不支持服务端会话状态，请发送完整 input 历史。".to_owned())
    } else {
        None
    }
}

fn check_format(body: &Json) -> (problem: Option<String>)
    ensures
        text::string_of(problem) == format_problem(body@),
{
    let format = match body.get_in("text", "format") {
        Some(format) => format,
        None => return None,
    };
    let kind = match format.text_at("type") {
        Some(kind) => kind,
        None => return None,
    };
    if same_text(kind, "text") || same_text(kind, "json_object") {
        None
    } else if same_text(kind, "json_schema") {
        match format.get("schema") {
            None => Some("Responses text.format.json_schema 缺少 schema。".to_owned()),
            Some(schema) => {
                if !schema.is_valid_schema() {
                    return Some("Responses text.format 包含无效的 JSON Schema。".to_owned());
                }
                let is_object = match schema.text_at("type") {
                    Some(kind) => same_text(kind, "object"),
                    None => false,
                };
                if !is_object {
                    return Some("Responses 结构化输出仅支持 object 根 Schema。".to_owned());
                }
                None
            },
        }
    } else {
        let mut problem = "Chat Completions 转换不支持 text.format 类型：".to_owned();
        problem.append(kind);
        problem.append("。");
        Some(problem)
    }
}

fn check_tool(tool: &Json) -> (problem: Option<String>)
    ensures
        text::string_of(problem) == tool_problem(tool@),
{
    if !is_function(tool) {
        return None;
    }
    if lacks(tool, "name") {
        return Some("Responses function 工具缺少 name。".to_owned());
    }
    match tool.get("parameters") {
        Some(parameters) => if parameters.is_valid_schema() {
            None
        } else {
            Some("Responses function 工具包含无效的 parameters Schema。".to_owned())
        },
        None => None,
    }
}

proof fn lemma_tools_problem_kept(tools: Seq<JsonView>, count: int)
    requires
        0 <= count <= tools.len(),
        tools_problem(tools.take(count)) is Some,
    ensures
        tools_problem(tools) == tools_problem(tools.take(count)),
    decreases tools.len() - count,
{
    if count < tools.len() {
        assert(tools.take(count + 1).drop_last() =~= tools.take(count));
        lemma_tools_problem_kept(tools, count + 1);
    } else {
        assert(tools.take(count) =~= tools);
    }
}

fn check_tools(body: &Json) -> (problem: Option<String>)
    ensures
        text::string_of(problem) == tools_problem(request_tools(body@)),
{
    let tools = match body.array_at("tools") {
        Some(tools) => tools,
        None => return None,
    };
    let ghost views = json::items_view(tools@);
    proof {
        json::lemma_items_view(tools@);
    }
    assert(views.take(0) =~= Seq::<JsonView>::empty());
    for index in 0..tools.len()
        invariant
            views.len() == tools.len(),
            views == request_tools(body@),
            forall|i: int| 0 <= i < tools.len() ==> #[trigger] views[i] == tools[i]@,
            tools_problem(views.take(index as int)) is None,
    {
        let problem = check_tool(&tools[index]);
        proof {
            assert(views[index as int] == tools[index as int]@);
            assert(views.take(index + 1).drop_last() =~= views.take(index as int));
            assert(views.take(index + 1).last() == views[index as int]);
        }
        if problem.is_some() {
            proof {
                lemma_tools_problem_kept(views, index + 1);
            }
            return problem;
        }
    }
    assert(views.take(tools.len() as int) =~= views);
    None
}

/// Whether a function tool of the request has the given name.
fn function_is_named(body: &Json, name: &str) -> (found: bool)
    ensures
        found == names_function(request_tools(body@), name@),
{
    let tools = match body.array_at("tools") {
        Some(tools) => tools,
        None => return false,
    };
    proof {
        json::lemma_items_view(tools@);
    }
    for index in 0..tools.len()
        invariant
            request_tools(body@).len() == tools.len(),
            forall|i: int|
                0 <= i < tools.len() ==> #[trigger] request_tools(body@)[i] == tools[i]@,
            forall|i: int|
                0 <= i < index ==> !(is_function_tool(#[trigger] request_tools(body@)[i])
                    && request_tools(body@)[i].text_at("name"@) == Some(name@)),
    {
        let tool = &tools[index];
        assert(request_tools(body@)[index as int] == tool@);
        if is_function(tool) {
            if let Some(found) = tool.text_at("name") {
                if same_text(found, name) {
                    return true;
                }
            }
        }
    }
    false
}

/// Whether the request has a function tool with a name.
fn any_function_is_named(body: &Json) -> (found: bool)
    ensures
        found == names_any_function(request_tools(body@)),
{
    let tools = match body.array_at("tools") {
        Some(tools) => tools,
        None => return false,
    };
    proof {
        json::lemma_items_view(tools@);
    }
    for index in 0..tools.len()
        invariant
            request_tools(body@).len() == tools.len(),
            forall|i: int|
                0 <= i < tools.len() ==> #[trigger] request_tools(body@)[i] == tools[i]@,
            forall|i: int|
                0 <= i < index ==> !(is_function_tool(#[trigger] request_tools(body@)[i])
                    && request_tools(body@)[i].text_at("name"@) is Some),
    {
        let tool = &tools[index];
        assert(request_tools(body@)[index as int] == tool@);
        if is_function(tool) && tool.text_at("name").is_some() {
            return true;
        }
    }
    false
}

fn choice_is_supported(choice: &Json) -> (answer: bool)
    ensures
        answer == is_supported_choice(choice@),
{
    match choice {
        Json::Text(value) => same_text(value.as_str(), "auto") || same_text(value.as_str(), "none")
            || same_text(value.as_str(), "required"),
        Json::Object(_) => is_function(choice) && !lacks(choice, "name"),
        _ => false,
    }
}

fn check_choice(body: &Json) -> (problem: Option<String>)
    ensures
        text::string_of(problem) == choice_problem(body@),
{
    let choice = match body.get("tool_choice") {
        Some(choice) => choice,
        None => return None,
    };
    if !choice_is_supported(choice) {
        return Some("Chat Completions 转换不支持此 tool_choice。".to_owned());
    }
    let required = match choice.as_str() {
        Some(value) => same_text(value, "required"),
        None => false,
    };
    if required && !any_function_is_named(body) {
        return Some("tool_choice=required，但没有可转换的 function 工具。".to_owned());
    }
    match choice.text_at("name") {
        Some(name) => if function_is_named(body, name) {
            None
        } else {
            Some("tool_choice 指定的 function 未出现在工具列表中。".to_owned())
        },
        None => None,
    }
}

fn role_is_known(role: Option<&str>) -> (answer: bool)
    ensures
        answer == is_known_role(text::text_of(role)),
{
    match role {
        Some(role) => same_text(role, "system") || same_text(role, "developer") || same_text(
            role,
            "user",
        ) || same_text(role, "assistant"),
        None => false,
    }
}

/// The identifier that a call goes by.
pub fn identifier_of(item: &Json) -> (identifier: Option<&str>)
    ensures
        text::text_of(identifier) == call_identifier(item@),
{
    match item.get("call_id") {
        Some(value) => value.as_str(),
        None => item.text_at("id"),
    }
}

/// The kind of an input item.
pub fn kind_of(item: &Json) -> (kind: &str)
    ensures
        kind@ == item_kind(item@),
{
    match item.text_at("type") {
        Some(kind) => kind,
        None => "message",
    }
}

fn check_item(item: &Json) -> (problem: Option<String>)
    ensures
        text::string_of(problem) == item_problem(item@),
{
    match item {
        Json::Text(_) => return None,
        Json::Object(_) => {},
        _ => return Some("Responses input 包含不支持的条目。".to_owned()),
    }
    let kind = kind_of(item);
    if same_text(kind, "message") || same_text(kind, "") {
        if !role_is_known(item.text_at("role")) {
            return Some("Responses message 包含不支持的 role。".to_owned());
        }
        let valid = match item.get("content") {
            Some(content) => content.is_text() || content.is_array() || content.is_null(),
            None => false,
        };
        if !valid {
            return Some("Responses message 缺少有效的 content。".to_owned());
        }
        None
    } else if same_text(kind, "reasoning") {
        None
    } else if same_text(kind, "function_call") {
        let unnamed = match identifier_of(item) {
            Some(identifier) => identifier.is_empty(),
            None => true,
        };
        if unnamed || lacks(item, "name") || item.text_at("arguments").is_none() {
            return Some(
                "Responses function_call 缺少有效的 call_id、name 或 arguments。".to_owned(),
            );
        }
        None
    } else if same_text(kind, "function_call_output") {
        if lacks(item, "call_id") {
            return Some("Responses function_call_output 缺少 call_id。".to_owned());
        }
        if !item.has("output") {
            return Some("Responses function_call_output 缺少 output。".to_owned());
        }
        None
    } else {
        let mut problem = "Chat Completions 转换不支持 Responses input 类型：".to_owned();
        problem.append(kind);
        problem.append("。");
        Some(problem)
    }
}

proof fn lemma_items_problem_kept(items: Seq<JsonView>, count: int)
    requires
        0 <= count <= items.len(),
        items_problem(items.take(count)) is Some,
    ensures
        items_problem(items) == items_problem(items.take(count)),
    decreases items.len() - count,
{
    if count < items.len() {
        assert(items.take(count + 1).drop_last() =~= items.take(count));
        lemma_items_problem_kept(items, count + 1);
    } else {
        assert(items.take(count) =~= items);
    }
}

fn check_input(body: &Json) -> (problem: Option<String>)
    ensures
        text::string_of(problem) == input_problem(body@),
{
    let items = match body.get("input") {
        None => return None,
        Some(input) => match input {
            Json::Text(_) => return None,
            Json::Array(items) => items,
            _ => return Some("Responses input 必须是字符串或条目数组。".to_owned()),
        },
    };
    let ghost views = json::items_view(items@);
    proof {
        json::lemma_items_view(items@);
    }
    assert(views.take(0) =~= Seq::<JsonView>::empty());
    for index in 0..items.len()
        invariant
            views.len() == items.len(),
            body@.get("input"@) == Some(JsonView::Array(views)),
            forall|i: int| 0 <= i < items.len() ==> #[trigger] views[i] == items[i]@,
            items_problem(views.take(index as int)) is None,
    {
        let problem = check_item(&items[index]);
        proof {
            assert(views[index as int] == items[index as int]@);
            assert(views.take(index + 1).drop_last() =~= views.take(index as int));
            assert(views.take(index + 1).last() == views[index as int]);
        }
        if problem.is_some() {
            proof {
                lemma_items_problem_kept(views, index + 1);
            }
            return problem;
        }
    }
    assert(views.take(items.len() as int) =~= views);
    None
}

/// Checks that a Responses request can be served by a Chat Completions
/// provider without dropping any part of it that matters. The error says
/// what stands in the way.
pub fn validate_supported_responses_request(body: &Json) -> (outcome: Result<(), String>)
    ensures
        match outcome {
            Ok(()) => request_problem(body@) is None,
            Err(message) => request_problem(body@) == Some(message@),
        },
{
    if let Some(problem) = check_model(body) {
        return Err(problem);
    }
    if let Some(problem) = check_stream(body) {
        return Err(problem);
    }
    if let Some(problem) = check_state(body) {
        return Err(problem);
    }
    if let Some(problem) = check_format(body) {
        return Err(problem);
    }
    if let Some(problem) = check_tools(body) {
        return Err(problem);
    }
    if let Some(problem) = check_choice(body) {
        return Err(problem);
    }
    if let Some(problem) = check_input(body) {
        return Err(problem);
    }
    Ok(())
}

} // verus!
