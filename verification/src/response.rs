//! Responses API answers out of complete Chat Completions answers.

use crate::chat_request::{or_blank, or_empty};
use crate::content;
use crate::content::{message_output_text, message_reasoning_text, validate_structured_output};
use crate::ids;
use crate::json;
use crate::json::{Json, JsonView};
use crate::reasoning;
use crate::reasoning::{EntryView, ReasoningStore};
use crate::request::first_problem;
use crate::text;
use crate::text::same_text;
use vstd::prelude::*;

verus! {

// ---------------------------------------------------------------------------
// What an answer repeats of its request
// ---------------------------------------------------------------------------

/// The members of a request that every answer to it repeats, each with its
/// default where the request has none.
pub struct ResponseMetadata {
    pub values: Json,
}

impl View for ResponseMetadata {
    type V = JsonView;

    open spec fn view(&self) -> JsonView {
        self.values@
    }
}

/// The member `key` of a request, or its default.
pub open spec fn member_or(body: JsonView, key: Seq<char>, default: JsonView) -> JsonView {
    match body.get(key) {
        Some(value) => value,
        None => default,
    }
}

fn copy_or(body: &Json, key: &str, default: Json) -> (value: Json)
    ensures
        value@ == member_or(body@, key@, default@),
{
    match body.get(key) {
        Some(value) => value.duplicate(),
        None => default,
    }
}

/// The default of the `reasoning` member.
pub open spec fn default_reasoning() -> JsonView {
    json::empty_object().with("effort"@, JsonView::Null).with("summary"@, JsonView::Null)
}

fn make_default_reasoning() -> (value: Json)
    ensures
        value@ == default_reasoning(),
{
    Json::object().with("effort", Json::Null).with("summary", Json::Null)
}

/// The default of the `text` member.
pub open spec fn default_format() -> JsonView {
    json::empty_object().with(
        "format"@,
        json::empty_object().with("type"@, JsonView::Text("text"@)),
    )
}

fn make_default_format() -> (value: Json)
    ensures
        value@ == default_format(),
{
    Json::object().with("format", Json::object().with("type", Json::text("text")))
}

pub open spec fn empty_array() -> JsonView {
    JsonView::Array(Seq::empty())
}

/// The empty list as JSON.
pub fn make_empty_array() -> (value: Json)
    ensures
        value@ == empty_array(),
{
    let items: Vec<Json> = Vec::new();
    proof {
        json::lemma_items_view(items@);
        assert(json::items_view(items@) =~= Seq::<JsonView>::empty());
    }
    Json::Array(items)
}

/// What the answers to a request repeat of it.
pub open spec fn request_metadata(body: JsonView) -> JsonView {
    json::empty_object().with(
        "instructions"@,
        member_or(body, "instructions"@, JsonView::Null),
    ).with("metadata"@, member_or(body, "metadata"@, json::empty_object())).with(
        "parallel_tool_calls"@,
        member_or(body, "parallel_tool_calls"@, JsonView::Bool(true)),
    ).with("tool_choice"@, member_or(body, "tool_choice"@, JsonView::Text("auto"@))).with(
        "tools"@,
        member_or(body, "tools"@, empty_array()),
    ).with("temperature"@, member_or(body, "temperature"@, JsonView::Null)).with(
        "top_p"@,
        member_or(body, "top_p"@, JsonView::Null),
    ).with("max_output_tokens"@, member_or(body, "max_output_tokens"@, JsonView::Null)).with(
        "reasoning"@,
        member_or(body, "reasoning"@, default_reasoning()),
    ).with("text"@, member_or(body, "text"@, default_format())).with(
        "store"@,
        member_or(body, "store"@, JsonView::Bool(true)),
    ).with("truncation"@, member_or(body, "truncation"@, JsonView::Text("disabled"@))).with(
        "user"@,
        member_or(body, "user"@, JsonView::Null),
    )
}

impl ResponseMetadata {
    /// What the answers to a request repeat of it.
    pub fn from_request(body: &Json) -> (metadata: Self)
        ensures
            metadata@ == request_metadata(body@),
    {
        let values = Json::object().with(
            "instructions",
            copy_or(body, "instructions", Json::Null),
        ).with("metadata", copy_or(body, "metadata", Json::object())).with(
            "parallel_tool_calls",
            copy_or(body, "parallel_tool_calls", Json::Bool(true)),
        ).with("tool_choice", copy_or(body, "tool_choice", Json::text("auto"))).with(
            "tools",
            copy_or(body, "tools", make_empty_array()),
        ).with("temperature", copy_or(body, "temperature", Json::Null)).with(
            "top_p",
            copy_or(body, "top_p", Json::Null),
        ).with("max_output_tokens", copy_or(body, "max_output_tokens", Json::Null)).with(
            "reasoning",
            copy_or(body, "reasoning", make_default_reasoning()),
        ).with("text", copy_or(body, "text", make_default_format())).with(
            "store",
            copy_or(body, "store", Json::Bool(true)),
        ).with("truncation", copy_or(body, "truncation", Json::text("disabled"))).with(
            "user",
            copy_or(body, "user", Json::Null),
        );
        ResponseMetadata { values }
    }

    /// Repeats the members in an answer.
    pub fn apply(&self, response: &mut Json)
        ensures
            final(response)@ == old(response)@.merged(self@),
    {
        response.extend(&self.values);
    }

    /// A copy of the metadata.
    pub fn duplicate(&self) -> (copy: Self)
        ensures
            copy@ == self@,
    {
        ResponseMetadata { values: self.values.duplicate() }
    }
}

impl Default for ResponseMetadata {
    /// What an answer states where the request says nothing.
    fn default() -> (metadata: Self)
        ensures
            metadata@ == request_metadata(JsonView::Null),
    {
        ResponseMetadata::from_request(&Json::Null)
    }
}

// ---------------------------------------------------------------------------
// Parts of an answer
// ---------------------------------------------------------------------------

/// A content part that holds output text.
pub open spec fn output_text_part(text: Seq<char>) -> JsonView {
    json::empty_object().with("type"@, JsonView::Text("output_text"@)).with(
        "text"@,
        JsonView::Text(text),
    ).with("annotations"@, empty_array())
}

pub fn make_output_text_part(text: &str) -> (part: Json)
    ensures
        part@ == output_text_part(text@),
{
    Json::object().with("type", Json::text("output_text")).with("text", Json::text(text)).with(
        "annotations",
        make_empty_array(),
    )
}

/// A content part that holds a refusal.
pub open spec fn refusal_part(refusal: Seq<char>) -> JsonView {
    json::empty_object().with("type"@, JsonView::Text("refusal"@)).with(
        "refusal"@,
        JsonView::Text(refusal),
    )
}

pub fn make_refusal_part(refusal: &str) -> (part: Json)
    ensures
        part@ == refusal_part(refusal@),
{
    Json::object().with("type", Json::text("refusal")).with("refusal", Json::text(refusal))
}

/// An output item that is a message.
pub open spec fn message_item(id: Seq<char>, status: Seq<char>, content: Seq<JsonView>) -> JsonView {
    json::empty_object().with("id"@, JsonView::Text(id)).with(
        "type"@,
        JsonView::Text("message"@),
    ).with("status"@, JsonView::Text(status)).with("role"@, JsonView::Text("assistant"@)).with(
        "content"@,
        JsonView::Array(content),
    )
}

pub fn make_message_item(id: &str, status: &str, content: Vec<Json>) -> (item: Json)
    ensures
        item@ == message_item(id@, status@, json::items_view(content@)),
{
    Json::object().with("id", Json::text(id)).with("type", Json::text("message")).with(
        "status",
        Json::text(status),
    ).with("role", Json::text("assistant")).with("content", Json::Array(content))
}

/// An output item that calls a function.
pub open spec fn call_item(
    id: Seq<char>,
    status: Seq<char>,
    call_id: Seq<char>,
    name: Seq<char>,
    arguments: Seq<char>,
) -> JsonView {
    json::empty_object().with("id"@, JsonView::Text(id)).with(
        "type"@,
        JsonView::Text("function_call"@),
    ).with("status"@, JsonView::Text(status)).with("call_id"@, JsonView::Text(call_id)).with(
        "name"@,
        JsonView::Text(name),
    ).with("arguments"@, JsonView::Text(arguments))
}

pub fn make_call_item(
    id: &str,
    status: &str,
    call_id: &str,
    name: &str,
    arguments: &str,
) -> (item: Json)
    ensures
        item@ == call_item(id@, status@, call_id@, name@, arguments@),
{
    Json::object().with("id", Json::text(id)).with("type", Json::text("function_call")).with(
        "status",
        Json::text(status),
    ).with("call_id", Json::text(call_id)).with("name", Json::text(name)).with(
        "arguments",
        Json::text(arguments),
    )
}

/// The token counts of an answer.
#[derive(Clone, Copy, Debug, PartialEq, Eq, Structural)]
pub struct TokenCounts {
    pub input: u64,
    pub output: u64,
    pub cached: u64,
    pub cache_write: u64,
    pub reasoning: u64,
    pub total: u64,
}

/// The usage member of an answer.
pub open spec fn usage_document(counts: TokenCounts) -> JsonView {
    json::empty_object().with("input_tokens"@, json::unsigned_view(counts.input)).with(
        "input_tokens_details"@,
        json::empty_object().with("cached_tokens"@, json::unsigned_view(counts.cached)).with(
            "cache_write_tokens"@,
            json::unsigned_view(counts.cache_write),
        ),
    ).with("output_tokens"@, json::unsigned_view(counts.output)).with(
        "output_tokens_details"@,
        json::empty_object().with("reasoning_tokens"@, json::unsigned_view(counts.reasoning)),
    ).with("total_tokens"@, json::unsigned_view(counts.total))
}

pub fn make_usage(counts: &TokenCounts) -> (usage: Json)
    ensures
        usage@ == usage_document(*counts),
{
    let input = Json::object().with("cached_tokens", Json::unsigned(counts.cached)).with(
        "cache_write_tokens",
        Json::unsigned(counts.cache_write),
    );
    let output = Json::object().with("reasoning_tokens", Json::unsigned(counts.reasoning));
    Json::object().with("input_tokens", Json::unsigned(counts.input)).with(
        "input_tokens_details",
        input,
    ).with("output_tokens", Json::unsigned(counts.output)).with(
        "output_tokens_details",
        output,
    ).with("total_tokens", Json::unsigned(counts.total))
}

/// The sum of two counts, at most the greatest count there is.
pub open spec fn capped_sum(one: u64, other: u64) -> u64 {
    if one + other > u64::MAX {
        u64::MAX
    } else {
        (one + other) as u64
    }
}

pub fn add_capped(one: u64, other: u64) -> (sum: u64)
    ensures
        sum == capped_sum(one, other),
{
    one.saturating_add(other)
}

/// An integer member of a member.
pub open spec fn count_in(value: JsonView, outer: Seq<char>, inner: Seq<char>) -> Option<u64> {
    match value.get_in(outer, inner) {
        Some(count) => count.as_u64(),
        None => None,
    }
}

pub fn count_within(value: &Json, outer: &str, inner: &str) -> (count: Option<u64>)
    ensures
        count == count_in(value@, outer@, inner@),
{
    match value.get_in(outer, inner) {
        Some(count) => count.as_u64(),
        None => None,
    }
}

pub open spec fn count_or(count: Option<u64>, default: u64) -> u64 {
    match count {
        Some(count) => count,
        None => default,
    }
}

pub fn or_count(count: Option<u64>, default: u64) -> (value: u64)
    ensures
        value == count_or(count, default),
{
    match count {
        Some(count) => count,
        None => default,
    }
}

/// The token counts of a Chat usage. A missing total is the sum of input and
/// output.
pub open spec fn chat_counts(usage: JsonView) -> TokenCounts {
    let input = count_or(usage.u64_at("prompt_tokens"@), 0);
    let output = count_or(usage.u64_at("completion_tokens"@), 0);
    TokenCounts {
        input,
        output,
        cached: count_or(count_in(usage, "prompt_tokens_details"@, "cached_tokens"@), 0),
        cache_write: count_or(count_in(usage, "prompt_tokens_details"@, "cache_write_tokens"@), 0),
        reasoning: count_or(
            count_in(usage, "completion_tokens_details"@, "reasoning_tokens"@),
            0,
        ),
        total: count_or(usage.u64_at("total_tokens"@), capped_sum(input, output)),
    }
}

fn read_counts(usage: &Json) -> (counts: TokenCounts)
    ensures
        counts == chat_counts(usage@),
{
    let input: u64 = or_count(usage.u64_at("prompt_tokens"), 0);
    let output: u64 = or_count(usage.u64_at("completion_tokens"), 0);
    TokenCounts {
        input,
        output,
        cached: or_count(count_within(usage, "prompt_tokens_details", "cached_tokens"), 0),
        cache_write: or_count(
            count_within(usage, "prompt_tokens_details", "cache_write_tokens"),
            0,
        ),
        reasoning: or_count(
            count_within(usage, "completion_tokens_details", "reasoning_tokens"),
            0,
        ),
        total: or_count(usage.u64_at("total_tokens"), add_capped(input, output)),
    }
}

/// How an answer ended.
#[derive(Clone, Copy, Debug, PartialEq, Eq, Structural)]
pub enum Ending {
    Completed,
    MaxOutputTokens,
    ContentFilter,
}

impl Ending {
    pub open spec fn incomplete(self) -> bool {
        !(self is Completed)
    }

    /// The status of an answer that ended like this, and of its items.
    pub open spec fn status(self) -> Seq<char> {
        if self.incomplete() {
            "incomplete"@
        } else {
            "completed"@
        }
    }

    /// The `incomplete_details` of an answer that ended like this.
    pub open spec fn details(self) -> JsonView {
        match self {
            Ending::Completed => JsonView::Null,
            Ending::MaxOutputTokens => json::empty_object().with(
                "reason"@,
                JsonView::Text("max_output_tokens"@),
            ),
            Ending::ContentFilter => json::empty_object().with(
                "reason"@,
                JsonView::Text("content_filter"@),
            ),
        }
    }

    pub fn is_incomplete(&self) -> (answer: bool)
        ensures
            answer == self.incomplete(),
    {
        !matches!(self, Ending::Completed)
    }

    pub fn status_text(&self) -> (status: &'static str)
        ensures
            status@ == self.status(),
    {
        if self.is_incomplete() {
            "incomplete"
        } else {
            "completed"
        }
    }

    pub fn make_details(&self) -> (details: Json)
        ensures
            details@ == self.details(),
    {
        match self {
            Ending::Completed => Json::Null,
            Ending::MaxOutputTokens => Json::object().with(
                "reason",
                Json::text("max_output_tokens"),
            ),
            Ending::ContentFilter => Json::object().with("reason", Json::text("content_filter")),
        }
    }
}

/// The ending that a finish reason stands for; nothing for a reason that is
/// not known.
pub open spec fn ending_of(reason: Seq<char>) -> Option<Ending> {
    if reason == "stop"@ || reason == "tool_calls"@ || reason == "function_call"@ {
        Some(Ending::Completed)
    } else if reason == "length"@ {
        Some(Ending::MaxOutputTokens)
    } else if reason == "content_filter"@ {
        Some(Ending::ContentFilter)
    } else {
        None
    }
}

/// The ending that a finish reason stands for.
pub fn read_ending(reason: &str) -> (ending: Option<Ending>)
    ensures
        ending == ending_of(reason@),
{
    if same_text(reason, "stop") || same_text(reason, "tool_calls") || same_text(
        reason,
        "function_call",
    ) {
        Some(Ending::Completed)
    } else if same_text(reason, "length") {
        Some(Ending::MaxOutputTokens)
    } else if same_text(reason, "content_filter") {
        Some(Ending::ContentFilter)
    } else {
        None
    }
}

// ---------------------------------------------------------------------------
// Complete answers
// ---------------------------------------------------------------------------

/// The first choice of a Chat answer.
pub open spec fn first_choice(chat: JsonView) -> Option<JsonView> {
    match chat.array_at("choices"@) {
        Some(choices) => if choices.len() > 0 {
            Some(choices[0])
        } else {
            None
        },
        None => None,
    }
}

/// The first choice of a Chat answer.
pub fn read_first_choice(chat: &Json) -> (choice: Option<&Json>)
    ensures
        json::json_of(choice) == first_choice(chat@),
{
    match chat.array_at("choices") {
        Some(choices) => {
            proof {
                json::lemma_items_view(choices@);
            }
            if choices.len() > 0 {
                assert(json::items_view(choices@)[0] == choices[0]@);
                Some(&choices[0])
            } else {
                None
            }
        },
        None => None,
    }
}

/// The message of a choice, which has to be an object.
pub open spec fn choice_message(choice: JsonView) -> Option<JsonView> {
    match choice.get("message"@) {
        Some(message) => if message is Object {
            Some(message)
        } else {
            None
        },
        None => None,
    }
}

/// The tool calls of a message; none where they are not a list.
pub open spec fn message_calls(message: JsonView) -> Seq<JsonView> {
    match message.array_at("tool_calls"@) {
        Some(calls) => calls,
        None => Seq::empty(),
    }
}

/// A refusal with any text in it.
pub open spec fn message_refusal(message: JsonView) -> Option<Seq<char>> {
    match content::text_in(message, "refusal"@) {
        Some(text) => if text.len() == 0 {
            None
        } else {
            Some(text)
        },
        None => None,
    }
}

fn read_refusal(message: &Json) -> (refusal: Option<String>)
    ensures
        text::string_of(refusal) == message_refusal(message@),
{
    match content::text_within(message, "refusal") {
        Some(text) => if text.as_str().is_empty() {
            None
        } else {
            Some(text)
        },
        None => None,
    }
}

/// The text that an answer shows. Structured output is shown in its checked
/// form; without one, the answer shows none where it calls tools, and is
/// wrong otherwise.
pub open spec fn shown_text(
    message: JsonView,
    structured: bool,
    schema: Option<JsonView>,
) -> Option<Seq<char>> {
    let plain = content::output_text(message, structured);
    if structured && message_refusal(message) is None {
        match content::structured_text(plain, schema) {
            Some(checked) => Some(checked),
            None => if message_calls(message).len() > 0 {
                Some(Seq::empty())
            } else {
                None
            },
        }
    } else {
        Some(plain)
    }
}

fn read_shown_text(message: &Json, structured: bool, schema: Option<&Json>) -> (text: Option<
    String,
>)
    ensures
        text::string_of(text) == shown_text(message@, structured, json::json_of(schema)),
{
    let plain = message_output_text(message, structured);
    if structured && read_refusal(message).is_none() {
        match validate_structured_output(plain.as_str(), schema) {
            Some(checked) => Some(checked),
            None => {
                let has_calls = match message.array_at("tool_calls") {
                    Some(calls) => {
                        proof {
                            json::lemma_items_view(calls@);
                        }
                        calls.len() > 0
                    },
                    None => false,
                };
                if has_calls {
                    Some(String::new())
                } else {
                    None
                }
            },
        }
    } else {
        Some(plain)
    }
}

/// What is wrong with a Chat answer as a whole.
pub open spec fn completion_problem(
    chat: JsonView,
    structured: bool,
    schema: Option<JsonView>,
) -> Option<Seq<char>> {
    match chat.get("error"@) {
        Some(error) => Some(
            match error.text_at("message"@) {
                Some(message) => message,
                None => "上游服务在成功状态响应中返回了错误。"@,
            },
        ),
        None => match first_choice(chat) {
            None => Some("上游 Chat Completions 响应缺少有效 choices。"@),
            Some(choice) => match choice_message(choice) {
                None => Some("上游 Chat Completions 响应缺少有效 assistant message。"@),
                Some(message) => if message.has("function_call"@) {
                    Some("上游返回了旧版 function_call；转换代理要求标准 tool_calls 格式。"@)
                } else if shown_text(message, structured, schema) is None {
                    Some("上游模型未返回有效的结构化 JSON 对象。"@)
                } else {
                    match choice.text_at("finish_reason"@) {
                        None => Some("上游 Chat Completions 响应缺少 finish_reason。"@),
                        Some(reason) => if ending_of(reason) is None {
                            Some("上游返回了无法识别的 finish_reason："@ + reason)
                        } else {
                            None
                        },
                    }
                },
            },
        },
    }
}

/// The function of a tool call.
pub open spec fn call_function(call: JsonView) -> JsonView {
    member_or(call, "function"@, JsonView::Null)
}

/// What is wrong with the tool call at a position.
pub open spec fn call_problem(call: JsonView, position: int) -> Option<Seq<char>> {
    let number = text::decimal((position + 1) as nat);
    if or_empty(call.text_at("id"@)).len() == 0 {
        Some("上游第 "@ + number + " 个工具调用缺少 id。"@)
    } else if or_empty(call_function(call).text_at("name"@)).len() == 0 {
        Some("上游第 "@ + number + " 个工具调用缺少函数名。"@)
    } else if call_function(call).text_at("arguments"@) is None {
        Some("上游第 "@ + number + " 个工具调用参数不是字符串。"@)
    } else {
        None
    }
}

/// The first problem of the tool calls, in their order.
pub open spec fn calls_problem(calls: Seq<JsonView>) -> Option<Seq<char>>
    decreases calls.len(),
{
    if calls.len() == 0 {
        None
    } else {
        first_problem(
            calls_problem(calls.drop_last()),
            call_problem(calls.last(), calls.len() - 1),
        )
    }
}

/// The identifier of the message item of an answer.
pub open spec fn message_id(suffix: Seq<char>) -> Seq<char> {
    "msg_"@ + suffix
}

/// The identifier of the item of the call at a position.
pub open spec fn call_item_id(suffix: Seq<char>, position: int) -> Seq<char> {
    "fc_"@ + suffix + "_"@ + text::decimal(position as nat)
}

fn make_call_item_id(suffix: &str, position: usize) -> (id: String)
    ensures
        id@ == call_item_id(suffix@, position as int),
{
    let mut id = "fc_".to_owned();
    id.append(suffix);
    id.append("_");
    id.append(text::decimal_text(position as u128).as_str());
    id
}

/// The memory once the reasoning of an answer is stored for its calls.
pub open spec fn remembered_calls(
    entries: Seq<EntryView>,
    calls: Seq<JsonView>,
    suffix: Seq<char>,
    content: Seq<char>,
) -> Seq<EntryView>
    decreases calls.len(),
{
    if calls.len() == 0 {
        entries
    } else {
        let earlier = remembered_calls(entries, calls.drop_last(), suffix, content);
        let stored = reasoning::remembered(
            earlier,
            call_item_id(suffix, calls.len() - 1),
            Some(content),
        );
        match calls.last().text_at("id"@) {
            Some(id) => reasoning::remembered(
                stored,
                id,
                reasoning::claimed(stored, id, content),
            ),
            None => stored,
        }
    }
}

/// The memory once the reasoning of an answer is stored for its items.
pub open spec fn remembered_answer(
    entries: Seq<EntryView>,
    message: JsonView,
    suffix: Seq<char>,
) -> Seq<EntryView> {
    match content::reasoning_text(message) {
        Some(text) => remembered_calls(
            reasoning::remembered(entries, message_id(suffix), Some(reasoning::bounded(text))),
            message_calls(message),
            suffix,
            reasoning::bounded(text),
        ),
        None => entries,
    }
}

/// The output items of the calls.
pub open spec fn call_items(
    calls: Seq<JsonView>,
    suffix: Seq<char>,
    status: Seq<char>,
) -> Seq<JsonView> {
    Seq::new(
        calls.len(),
        |i: int|
            call_item(
                call_item_id(suffix, i),
                status,
                or_empty(calls[i].text_at("id"@)),
                or_empty(call_function(calls[i]).text_at("name"@)),
                or_empty(call_function(calls[i]).text_at("arguments"@)),
            ),
    )
}

/// The content of the message item: its text, then its refusal.
pub open spec fn message_parts(shown: Seq<char>, refusal: Option<Seq<char>>) -> Seq<JsonView> {
    let spoken = if shown.len() == 0 {
        Seq::empty()
    } else {
        seq![output_text_part(shown)]
    };
    match refusal {
        Some(refusal) => spoken.push(refusal_part(refusal)),
        None => spoken,
    }
}

/// The output of an answer: its message, where it says anything, then its
/// calls.
pub open spec fn output_items(
    message: JsonView,
    shown: Seq<char>,
    suffix: Seq<char>,
    status: Seq<char>,
) -> Seq<JsonView> {
    let parts = message_parts(shown, message_refusal(message));
    let spoken = if parts.len() == 0 {
        Seq::empty()
    } else {
        seq![message_item(message_id(suffix), status, parts)]
    };
    spoken + call_items(message_calls(message), suffix, status)
}

/// The model that an answer names, or else the one that was asked for.
pub open spec fn answering_model(chat: JsonView, model: Seq<char>) -> Seq<char> {
    match chat.text_at("model"@) {
        Some(name) => if name.len() == 0 {
            model
        } else {
            name
        },
        None => model,
    }
}

/// The usage of an answer; null where the provider states none.
pub open spec fn answer_usage(chat: JsonView) -> JsonView {
    match chat.get("usage"@) {
        Some(usage) => if usage is Object {
            usage_document(chat_counts(usage))
        } else {
            JsonView::Null
        },
        None => JsonView::Null,
    }
}

/// An answer in the form of the Responses API.
pub open spec fn response_document(
    response_id: Seq<char>,
    created_at: i64,
    ending: Ending,
    model: Seq<char>,
    output: Seq<JsonView>,
    usage: JsonView,
    shown: Seq<char>,
) -> JsonView {
    json::empty_object().with("id"@, JsonView::Text(response_id)).with(
        "object"@,
        JsonView::Text("response"@),
    ).with("created_at"@, json::signed_view(created_at)).with(
        "status"@,
        JsonView::Text(ending.status()),
    ).with("model"@, JsonView::Text(model)).with("output"@, JsonView::Array(output)).with(
        "error"@,
        JsonView::Null,
    ).with("incomplete_details"@, ending.details()).with("usage"@, usage).with(
        "output_text"@,
        JsonView::Text(shown),
    ).with("parallel_tool_calls"@, JsonView::Bool(true)).with(
        "previous_response_id"@,
        JsonView::Null,
    ).with("reasoning"@, default_reasoning()).with("text"@, default_format()).with(
        "tools"@,
        empty_array(),
    ).with("tool_choice"@, JsonView::Text("auto"@)).with("temperature"@, JsonView::Null).with(
        "top_p"@,
        JsonView::Null,
    ).with("truncation"@, JsonView::Text("disabled"@)).with("store"@, JsonView::Bool(true)).with(
        "metadata"@,
        json::empty_object(),
    ).with("user"@, JsonView::Null)
}

fn make_response(
    response_id: &str,
    created_at: i64,
    ending: &Ending,
    model: &str,
    output: Vec<Json>,
    usage: Json,
    shown: &str,
) -> (response: Json)
    ensures
        response@ == response_document(
            response_id@,
            created_at,
            *ending,
            model@,
            json::items_view(output@),
            usage@,
            shown@,
        ),
{
    Json::object().with("id", Json::text(response_id)).with(
        "object",
        Json::text("response"),
    ).with("created_at", Json::signed(created_at)).with(
        "status",
        Json::text(ending.status_text()),
    ).with("model", Json::text(model)).with("output", Json::Array(output)).with(
        "error",
        Json::Null,
    ).with("incomplete_details", ending.make_details()).with("usage", usage).with(
        "output_text",
        Json::text(shown),
    ).with("parallel_tool_calls", Json::Bool(true)).with(
        "previous_response_id",
        Json::Null,
    ).with("reasoning", make_default_reasoning()).with("text", make_default_format()).with(
        "tools",
        make_empty_array(),
    ).with("tool_choice", Json::text("auto")).with("temperature", Json::Null).with(
        "top_p",
        Json::Null,
    ).with("truncation", Json::text("disabled")).with("store", Json::Bool(true)).with(
        "metadata",
        Json::object(),
    ).with("user", Json::Null)
}

/// The translation of a Chat answer that has no problem.
pub open spec fn translated(
    chat: JsonView,
    response_id: Seq<char>,
    model: Seq<char>,
    created_at: i64,
    structured: bool,
    schema: Option<JsonView>,
    suffix: Seq<char>,
) -> JsonView {
    let choice = first_choice(chat)->0;
    let message = choice_message(choice)->0;
    let ending = ending_of(choice.text_at("finish_reason"@)->0)->0;
    let shown = shown_text(message, structured, schema)->0;
    response_document(
        response_id,
        created_at,
        ending,
        answering_model(chat, model),
        output_items(message, shown, suffix, ending.status()),
        answer_usage(chat),
        shown,
    )
}

/// Why a Chat answer cannot be translated; nothing where it can be.
pub open spec fn answer_problem(
    chat: JsonView,
    structured: bool,
    schema: Option<JsonView>,
) -> Option<Seq<char>> {
    first_problem(
        completion_problem(chat, structured, schema),
        calls_problem(message_calls(choice_message(first_choice(chat)->0)->0)),
    )
}

/// The memory after a Chat answer. An answer that is wrong as a whole leaves
/// it as it was.
pub open spec fn memory_after(
    entries: Seq<EntryView>,
    chat: JsonView,
    structured: bool,
    schema: Option<JsonView>,
    suffix: Seq<char>,
) -> Seq<EntryView> {
    if completion_problem(chat, structured, schema) is Some {
        entries
    } else {
        remembered_answer(entries, choice_message(first_choice(chat)->0)->0, suffix)
    }
}

fn remember_answer(store: &mut ReasoningStore, message: &Json, suffix: &str)
    requires
        old(store).wf(),
    ensures
        final(store).wf(),
        final(store)@ == remembered_answer(old(store)@, message@, suffix@),
{
    let content = match message_reasoning_text(message) {
        Some(text) => ReasoningStore::bounded_content(text.as_str()),
        None => return,
    };
    let id = text::concat("msg_", suffix);
    store.insert_shared(id.as_str(), content.as_str());
    let ghost start = store@;
    let calls = match message.array_at("tool_calls") {
        Some(calls) => calls,
        None => return,
    };
    let ghost views = json::items_view(calls@);
    proof {
        json::lemma_items_view(calls@);
    }
    assert(views.take(0) =~= Seq::<JsonView>::empty());
    for index in 0..calls.len()
        invariant
            store.wf(),
            views.len() == calls.len(),
            forall|i: int| 0 <= i < calls.len() ==> #[trigger] views[i] == calls[i]@,
            store@ == remembered_calls(start, views.take(index as int), suffix@, content@),
    {
        proof {
            assert(views[index as int] == calls[index as int]@);
            assert(views.take(index + 1).drop_last() =~= views.take(index as int));
            assert(views.take(index + 1).last() == views[index as int]);
        }
        let item_id = make_call_item_id(suffix, index);
        store.insert_shared(item_id.as_str(), content.as_str());
        if let Some(call_id) = calls[index].text_at("id") {
            store.insert_call_alias(call_id, content.as_str());
        }
    }
    assert(views.take(calls.len() as int) =~= views);
}

proof fn lemma_calls_problem_kept(calls: Seq<JsonView>, count: int)
    requires
        0 <= count <= calls.len(),
        calls_problem(calls.take(count)) is Some,
    ensures
        calls_problem(calls) == calls_problem(calls.take(count)),
    decreases calls.len() - count,
{
    if count < calls.len() {
        assert(calls.take(count + 1).drop_last() =~= calls.take(count));
        lemma_calls_problem_kept(calls, count + 1);
    } else {
        assert(calls.take(count) =~= calls);
    }
}

fn numbered(position: usize, complaint: &str) -> (message: String)
    requires
        position < usize::MAX,
    ensures
        message@ == "上游第 "@ + text::decimal((position + 1) as nat) + complaint@,
{
    let mut message = "上游第 ".to_owned();
    message.append(text::decimal_text((position + 1) as u128).as_str());
    message.append(complaint);
    message
}

/// The item of one tool call.
fn translate_call(call: &Json, position: usize, suffix: &str, status: &str) -> (item: Result<
    Json,
    String,
>)
    requires
        position < usize::MAX,
    ensures
        match item {
            Ok(item) => {
                &&& call_problem(call@, position as int) is None
                &&& item@ == call_item(
                    call_item_id(suffix@, position as int),
                    status@,
                    or_empty(call@.text_at("id"@)),
                    or_empty(call_function(call@).text_at("name"@)),
                    or_empty(call_function(call@).text_at("arguments"@)),
                )
            },
            Err(message) => call_problem(call@, position as int) == Some(message@),
        },
{
    proof {
        reveal_strlit("");
    }
    let nothing = Json::Null;
    let function = match call.get("function") {
        Some(function) => function,
        None => &nothing,
    };
    let call_id = or_blank(call.text_at("id"));
    if call_id.is_empty() {
        return Err(numbered(position, " 个工具调用缺少 id。"));
    }
    let name = or_blank(function.text_at("name"));
    if name.is_empty() {
        return Err(numbered(position, " 个工具调用缺少函数名。"));
    }
    let arguments = match function.text_at("arguments") {
        Some(arguments) => arguments,
        None => return Err(numbered(position, " 个工具调用参数不是字符串。")),
    };
    let id = make_call_item_id(suffix, position);
    Ok(make_call_item(id.as_str(), status, call_id, name, arguments))
}

/// The items of the tool calls of a message, after the items already there.
fn translate_calls(message: &Json, suffix: &str, status: &str, output: &mut Vec<Json>) -> (outcome:
    Result<(), String>)
    ensures
        match outcome {
            Ok(()) => {
                &&& calls_problem(message_calls(message@)) is None
                &&& json::items_view(final(output)@) == json::items_view(old(output)@)
                    + call_items(message_calls(message@), suffix@, status@)
            },
            Err(problem) => calls_problem(message_calls(message@)) == Some(problem@),
        },
{
    let ghost before = json::items_view(output@);
    let calls = match message.array_at("tool_calls") {
        Some(calls) => calls,
        None => {
            assert(before + call_items(message_calls(message@), suffix@, status@) =~= before);
            return Ok(());
        },
    };
    let ghost views = json::items_view(calls@);
    proof {
        json::lemma_items_view(calls@);
    }
    assert(views.take(0) =~= Seq::<JsonView>::empty());
    assert(before + call_items(views.take(0), suffix@, status@) =~= before);
    for index in 0..calls.len()
        invariant
            views.len() == calls.len(),
            views == message_calls(message@),
            forall|i: int| 0 <= i < calls.len() ==> #[trigger] views[i] == calls[i]@,
            calls_problem(views.take(index as int)) is None,
            json::items_view(output@) == before + call_items(
                views.take(index as int),
                suffix@,
                status@,
            ),
    {
        proof {
            assert(views[index as int] == calls[index as int]@);
            assert(views.take(index + 1).drop_last() =~= views.take(index as int));
            assert(views.take(index + 1).last() == views[index as int]);
        }
        match translate_call(&calls[index], index, suffix, status) {
            Ok(item) => {
                proof {
                    json::lemma_items_view_push(output@, item);
                    assert(call_items(views.take(index + 1), suffix@, status@) =~= call_items(
                        views.take(index as int),
                        suffix@,
                        status@,
                    ).push(item@));
                    assert(before + call_items(views.take(index + 1), suffix@, status@) =~= (before
                        + call_items(views.take(index as int), suffix@, status@)).push(item@));
                }
                output.push(item);
            },
            Err(problem) => {
                proof {
                    lemma_calls_problem_kept(views, index + 1);
                }
                return Err(problem);
            },
        }
    }
    assert(views.take(calls.len() as int) =~= views);
    Ok(())
}

fn translate_message(message: &Json, shown: &str, suffix: &str, status: &str) -> (output: Vec<Json>)
    ensures
        json::items_view(output@) + call_items(message_calls(message@), suffix@, status@)
            == output_items(message@, shown@, suffix@, status@),
{
    let mut parts: Vec<Json> = Vec::new();
    let mut output: Vec<Json> = Vec::new();
    proof {
        json::lemma_items_view(parts@);
        json::lemma_items_view(output@);
        assert(json::items_view(parts@) =~= Seq::<JsonView>::empty());
        assert(json::items_view(output@) =~= Seq::<JsonView>::empty());
    }
    if !shown.is_empty() {
        let part = make_output_text_part(shown);
        proof {
            json::lemma_items_view_push(parts@, part);
            assert(Seq::<JsonView>::empty().push(part@) =~= seq![output_text_part(shown@)]);
        }
        parts.push(part);
    }
    if let Some(refusal) = read_refusal(message) {
        let part = make_refusal_part(refusal.as_str());
        proof {
            json::lemma_items_view_push(parts@, part);
        }
        parts.push(part);
    }
    proof {
        json::lemma_items_view(parts@);
    }
    assert(json::items_view(parts@) == message_parts(shown@, message_refusal(message@)));
    if parts.len() > 0 {
        let id = text::concat("msg_", suffix);
        let item = make_message_item(id.as_str(), status, parts);
        proof {
            json::lemma_items_view_push(output@, item);
            assert(Seq::<JsonView>::empty().push(item@) =~= seq![item@]);
        }
        output.push(item);
    }
    output
}

/// Translates a complete Chat answer. The items of the answer get
/// identifiers that end in `suffix`, and the memory keeps the reasoning of
/// the answer for them.
pub fn chat_to_responses_body_with_suffix(
    chat: &Json,
    response_id: &str,
    model: &str,
    created_at: i64,
    store: &mut ReasoningStore,
    structured_output: bool,
    structured_schema: Option<&Json>,
    suffix: &str,
) -> (response: Result<Json, String>)
    requires
        old(store).wf(),
    ensures
        final(store).wf(),
        final(store)@ == memory_after(
            old(store)@,
            chat@,
            structured_output,
            json::json_of(structured_schema),
            suffix@,
        ),
        match response {
            Ok(response) => {
                &&& answer_problem(
                    chat@,
                    structured_output,
                    json::json_of(structured_schema),
                ) is None
                &&& response@ == translated(
                    chat@,
                    response_id@,
                    model@,
                    created_at,
                    structured_output,
                    json::json_of(structured_schema),
                    suffix@,
                )
            },
            Err(message) => answer_problem(
                chat@,
                structured_output,
                json::json_of(structured_schema),
            ) == Some(message@),
        },
{
    if let Some(error) = chat.get("error") {
        return Err(
            match error.text_at("message") {
                Some(message) => message.to_owned(),
                None => "上游服务在成功状态响应中返回了错误。".to_owned(),
            },
        );
    }
    let choice = match read_first_choice(chat) {
        Some(choice) => choice,
        None => return Err("上游 Chat Completions 响应缺少有效 choices。".to_owned()),
    };
    let message = match choice.get("message") {
        Some(message) => message,
        None => return Err("上游 Chat Completions 响应缺少有效 assistant message。".to_owned()),
    };
    if !message.is_object() {
        return Err("上游 Chat Completions 响应缺少有效 assistant message。".to_owned());
    }
    assert(choice_message(choice@) == Some(message@));
    if message.has("function_call") {
        return Err(
            "上游返回了旧版 function_call；转换代理要求标准 tool_calls 格式。".to_owned(),
        );
    }
    let shown = match read_shown_text(message, structured_output, structured_schema) {
        Some(shown) => shown,
        None => return Err("上游模型未返回有效的结构化 JSON 对象。".to_owned()),
    };
    let reason = match choice.text_at("finish_reason") {
        Some(reason) => reason,
        None => return Err("上游 Chat Completions 响应缺少 finish_reason。".to_owned()),
    };
    let ending = match read_ending(reason) {
        Some(ending) => ending,
        None => return Err(text::concat("上游返回了无法识别的 finish_reason：", reason)),
    };
    remember_answer(store, message, suffix);
    let status = ending.status_text();
    let mut output = translate_message(message, shown.as_str(), suffix, status);
    if let Err(problem) = translate_calls(message, suffix, status, &mut output) {
        return Err(problem);
    }
    let usage = match chat.get("usage") {
        Some(usage) => if usage.is_object() {
            make_usage(&read_counts(usage))
        } else {
            Json::Null
        },
        None => Json::Null,
    };
    let name = match chat.text_at("model") {
        Some(name) => if name.is_empty() {
            model
        } else {
            name
        },
        None => model,
    };
    Ok(make_response(response_id, created_at, &ending, name, output, usage, shown.as_str()))
}

/// Translates a complete Chat answer under a random suffix.
pub fn chat_to_responses_body_with_schema(
    chat: &Json,
    response_id: &str,
    model: &str,
    created_at: i64,
    store: &mut ReasoningStore,
    structured_output: bool,
    structured_schema: Option<&Json>,
) -> (response: Result<Json, String>)
    requires
        old(store).wf(),
    ensures
        final(store).wf(),
        exists|suffix: Seq<char>|
            {
                &&& #[trigger] ids::is_simple_id(suffix)
                &&& final(store)@ == memory_after(
                    old(store)@,
                    chat@,
                    structured_output,
                    json::json_of(structured_schema),
                    suffix,
                )
                &&& response matches Ok(response) ==> response@ == translated(
                    chat@,
                    response_id@,
                    model@,
                    created_at,
                    structured_output,
                    json::json_of(structured_schema),
                    suffix,
                )
            },
        match response {
            Ok(_) => answer_problem(
                chat@,
                structured_output,
                json::json_of(structured_schema),
            ) is None,
            Err(message) => answer_problem(
                chat@,
                structured_output,
                json::json_of(structured_schema),
            ) == Some(message@),
        },
{
    let suffix = ids::random_id();
    assert(ids::is_simple_id(suffix@));
    chat_to_responses_body_with_suffix(
        chat,
        response_id,
        model,
        created_at,
        store,
        structured_output,
        structured_schema,
        suffix.as_str(),
    )
}

/// Translates a complete Chat answer that follows no schema.
pub fn chat_to_responses_body(
    chat: &Json,
    response_id: &str,
    model: &str,
    created_at: i64,
    store: &mut ReasoningStore,
    structured_output: bool,
) -> (response: Result<Json, String>)
    requires
        old(store).wf(),
    ensures
        final(store).wf(),
        exists|suffix: Seq<char>|
            {
                &&& #[trigger] ids::is_simple_id(suffix)
                &&& final(store)@ == memory_after(
                    old(store)@,
                    chat@,
                    structured_output,
                    None,
                    suffix,
                )
                &&& response matches Ok(response) ==> response@ == translated(
                    chat@,
                    response_id@,
                    model@,
                    created_at,
                    structured_output,
                    None,
                    suffix,
                )
            },
        match response {
            Ok(_) => answer_problem(chat@, structured_output, None) is None,
            Err(message) => answer_problem(chat@, structured_output, None) == Some(message@),
        },
{
    chat_to_responses_body_with_schema(
        chat,
        response_id,
        model,
        created_at,
        store,
        structured_output,
        None,
    )
}

} // verus!
