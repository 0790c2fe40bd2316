//! Responses API events out of the chunks of a streamed Chat Completions
//! answer.

use crate::content;
use crate::content::{message_reasoning_text, text_within};
use crate::events;
use crate::events::{
    arguments_delta_event, events_view, next_number, sequenced_sse_event, text_delta_event,
    EventView, PayloadView, PendingEvent,
};
use crate::ids;
use crate::json;
use crate::json::{Json, JsonView};
use crate::reasoning;
use crate::response;
use crate::response::{
    count_within, make_call_item, make_empty_array, make_message_item, make_output_text_part,
    make_refusal_part, or_count, read_first_choice, ResponseMetadata,
};
use crate::text;
use crate::text::same_text;
use vstd::prelude::*;

verus! {

// ---------------------------------------------------------------------------
// State
// ---------------------------------------------------------------------------

/// Where the message of an answer and the parts of its content stand; a part
/// that has not begun has no place.
#[derive(Clone, Copy, Debug, PartialEq, Eq, Structural)]
pub struct Places {
    pub message: Option<usize>,
    pub text: Option<usize>,
    pub refusal: Option<usize>,
}

/// The token counts that the chunks have stated so far.
#[derive(Clone, Copy, Debug, PartialEq, Eq, Structural)]
pub struct UsageState {
    pub input: u64,
    pub output: u64,
    pub cached: u64,
    pub cache_write: u64,
    pub reasoning: u64,
    pub total: Option<u64>,
    pub seen: bool,
}

/// A tool call that the chunks build up. A call whose item was announced has
/// an output index.
pub struct ToolCallAcc {
    pub index: u64,
    pub id: String,
    pub name: String,
    pub arguments: String,
    pub unsent: String,
    pub item_id: String,
    pub output_index: Option<usize>,
}

/// A tool call as a mathematical value.
pub struct CallView {
    pub index: u64,
    pub id: Seq<char>,
    pub name: Seq<char>,
    pub arguments: Seq<char>,
    pub unsent: Seq<char>,
    pub item_id: Seq<char>,
    pub output_index: Option<usize>,
}

impl View for ToolCallAcc {
    type V = CallView;

    open spec fn view(&self) -> CallView {
        CallView {
            index: self.index,
            id: self.id@,
            name: self.name@,
            arguments: self.arguments@,
            unsent: self.unsent@,
            item_id: self.item_id@,
            output_index: self.output_index,
        }
    }
}

/// The tool calls of a list, in order.
pub open spec fn calls_view(calls: Seq<ToolCallAcc>) -> Seq<CallView> {
    calls.map_values(|call: ToolCallAcc| call@)
}

/// Turns the chunks of one answer into events.
pub struct StreamTranslator {
    pub response_id: String,
    pub model: String,
    pub created_at: i64,
    pub msg_item_id: String,
    pub places: Places,
    pub full_text: String,
    pub refusal_text: String,
    pub reasoning_content: String,
    pub structured_output: bool,
    pub structured_schema: Option<Json>,
    pub metadata: ResponseMetadata,
    pub tool_calls: Vec<ToolCallAcc>,
    pub next_output_index: usize,
    pub usage: UsageState,
    pub finish_reason: Option<String>,
    pub saw_valid_choice: bool,
    pub sequence: u32,
    pub has_failed_event: bool,
}

/// A translator as a mathematical value.
pub struct TranslatorView {
    pub response_id: Seq<char>,
    pub model: Seq<char>,
    pub created_at: i64,
    pub msg_item_id: Seq<char>,
    pub places: Places,
    pub full_text: Seq<char>,
    pub refusal_text: Seq<char>,
    pub reasoning_content: Seq<char>,
    pub structured_output: bool,
    pub structured_schema: Option<JsonView>,
    pub metadata: JsonView,
    pub tool_calls: Seq<CallView>,
    pub next_output_index: usize,
    pub usage: UsageState,
    pub finish_reason: Option<Seq<char>>,
    pub saw_valid_choice: bool,
    pub sequence: u32,
    pub has_failed_event: bool,
}

/// The document of an optional document.
pub open spec fn document_of(document: Option<Json>) -> Option<JsonView> {
    match document {
        Some(document) => Some(document@),
        None => None,
    }
}

impl View for StreamTranslator {
    type V = TranslatorView;

    open spec fn view(&self) -> TranslatorView {
        TranslatorView {
            response_id: self.response_id@,
            model: self.model@,
            created_at: self.created_at,
            msg_item_id: self.msg_item_id@,
            places: self.places,
            full_text: self.full_text@,
            refusal_text: self.refusal_text@,
            reasoning_content: self.reasoning_content@,
            structured_output: self.structured_output,
            structured_schema: document_of(self.structured_schema),
            metadata: self.metadata@,
            tool_calls: calls_view(self.tool_calls@),
            next_output_index: self.next_output_index,
            usage: self.usage,
            finish_reason: text::string_of(self.finish_reason),
            saw_valid_choice: self.saw_valid_choice,
            sequence: self.sequence,
            has_failed_event: self.has_failed_event,
        }
    }
}

/// A translator together with the events that it has produced and that were
/// not sent yet.
pub struct Flow {
    pub state: TranslatorView,
    pub out: Seq<EventView>,
}

pub open spec fn flow_of(translator: StreamTranslator, out: Vec<PendingEvent>) -> Flow {
    Flow { state: translator@, out: events_view(out@) }
}

/// A translator before any chunk.
pub open spec fn fresh_translator(
    response_id: Seq<char>,
    model: Seq<char>,
    created_at: i64,
    structured_output: bool,
    structured_schema: Option<JsonView>,
    metadata: JsonView,
    msg_item_id: Seq<char>,
) -> TranslatorView {
    TranslatorView {
        response_id,
        model,
        created_at,
        msg_item_id,
        places: Places { message: None, text: None, refusal: None },
        full_text: Seq::empty(),
        refusal_text: Seq::empty(),
        reasoning_content: Seq::empty(),
        structured_output,
        structured_schema,
        metadata,
        tool_calls: Seq::empty(),
        next_output_index: 0,
        usage: UsageState {
            input: 0,
            output: 0,
            cached: 0,
            cache_write: 0,
            reasoning: 0,
            total: None,
            seen: false,
        },
        finish_reason: None,
        saw_valid_choice: false,
        sequence: 0,
        has_failed_event: false,
    }
}

// ---------------------------------------------------------------------------
// The documents of the events
// ---------------------------------------------------------------------------

/// A document that says its type.
pub open spec fn typed(kind: Seq<char>) -> JsonView {
    json::empty_object().with("type"@, JsonView::Text(kind))
}

pub(crate) fn make_typed(kind: &str) -> (document: Json)
    ensures
        document@ == typed(kind@),
{
    Json::object().with("type", Json::text(kind))
}

pub open spec fn index_view(index: usize) -> JsonView {
    json::unsigned_view(index as u64)
}

pub(crate) fn make_index(index: usize) -> (document: Json)
    ensures
        document@ == index_view(index),
{
    Json::unsigned(index as u64)
}

/// An output item begins.
pub open spec fn item_added(output_index: usize, item: JsonView) -> JsonView {
    typed("response.output_item.added"@).with("output_index"@, index_view(output_index)).with(
        "item"@,
        item,
    )
}

fn make_item_added(output_index: usize, item: Json) -> (document: Json)
    ensures
        document@ == item_added(output_index, item@),
{
    make_typed("response.output_item.added").with("output_index", make_index(output_index)).with(
        "item",
        item,
    )
}

/// An output item ends.
pub open spec fn item_done(output_index: usize, item: JsonView) -> JsonView {
    typed("response.output_item.done"@).with("output_index"@, index_view(output_index)).with(
        "item"@,
        item,
    )
}

pub(crate) fn make_item_done(output_index: usize, item: Json) -> (document: Json)
    ensures
        document@ == item_done(output_index, item@),
{
    make_typed("response.output_item.done").with("output_index", make_index(output_index)).with(
        "item",
        item,
    )
}

/// A document about a part of the message.
pub open spec fn part_document(
    kind: Seq<char>,
    item_id: Seq<char>,
    output_index: usize,
    content_index: usize,
) -> JsonView {
    typed(kind).with("item_id"@, JsonView::Text(item_id)).with(
        "output_index"@,
        index_view(output_index),
    ).with("content_index"@, index_view(content_index))
}

pub(crate) fn make_part_document(
    kind: &str,
    item_id: &str,
    output_index: usize,
    content_index: usize,
) -> (document: Json)
    ensures
        document@ == part_document(kind@, item_id@, output_index, content_index),
{
    make_typed(kind).with("item_id", Json::text(item_id)).with(
        "output_index",
        make_index(output_index),
    ).with("content_index", make_index(content_index))
}

/// The `response` member of an event that tells how the answer stands before
/// it has any output.
pub open spec fn stub_response(state: TranslatorView, status: Seq<char>) -> JsonView {
    json::empty_object().with("id"@, JsonView::Text(state.response_id)).with(
        "object"@,
        JsonView::Text("response"@),
    ).with("created_at"@, json::signed_view(state.created_at)).with(
        "status"@,
        JsonView::Text(status),
    ).with("model"@, JsonView::Text(state.model)).with("output"@, response::empty_array()).with(
        "usage"@,
        JsonView::Null,
    ).with("error"@, JsonView::Null).with("incomplete_details"@, JsonView::Null).with(
        "instructions"@,
        JsonView::Null,
    ).with("parallel_tool_calls"@, JsonView::Bool(true)).with(
        "tool_choice"@,
        JsonView::Text("auto"@),
    ).with("tools"@, response::empty_array()).merged(state.metadata)
}

/// An event that tells how the answer stands before it has any output.
pub open spec fn stub_document(
    state: TranslatorView,
    kind: Seq<char>,
    status: Seq<char>,
) -> JsonView {
    typed(kind).with("response"@, stub_response(state, status))
}

/// The event that ends an answer that failed.
pub open spec fn failure_document(state: TranslatorView, message: Seq<char>) -> JsonView {
    let error = json::empty_object().with("code"@, JsonView::Text("server_error"@)).with(
        "message"@,
        JsonView::Text(message),
    );
    typed("response.failed"@).with(
        "response"@,
        stub_response(state, "failed"@).with("error"@, error).with(
            "incomplete_details"@,
            JsonView::Null,
        ),
    )
}

// ---------------------------------------------------------------------------
// Steps
// ---------------------------------------------------------------------------

pub open spec fn place(index: Option<usize>) -> usize {
    match index {
        Some(index) => index,
        None => 0,
    }
}

pub(crate) fn place_of(index: Option<usize>) -> (position: usize)
    ensures
        position == place(index),
{
    match index {
        Some(index) => index,
        None => 0,
    }
}

/// The index after `index`; the greatest index stays.
pub open spec fn next_index(index: usize) -> usize {
    if index == usize::MAX {
        index
    } else {
        (index + 1) as usize
    }
}

impl Flow {
    /// One more event, with the next number of the stream.
    pub open spec fn emit(self, kind: Seq<char>, document: JsonView) -> Flow {
        Flow {
            state: TranslatorView { sequence: next_number(self.state.sequence), ..self.state },
            out: self.out.push(events::numbered_event(kind, document, self.state.sequence)),
        }
    }

    /// The answer has failed. Only the first failure is told.
    pub open spec fn fail(self, message: Seq<char>) -> Flow {
        if self.state.has_failed_event {
            self
        } else {
            let failed = Flow {
                state: TranslatorView { has_failed_event: true, ..self.state },
                out: self.out,
            };
            failed.emit("response.failed"@, failure_document(self.state, message))
        }
    }

    /// The message item has begun, at the next output index.
    pub open spec fn start_message(self) -> Flow {
        if self.state.places.message is Some {
            self
        } else {
            let index = self.state.next_output_index;
            let begun = Flow {
                state: TranslatorView {
                    places: Places { message: Some(index), ..self.state.places },
                    next_output_index: next_index(index),
                    ..self.state
                },
                out: self.out,
            };
            begun.emit(
                "response.output_item.added"@,
                item_added(
                    index,
                    response::message_item(
                        self.state.msg_item_id,
                        "in_progress"@,
                        Seq::empty(),
                    ),
                ),
            )
        }
    }

    /// The text part has begun, after the refusal where there is one.
    pub open spec fn start_text(self) -> Flow {
        if self.state.places.text is Some {
            self
        } else {
            let begun = self.start_message();
            let index: usize = if begun.state.places.refusal is Some {
                1
            } else {
                0
            };
            let placed = Flow {
                state: TranslatorView {
                    places: Places { text: Some(index), ..begun.state.places },
                    ..begun.state
                },
                out: begun.out,
            };
            placed.emit(
                "response.content_part.added"@,
                part_document(
                    "response.content_part.added"@,
                    begun.state.msg_item_id,
                    place(begun.state.places.message),
                    index,
                ).with("part"@, response::output_text_part(""@)),
            )
        }
    }

    /// The refusal part has begun, after the text where there is any.
    pub open spec fn start_refusal(self) -> Flow {
        if self.state.places.refusal is Some {
            self
        } else {
            let begun = self.start_message();
            let index: usize = if begun.state.places.text is Some {
                1
            } else {
                0
            };
            let placed = Flow {
                state: TranslatorView {
                    places: Places { refusal: Some(index), ..begun.state.places },
                    ..begun.state
                },
                out: begun.out,
            };
            placed.emit(
                "response.content_part.added"@,
                part_document(
                    "response.content_part.added"@,
                    begun.state.msg_item_id,
                    place(begun.state.places.message),
                    index,
                ).with("part"@, response::refusal_part(""@)),
            )
        }
    }

    /// A piece of text is told.
    pub open spec fn tell_text(self, delta: Seq<char>) -> Flow {
        Flow {
            state: TranslatorView { sequence: next_number(self.state.sequence), ..self.state },
            out: self.out.push(
                EventView {
                    kind: "response.output_text.delta"@,
                    payload: PayloadView::TextDelta {
                        item_id: self.state.msg_item_id,
                        output_index: place(self.state.places.message),
                        content_index: place(self.state.places.text),
                        sequence: self.state.sequence,
                        delta,
                    },
                },
            ),
        }
    }

    /// A piece of text has arrived. Structured output is held back until it
    /// is complete and checked.
    pub open spec fn take_text(self, delta: Seq<char>) -> Flow {
        let held = Flow {
            state: TranslatorView {
                full_text: self.state.full_text + delta,
                ..self.state
            },
            out: self.out,
        };
        if self.state.structured_output {
            held
        } else {
            held.start_text().tell_text(delta)
        }
    }

    /// A piece of a refusal has arrived.
    pub open spec fn take_refusal(self, delta: Seq<char>) -> Flow {
        let begun = self.start_refusal();
        let held = Flow {
            state: TranslatorView {
                refusal_text: begun.state.refusal_text + delta,
                ..begun.state
            },
            out: begun.out,
        };
        held.emit(
            "response.refusal.delta"@,
            part_document(
                "response.refusal.delta"@,
                held.state.msg_item_id,
                place(held.state.places.message),
                place(held.state.places.refusal),
            ).with("delta"@, JsonView::Text(delta)),
        )
    }
}

/// Whether the usage of a chunk states any of the three main counts.
pub open spec fn states_usage(usage: JsonView) -> bool {
    usage.u64_at("prompt_tokens"@) is Some || usage.u64_at("completion_tokens"@) is Some
        || usage.u64_at("total_tokens"@) is Some
}

/// The token counts after the usage of a chunk. What it does not state stays.
pub open spec fn usage_after(known: UsageState, usage: JsonView) -> UsageState {
    UsageState {
        input: response::count_or(usage.u64_at("prompt_tokens"@), known.input),
        output: response::count_or(usage.u64_at("completion_tokens"@), known.output),
        cached: response::count_or(
            response::count_in(usage, "prompt_tokens_details"@, "cached_tokens"@),
            known.cached,
        ),
        cache_write: response::count_or(
            response::count_in(usage, "prompt_tokens_details"@, "cache_write_tokens"@),
            known.cache_write,
        ),
        reasoning: response::count_or(
            response::count_in(usage, "completion_tokens_details"@, "reasoning_tokens"@),
            known.reasoning,
        ),
        total: match usage.u64_at("total_tokens"@) {
            Some(total) => Some(total),
            None => known.total,
        },
        seen: known.seen || states_usage(usage),
    }
}

fn update_usage(known: &UsageState, usage: &Json) -> (after: UsageState)
    ensures
        after == usage_after(*known, usage@),
{
    let prompt = usage.u64_at("prompt_tokens");
    let completion = usage.u64_at("completion_tokens");
    let total = usage.u64_at("total_tokens");
    UsageState {
        input: or_count(prompt, known.input),
        output: or_count(completion, known.output),
        cached: or_count(
            count_within(usage, "prompt_tokens_details", "cached_tokens"),
            known.cached,
        ),
        cache_write: or_count(
            count_within(usage, "prompt_tokens_details", "cache_write_tokens"),
            known.cache_write,
        ),
        reasoning: or_count(
            count_within(usage, "completion_tokens_details", "reasoning_tokens"),
            known.reasoning,
        ),
        total: match total {
            Some(total) => Some(total),
            None => known.total,
        },
        seen: known.seen || prompt.is_some() || completion.is_some() || total.is_some(),
    }
}

proof fn lemma_events_push(events: Seq<PendingEvent>, event: PendingEvent)
    ensures
        events_view(events.push(event)) == events_view(events).push(event@),
{
    assert(events_view(events.push(event)) =~= events_view(events).push(event@));
}

impl StreamTranslator {
    /// A translator before any chunk.
    pub fn new_with_id(
        response_id: &str,
        model: &str,
        created_at: i64,
        structured_output: bool,
        structured_schema: Option<Json>,
        metadata: ResponseMetadata,
        msg_item_id: String,
    ) -> (translator: Self)
        ensures
            translator.wf(),
            translator@ == fresh_translator(
                response_id@,
                model@,
                created_at,
                structured_output,
                document_of(structured_schema),
                metadata@,
                msg_item_id@,
            ),
    {
        let translator = StreamTranslator {
            response_id: response_id.to_owned(),
            model: model.to_owned(),
            created_at,
            msg_item_id,
            places: Places { message: None, text: None, refusal: None },
            full_text: String::new(),
            refusal_text: String::new(),
            reasoning_content: String::new(),
            structured_output,
            structured_schema,
            metadata,
            tool_calls: Vec::new(),
            next_output_index: 0,
            usage: UsageState {
                input: 0,
                output: 0,
                cached: 0,
                cache_write: 0,
                reasoning: 0,
                total: None,
                seen: false,
            },
            finish_reason: None,
            saw_valid_choice: false,
            sequence: 0,
            has_failed_event: false,
        };
        assert(translator@.tool_calls =~= Seq::<CallView>::empty());
        translator
    }

    /// A translator before any chunk, with a random identifier for its
    /// message.
    pub fn new_with_metadata(
        response_id: &str,
        model: &str,
        created_at: i64,
        structured_output: bool,
        structured_schema: Option<Json>,
        metadata: ResponseMetadata,
    ) -> (translator: Self)
        ensures
            translator.wf(),
            exists|suffix: Seq<char>|
                {
                    &&& #[trigger] ids::is_simple_id(suffix)
                    &&& translator@ == fresh_translator(
                        response_id@,
                        model@,
                        created_at,
                        structured_output,
                        document_of(structured_schema),
                        metadata@,
                        "msg_"@ + suffix,
                    )
                },
    {
        let suffix = ids::random_id();
        assert(ids::is_simple_id(suffix@));
        StreamTranslator::new_with_id(
            response_id,
            model,
            created_at,
            structured_output,
            structured_schema,
            metadata,
            text::concat("msg_", suffix.as_str()),
        )
    }

    pub(crate) fn emit(&mut self, out: &mut Vec<PendingEvent>, kind: &'static str, document: Json)
        ensures
            flow_of(*final(self), *final(out)) == flow_of(*old(self), *old(out)).emit(
                kind@,
                document@,
            ),
    {
        let event = sequenced_sse_event(&mut self.sequence, kind, document);
        proof {
            lemma_events_push(out@, event);
        }
        out.push(event);
    }

    pub(crate) fn make_stub_response(&self, status: &str) -> (stub: Json)
        ensures
            stub@ == stub_response(self@, status@),
    {
        let mut stub = Json::object().with("id", Json::text(self.response_id.as_str())).with(
            "object",
            Json::text("response"),
        ).with("created_at", Json::signed(self.created_at)).with(
            "status",
            Json::text(status),
        ).with("model", Json::text(self.model.as_str())).with("output", make_empty_array()).with(
            "usage",
            Json::Null,
        ).with("error", Json::Null).with("incomplete_details", Json::Null).with(
            "instructions",
            Json::Null,
        ).with("parallel_tool_calls", Json::Bool(true)).with(
            "tool_choice",
            Json::text("auto"),
        ).with("tools", make_empty_array());
        self.metadata.apply(&mut stub);
        stub
    }

    /// An event that tells how the answer stands before it has any output.
    pub fn stub(&self, event_type: &str, status: &str) -> (document: Json)
        ensures
            document@ == stub_document(self@, event_type@, status@),
    {
        make_typed(event_type).with("response", self.make_stub_response(status))
    }

    /// Tells that the answer has failed, once.
    pub fn fail(&mut self, out: &mut Vec<PendingEvent>, message: &str)
        ensures
            flow_of(*final(self), *final(out)) == flow_of(*old(self), *old(out)).fail(message@),
    {
        if self.has_failed_event {
            return;
        }
        let error = Json::object().with("code", Json::text("server_error")).with(
            "message",
            Json::text(message),
        );
        let stub = self.make_stub_response("failed").with("error", error).with(
            "incomplete_details",
            Json::Null,
        );
        let document = make_typed("response.failed").with("response", stub);
        self.has_failed_event = true;
        self.emit(out, "response.failed", document);
    }

    fn claim_output_index(&mut self) -> (index: usize)
        ensures
            index == old(self).next_output_index,
            final(self)@ == (TranslatorView {
                next_output_index: next_index(old(self).next_output_index),
                ..old(self)@
            }),
    {
        let index: usize = self.next_output_index;
        self.next_output_index = index.saturating_add(1);
        index
    }

    fn start_message(&mut self, out: &mut Vec<PendingEvent>)
        ensures
            flow_of(*final(self), *final(out)) == flow_of(*old(self), *old(out)).start_message(),
    {
        if self.places.message.is_some() {
            return;
        }
        let index: usize = self.claim_output_index();
        self.places.message = Some(index);
        let parts: Vec<Json> = Vec::new();
        proof {
            json::lemma_items_view(parts@);
            assert(json::items_view(parts@) =~= Seq::<JsonView>::empty());
        }
        let item = make_message_item(self.msg_item_id.as_str(), "in_progress", parts);
        let document = make_item_added(index, item);
        self.emit(out, "response.output_item.added", document);
    }

    pub(crate) fn start_text(&mut self, out: &mut Vec<PendingEvent>)
        ensures
            flow_of(*final(self), *final(out)) == flow_of(*old(self), *old(out)).start_text(),
    {
        if self.places.text.is_some() {
            return;
        }
        self.start_message(out);
        let index: usize = if self.places.refusal.is_some() {
            1
        } else {
            0
        };
        let document = make_part_document(
            "response.content_part.added",
            self.msg_item_id.as_str(),
            place_of(self.places.message),
            index,
        ).with("part", make_output_text_part(""));
        self.places.text = Some(index);
        self.emit(out, "response.content_part.added", document);
    }

    fn start_refusal(&mut self, out: &mut Vec<PendingEvent>)
        ensures
            flow_of(*final(self), *final(out)) == flow_of(*old(self), *old(out)).start_refusal(),
    {
        if self.places.refusal.is_some() {
            return;
        }
        self.start_message(out);
        let index: usize = if self.places.text.is_some() {
            1
        } else {
            0
        };
        let document = make_part_document(
            "response.content_part.added",
            self.msg_item_id.as_str(),
            place_of(self.places.message),
            index,
        ).with("part", make_refusal_part(""));
        self.places.refusal = Some(index);
        self.emit(out, "response.content_part.added", document);
    }

    pub(crate) fn tell_text(&mut self, out: &mut Vec<PendingEvent>, delta: &str)
        ensures
            flow_of(*final(self), *final(out)) == flow_of(*old(self), *old(out)).tell_text(delta@),
    {
        let number: u32 = self.sequence;
        self.sequence = number.saturating_add(1);
        let event = text_delta_event(
            "response.output_text.delta",
            self.msg_item_id.as_str(),
            place_of(self.places.message),
            place_of(self.places.text),
            number,
            delta,
        );
        proof {
            lemma_events_push(out@, event);
        }
        out.push(event);
    }

    fn take_text(&mut self, out: &mut Vec<PendingEvent>, delta: &str)
        ensures
            flow_of(*final(self), *final(out)) == flow_of(*old(self), *old(out)).take_text(delta@),
    {
        self.full_text.append(delta);
        if !self.structured_output {
            self.start_text(out);
            self.tell_text(out, delta);
        }
    }

    fn take_refusal(&mut self, out: &mut Vec<PendingEvent>, delta: &str)
        ensures
            flow_of(*final(self), *final(out)) == flow_of(*old(self), *old(out)).take_refusal(
                delta@,
            ),
    {
        self.start_refusal(out);
        self.refusal_text.append(delta);
        let document = make_part_document(
            "response.refusal.delta",
            self.msg_item_id.as_str(),
            place_of(self.places.message),
            place_of(self.places.refusal),
        ).with("delta", Json::text(delta));
        self.emit(out, "response.refusal.delta", document);
    }
}

// ---------------------------------------------------------------------------
// Tool calls
// ---------------------------------------------------------------------------

/// Where the call with an index stands among the calls, or would stand: they
/// are in the order of their indexes.
pub open spec fn slot(calls: Seq<CallView>, index: u64) -> int
    decreases calls.len(),
{
    if calls.len() == 0 || calls[0].index >= index {
        0
    } else {
        1 + slot(calls.drop_first(), index)
    }
}

/// Whether the calls are in the order of their indexes, each index once.
pub open spec fn in_order(calls: Seq<CallView>) -> bool {
    forall|i: int, j: int|
        0 <= i < j < calls.len() ==> #[trigger] calls[i].index < #[trigger] calls[j].index
}

/// The call with an index, where there is one.
pub open spec fn known_call(calls: Seq<CallView>, index: u64) -> Option<CallView> {
    let position = slot(calls, index);
    if position < calls.len() && calls[position].index == index {
        Some(calls[position])
    } else {
        None
    }
}

/// The calls with a call put in its place.
pub open spec fn with_call(calls: Seq<CallView>, call: CallView) -> Seq<CallView> {
    let position = slot(calls, call.index);
    if known_call(calls, call.index) is Some {
        calls.update(position, call)
    } else {
        calls.insert(position, call)
    }
}

/// Where a call stands among the calls.
pub proof fn lemma_slot(calls: Seq<CallView>, index: u64)
    ensures
        0 <= slot(calls, index) <= calls.len(),
        forall|i: int| 0 <= i < slot(calls, index) ==> #[trigger] calls[i].index < index,
        slot(calls, index) < calls.len() ==> calls[slot(calls, index)].index >= index,
    decreases calls.len(),
{
    if calls.len() > 0 && calls[0].index < index {
        let rest = calls.drop_first();
        lemma_slot(rest, index);
        assert forall|i: int| 0 <= i < slot(calls, index) implies #[trigger] calls[i].index
            < index by {
            if i > 0 {
                assert(rest[i - 1].index < index);
            }
        }
    }
}

proof fn lemma_slot_unique(calls: Seq<CallView>, index: u64, position: int)
    requires
        0 <= position <= calls.len(),
        forall|i: int| 0 <= i < position ==> #[trigger] calls[i].index < index,
        position < calls.len() ==> calls[position].index >= index,
    ensures
        slot(calls, index) == position,
{
    lemma_slot(calls, index);
    let found = slot(calls, index);
    if found < position {
        assert(calls[found].index < index);
    }
    if position < found {
        assert(calls[position].index < index);
    }
}

/// A call put in its place keeps the order.
pub proof fn lemma_with_call_in_order(calls: Seq<CallView>, call: CallView)
    requires
        in_order(calls),
    ensures
        in_order(with_call(calls, call)),
        known_call(with_call(calls, call), call.index) == Some(call),
{
    lemma_slot(calls, call.index);
    let position = slot(calls, call.index);
    let after = with_call(calls, call);
    let known = known_call(calls, call.index) is Some;
    assert forall|i: int, j: int| 0 <= i < j < after.len() implies #[trigger] after[i].index
        < #[trigger] after[j].index by {
        if known {
            assert(calls[i].index < calls[j].index);
        } else {
            let a = if i < position {
                i
            } else {
                i - 1
            };
            let b = if j < position {
                j
            } else {
                j - 1
            };
            if i != position && j != position {
                assert(calls[a].index < calls[b].index);
            } else if i == position {
                assert(calls[position].index <= calls[b].index) by {
                    if position < b {
                        assert(calls[position].index < calls[b].index);
                    }
                }
            } else {
                assert(calls[i].index < call.index);
            }
        }
    }
    assert forall|i: int| 0 <= i < position implies #[trigger] after[i].index < call.index by {
        assert(calls[i].index < call.index);
    }
    lemma_slot_unique(after, call.index, position);
}

/// The index of a tool call: the one that it states, or else its position in
/// the chunk.
pub open spec fn stated_index(call: JsonView, position: int) -> u64 {
    match call.u64_at("index"@) {
        Some(index) => index,
        None => position as u64,
    }
}

/// The piece of arguments that a tool call brings; nothing where it is not
/// text.
pub open spec fn arguments_piece(function: JsonView) -> Option<Seq<char>> {
    match function.get("arguments"@) {
        None => Some(Seq::empty()),
        Some(JsonView::Null) => Some(Seq::empty()),
        Some(JsonView::Text(piece)) => Some(piece),
        Some(_) => None,
    }
}

/// Whether a chunk gives a call another identity than it has.
pub open spec fn conflicts(
    known: CallView,
    id: Option<Seq<char>>,
    name: Option<Seq<char>>,
) -> bool {
    ||| id is Some && known.id.len() > 0 && known.id != id->0
    ||| name is Some && known.name.len() > 0 && known.name != name->0
}

/// A call before any chunk.
pub open spec fn fresh_call(index: u64, item_id: Seq<char>) -> CallView {
    CallView {
        index,
        id: Seq::empty(),
        name: Seq::empty(),
        arguments: Seq::empty(),
        unsent: Seq::empty(),
        item_id,
        output_index: None,
    }
}

pub open spec fn replaced(known: Seq<char>, stated: Option<Seq<char>>) -> Seq<char> {
    match stated {
        Some(text) => text,
        None => known,
    }
}

/// A call with what a chunk says of it.
pub open spec fn informed(
    known: CallView,
    id: Option<Seq<char>>,
    name: Option<Seq<char>>,
    piece: Seq<char>,
) -> CallView {
    CallView {
        id: replaced(known.id, id),
        name: replaced(known.name, name),
        arguments: known.arguments + piece,
        unsent: known.unsent + piece,
        ..known
    }
}

/// Why the tool call of a chunk is wrong.
pub open spec fn call_failure(
    calls: Seq<CallView>,
    call: JsonView,
    position: int,
) -> Option<Seq<char>> {
    let index = stated_index(call, position);
    let function = response::call_function(call);
    let number = text::decimal(index as nat);
    let known = known_call(calls, index);
    if known is Some && conflicts(known->0, call.text_at("id"@), function.text_at("name"@)) {
        Some("上游工具调用索引 "@ + number + " 的 id 或函数名发生冲突。"@)
    } else if arguments_piece(function) is None {
        Some("上游工具调用索引 "@ + number + " 的 function.arguments 不是字符串。"@)
    } else {
        None
    }
}

/// The call of a chunk with what was known of it and what the chunk says. A
/// call that was not known gets the item identifier that ends in `fresh`.
pub open spec fn informed_call(
    calls: Seq<CallView>,
    call: JsonView,
    position: int,
    fresh: Seq<char>,
) -> CallView {
    let index = stated_index(call, position);
    let function = response::call_function(call);
    let known = match known_call(calls, index) {
        Some(known) => known,
        None => fresh_call(index, "fc_"@ + fresh),
    };
    informed(
        known,
        call.text_at("id"@),
        function.text_at("name"@),
        arguments_piece(function)->0,
    )
}

/// What a step leads to: the flow after it, and why the answer failed where
/// it did.
pub struct Outcome {
    pub flow: Flow,
    pub failure: Option<Seq<char>>,
}

/// A flow and the call that is at work in it.
pub struct CallFlow {
    pub flow: Flow,
    pub call: CallView,
}

impl CallFlow {
    /// The item of the call is announced once its identity is complete.
    pub open spec fn announced(self) -> CallFlow {
        if self.call.output_index is None && self.call.id.len() > 0 && self.call.name.len() > 0 {
            let index = self.flow.state.next_output_index;
            let claimed = Flow {
                state: TranslatorView { next_output_index: next_index(index), ..self.flow.state },
                out: self.flow.out,
            };
            CallFlow {
                flow: claimed.emit(
                    "response.output_item.added"@,
                    item_added(
                        index,
                        response::call_item(
                            self.call.item_id,
                            "in_progress"@,
                            self.call.id,
                            self.call.name,
                            ""@,
                        ),
                    ),
                ),
                call: CallView { output_index: Some(index), ..self.call },
            }
        } else {
            self
        }
    }

    /// The arguments that wait are told once the item is announced.
    pub open spec fn told(self) -> CallFlow {
        if self.call.output_index is Some && self.call.unsent.len() > 0 {
            CallFlow {
                flow: Flow {
                    state: TranslatorView {
                        sequence: next_number(self.flow.state.sequence),
                        ..self.flow.state
                    },
                    out: self.flow.out.push(
                        EventView {
                            kind: "response.function_call_arguments.delta"@,
                            payload: PayloadView::ArgumentsDelta {
                                item_id: self.call.item_id,
                                output_index: place(self.call.output_index),
                                sequence: self.flow.state.sequence,
                                delta: self.call.unsent,
                            },
                        },
                    ),
                },
                call: CallView { unsent: Seq::empty(), ..self.call },
            }
        } else {
            self
        }
    }
}

impl Flow {
    /// The flow after a tool call that is not wrong.
    pub open spec fn with_call(self, call: JsonView, position: int, fresh: Seq<char>) -> Flow {
        let informed = informed_call(self.state.tool_calls, call, position, fresh);
        let told = CallFlow { flow: self, call: informed }.announced().told();
        Flow {
            state: TranslatorView {
                tool_calls: with_call(told.flow.state.tool_calls, told.call),
                ..told.flow.state
            },
            out: told.flow.out,
        }
    }

    /// What a tool call of a chunk leads to.
    pub open spec fn take_call(self, call: JsonView, position: int, fresh: Seq<char>) -> Outcome {
        match call_failure(self.state.tool_calls, call, position) {
            Some(message) => Outcome { flow: self.fail(message), failure: Some(message) },
            None => Outcome { flow: self.with_call(call, position, fresh), failure: None },
        }
    }

    /// What the tool calls of a chunk lead to, in their order. The first that
    /// is wrong ends the answer.
    pub open spec fn take_calls(self, calls: Seq<JsonView>, fresh: Seq<Seq<char>>) -> Outcome
        decreases calls.len(),
    {
        if calls.len() == 0 {
            Outcome { flow: self, failure: None }
        } else {
            let earlier = self.take_calls(calls.drop_last(), fresh);
            if earlier.failure is Some {
                earlier
            } else {
                let position = calls.len() - 1;
                earlier.flow.take_call(calls.last(), position, fresh[position])
            }
        }
    }
}

impl StreamTranslator {
    /// The calls are in the order of their indexes.
    pub open spec fn wf(self) -> bool {
        in_order(self@.tool_calls)
    }

    fn call_slot(&self, index: u64) -> (position: usize)
        ensures
            position == slot(self@.tool_calls, index),
            position <= self.tool_calls.len(),
    {
        let mut position: usize = 0;
        while position < self.tool_calls.len() && self.tool_calls[position].index < index
            invariant
                position <= self.tool_calls.len(),
                forall|i: int| 0 <= i < position ==> #[trigger] self@.tool_calls[i].index < index,
            decreases self.tool_calls.len() - position,
        {
            position = position + 1;
        }
        proof {
            lemma_slot_unique(self@.tool_calls, index, position as int);
        }
        position
    }

    fn announce(&mut self, out: &mut Vec<PendingEvent>, call: &mut ToolCallAcc)
        ensures
            (CallFlow { flow: flow_of(*final(self), *final(out)), call: final(call)@ }) == (
            CallFlow { flow: flow_of(*old(self), *old(out)), call: old(call)@ }).announced(),
    {
        if call.output_index.is_none() && !call.id.as_str().is_empty()
            && !call.name.as_str().is_empty() {
            let index: usize = self.claim_output_index();
            call.output_index = Some(index);
            let item = make_call_item(
                call.item_id.as_str(),
                "in_progress",
                call.id.as_str(),
                call.name.as_str(),
                "",
            );
            let document = make_item_added(index, item);
            self.emit(out, "response.output_item.added", document);
        }
    }

    fn tell_arguments(&mut self, out: &mut Vec<PendingEvent>, call: &mut ToolCallAcc)
        ensures
            (CallFlow { flow: flow_of(*final(self), *final(out)), call: final(call)@ }) == (
            CallFlow { flow: flow_of(*old(self), *old(out)), call: old(call)@ }).told(),
    {
        if call.output_index.is_some() && !call.unsent.as_str().is_empty() {
            let number: u32 = self.sequence;
            self.sequence = number.saturating_add(1);
            let event = arguments_delta_event(
                call.item_id.as_str(),
                place_of(call.output_index),
                number,
                call.unsent.as_str(),
            );
            proof {
                lemma_events_push(out@, event);
            }
            out.push(event);
            call.unsent = String::new();
        }
    }

    /// Why the tool call of a chunk is wrong.
    fn check_call(&self, call: &Json, position: usize) -> (failure: Option<String>)
        ensures
            text::string_of(failure) == call_failure(self@.tool_calls, call@, position as int),
    {
        let index: u64 = read_index(call, position);
        let nothing = Json::Null;
        let function = match call.get("function") {
            Some(function) => function,
            None => &nothing,
        };
        let spot: usize = self.call_slot(index);
        if spot < self.tool_calls.len() && self.tool_calls[spot].index == index {
            let known = &self.tool_calls[spot];
            assert(known_call(self@.tool_calls, index) == Some(known@));
            let other_id = match call.text_at("id") {
                Some(id) => !known.id.as_str().is_empty() && !same_text(known.id.as_str(), id),
                None => false,
            };
            let other_name = match function.text_at("name") {
                Some(name) => !known.name.as_str().is_empty() && !same_text(
                    known.name.as_str(),
                    name,
                ),
                None => false,
            };
            if other_id || other_name {
                let mut message = "上游工具调用索引 ".to_owned();
                message.append(text::decimal_text(index as u128).as_str());
                message.append(" 的 id 或函数名发生冲突。");
                return Some(message);
            }
        }
        if read_piece(function).is_none() {
            let mut message = "上游工具调用索引 ".to_owned();
            message.append(text::decimal_text(index as u128).as_str());
            message.append(" 的 function.arguments 不是字符串。");
            return Some(message);
        }
        None
    }

    /// The call of a chunk with what was known of it and what the chunk says.
    fn inform(&self, call: &Json, position: usize, fresh: &str) -> (acc: ToolCallAcc)
        requires
            call_failure(self@.tool_calls, call@, position as int) is None,
        ensures
            acc@ == informed_call(self@.tool_calls, call@, position as int, fresh@),
    {
        let index: u64 = read_index(call, position);
        let nothing = Json::Null;
        let function = match call.get("function") {
            Some(function) => function,
            None => &nothing,
        };
        let spot: usize = self.call_slot(index);
        let mut acc = if spot < self.tool_calls.len() && self.tool_calls[spot].index == index {
            self.tool_calls[spot].duplicate()
        } else {
            ToolCallAcc {
                index,
                id: String::new(),
                name: String::new(),
                arguments: String::new(),
                unsent: String::new(),
                item_id: text::concat("fc_", fresh),
                output_index: None,
            }
        };
        if let Some(id) = call.text_at("id") {
            acc.id = id.to_owned();
        }
        if let Some(name) = function.text_at("name") {
            acc.name = name.to_owned();
        }
        if let Some(piece) = read_piece(function) {
            acc.arguments.append(piece);
            acc.unsent.append(piece);
        }
        acc
    }

    /// Puts a call in its place.
    fn put_call(&mut self, acc: ToolCallAcc)
        requires
            old(self).wf(),
        ensures
            final(self).wf(),
            final(self)@ == (TranslatorView {
                tool_calls: with_call(old(self)@.tool_calls, acc@),
                ..old(self)@
            }),
    {
        let ghost before = self@.tool_calls;
        let spot: usize = self.call_slot(acc.index);
        proof {
            lemma_slot(before, acc.index);
            lemma_with_call_in_order(before, acc@);
        }
        if spot < self.tool_calls.len() && self.tool_calls[spot].index == acc.index {
            self.tool_calls.set(spot, acc);
        } else {
            self.tool_calls.insert(spot, acc);
        }
        assert(self@.tool_calls =~= with_call(before, acc@));
    }

    fn take_call(
        &mut self,
        out: &mut Vec<PendingEvent>,
        call: &Json,
        position: usize,
        fresh: &str,
    ) -> (failure: Option<String>)
        requires
            old(self).wf(),
        ensures
            final(self).wf(),
            flow_of(*final(self), *final(out)) == flow_of(*old(self), *old(out)).take_call(
                call@,
                position as int,
                fresh@,
            ).flow,
            text::string_of(failure) == flow_of(*old(self), *old(out)).take_call(
                call@,
                position as int,
                fresh@,
            ).failure,
    {
        if let Some(message) = self.check_call(call, position) {
            self.fail(out, message.as_str());
            return Some(message);
        }
        let mut acc = self.inform(call, position, fresh);
        self.announce(out, &mut acc);
        self.tell_arguments(out, &mut acc);
        self.put_call(acc);
        None
    }

    fn take_calls(
        &mut self,
        out: &mut Vec<PendingEvent>,
        calls: &Vec<Json>,
        fresh: &Vec<String>,
    ) -> (failure: Option<String>)
        requires
            old(self).wf(),
            calls.len() <= fresh.len(),
        ensures
            final(self).wf(),
            flow_of(*final(self), *final(out)) == flow_of(*old(self), *old(out)).take_calls(
                json::items_view(calls@),
                text::texts(fresh@),
            ).flow,
            text::string_of(failure) == flow_of(*old(self), *old(out)).take_calls(
                json::items_view(calls@),
                text::texts(fresh@),
            ).failure,
    {
        let ghost start = flow_of(*self, *out);
        let ghost views = json::items_view(calls@);
        let ghost names = text::texts(fresh@);
        proof {
            json::lemma_items_view(calls@);
        }
        assert(views.take(0) =~= Seq::<JsonView>::empty());
        for index in 0..calls.len()
            invariant
                self.wf(),
                start == flow_of(*old(self), *old(out)),
                calls.len() <= fresh.len(),
                views.len() == calls.len(),
                views == json::items_view(calls@),
                names == text::texts(fresh@),
                forall|i: int| 0 <= i < calls.len() ==> #[trigger] views[i] == calls[i]@,
                start.take_calls(views.take(index as int), names) == (Outcome {
                    flow: flow_of(*self, *out),
                    failure: None,
                }),
        {
            proof {
                assert(views[index as int] == calls[index as int]@);
                assert(views.take(index + 1).drop_last() =~= views.take(index as int));
                assert(views.take(index + 1).last() == views[index as int]);
                assert(names[index as int] == fresh[index as int]@);
            }
            let failure = self.take_call(out, &calls[index], index, fresh[index].as_str());
            if failure.is_some() {
                proof {
                    lemma_failure_kept(start, views, index + 1, names);
                }
                return failure;
            }
        }
        assert(views.take(calls.len() as int) =~= views);
        None
    }
}

/// A failure among the first calls is the failure of all.
proof fn lemma_failure_kept(
    flow: Flow,
    calls: Seq<JsonView>,
    count: int,
    fresh: Seq<Seq<char>>,
)
    requires
        0 <= count <= calls.len(),
        flow.take_calls(calls.take(count), fresh).failure is Some,
    ensures
        flow.take_calls(calls, fresh) == flow.take_calls(calls.take(count), fresh),
    decreases calls.len() - count,
{
    if count < calls.len() {
        assert(calls.take(count + 1).drop_last() =~= calls.take(count));
        lemma_failure_kept(flow, calls, count + 1, fresh);
    } else {
        assert(calls.take(count) =~= calls);
    }
}

impl ToolCallAcc {
    /// A copy of the call.
    pub fn duplicate(&self) -> (copy: Self)
        ensures
            copy@ == self@,
    {
        ToolCallAcc {
            index: self.index,
            id: self.id.clone(),
            name: self.name.clone(),
            arguments: self.arguments.clone(),
            unsent: self.unsent.clone(),
            item_id: self.item_id.clone(),
            output_index: self.output_index,
        }
    }
}

fn read_index(call: &Json, position: usize) -> (index: u64)
    ensures
        index == stated_index(call@, position as int),
{
    match call.u64_at("index") {
        Some(index) => index,
        None => position as u64,
    }
}

fn read_piece(function: &Json) -> (piece: Option<&str>)
    ensures
        text::text_of(piece) == arguments_piece(function@),
{
    proof {
        reveal_strlit("");
        assert(""@ =~= Seq::<char>::empty());
    }
    match function.get("arguments") {
        None => Some(""),
        Some(Json::Null) => Some(""),
        Some(Json::Text(piece)) => Some(piece.as_str()),
        Some(_) => None,
    }
}

// ---------------------------------------------------------------------------
// Chunks
// ---------------------------------------------------------------------------

/// A text that is not empty.
pub open spec fn unless_empty(text: Option<Seq<char>>) -> Option<Seq<char>> {
    match text {
        Some(text) => if text.len() == 0 {
            None
        } else {
            Some(text)
        },
        None => None,
    }
}

fn keep_unless_empty(text: Option<String>) -> (kept: Option<String>)
    ensures
        text::string_of(kept) == unless_empty(text::string_of(text)),
{
    match text {
        Some(text) => if text.as_str().is_empty() {
            None
        } else {
            Some(text)
        },
        None => None,
    }
}

/// What a choice adds to the answer, which has to be an object.
pub open spec fn choice_delta(choice: JsonView) -> Option<JsonView> {
    match choice.get("delta"@) {
        Some(delta) => if delta is Object {
            Some(delta)
        } else {
            None
        },
        None => None,
    }
}

/// The text that a delta adds.
pub open spec fn delta_text(delta: JsonView) -> Option<Seq<char>> {
    unless_empty(
        match content::text_in(delta, "content"@) {
            Some(text) => Some(text),
            None => content::text_in(delta, "parsed"@),
        },
    )
}

/// The tool calls of the first choice of a chunk.
pub open spec fn chunk_calls(chunk: JsonView) -> Seq<JsonView> {
    match response::first_choice(chunk) {
        Some(choice) => match choice_delta(choice) {
            Some(delta) => response::message_calls(delta),
            None => Seq::empty(),
        },
        None => Seq::empty(),
    }
}

impl Flow {
    pub open spec fn failed(self, message: Seq<char>) -> Outcome {
        Outcome { flow: self.fail(message), failure: Some(message) }
    }

    /// The flow once a chunk has named its model and stated its usage.
    pub open spec fn informed(self, chunk: JsonView) -> Flow {
        let model = response::answering_model(chunk, self.state.model);
        let usage = match chunk.get("usage"@) {
            Some(usage) => usage_after(self.state.usage, usage),
            None => self.state.usage,
        };
        Flow { state: TranslatorView { model, usage, ..self.state }, out: self.out }
    }

    /// The flow once a choice was seen, with the reason why the answer ends
    /// where the choice gives one.
    pub open spec fn chosen(self, choice: JsonView) -> Flow {
        let finish_reason = match choice.text_at("finish_reason"@) {
            Some(reason) => Some(reason),
            None => self.state.finish_reason,
        };
        Flow {
            state: TranslatorView { saw_valid_choice: true, finish_reason, ..self.state },
            out: self.out,
        }
    }

    /// The flow with the reasoning of a delta. No event tells it.
    pub open spec fn reasoned(self, delta: JsonView) -> Flow {
        match content::reasoning_text(delta) {
            Some(reasoning) => Flow {
                state: TranslatorView {
                    reasoning_content: self.state.reasoning_content + reasoning,
                    ..self.state
                },
                out: self.out,
            },
            None => self,
        }
    }

    /// The flow with the text and the refusal of a delta.
    pub open spec fn spoken(self, delta: JsonView) -> Flow {
        let told = match delta_text(delta) {
            Some(text) => self.take_text(text),
            None => self,
        };
        match response::message_refusal(delta) {
            Some(refusal) => told.take_refusal(refusal),
            None => told,
        }
    }

    /// What a delta leads to.
    pub open spec fn take_delta(self, delta: JsonView, fresh: Seq<Seq<char>>) -> Outcome {
        let spoken = self.reasoned(delta).spoken(delta);
        if delta.has("function_call"@) {
            spoken.failed("上游返回了旧版 function_call；转换代理要求标准 tool_calls 格式。"@)
        } else {
            spoken.take_calls(response::message_calls(delta), fresh)
        }
    }

    /// What a chunk leads to. New calls get item identifiers that end in the
    /// texts of `fresh`, by the position of the call in the chunk.
    pub open spec fn push_chunk(self, chunk: JsonView, fresh: Seq<Seq<char>>) -> Outcome {
        match chunk.get("error"@) {
            Some(error) => self.failed(
                match error.text_at("message"@) {
                    Some(message) => message,
                    None => "上游服务在流式响应中报告了错误。"@,
                },
            ),
            None => {
                let known = self.informed(chunk);
                match chunk.array_at("choices"@) {
                    None => if chunk.has("usage"@) {
                        Outcome { flow: known, failure: None }
                    } else {
                        known.failed("上游流式响应缺少 choices 数组。"@)
                    },
                    Some(choices) => if choices.len() == 0 {
                        Outcome { flow: known, failure: None }
                    } else {
                        let choice = choices[0];
                        match choice_delta(choice) {
                            None => Flow {
                                state: TranslatorView { saw_valid_choice: true, ..known.state },
                                out: known.out,
                            }.failed("上游流式响应包含无效 delta。"@),
                            Some(delta) => known.chosen(choice).take_delta(delta, fresh),
                        }
                    },
                }
            },
        }
    }
}

impl StreamTranslator {
    fn take_informed(&mut self, chunk: &Json)
        requires
            old(self).wf(),
        ensures
            final(self).wf(),
            final(self)@ == (Flow { state: old(self)@, out: Seq::empty() }).informed(chunk@).state,
    {
        if let Some(model) = chunk.text_at("model") {
            if !model.is_empty() {
                self.model = model.to_owned();
            }
        }
        if let Some(usage) = chunk.get("usage") {
            self.usage = update_usage(&self.usage, usage);
        }
    }

    fn take_delta(
        &mut self,
        out: &mut Vec<PendingEvent>,
        delta: &Json,
        fresh: &Vec<String>,
    ) -> (failure: Option<String>)
        requires
            old(self).wf(),
            response::message_calls(delta@).len() <= fresh.len(),
        ensures
            final(self).wf(),
            flow_of(*final(self), *final(out)) == flow_of(*old(self), *old(out)).take_delta(
                delta@,
                text::texts(fresh@),
            ).flow,
            text::string_of(failure) == flow_of(*old(self), *old(out)).take_delta(
                delta@,
                text::texts(fresh@),
            ).failure,
    {
        if let Some(reasoning) = message_reasoning_text(delta) {
            self.reasoning_content.append(reasoning.as_str());
        }
        let mut told = text_within(delta, "content");
        if told.is_none() {
            told = text_within(delta, "parsed");
        }
        if let Some(told) = keep_unless_empty(told) {
            self.take_text(out, told.as_str());
        }
        if let Some(refusal) = keep_unless_empty(text_within(delta, "refusal")) {
            self.take_refusal(out, refusal.as_str());
        }
        if delta.has("function_call") {
            let message = "上游返回了旧版 function_call；转换代理要求标准 tool_calls 格式。";
            self.fail(out, message);
            return Some(message.to_owned());
        }
        match delta.array_at("tool_calls") {
            Some(calls) => {
                proof {
                    json::lemma_items_view(calls@);
                }
                self.take_calls(out, calls, fresh)
            },
            None => None,
        }
    }

    #[verifier::spinoff_prover]
    #[verifier::rlimit(40)]
    /// Takes in a chunk. A failure ends the answer: it has been told, and no
    /// further chunk is to be read. The texts of `fresh` end the item
    /// identifiers of new calls.
    pub fn push_chunk_with_ids(
        &mut self,
        chunk: &Json,
        out: &mut Vec<PendingEvent>,
        fresh: &Vec<String>,
    ) -> (failure: Option<String>)
        requires
            old(self).wf(),
            chunk_calls(chunk@).len() <= fresh.len(),
        ensures
            final(self).wf(),
            flow_of(*final(self), *final(out)) == flow_of(*old(self), *old(out)).push_chunk(
                chunk@,
                text::texts(fresh@),
            ).flow,
            text::string_of(failure) == flow_of(*old(self), *old(out)).push_chunk(
                chunk@,
                text::texts(fresh@),
            ).failure,
    {
        if let Some(error) = chunk.get("error") {
            let message = match error.text_at("message") {
                Some(message) => message,
                None => "上游服务在流式响应中报告了错误。",
            };
            self.fail(out, message);
            return Some(message.to_owned());
        }
        self.take_informed(chunk);
        if chunk.array_at("choices").is_none() {
            if chunk.has("usage") {
                return None;
            }
            let message = "上游流式响应缺少 choices 数组。";
            self.fail(out, message);
            return Some(message.to_owned());
        }
        let choice = match read_first_choice(chunk) {
            Some(choice) => choice,
            None => return None,
        };
        self.saw_valid_choice = true;
        let delta = match choice.get("delta") {
            Some(delta) => if delta.is_object() {
                Some(delta)
            } else {
                None
            },
            None => None,
        };
        assert(json::json_of(delta) == choice_delta(choice@));
        let delta = match delta {
            Some(delta) => delta,
            None => {
                let message = "上游流式响应包含无效 delta。";
                self.fail(out, message);
                return Some(message.to_owned());
            },
        };
        if let Some(reason) = choice.text_at("finish_reason") {
            self.finish_reason = Some(reason.to_owned());
        }
        self.take_delta(out, delta, fresh)
    }

    /// Takes in a chunk, with random item identifiers for new calls.
    pub fn push_chunk(&mut self, chunk: &Json, out: &mut Vec<PendingEvent>) -> (failure: Option<
        String,
    >)
        requires
            old(self).wf(),
        ensures
            final(self).wf(),
            exists|fresh: Seq<Seq<char>>|
                {
                    &&& #[trigger] are_simple_ids(fresh)
                    &&& fresh.len() == chunk_calls(chunk@).len()
                    &&& flow_of(*final(self), *final(out)) == flow_of(
                        *old(self),
                        *old(out),
                    ).push_chunk(chunk@, fresh).flow
                    &&& text::string_of(failure) == flow_of(*old(self), *old(out)).push_chunk(
                        chunk@,
                        fresh,
                    ).failure
                },
    {
        let count: usize = count_calls(chunk);
        let fresh = ids::random_ids(count);
        proof {
            let texts = text::texts(fresh@);
            assert forall|i: int| 0 <= i < texts.len() implies ids::is_simple_id(
                #[trigger] texts[i],
            ) by {
                assert(ids::is_simple_id(fresh[i]@));
            }
            assert(are_simple_ids(texts));
        }
        self.push_chunk_with_ids(chunk, out, &fresh)
    }
}

/// Whether every text is a random identifier.
pub open spec fn are_simple_ids(texts: Seq<Seq<char>>) -> bool {
    forall|i: int| 0 <= i < texts.len() ==> ids::is_simple_id(#[trigger] texts[i])
}

fn count_calls(chunk: &Json) -> (count: usize)
    ensures
        count == chunk_calls(chunk@).len(),
{
    let choice = match read_first_choice(chunk) {
        Some(choice) => choice,
        None => return 0,
    };
    let delta = match choice.get("delta") {
        Some(delta) => delta,
        None => return 0,
    };
    if !delta.is_object() {
        return 0;
    }
    match delta.array_at("tool_calls") {
        Some(calls) => {
            proof {
                json::lemma_items_view(calls@);
            }
            calls.len()
        },
        None => 0,
    }
}

} // verus!
