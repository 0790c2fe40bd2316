//! The events that make up a streamed answer.

use crate::json;
use crate::json::{Json, JsonView};
use crate::text;
use vstd::prelude::*;

verus! {

/// What an event says. The two kinds of delta come once per token and are
/// written without a document in between.
pub enum EventPayload {
    Document(Json),
    TextDelta {
        item_id: String,
        output_index: usize,
        content_index: usize,
        sequence: u32,
        delta: String,
    },
    ArgumentsDelta { item_id: String, output_index: usize, sequence: u32, delta: String },
}

/// An event that waits to be sent.
pub struct PendingEvent {
    pub event_type: &'static str,
    pub payload: EventPayload,
}

/// What an event says, as a mathematical value.
pub enum PayloadView {
    Document(JsonView),
    TextDelta {
        item_id: Seq<char>,
        output_index: usize,
        content_index: usize,
        sequence: u32,
        delta: Seq<char>,
    },
    ArgumentsDelta { item_id: Seq<char>, output_index: usize, sequence: u32, delta: Seq<char> },
}

/// An event as a mathematical value.
pub struct EventView {
    pub kind: Seq<char>,
    pub payload: PayloadView,
}

impl View for EventPayload {
    type V = PayloadView;

    open spec fn view(&self) -> PayloadView {
        match self {
            EventPayload::Document(document) => PayloadView::Document(document@),
            EventPayload::TextDelta { item_id, output_index, content_index, sequence, delta } =>
                PayloadView::TextDelta {
                item_id: item_id@,
                output_index: *output_index,
                content_index: *content_index,
                sequence: *sequence,
                delta: delta@,
            },
            EventPayload::ArgumentsDelta { item_id, output_index, sequence, delta } =>
                PayloadView::ArgumentsDelta {
                item_id: item_id@,
                output_index: *output_index,
                sequence: *sequence,
                delta: delta@,
            },
        }
    }
}

impl View for PendingEvent {
    type V = EventView;

    open spec fn view(&self) -> EventView {
        EventView { kind: self.event_type@, payload: self.payload@ }
    }
}

/// The events of a list, in order.
pub open spec fn events_view(events: Seq<PendingEvent>) -> Seq<EventView> {
    events.map_values(|event: PendingEvent| event@)
}

/// The JSON of a text.
pub open spec fn quoted(text: Seq<char>) -> Seq<char> {
    match json::compact_text(JsonView::Text(text)) {
        Some(quoted) => quoted,
        None => "\"\""@,
    }
}

fn quote(text: &str) -> (literal: String)
    ensures
        literal@ == quoted(text@),
{
    match Json::text(text).render() {
        Some(quoted) => quoted,
        None => "\"\"".to_owned(),
    }
}

impl EventView {
    /// The number of the event within its stream.
    pub open spec fn sequence(self) -> Option<u64> {
        match self.payload {
            PayloadView::Document(document) => document.u64_at("sequence_number"@),
            PayloadView::TextDelta { sequence, .. } => Some(sequence as u64),
            PayloadView::ArgumentsDelta { sequence, .. } => Some(sequence as u64),
        }
    }

    /// The data of the event as it is sent.
    pub open spec fn data(self) -> Seq<char> {
        match self.payload {
            PayloadView::Document(document) => match json::compact_text(document) {
                Some(text) => text,
                None => "{}"@,
            },
            PayloadView::TextDelta { item_id, output_index, content_index, sequence, delta } => {
                "{\"type\":\""@ + self.kind + "\",\"item_id\":\""@ + item_id
                    + "\",\"output_index\":"@ + text::decimal(output_index as nat)
                    + ",\"content_index\":"@ + text::decimal(content_index as nat)
                    + ",\"sequence_number\":"@ + text::decimal(sequence as nat) + ",\"delta\":"@
                    + quoted(delta) + ",\"logprobs\":[]}"@
            },
            PayloadView::ArgumentsDelta { item_id, output_index, sequence, delta } => {
                "{\"type\":\""@ + self.kind + "\",\"item_id\":\""@ + item_id
                    + "\",\"output_index\":"@ + text::decimal(output_index as nat)
                    + ",\"sequence_number\":"@ + text::decimal(sequence as nat) + ",\"delta\":"@
                    + quoted(delta) + "}"@
            },
        }
    }
}

impl PendingEvent {
    /// The data of the event as it is sent.
    pub fn data(&self) -> (data: String)
        ensures
            data@ == self@.data(),
    {
        match &self.payload {
            EventPayload::Document(document) => match document.render() {
                Some(text) => text,
                None => "{}".to_owned(),
            },
            EventPayload::TextDelta { item_id, output_index, content_index, sequence, delta } => {
                let mut data = "{\"type\":\"".to_owned();
                data.append(self.event_type);
                data.append("\",\"item_id\":\"");
                data.append(item_id.as_str());
                data.append("\",\"output_index\":");
                data.append(text::decimal_text(*output_index as u128).as_str());
                data.append(",\"content_index\":");
                data.append(text::decimal_text(*content_index as u128).as_str());
                data.append(",\"sequence_number\":");
                data.append(text::decimal_text(*sequence as u128).as_str());
                data.append(",\"delta\":");
                data.append(quote(delta.as_str()).as_str());
                data.append(",\"logprobs\":[]}");
                data
            },
            EventPayload::ArgumentsDelta { item_id, output_index, sequence, delta } => {
                let mut data = "{\"type\":\"".to_owned();
                data.append(self.event_type);
                data.append("\",\"item_id\":\"");
                data.append(item_id.as_str());
                data.append("\",\"output_index\":");
                data.append(text::decimal_text(*output_index as u128).as_str());
                data.append(",\"sequence_number\":");
                data.append(text::decimal_text(*sequence as u128).as_str());
                data.append(",\"delta\":");
                data.append(quote(delta.as_str()).as_str());
                data.append("}");
                data
            },
        }
    }
}

/// The number after `sequence`; the greatest number stays.
pub open spec fn next_number(sequence: u32) -> u32 {
    if sequence == u32::MAX {
        sequence
    } else {
        (sequence + 1) as u32
    }
}

/// An event that says a document.
pub open spec fn numbered_event(kind: Seq<char>, document: JsonView, sequence: u32) -> EventView {
    EventView {
        kind,
        payload: PayloadView::Document(
            document.with("sequence_number"@, json::unsigned_view(sequence as u64)),
        ),
    }
}

/// An event that says a document, with the next number of the stream.
pub fn sequenced_sse_event(
    sequence: &mut u32,
    event_type: &'static str,
    payload: Json,
) -> (event: PendingEvent)
    ensures
        event@ == numbered_event(event_type@, payload@, *old(sequence)),
        *final(sequence) == next_number(*old(sequence)),
{
    let number: u32 = *sequence;
    *sequence = number.saturating_add(1);
    PendingEvent {
        event_type,
        payload: EventPayload::Document(
            payload.with("sequence_number", Json::unsigned(number as u64)),
        ),
    }
}

/// An event with a piece of text.
pub fn text_delta_event(
    event_type: &'static str,
    item_id: &str,
    output_index: usize,
    content_index: usize,
    sequence: u32,
    delta: &str,
) -> (event: PendingEvent)
    ensures
        event@ == (EventView {
            kind: event_type@,
            payload: PayloadView::TextDelta {
                item_id: item_id@,
                output_index,
                content_index,
                sequence,
                delta: delta@,
            },
        }),
{
    PendingEvent {
        event_type,
        payload: EventPayload::TextDelta {
            item_id: item_id.to_owned(),
            output_index,
            content_index,
            sequence,
            delta: delta.to_owned(),
        },
    }
}

/// An event with a piece of the arguments of a call.
pub fn arguments_delta_event(
    item_id: &str,
    output_index: usize,
    sequence: u32,
    delta: &str,
) -> (event: PendingEvent)
    ensures
        event@ == (EventView {
            kind: "response.function_call_arguments.delta"@,
            payload: PayloadView::ArgumentsDelta {
                item_id: item_id@,
                output_index,
                sequence,
                delta: delta@,
            },
        }),
{
    PendingEvent {
        event_type: "response.function_call_arguments.delta",
        payload: EventPayload::ArgumentsDelta {
            item_id: item_id.to_owned(),
            output_index,
            sequence,
            delta: delta.to_owned(),
        },
    }
}

} // verus!
