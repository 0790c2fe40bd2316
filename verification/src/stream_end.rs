//! The end of a streamed answer.

use crate::content;
use crate::content::validate_structured_output;
use crate::events::PendingEvent;
use crate::json;
use crate::json::{Json, JsonView};
use crate::order::{lemma_ordered_map, order, ordered};
use crate::reasoning;
use crate::reasoning::{EntryView, ReasoningStore};
use crate::response;
use crate::response::{
    add_capped, make_call_item, make_empty_array, make_message_item, make_output_text_part,
    make_refusal_part, make_usage, read_ending, Ending, TokenCounts,
};
use crate::stream::{
    flow_of, index_view, item_done, make_index, make_item_done, make_part_document, make_typed,
    part_document, place, place_of, typed, CallView, Flow, StreamTranslator, ToolCallAcc,
    TranslatorView, UsageState,
};
use crate::text;
use vstd::prelude::*;

verus! {

// ---------------------------------------------------------------------------
// Why an answer cannot be completed
// ---------------------------------------------------------------------------

/// Whether a call lacks a part of its identity.
pub open spec fn is_anonymous(call: CallView) -> bool {
    call.id.len() == 0 || call.name.len() == 0
}

/// The first call that lacks a part of its identity.
pub open spec fn first_anonymous(calls: Seq<CallView>) -> Option<CallView>
    decreases calls.len(),
{
    if calls.len() == 0 {
        None
    } else {
        match first_anonymous(calls.drop_last()) {
            Some(call) => Some(call),
            None => if is_anonymous(calls.last()) {
                Some(calls.last())
            } else {
                None
            },
        }
    }
}

/// Why an answer cannot be completed with what has arrived.
pub open spec fn ending_failure(state: TranslatorView) -> Option<Seq<char>> {
    if !state.saw_valid_choice {
        Some("上游流式响应没有包含任何有效 choice。"@)
    } else {
        match state.finish_reason {
            None => Some("上游 Chat Completions 流未提供终止 finish_reason。"@),
            Some(reason) => if response::ending_of(reason) is None {
                Some("上游返回了无法识别的 finish_reason："@ + reason)
            } else {
                match first_anonymous(state.tool_calls) {
                    Some(call) => Some(
                        "上游第 "@ + text::decimal((call.index + 1) as nat)
                            + " 个工具调用缺少 id 或函数名。"@,
                    ),
                    None => None,
                }
            },
        }
    }
}

proof fn lemma_anonymous_kept(calls: Seq<CallView>, count: int)
    requires
        0 <= count <= calls.len(),
        first_anonymous(calls.take(count)) is Some,
    ensures
        first_anonymous(calls) == first_anonymous(calls.take(count)),
    decreases calls.len() - count,
{
    if count < calls.len() {
        assert(calls.take(count + 1).drop_last() =~= calls.take(count));
        lemma_anonymous_kept(calls, count + 1);
    } else {
        assert(calls.take(count) =~= calls);
    }
}

// ---------------------------------------------------------------------------
// The memory
// ---------------------------------------------------------------------------

/// The memory once the reasoning of an answer is stored for its calls.
pub open spec fn remembered_calls(
    entries: Seq<EntryView>,
    calls: Seq<CallView>,
    content: Seq<char>,
) -> Seq<EntryView>
    decreases calls.len(),
{
    if calls.len() == 0 {
        entries
    } else {
        let earlier = remembered_calls(entries, calls.drop_last(), content);
        let call = calls.last();
        let stored = reasoning::remembered(earlier, call.item_id, Some(content));
        if call.id.len() == 0 {
            stored
        } else {
            reasoning::remembered(
                stored,
                call.id,
                reasoning::claimed(stored, call.id, content),
            )
        }
    }
}

/// The memory once the reasoning of an answer is stored for its items.
pub open spec fn remembered_stream(
    entries: Seq<EntryView>,
    state: TranslatorView,
) -> Seq<EntryView> {
    if text::blank(state.reasoning_content) {
        entries
    } else {
        let content = reasoning::bounded(state.reasoning_content);
        remembered_calls(
            reasoning::remembered(entries, state.msg_item_id, Some(content)),
            state.tool_calls,
            content,
        )
    }
}

// ---------------------------------------------------------------------------
// The last events
// ---------------------------------------------------------------------------

/// The checked form of the structured output that was held back.
pub open spec fn checked_text(state: TranslatorView) -> Option<Seq<char>> {
    if text::blank(state.full_text) {
        None
    } else {
        content::structured_text(state.full_text, state.structured_schema)
    }
}

/// Whether structured output was held back and is to be told now.
pub open spec fn holds_output(state: TranslatorView) -> bool {
    state.structured_output && state.places.text is None && state.places.refusal is None
}

/// The content of the message, its parts in the order of their places.
pub open spec fn message_content(state: TranslatorView) -> Seq<JsonView> {
    let text = response::output_text_part(state.full_text);
    let refusal = response::refusal_part(state.refusal_text);
    match state.places.text {
        Some(text_place) => match state.places.refusal {
            Some(refusal_place) => if text_place <= refusal_place {
                seq![text, refusal]
            } else {
                seq![refusal, text]
            },
            None => seq![text],
        },
        None => match state.places.refusal {
            Some(_) => seq![refusal],
            None => Seq::empty(),
        },
    }
}

/// The message item of an answer that has ended.
pub open spec fn final_message(state: TranslatorView, ending: Ending) -> JsonView {
    response::message_item(state.msg_item_id, ending.status(), message_content(state))
}

/// The item of a call of an answer that has ended.
pub open spec fn final_call(call: CallView, ending: Ending) -> JsonView {
    response::call_item(call.item_id, ending.status(), call.id, call.name, call.arguments)
}

/// The calls that were announced, each with its output index.
pub open spec fn announced_calls(calls: Seq<CallView>) -> Seq<(usize, CallView)>
    decreases calls.len(),
{
    if calls.len() == 0 {
        Seq::empty()
    } else {
        match calls.last().output_index {
            Some(index) => announced_calls(calls.drop_last()).push((index, calls.last())),
            None => announced_calls(calls.drop_last()),
        }
    }
}

/// The output items of an answer that has ended, in the order of their
/// indexes.
pub open spec fn final_output(state: TranslatorView, ending: Ending) -> Seq<JsonView> {
    ordered(indexed_output(state, ending)).map_values(|item: (usize, JsonView)| item.1)
}

/// The output items of an answer that has ended: the message, then the
/// calls.
pub open spec fn indexed_output(state: TranslatorView, ending: Ending) -> Seq<(usize, JsonView)> {
    let spoken = match state.places.message {
        Some(index) => seq![(index, final_message(state, ending))],
        None => Seq::empty(),
    };
    spoken + ordered(announced_calls(state.tool_calls)).map_values(
        |call: (usize, CallView)| (call.0, final_call(call.1, ending)),
    )
}

/// The token counts of an answer that has ended. A missing total is the sum
/// of input and output.
pub open spec fn final_counts(usage: UsageState) -> TokenCounts {
    TokenCounts {
        input: usage.input,
        output: usage.output,
        cached: usage.cached,
        cache_write: usage.cache_write,
        reasoning: usage.reasoning,
        total: match usage.total {
            Some(total) => total,
            None => response::capped_sum(usage.input, usage.output),
        },
    }
}

pub open spec fn final_usage(usage: UsageState) -> JsonView {
    if usage.seen {
        response::usage_document(final_counts(usage))
    } else {
        JsonView::Null
    }
}

/// The type of the event that ends an answer.
pub open spec fn final_kind(ending: Ending) -> Seq<char> {
    if ending.incomplete() {
        "response.incomplete"@
    } else {
        "response.completed"@
    }
}

/// The event that ends an answer.
pub open spec fn final_document(state: TranslatorView, ending: Ending) -> JsonView {
    let answer = json::empty_object().with("id"@, JsonView::Text(state.response_id)).with(
        "object"@,
        JsonView::Text("response"@),
    ).with("created_at"@, json::signed_view(state.created_at)).with(
        "status"@,
        JsonView::Text(ending.status()),
    ).with("model"@, JsonView::Text(state.model)).with(
        "output"@,
        JsonView::Array(final_output(state, ending)),
    ).with("usage"@, final_usage(state.usage)).with(
        "parallel_tool_calls"@,
        JsonView::Bool(true),
    ).with("tool_choice"@, JsonView::Text("auto"@)).with("tools"@, response::empty_array()).with(
        "instructions"@,
        JsonView::Null,
    ).with("error"@, JsonView::Null).merged(state.metadata).with(
        "incomplete_details"@,
        ending.details(),
    );
    typed(final_kind(ending)).with("response"@, answer)
}

impl Flow {
    /// The flow once held back structured output is told in its checked form,
    /// or dropped where there is none.
    pub open spec fn released(self) -> Flow {
        if !holds_output(self.state) {
            self
        } else {
            match checked_text(self.state) {
                Some(text) => {
                    let begun = self.start_text();
                    Flow {
                        state: TranslatorView { full_text: text, ..begun.state },
                        out: begun.out,
                    }.tell_text(text)
                },
                None => Flow {
                    state: TranslatorView { full_text: Seq::empty(), ..self.state },
                    out: self.out,
                },
            }
        }
    }

    /// The text part has ended.
    pub open spec fn close_text(self) -> Flow {
        match self.state.places.text {
            Some(index) => {
                let id = self.state.msg_item_id;
                let output = place(self.state.places.message);
                self.emit(
                    "response.output_text.done"@,
                    part_document("response.output_text.done"@, id, output, index).with(
                        "text"@,
                        JsonView::Text(self.state.full_text),
                    ).with("logprobs"@, response::empty_array()),
                ).emit(
                    "response.content_part.done"@,
                    part_document("response.content_part.done"@, id, output, index).with(
                        "part"@,
                        response::output_text_part(self.state.full_text),
                    ),
                )
            },
            None => self,
        }
    }

    /// The refusal part has ended.
    pub open spec fn close_refusal(self) -> Flow {
        match self.state.places.refusal {
            Some(index) => {
                let id = self.state.msg_item_id;
                let output = place(self.state.places.message);
                self.emit(
                    "response.refusal.done"@,
                    part_document("response.refusal.done"@, id, output, index).with(
                        "refusal"@,
                        JsonView::Text(self.state.refusal_text),
                    ),
                ).emit(
                    "response.content_part.done"@,
                    part_document("response.content_part.done"@, id, output, index).with(
                        "part"@,
                        response::refusal_part(self.state.refusal_text),
                    ),
                )
            },
            None => self,
        }
    }

    /// The message has ended.
    pub open spec fn close_message(self, ending: Ending) -> Flow {
        match self.state.places.message {
            Some(index) => self.close_text().close_refusal().emit(
                "response.output_item.done"@,
                item_done(index, final_message(self.state, ending)),
            ),
            None => self,
        }
    }

    /// A call has ended. Its arguments are complete only where the answer is.
    pub open spec fn close_call(self, index: usize, call: CallView, ending: Ending) -> Flow {
        let argued = if ending.incomplete() {
            self
        } else {
            self.emit(
                "response.function_call_arguments.done"@,
                typed("response.function_call_arguments.done"@).with(
                    "item_id"@,
                    JsonView::Text(call.item_id),
                ).with("output_index"@, index_view(index)).with(
                    "arguments"@,
                    JsonView::Text(call.arguments),
                ).with("name"@, JsonView::Text(call.name)),
            )
        };
        argued.emit(
            "response.output_item.done"@,
            item_done(index, final_call(call, ending)),
        )
    }

    /// The calls have ended, in their order.
    pub open spec fn close_calls(self, calls: Seq<(usize, CallView)>, ending: Ending) -> Flow
        decreases calls.len(),
    {
        if calls.len() == 0 {
            self
        } else {
            self.close_calls(calls.drop_last(), ending).close_call(
                calls.last().0,
                calls.last().1,
                ending,
            )
        }
    }

    /// The answer has ended.
    pub open spec fn concluded(self, ending: Ending) -> Flow {
        let closed = self.close_message(ending).close_calls(
            ordered(announced_calls(self.state.tool_calls)),
            ending,
        );
        closed.emit(final_kind(ending), final_document(self.state, ending))
    }
}

/// What the end of a stream leads to.
pub struct FinishView {
    pub flow: Flow,
    pub entries: Seq<EntryView>,
    pub completed: bool,
}

impl Flow {
    /// What the end of a stream leads to: the last events, what is kept of
    /// the reasoning, and whether the answer was completed.
    pub open spec fn finish(self, entries: Seq<EntryView>) -> FinishView {
        match ending_failure(self.state) {
            Some(message) => FinishView { flow: self.fail(message), entries, completed: false },
            None => {
                let entries = remembered_stream(entries, self.state);
                if holds_output(self.state) && checked_text(self.state) is None
                    && self.state.tool_calls.len() == 0 {
                    FinishView {
                        flow: self.fail("上游模型未返回有效的结构化 JSON 对象。"@),
                        entries,
                        completed: false,
                    }
                } else {
                    let ending = response::ending_of(self.state.finish_reason->0)->0;
                    FinishView {
                        flow: self.released().concluded(ending),
                        entries,
                        completed: true,
                    }
                }
            },
        }
    }
}

impl StreamTranslator {
    /// Why the answer cannot be completed with what has arrived.
    fn check_ending(&self) -> (failure: Option<String>)
        ensures
            text::string_of(failure) == ending_failure(self@),
    {
        if !self.saw_valid_choice {
            return Some("上游流式响应没有包含任何有效 choice。".to_owned());
        }
        let reason = match &self.finish_reason {
            Some(reason) => reason.as_str(),
            None => return Some("上游 Chat Completions 流未提供终止 finish_reason。".to_owned()),
        };
        if read_ending(reason).is_none() {
            return Some(text::concat("上游返回了无法识别的 finish_reason：", reason));
        }
        let ghost calls = self@.tool_calls;
        assert(calls.take(0) =~= Seq::<CallView>::empty());
        for index in 0..self.tool_calls.len()
            invariant
                calls == self@.tool_calls,
                calls.len() == self.tool_calls.len(),
                self.saw_valid_choice,
                self@.finish_reason == Some(reason@),
                response::ending_of(reason@) is Some,
                first_anonymous(calls.take(index as int)) is None,
        {
            let call = &self.tool_calls[index];
            proof {
                assert(calls[index as int] == call@);
                assert(calls.take(index + 1).drop_last() =~= calls.take(index as int));
                assert(calls.take(index + 1).last() == calls[index as int]);
            }
            if call.id.as_str().is_empty() || call.name.as_str().is_empty() {
                proof {
                    lemma_anonymous_kept(calls, index + 1);
                }
                let mut message = "上游第 ".to_owned();
                message.append(text::decimal_text(call.index as u128 + 1).as_str());
                message.append(" 个工具调用缺少 id 或函数名。");
                return Some(message);
            }
        }
        assert(calls.take(self.tool_calls.len() as int) =~= calls);
        None
    }

    /// Keeps the reasoning of the answer for its items.
    fn remember(&self, store: &mut ReasoningStore)
        requires
            old(store).wf(),
        ensures
            final(store).wf(),
            final(store)@ == remembered_stream(old(store)@, self@),
    {
        if text::is_blank(self.reasoning_content.as_str()) {
            return;
        }
        let content = ReasoningStore::bounded_content(self.reasoning_content.as_str());
        store.insert_shared(self.msg_item_id.as_str(), content.as_str());
        let ghost start = store@;
        let ghost calls = self@.tool_calls;
        assert(calls.take(0) =~= Seq::<CallView>::empty());
        for index in 0..self.tool_calls.len()
            invariant
                store.wf(),
                calls == self@.tool_calls,
                calls.len() == self.tool_calls.len(),
                store@ == remembered_calls(start, calls.take(index as int), content@),
        {
            let call = &self.tool_calls[index];
            proof {
                assert(calls[index as int] == call@);
                assert(calls.take(index + 1).drop_last() =~= calls.take(index as int));
                assert(calls.take(index + 1).last() == calls[index as int]);
            }
            store.insert_shared(call.item_id.as_str(), content.as_str());
            if !call.id.as_str().is_empty() {
                store.insert_call_alias(call.id.as_str(), content.as_str());
            }
        }
        assert(calls.take(self.tool_calls.len() as int) =~= calls);
    }

    fn check_held_text(&self) -> (checked: Option<String>)
        ensures
            text::string_of(checked) == checked_text(self@),
    {
        if text::is_blank(self.full_text.as_str()) {
            None
        } else {
            let schema = match &self.structured_schema {
                Some(schema) => Some(schema),
                None => None,
            };
            validate_structured_output(self.full_text.as_str(), schema)
        }
    }

    fn close_text(&mut self, out: &mut Vec<PendingEvent>)
        ensures
            flow_of(*final(self), *final(out)) == flow_of(*old(self), *old(out)).close_text(),
            final(self)@ == (TranslatorView { sequence: final(self)@.sequence, ..old(self)@ }),
    {
        if let Some(index) = self.places.text {
            let output: usize = place_of(self.places.message);
            let done = make_part_document(
                "response.output_text.done",
                self.msg_item_id.as_str(),
                output,
                index,
            ).with("text", Json::text(self.full_text.as_str())).with(
                "logprobs",
                make_empty_array(),
            );
            let part = make_part_document(
                "response.content_part.done",
                self.msg_item_id.as_str(),
                output,
                index,
            ).with("part", make_output_text_part(self.full_text.as_str()));
            self.emit(out, "response.output_text.done", done);
            self.emit(out, "response.content_part.done", part);
        }
    }

    fn close_refusal(&mut self, out: &mut Vec<PendingEvent>)
        ensures
            flow_of(*final(self), *final(out)) == flow_of(*old(self), *old(out)).close_refusal(),
            final(self)@ == (TranslatorView { sequence: final(self)@.sequence, ..old(self)@ }),
    {
        if let Some(index) = self.places.refusal {
            let output: usize = place_of(self.places.message);
            let done = make_part_document(
                "response.refusal.done",
                self.msg_item_id.as_str(),
                output,
                index,
            ).with("refusal", Json::text(self.refusal_text.as_str()));
            let part = make_part_document(
                "response.content_part.done",
                self.msg_item_id.as_str(),
                output,
                index,
            ).with("part", make_refusal_part(self.refusal_text.as_str()));
            self.emit(out, "response.refusal.done", done);
            self.emit(out, "response.content_part.done", part);
        }
    }

    fn make_content(&self) -> (content: Vec<Json>)
        ensures
            json::items_view(content@) == message_content(self@),
    {
        let mut content: Vec<Json> = Vec::new();
        if let Some(text_place) = self.places.text {
            content.push(make_output_text_part(self.full_text.as_str()));
            if let Some(refusal_place) = self.places.refusal {
                let refusal = make_refusal_part(self.refusal_text.as_str());
                if text_place <= refusal_place {
                    content.push(refusal);
                } else {
                    content.insert(0, refusal);
                }
            }
        } else if self.places.refusal.is_some() {
            content.push(make_refusal_part(self.refusal_text.as_str()));
        }
        proof {
            json::lemma_items_view(content@);
            assert(json::items_view(content@) =~= message_content(self@));
        }
        content
    }

    fn make_final_message(&self, ending: &Ending) -> (item: Json)
        ensures
            item@ == final_message(self@, *ending),
    {
        make_message_item(self.msg_item_id.as_str(), ending.status_text(), self.make_content())
    }

    fn close_message(&mut self, out: &mut Vec<PendingEvent>, ending: &Ending)
        ensures
            flow_of(*final(self), *final(out)) == flow_of(*old(self), *old(out)).close_message(
                *ending,
            ),
            final(self)@ == (TranslatorView { sequence: final(self)@.sequence, ..old(self)@ }),
    {
        if let Some(index) = self.places.message {
            let item = self.make_final_message(ending);
            self.close_text(out);
            self.close_refusal(out);
            self.emit(out, "response.output_item.done", make_item_done(index, item));
        }
    }

    fn close_call(
        &mut self,
        out: &mut Vec<PendingEvent>,
        index: usize,
        call: &ToolCallAcc,
        ending: &Ending,
    )
        ensures
            flow_of(*final(self), *final(out)) == flow_of(*old(self), *old(out)).close_call(
                index,
                call@,
                *ending,
            ),
            final(self)@ == (TranslatorView { sequence: final(self)@.sequence, ..old(self)@ }),
    {
        if !ending.is_incomplete() {
            let document = make_typed("response.function_call_arguments.done").with(
                "item_id",
                Json::text(call.item_id.as_str()),
            ).with("output_index", make_index(index)).with(
                "arguments",
                Json::text(call.arguments.as_str()),
            ).with("name", Json::text(call.name.as_str()));
            self.emit(out, "response.function_call_arguments.done", document);
        }
        let item = make_final_call(call, ending);
        self.emit(out, "response.output_item.done", make_item_done(index, item));
    }
}

fn make_final_call(call: &ToolCallAcc, ending: &Ending) -> (item: Json)
    ensures
        item@ == final_call(call@, *ending),
{
    make_call_item(
        call.item_id.as_str(),
        ending.status_text(),
        call.id.as_str(),
        call.name.as_str(),
        call.arguments.as_str(),
    )
}

/// The calls of a list with their indexes.
pub open spec fn indexed_calls(calls: Seq<(usize, ToolCallAcc)>) -> Seq<(usize, CallView)> {
    calls.map_values(|call: (usize, ToolCallAcc)| (call.0, call.1@))
}

/// The items of a list with their indexes.
pub open spec fn indexed_items(items: Seq<(usize, Json)>) -> Seq<(usize, JsonView)> {
    items.map_values(|item: (usize, Json)| (item.0, item.1@))
}

impl StreamTranslator {
    /// The calls that were announced, in the order of their indexes.
    fn announced(&self) -> (calls: Vec<(usize, ToolCallAcc)>)
        ensures
            indexed_calls(calls@) == ordered(announced_calls(self@.tool_calls)),
    {
        let mut found: Vec<(usize, ToolCallAcc)> = Vec::new();
        let ghost calls = self@.tool_calls;
        assert(calls.take(0) =~= Seq::<CallView>::empty());
        assert(indexed_calls(found@) =~= Seq::<(usize, CallView)>::empty());
        for index in 0..self.tool_calls.len()
            invariant
                calls == self@.tool_calls,
                calls.len() == self.tool_calls.len(),
                indexed_calls(found@) == announced_calls(calls.take(index as int)),
        {
            let call = &self.tool_calls[index];
            proof {
                assert(calls[index as int] == call@);
                assert(calls.take(index + 1).drop_last() =~= calls.take(index as int));
                assert(calls.take(index + 1).last() == calls[index as int]);
            }
            if let Some(output) = call.output_index {
                let copy = (output, call.duplicate());
                assert(indexed_calls(found@.push(copy)) =~= indexed_calls(found@).push(
                    (copy.0, copy.1@),
                ));
                found.push(copy);
            }
        }
        assert(calls.take(self.tool_calls.len() as int) =~= calls);
        proof {
            let f = |call: ToolCallAcc| call@;
            lemma_ordered_map(found@, f);
            assert(found@.map_values(|item: (usize, ToolCallAcc)| (item.0, f(item.1)))
                =~= indexed_calls(found@));
            assert(ordered(found@).map_values(|item: (usize, ToolCallAcc)| (item.0, f(item.1)))
                =~= indexed_calls(ordered(found@)));
        }
        order(found)
    }

    fn close_calls(
        &mut self,
        out: &mut Vec<PendingEvent>,
        calls: &Vec<(usize, ToolCallAcc)>,
        ending: &Ending,
    )
        ensures
            flow_of(*final(self), *final(out)) == flow_of(*old(self), *old(out)).close_calls(
                indexed_calls(calls@),
                *ending,
            ),
            final(self)@ == (TranslatorView { sequence: final(self)@.sequence, ..old(self)@ }),
    {
        let ghost start = flow_of(*self, *out);
        let ghost views = indexed_calls(calls@);
        assert(views.take(0) =~= Seq::<(usize, CallView)>::empty());
        for index in 0..calls.len()
            invariant
                start == flow_of(*old(self), *old(out)),
                views == indexed_calls(calls@),
                flow_of(*self, *out) == start.close_calls(views.take(index as int), *ending),
                self@ == (TranslatorView { sequence: self@.sequence, ..old(self)@ }),
        {
            proof {
                assert(views[index as int] == (calls[index as int].0, calls[index as int].1@));
                assert(views.take(index + 1).drop_last() =~= views.take(index as int));
                assert(views.take(index + 1).last() == views[index as int]);
            }
            self.close_call(out, calls[index].0, &calls[index].1, ending);
        }
        assert(views.take(calls.len() as int) =~= views);
    }

    /// The output items, in the order of their indexes.
    fn make_output(&self, calls: &Vec<(usize, ToolCallAcc)>, ending: &Ending) -> (output: Vec<Json>)
        requires
            indexed_calls(calls@) == ordered(announced_calls(self@.tool_calls)),
        ensures
            json::items_view(output@) == final_output(self@, *ending),
    {
        let mut items: Vec<(usize, Json)> = Vec::new();
        if let Some(index) = self.places.message {
            items.push((index, self.make_final_message(ending)));
        }
        let ghost spoken = indexed_items(items@);
        let ghost views = indexed_calls(calls@);
        let ghost convert = |call: (usize, CallView)| (call.0, final_call(call.1, *ending));
        assert(spoken + views.take(0).map_values(convert) =~= spoken);
        for index in 0..calls.len()
            invariant
                views == indexed_calls(calls@),
                convert == (|call: (usize, CallView)| (call.0, final_call(call.1, *ending))),
                indexed_items(items@) == spoken + views.take(index as int).map_values(convert),
        {
            let item = (calls[index].0, make_final_call(&calls[index].1, ending));
            proof {
                assert(views[index as int] == (calls[index as int].0, calls[index as int].1@));
                assert(indexed_items(items@.push(item)) =~= indexed_items(items@).push(
                    (item.0, item.1@),
                ));
                assert(views.take(index + 1).map_values(convert) =~= views.take(
                    index as int,
                ).map_values(convert).push((item.0, item.1@)));
                assert(spoken + views.take(index + 1).map_values(convert) =~= (spoken
                    + views.take(index as int).map_values(convert)).push((item.0, item.1@)));
            }
            items.push(item);
        }
        proof {
            assert(views.take(calls.len() as int) =~= views);
            let f = |item: Json| item@;
            lemma_ordered_map(items@, f);
            assert(items@.map_values(|item: (usize, Json)| (item.0, f(item.1))) =~= indexed_items(
                items@,
            ));
            assert(ordered(items@).map_values(|item: (usize, Json)| (item.0, f(item.1)))
                =~= indexed_items(ordered(items@)));
            if let Some(index) = self@.places.message {
                assert(spoken =~= seq![(index, final_message(self@, *ending))]);
            } else {
                assert(spoken =~= Seq::<(usize, JsonView)>::empty());
            }
            assert(indexed_items(items@) =~= indexed_output(self@, *ending));
        }
        let sorted = order(items);
        let output = without_indexes(sorted);
        assert(json::items_view(output@) =~= final_output(self@, *ending));
        output
    }

    fn make_final_document(
        &self,
        calls: &Vec<(usize, ToolCallAcc)>,
        ending: &Ending,
    ) -> (document: Json)
        requires
            indexed_calls(calls@) == ordered(announced_calls(self@.tool_calls)),
        ensures
            document@ == final_document(self@, *ending),
    {
        let usage = if self.usage.seen {
            make_usage(&read_final_counts(&self.usage))
        } else {
            Json::Null
        };
        let mut answer = Json::object().with("id", Json::text(self.response_id.as_str())).with(
            "object",
            Json::text("response"),
        ).with("created_at", Json::signed(self.created_at)).with(
            "status",
            Json::text(ending.status_text()),
        ).with("model", Json::text(self.model.as_str())).with(
            "output",
            Json::Array(self.make_output(calls, ending)),
        ).with("usage", usage).with("parallel_tool_calls", Json::Bool(true)).with(
            "tool_choice",
            Json::text("auto"),
        ).with("tools", make_empty_array()).with("instructions", Json::Null).with(
            "error",
            Json::Null,
        );
        self.metadata.apply(&mut answer);
        answer.set("incomplete_details", ending.make_details());
        make_typed(kind_of_ending(ending)).with("response", answer)
    }

    /// Tells held back structured output in its checked form, or drops it.
    fn release(&mut self, out: &mut Vec<PendingEvent>, checked: Option<String>)
        requires
            old(self).wf(),
            holds_output(old(self)@),
            text::string_of(checked) == checked_text(old(self)@),
        ensures
            final(self).wf(),
            flow_of(*final(self), *final(out)) == flow_of(*old(self), *old(out)).released(),
    {
        match checked {
            Some(checked) => {
                self.start_text(out);
                self.full_text = checked.clone();
                self.tell_text(out, checked.as_str());
            },
            None => {
                self.full_text = String::new();
            },
        }
    }

    fn conclude(&mut self, out: &mut Vec<PendingEvent>, ending: &Ending)
        requires
            old(self).wf(),
        ensures
            final(self).wf(),
            flow_of(*final(self), *final(out)) == flow_of(*old(self), *old(out)).concluded(*ending),
    {
        let calls = self.announced();
        let document = self.make_final_document(&calls, ending);
        self.close_message(out, ending);
        self.close_calls(out, &calls, ending);
        self.emit(out, kind_of_ending(ending), document);
    }

    /// Ends the answer: tells its last events and keeps its reasoning. Says
    /// whether the answer was completed; otherwise its failure was told.
    pub fn finish(&mut self, out: &mut Vec<PendingEvent>, store: &mut ReasoningStore) -> (completed:
        bool)
        requires
            old(self).wf(),
            old(store).wf(),
        ensures
            final(self).wf(),
            final(store).wf(),
            ({
                let end = flow_of(*old(self), *old(out)).finish(old(store)@);
                &&& flow_of(*final(self), *final(out)) == end.flow
                &&& final(store)@ == end.entries
                &&& completed == end.completed
            }),
    {
        if let Some(message) = self.check_ending() {
            self.fail(out, message.as_str());
            return false;
        }
        let ending = match &self.finish_reason {
            Some(reason) => read_ending(reason.as_str()),
            None => None,
        };
        let ending = match ending {
            Some(ending) => ending,
            None => return false,
        };
        self.remember(store);
        if self.structured_output && self.places.text.is_none() && self.places.refusal.is_none() {
            let checked = self.check_held_text();
            if checked.is_none() && self.tool_calls.len() == 0 {
                self.fail(out, "上游模型未返回有效的结构化 JSON 对象。");
                return false;
            }
            self.release(out, checked);
        }
        self.conclude(out, &ending);
        true
    }
}

fn kind_of_ending(ending: &Ending) -> (kind: &'static str)
    ensures
        kind@ == final_kind(*ending),
{
    if ending.is_incomplete() {
        "response.incomplete"
    } else {
        "response.completed"
    }
}

fn read_final_counts(usage: &UsageState) -> (counts: TokenCounts)
    ensures
        counts == final_counts(*usage),
{
    TokenCounts {
        input: usage.input,
        output: usage.output,
        cached: usage.cached,
        cache_write: usage.cache_write,
        reasoning: usage.reasoning,
        total: match usage.total {
            Some(total) => total,
            None => add_capped(usage.input, usage.output),
        },
    }
}

/// The items of a list without their indexes.
fn without_indexes(items: Vec<(usize, Json)>) -> (plain: Vec<Json>)
    ensures
        json::items_view(plain@) == indexed_items(items@).map_values(
            |item: (usize, JsonView)| item.1,
        ),
{
    let mut plain: Vec<Json> = Vec::new();
    let ghost bare = |item: (usize, JsonView)| item.1;
    let ghost views = indexed_items(items@);
    proof {
        json::lemma_items_view(plain@);
    }
    assert(views.take(0).map_values(bare) =~= json::items_view(plain@));
    for index in 0..items.len()
        invariant
            views == indexed_items(items@),
            bare == (|item: (usize, JsonView)| item.1),
            json::items_view(plain@) == views.take(index as int).map_values(bare),
    {
        let copy = items[index].1.duplicate();
        proof {
            json::lemma_items_view_push(plain@, copy);
            assert(views[index as int] == (items[index as int].0, items[index as int].1@));
            assert(views.take(index + 1).map_values(bare) =~= views.take(index as int).map_values(
                bare,
            ).push(copy@));
        }
        plain.push(copy);
    }
    assert(views.take(items.len() as int) =~= views);
    plain
}

} // verus!
