//! The way of a streamed answer from bytes to events: lines, event data,
//! chunks.

use crate::capability::{record_prompt_structured_output_capability, recorded, CapabilityCache};
use crate::events::PendingEvent;
use crate::json;
use crate::json::{Json, JsonView};
use crate::reasoning::{EntryView, ReasoningStore};
use crate::response::ResponseMetadata;
use crate::sse::{LineView, ParserView, SseEventParser};
use crate::stream::{
    are_simple_ids, chunk_calls, document_of, flow_of, fresh_translator, stub_document, Flow,
    StreamTranslator,
};
use crate::text;
use crate::text::same_text;
use vstd::prelude::*;

verus! {

/// The most bytes that a line may have.
pub const MAX_SSE_LINE_BUFFER_BYTES: usize = 1048576;

/// The most bytes that a streamed answer may have.
pub const MAX_STREAM_RESPONSE_BYTES: usize = 67108864;

// ---------------------------------------------------------------------------
// Event data
// ---------------------------------------------------------------------------

/// How many tool calls the data of an event brings.
pub open spec fn data_calls(data: Seq<char>) -> nat {
    if data == "[DONE]"@ {
        0
    } else {
        match json::parsed_text(data) {
            Some(chunk) => chunk_calls(chunk).len(),
            None => 0,
        }
    }
}

/// Whether `fresh` holds a random identifier for each tool call of the data.
pub open spec fn fits_data(data: Seq<char>, fresh: Seq<Seq<char>>) -> bool {
    are_simple_ids(fresh) && fresh.len() == data_calls(data)
}

/// Whether nothing is to be read after the data of an event.
pub open spec fn ends_reading(flow: Flow, data: Seq<char>, fresh: Seq<Seq<char>>) -> bool {
    ||| data == "[DONE]"@
    ||| match json::parsed_text(data) {
        Some(chunk) => flow.push_chunk(chunk, fresh).failure is Some,
        None => true,
    }
}

/// A translator at work on the events of a stream.
pub struct RunView {
    pub flow: Flow,
    pub parser: ParserView,
    pub failed: bool,
    pub done: bool,
    pub message: Seq<char>,
}

impl RunView {
    /// What a chunk leads to.
    pub open spec fn chunk_taken(self, chunk: JsonView, fresh: Seq<Seq<char>>) -> RunView {
        let outcome = self.flow.push_chunk(chunk, fresh);
        RunView {
            flow: outcome.flow,
            failed: self.failed || outcome.failure is Some,
            ..self
        }
    }

    /// What the data of an event leads to: the mark at the end of a stream is
    /// noted, anything else has to be a chunk.
    pub open spec fn dispatched(self, data: Seq<char>, fresh: Seq<Seq<char>>) -> RunView {
        if data == "[DONE]"@ {
            RunView { done: true, ..self }
        } else {
            match json::parsed_text(data) {
                Some(chunk) => self.chunk_taken(chunk, fresh),
                None => RunView {
                    flow: self.flow.fail("上游流式响应包含无效 JSON。"@),
                    failed: true,
                    ..self
                },
            }
        }
    }

    /// Whether nothing more is to be read.
    pub open spec fn stopped(self) -> bool {
        self.failed || self.done
    }

    /// Whether `fresh` holds a random identifier for each tool call that a
    /// line completes.
    pub open spec fn fits_line(self, line: Seq<char>, fresh: Seq<Seq<char>>) -> bool {
        match self.parser.outcome(line) {
            LineView::Event(data) => fits_data(data, fresh),
            _ => fresh.len() == 0,
        }
    }

    /// What a line leads to.
    pub open spec fn after_line(self, line: Seq<char>, fresh: Seq<Seq<char>>) -> RunView {
        let heard = RunView { parser: self.parser.after(line), ..self };
        match self.parser.outcome(line) {
            LineView::Event(data) => heard.dispatched(data, fresh),
            LineView::TooLarge => RunView {
                failed: true,
                message: "上游 SSE 事件数据超过允许大小。"@,
                ..heard
            },
            LineView::Waiting => heard,
        }
    }

    /// Whether `fresh` holds a random identifier for each tool call of the
    /// data that is left over.
    pub open spec fn fits_rest(self, fresh: Seq<Seq<char>>) -> bool {
        if self.parser.data.len() == 0 {
            fresh.len() == 0
        } else {
            fits_data(self.parser.data, fresh)
        }
    }

    /// What the data that is left over at the end of a stream leads to.
    pub open spec fn after_rest(self, fresh: Seq<Seq<char>>) -> RunView {
        let emptied = RunView {
            parser: ParserView { data: Seq::empty(), ..self.parser },
            ..self
        };
        if self.parser.data.len() == 0 {
            emptied
        } else {
            emptied.dispatched(self.parser.data, fresh)
        }
    }
}

/// Takes in the data of an event. Says whether nothing more is to be read:
/// the stream is at its end, or the answer has failed.
pub fn dispatch_data(
    translator: &mut StreamTranslator,
    data: &str,
    pending: &mut Vec<PendingEvent>,
    failed: &mut bool,
    done: &mut bool,
) -> (stop: bool)
    requires
        old(translator).wf(),
    ensures
        final(translator).wf(),
        exists|fresh: Seq<Seq<char>>|
            {
                let before = RunView {
                    flow: flow_of(*old(translator), *old(pending)),
                    parser: ParserView::new(),
                    failed: *old(failed),
                    done: *old(done),
                    message: Seq::empty(),
                };
                let after = before.dispatched(data@, fresh);
                &&& #[trigger] fits_data(data@, fresh)
                &&& flow_of(*final(translator), *final(pending)) == after.flow
                &&& *final(failed) == after.failed
                &&& *final(done) == after.done
                &&& stop == ends_reading(before.flow, data@, fresh)
            },
{
    if same_text(data, "[DONE]") {
        *done = true;
        proof {
            let none = Seq::<Seq<char>>::empty();
            assert(fits_data(data@, none));
        }
        return true;
    }
    match Json::parse(data) {
        Some(chunk) => {
            let failure = translator.push_chunk(&chunk, pending);
            proof {
                let before = flow_of(*old(translator), *old(pending));
                let fresh = choose|fresh: Seq<Seq<char>>|
                    {
                        &&& #[trigger] are_simple_ids(fresh)
                        &&& fresh.len() == chunk_calls(chunk@).len()
                        &&& flow_of(*translator, *pending) == before.push_chunk(
                            chunk@,
                            fresh,
                        ).flow
                        &&& text::string_of(failure) == before.push_chunk(chunk@, fresh).failure
                    };
                assert(fits_data(data@, fresh));
            }
            if failure.is_some() {
                *failed = true;
                return true;
            }
            false
        },
        None => {
            translator.fail(pending, "上游流式响应包含无效 JSON。");
            *failed = true;
            proof {
                let none = Seq::<Seq<char>>::empty();
                assert(fits_data(data@, none));
            }
            true
        },
    }
}

/// A translator at work on the events of a stream.
pub struct SseRun {
    pub translator: StreamTranslator,
    pub pending: Vec<PendingEvent>,
    pub parser: SseEventParser,
    pub failed: bool,
    pub done: bool,
    pub failure_message: &'static str,
}

impl View for SseRun {
    type V = RunView;

    open spec fn view(&self) -> RunView {
        RunView {
            flow: flow_of(self.translator, self.pending),
            parser: self.parser@,
            failed: self.failed,
            done: self.done,
            message: self.failure_message@,
        }
    }
}

impl SseRun {
    pub open spec fn wf(self) -> bool {
        self.translator.wf()
    }

    fn dispatch(&mut self, data: &str)
        requires
            old(self).wf(),
        ensures
            final(self).wf(),
            exists|fresh: Seq<Seq<char>>| #[trigger]
                fits_data(data@, fresh) && final(self)@ == old(self)@.dispatched(data@, fresh),
    {
        let ghost before = self@;
        let stop = dispatch_data(
            &mut self.translator,
            data,
            &mut self.pending,
            &mut self.failed,
            &mut self.done,
        );
        proof {
            let fresh = choose|fresh: Seq<Seq<char>>|
                {
                    let start = RunView {
                        flow: before.flow,
                        parser: ParserView::new(),
                        failed: before.failed,
                        done: before.done,
                        message: Seq::empty(),
                    };
                    let after = start.dispatched(data@, fresh);
                    &&& #[trigger] fits_data(data@, fresh)
                    &&& self@.flow == after.flow
                    &&& self@.failed == after.failed
                    &&& self@.done == after.done
                };
            assert(fits_data(data@, fresh));
            assert(self@ == before.dispatched(data@, fresh));
        }
    }

    /// Takes in a line.
    pub fn take_line(&mut self, line: &str)
        requires
            old(self).wf(),
        ensures
            final(self).wf(),
            exists|fresh: Seq<Seq<char>>| #[trigger]
                old(self)@.fits_line(line@, fresh) && final(self)@ == old(self)@.after_line(
                    line@,
                    fresh,
                ),
    {
        let ghost before = self@;
        match self.parser.push_line(line) {
            Ok(Some(data)) => {
                let ghost heard = self@;
                self.dispatch(data.as_str());
                proof {
                    let fresh = choose|fresh: Seq<Seq<char>>| #[trigger]
                        fits_data(data@, fresh) && self@ == heard.dispatched(data@, fresh);
                    assert(before.fits_line(line@, fresh));
                }
            },
            Ok(None) => {
                proof {
                    assert(before.fits_line(line@, Seq::<Seq<char>>::empty()));
                }
            },
            Err(()) => {
                self.failed = true;
                self.failure_message = "上游 SSE 事件数据超过允许大小。";
                proof {
                    assert(before.fits_line(line@, Seq::<Seq<char>>::empty()));
                }
            },
        }
    }

    /// Takes in the data that is left over at the end of a stream.
    pub fn take_rest(&mut self)
        requires
            old(self).wf(),
        ensures
            final(self).wf(),
            exists|fresh: Seq<Seq<char>>| #[trigger]
                old(self)@.fits_rest(fresh) && final(self)@ == old(self)@.after_rest(fresh),
    {
        let ghost before = self@;
        match self.parser.finish() {
            Some(data) => {
                let ghost heard = self@;
                self.dispatch(data.as_str());
                proof {
                    let fresh = choose|fresh: Seq<Seq<char>>| #[trigger]
                        fits_data(data@, fresh) && self@ == heard.dispatched(data@, fresh);
                    assert(before.fits_rest(fresh));
                }
            },
            None => {
                proof {
                    assert(before.fits_rest(Seq::<Seq<char>>::empty()));
                }
            },
        }
    }
}

// ---------------------------------------------------------------------------
// Beginning and end
// ---------------------------------------------------------------------------

/// What the translation of an answer needs to know. The key, where there is
/// one, is remembered once the answer proves that the provider takes
/// structured output from a prompt.
pub struct ResponseTranslationContext {
    pub response_id: String,
    pub model: String,
    pub created_at: i64,
    pub structured_output: bool,
    pub structured_schema: Option<Json>,
    pub metadata: ResponseMetadata,
    pub capability_key: Option<String>,
}

/// The context as a mathematical value.
pub struct ContextView {
    pub response_id: Seq<char>,
    pub model: Seq<char>,
    pub created_at: i64,
    pub structured_output: bool,
    pub structured_schema: Option<JsonView>,
    pub metadata: JsonView,
    pub capability_key: Option<Seq<char>>,
}

impl View for ResponseTranslationContext {
    type V = ContextView;

    open spec fn view(&self) -> ContextView {
        ContextView {
            response_id: self.response_id@,
            model: self.model@,
            created_at: self.created_at,
            structured_output: self.structured_output,
            structured_schema: document_of(self.structured_schema),
            metadata: self.metadata@,
            capability_key: text::string_of(self.capability_key),
        }
    }
}

impl ContextView {
    /// A translator that has told that the answer was created and is in
    /// progress.
    pub open spec fn opened(self, msg_item_id: Seq<char>, message: Seq<char>) -> RunView {
        let state = fresh_translator(
            self.response_id,
            self.model,
            self.created_at,
            self.structured_output,
            self.structured_schema,
            self.metadata,
            msg_item_id,
        );
        let flow = Flow { state, out: Seq::empty() }.emit(
            "response.created"@,
            stub_document(state, "response.created"@, "in_progress"@),
        ).emit(
            "response.in_progress"@,
            stub_document(state, "response.in_progress"@, "in_progress"@),
        );
        RunView { flow, parser: ParserView::new(), failed: false, done: false, message }
    }
}

/// What the end of an answer leaves: the events, the memory and what is known
/// of the providers.
pub struct EndView {
    pub flow: Flow,
    pub entries: Seq<EntryView>,
    pub keys: Set<Seq<char>>,
}

impl RunView {
    /// What the end of a stream leads to. An answer that failed has that
    /// told; otherwise it ends with what has arrived.
    pub open spec fn concluded(
        self,
        entries: Seq<EntryView>,
        keys: Set<Seq<char>>,
        key: Option<Seq<char>>,
    ) -> EndView {
        if self.failed {
            EndView { flow: self.flow.fail(self.message), entries, keys }
        } else {
            let end = self.flow.finish(entries);
            EndView {
                flow: end.flow,
                entries: end.entries,
                keys: if end.completed && key is Some {
                    recorded(keys, key->0)
                } else {
                    keys
                },
            }
        }
    }

    /// What lines lead to, in their order. Nothing is read once the run has
    /// stopped.
    pub open spec fn after_lines(
        self,
        lines: Seq<Seq<char>>,
        fresh: Seq<Seq<Seq<char>>>,
    ) -> RunView
        decreases lines.len(),
    {
        if lines.len() == 0 {
            self
        } else {
            let earlier = self.after_lines(lines.drop_last(), fresh);
            if earlier.stopped() {
                earlier
            } else {
                earlier.after_line(lines.last(), fresh[lines.len() - 1])
            }
        }
    }

    /// Whether `fresh` holds random identifiers for the tool calls of every
    /// line that is read.
    pub open spec fn fits_lines(self, lines: Seq<Seq<char>>, fresh: Seq<Seq<Seq<char>>>) -> bool
        decreases lines.len(),
    {
        if lines.len() == 0 {
            true
        } else {
            let earlier = self.after_lines(lines.drop_last(), fresh);
            &&& self.fits_lines(lines.drop_last(), fresh)
            &&& !earlier.stopped() ==> earlier.fits_line(lines.last(), fresh[lines.len() - 1])
        }
    }
}

/// Identifiers beyond those of the lines do not matter.
pub proof fn lemma_lines_prefix(
    run: RunView,
    lines: Seq<Seq<char>>,
    one: Seq<Seq<Seq<char>>>,
    other: Seq<Seq<Seq<char>>>,
)
    requires
        lines.len() <= one.len(),
        lines.len() <= other.len(),
        forall|i: int| 0 <= i < lines.len() ==> one[i] == other[i],
    ensures
        run.after_lines(lines, one) == run.after_lines(lines, other),
        run.fits_lines(lines, one) == run.fits_lines(lines, other),
    decreases lines.len(),
{
    if lines.len() > 0 {
        lemma_lines_prefix(run, lines.drop_last(), one, other);
    }
}

/// Once the run has stopped, further lines change nothing.
proof fn lemma_lines_stopped(
    run: RunView,
    lines: Seq<Seq<char>>,
    count: int,
    fresh: Seq<Seq<Seq<char>>>,
)
    requires
        0 <= count <= lines.len(),
        run.after_lines(lines.take(count), fresh).stopped(),
        run.fits_lines(lines.take(count), fresh),
    ensures
        run.after_lines(lines, fresh) == run.after_lines(lines.take(count), fresh),
        run.fits_lines(lines, fresh),
    decreases lines.len() - count,
{
    if count < lines.len() {
        assert(lines.take(count + 1).drop_last() =~= lines.take(count));
        lemma_lines_stopped(run, lines, count + 1, fresh);
    } else {
        assert(lines.take(count) =~= lines);
    }
}

impl SseRun {
    /// A run before any line, whose message item has the given identifier.
    pub fn open_with_id(
        context: &ResponseTranslationContext,
        failure_message: &'static str,
        msg_item_id: String,
    ) -> (run: Self)
        ensures
            run.wf(),
            run@ == context@.opened(msg_item_id@, failure_message@),
    {
        let schema = match &context.structured_schema {
            Some(schema) => Some(schema.duplicate()),
            None => None,
        };
        let mut translator = StreamTranslator::new_with_id(
            context.response_id.as_str(),
            context.model.as_str(),
            context.created_at,
            context.structured_output,
            schema,
            context.metadata.duplicate(),
            msg_item_id,
        );
        let created = translator.stub("response.created", "in_progress");
        let in_progress = translator.stub("response.in_progress", "in_progress");
        let mut pending: Vec<PendingEvent> = Vec::new();
        assert(crate::events::events_view(pending@) =~= Seq::empty());
        translator.emit(&mut pending, "response.created", created);
        translator.emit(&mut pending, "response.in_progress", in_progress);
        SseRun {
            translator,
            pending,
            parser: SseEventParser::default(),
            failed: false,
            done: false,
            failure_message,
        }
    }

    /// A run before any line, with a random identifier for its message item.
    pub fn open(context: &ResponseTranslationContext, failure_message: &'static str) -> (run: Self)
        ensures
            run.wf(),
            exists|suffix: Seq<char>| #[trigger]
                crate::ids::is_simple_id(suffix) && run@ == context@.opened(
                    "msg_"@ + suffix,
                    failure_message@,
                ),
    {
        let suffix = crate::ids::random_id();
        assert(crate::ids::is_simple_id(suffix@));
        SseRun::open_with_id(context, failure_message, text::concat("msg_", suffix.as_str()))
    }

    /// Ends the answer.
    pub fn conclude(
        &mut self,
        store: &mut ReasoningStore,
        cache: &mut CapabilityCache,
        key: Option<String>,
    )
        requires
            old(self).wf(),
            old(store).wf(),
            old(cache).wf(),
        ensures
            final(self).wf(),
            final(store).wf(),
            final(cache).wf(),
            ({
                let end = old(self)@.concluded(old(store)@, old(cache)@, text::string_of(key));
                &&& final(self)@.flow == end.flow
                &&& final(store)@ == end.entries
                &&& final(cache)@ == end.keys
            }),
    {
        if self.failed {
            self.translator.fail(&mut self.pending, self.failure_message);
        } else {
            let completed = self.translator.finish(&mut self.pending, store);
            if completed {
                if let Some(key) = key {
                    record_prompt_structured_output_capability(cache, key);
                }
            }
        }
    }

    /// Takes in lines, in their order, until the run has stopped.
    pub fn take_lines(&mut self, lines: &Vec<String>)
        requires
            old(self).wf(),
        ensures
            final(self).wf(),
            exists|fresh: Seq<Seq<Seq<char>>>| #[trigger]
                old(self)@.fits_lines(text::texts(lines@), fresh) && final(self)@
                    == old(self)@.after_lines(text::texts(lines@), fresh),
    {
        let ghost start = self@;
        let ghost views = text::texts(lines@);
        let ghost mut fresh: Seq<Seq<Seq<char>>> = Seq::empty();
        let mut index: usize = 0;
        assert(views.take(0) =~= Seq::<Seq<char>>::empty());
        while index < lines.len() && !self.failed && !self.done
            invariant
                self.wf(),
                index <= lines.len(),
                views == text::texts(lines@),
                fresh.len() == index,
                start.fits_lines(views.take(index as int), fresh),
                self@ == start.after_lines(views.take(index as int), fresh),
            decreases lines.len() - index,
        {
            let ghost before = self@;
            let ghost line = views[index as int];
            assert(line == lines[index as int]@);
            self.take_line(lines[index].as_str());
            proof {
                let more = choose|more: Seq<Seq<char>>| #[trigger]
                    before.fits_line(line, more) && self@ == before.after_line(line, more);
                let longer = fresh.push(more);
                let earlier = views.take(index as int);
                lemma_lines_prefix(start, earlier, fresh, longer);
                assert(views.take(index + 1).drop_last() =~= earlier);
                assert(views.take(index + 1).last() == line);
                fresh = longer;
            }
            index = index + 1;
        }
        proof {
            if index < lines.len() {
                lemma_lines_stopped(start, views, index as int, fresh);
            } else {
                assert(views.take(index as int) =~= views);
            }
            assert(start.fits_lines(views, fresh));
        }
    }
}

/// What the random identifiers of a run stand for.
pub struct Drawn {
    pub suffix: Seq<char>,
    pub lines: Seq<Seq<Seq<char>>>,
    pub rest: Seq<Seq<char>>,
}

impl ContextView {
    /// The run over a whole body, before its end.
    pub open spec fn read_body(self, body: Seq<char>, drawn: Drawn) -> RunView {
        let start = self.opened("msg_"@ + drawn.suffix, "无法解析上游 SSE 响应。"@);
        let read = start.after_lines(text::lines_of(body), drawn.lines);
        if read.stopped() {
            read
        } else {
            read.after_rest(drawn.rest)
        }
    }

    /// Whether the identifiers are those that a body needs.
    pub open spec fn fits_body(self, body: Seq<char>, drawn: Drawn) -> bool {
        let start = self.opened("msg_"@ + drawn.suffix, "无法解析上游 SSE 响应。"@);
        let read = start.after_lines(text::lines_of(body), drawn.lines);
        &&& crate::ids::is_simple_id(drawn.suffix)
        &&& start.fits_lines(text::lines_of(body), drawn.lines)
        &&& !read.stopped() ==> read.fits_rest(drawn.rest)
    }
}

/// Translates a body that holds server-sent events, all at once.
pub fn translate_buffered_sse(
    body: &str,
    context: &ResponseTranslationContext,
    store: &mut ReasoningStore,
    cache: &mut CapabilityCache,
) -> (events: Vec<PendingEvent>)
    requires
        old(store).wf(),
        old(cache).wf(),
    ensures
        final(store).wf(),
        final(cache).wf(),
        exists|drawn: Drawn|
            {
                let end = context@.read_body(body@, drawn).concluded(
                    old(store)@,
                    old(cache)@,
                    context@.capability_key,
                );
                &&& #[trigger] context@.fits_body(body@, drawn)
                &&& crate::events::events_view(events@) == end.flow.out
                &&& final(store)@ == end.entries
                &&& final(cache)@ == end.keys
            },
{
    let mut run = SseRun::open(context, "无法解析上游 SSE 响应。");
    let ghost start = run@;
    let ghost suffix = choose|suffix: Seq<char>| #[trigger]
        crate::ids::is_simple_id(suffix) && run@ == context@.opened(
            "msg_"@ + suffix,
            "无法解析上游 SSE 响应。"@,
        );
    let lines = text::split_lines(body);
    run.take_lines(&lines);
    let ghost read = run@;
    let ghost fresh = choose|fresh: Seq<Seq<Seq<char>>>| #[trigger]
        start.fits_lines(text::lines_of(body@), fresh) && run@ == start.after_lines(
            text::lines_of(body@),
            fresh,
        );
    let ghost mut rest: Seq<Seq<char>> = Seq::empty();
    if !run.failed && !run.done {
        run.take_rest();
        proof {
            rest =
            choose|rest: Seq<Seq<char>>| #[trigger]
                read.fits_rest(rest) && run@ == read.after_rest(rest);
        }
    }
    let key = match &context.capability_key {
        Some(key) => Some(key.clone()),
        None => None,
    };
    run.conclude(store, cache, key);
    proof {
        let drawn = Drawn { suffix, lines: fresh, rest };
        assert(context@.fits_body(body@, drawn));
    }
    run.pending
}

} // verus!
