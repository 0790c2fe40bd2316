//! What holds of a streamed answer as a whole, from its first byte to its last
//! event.

use crate::byte_stream::PumpView;
use crate::cutting;
use crate::cutting::{complete_lines, has_short_lines, joined, lines_in};
use crate::events::EventView;
use crate::json;
use crate::json::JsonView;
use crate::order::ordered;
use crate::pump::{ContextView, RunView, MAX_SSE_LINE_BUFFER_BYTES, MAX_STREAM_RESPONSE_BYTES};
use crate::reasoning::EntryView;
use crate::response;
use crate::response::Ending;
use crate::sse::{LineView, ParserView};
use crate::stream;
use crate::stream::{CallFlow, CallView, Flow};
use crate::stream_end;
use crate::stream_laws;
use crate::stream_laws::{
    as_count, chunk_text, endings, ends_in_failure, failures, is_ending_kind, law_chunk,
    law_finish, told_now, told_text,
};
use vstd::prelude::*;

verus! {

// ---------------------------------------------------------------------------
// Every piece of text is told
// ---------------------------------------------------------------------------

/// The parser after lines.
pub open spec fn parser_after(parser: ParserView, lines: Seq<Seq<char>>) -> ParserView
    decreases lines.len(),
{
    if lines.len() == 0 {
        parser
    } else {
        parser_after(parser, lines.drop_last()).after(lines.last())
    }
}

/// The data of the events that lines hold.
pub open spec fn events_in(parser: ParserView, lines: Seq<Seq<char>>) -> Seq<Seq<char>>
    decreases lines.len(),
{
    if lines.len() == 0 {
        Seq::empty()
    } else {
        let earlier = events_in(parser, lines.drop_last());
        match parser_after(parser, lines.drop_last()).outcome(lines.last()) {
            LineView::Event(data) => earlier.push(data),
            _ => earlier,
        }
    }
}

/// The events before the mark at the end of a stream.
pub open spec fn before_mark(events: Seq<Seq<char>>) -> Seq<Seq<char>>
    decreases events.len(),
{
    if events.len() == 0 {
        Seq::empty()
    } else {
        let earlier = before_mark(events.drop_last());
        if earlier.len() + 1 < events.len() || events.last() == "[DONE]"@ {
            earlier
        } else {
            earlier.push(events.last())
        }
    }
}

/// The pieces of text that the events of a stream hold, in their order.
pub open spec fn pieces_of(events: Seq<Seq<char>>) -> Seq<Seq<char>>
    decreases events.len(),
{
    if events.len() == 0 {
        Seq::empty()
    } else {
        let earlier = pieces_of(events.drop_last());
        match json::parsed_text(events.last()) {
            Some(chunk) => match chunk_text(chunk) {
                Some(piece) => earlier.push(piece),
                None => earlier,
            },
            None => earlier,
        }
    }
}

pub proof fn lemma_before_mark(events: Seq<Seq<char>>)
    ensures
        before_mark(events).len() <= events.len(),
        before_mark(events).len() == events.len() ==> before_mark(events) == events,
    decreases events.len(),
{
    if events.len() > 0 {
        lemma_before_mark(events.drop_last());
        assert(events.drop_last().push(events.last()) =~= events);
    }
}

/// The lines of a stream that does not fail tell the pieces of text of its
/// events, each as it came, one after the other, up to the mark at its end.
pub proof fn law_lines_tell_their_pieces(
    run: RunView,
    lines: Seq<Seq<char>>,
    fresh: Seq<Seq<Seq<char>>>,
)
    requires
        !run.stopped(),
        !run.flow.state.structured_output,
        !run.after_lines(lines, fresh).failed,
    ensures
        ({
            let after = run.after_lines(lines, fresh);
            let events = events_in(run.parser, lines);
            &&& told_text(after.flow.out) == told_text(run.flow.out) + pieces_of(
                before_mark(events),
            )
            &&& after.done <==> before_mark(events).len() < events.len()
            &&& !after.done ==> after.parser == parser_after(run.parser, lines)
            &&& !after.flow.state.structured_output
        }),
    decreases lines.len(),
{
    let events = events_in(run.parser, lines);
    lemma_before_mark(events);
    if lines.len() == 0 {
        stream_laws::lemma_nothing_more(told_text(run.flow.out));
    } else {
        let rest = lines.drop_last();
        let earlier = run.after_lines(rest, fresh);
        law_lines_tell_their_pieces(run, rest, fresh);
        let heard = events_in(run.parser, rest);
        lemma_before_mark(heard);
        match parser_after(run.parser, rest).outcome(lines.last()) {
            LineView::Event(data) => {
                assert(events.drop_last() =~= heard);
                if !earlier.stopped() && data != "[DONE]"@ {
                    let chunk = json::parsed_text(data)->0;
                    let drawn = fresh[lines.len() - 1];
                    law_chunk(earlier.flow, chunk, drawn);
                    assert(before_mark(events).drop_last() =~= heard);
                    let told = told_now(earlier.flow.state, chunk_text(chunk));
                    assert(pieces_of(before_mark(events)) =~= pieces_of(heard) + told);
                    assert(told_text(run.flow.out) + pieces_of(heard) + told =~= told_text(
                        run.flow.out,
                    ) + (pieces_of(heard) + told));
                }
            },
            _ => {},
        }
    }
}

/// The events of the first lines are the first events.
pub proof fn lemma_first_events(parser: ParserView, lines: Seq<Seq<char>>, count: int)
    requires
        0 <= count <= lines.len(),
    ensures
        events_in(parser, lines.take(count)).len() <= events_in(parser, lines).len(),
        events_in(parser, lines.take(count)) == events_in(parser, lines).take(
            events_in(parser, lines.take(count)).len() as int,
        ),
    decreases lines.len(),
{
    let heard = events_in(parser, lines.take(count));
    let all = events_in(parser, lines);
    if count == lines.len() {
        assert(lines.take(count) =~= lines);
        assert(all.take(all.len() as int) =~= all);
    } else {
        let rest = lines.drop_last();
        assert(rest.take(count) =~= lines.take(count));
        lemma_first_events(parser, rest, count);
        assert(heard =~= all.take(heard.len() as int));
    }
}

/// The first events before the mark are the first of all that stand before it,
/// and they are all of them once the mark is among them.
pub proof fn lemma_first_before_mark(events: Seq<Seq<char>>, count: int)
    requires
        0 <= count <= events.len(),
    ensures
        before_mark(events.take(count)).len() <= before_mark(events).len(),
        before_mark(events.take(count)) == before_mark(events).take(
            before_mark(events.take(count)).len() as int,
        ),
        before_mark(events.take(count)).len() < count ==> before_mark(events) == before_mark(
            events.take(count),
        ),
    decreases events.len(),
{
    let first = before_mark(events.take(count));
    let all = before_mark(events);
    if count == events.len() {
        assert(events.take(count) =~= events);
        assert(all.take(all.len() as int) =~= all);
    } else {
        let rest = events.drop_last();
        assert(rest.take(count) =~= events.take(count));
        lemma_first_before_mark(rest, count);
        lemma_before_mark(rest);
        assert(first =~= all.take(first.len() as int));
    }
}

/// However a stream is cut into pieces, the answer tells exactly the pieces of
/// text of its events, in their order: nothing is lost, doubled, merged or
/// reordered. Every complete line is read, up to the mark at the end. Left out
/// are streams that fail; those that do not are told by
/// `spoken_stream::law_spoken_stream_does_not_fail`.
pub proof fn law_stream_tells_its_pieces(
    start: PumpView,
    pieces: Seq<Seq<u8>>,
    fresh: Seq<Seq<Seq<Seq<char>>>>,
)
    requires
        !start.run.stopped(),
        !start.can_read(),
        !start.run.flow.state.structured_output,
        start.received + joined(pieces).len() <= MAX_STREAM_RESPONSE_BYTES,
        has_short_lines(start.buffered + joined(pieces)),
        start.fits_pieces(pieces, fresh),
        fresh.len() == pieces.len(),
        !start.fed(pieces, fresh).run.failed,
    ensures
        ({
            let fed = start.fed(pieces, fresh);
            let lines = complete_lines(start.buffered + joined(pieces));
            let events = events_in(start.run.parser, lines);
            &&& told_text(fed.run.flow.out) == told_text(start.run.flow.out) + pieces_of(
                before_mark(events),
            )
            &&& fed.run.done <==> before_mark(events).len() < events.len()
            &&& !fed.can_read()
            &&& !fed.run.flow.state.structured_output
        }),
{
    cutting::law_cuts_do_not_matter(start, pieces, fresh);
    let whole = start.with_bytes(joined(pieces));
    cutting::lemma_lines_are_taken_in(whole, joined(fresh));
    let lines = lines_in(whole.buffered, joined(fresh).len());
    law_lines_tell_their_pieces(whole.run, lines, joined(fresh));
    cutting::lemma_lines_read_are_first(whole, joined(fresh));
    let all = complete_lines(whole.buffered);
    let heard = events_in(start.run.parser, lines);
    let events = events_in(start.run.parser, all);
    lemma_first_events(start.run.parser, all, joined(fresh).len() as int);
    lemma_first_before_mark(events, heard.len() as int);
    if !start.fed(pieces, fresh).run.done {
        assert(lines =~= all);
    }
}

// ---------------------------------------------------------------------------
// The first events and the last one
// ---------------------------------------------------------------------------

/// Whether the events begin with those that tell of a new answer.
pub open spec fn begins_well(events: Seq<EventView>) -> bool {
    events.len() >= 2 && events[0].kind == "response.created"@ && events[1].kind
        == "response.in_progress"@
}

/// What holds of every run before its end: the answer has not ended, and a
/// failure that was told was told once, as the last event, and nothing more is
/// read.
pub open spec fn is_sound(run: RunView) -> bool {
    let flow = run.flow;
    &&& begins_well(flow.out)
    &&& endings(flow.out) == 0
    &&& failures(flow.out) == as_count(flow.state.has_failed_event)
    &&& flow.state.has_failed_event ==> run.failed && ends_in_failure(flow.out)
}

proof fn lemma_beginning_stays(before: Flow, after: Flow)
    requires
        begins_well(before.out),
        stream_laws::is_numbered(before, after),
    ensures
        begins_well(after.out),
{
    let known = before.out.len() as int;
    assert(after.out[0] == after.out.take(known)[0]);
    assert(after.out[1] == after.out.take(known)[1]);
}

/// A run that has just begun is sound.
pub proof fn law_stream_begins(context: ContextView, msg_item_id: Seq<char>, message: Seq<char>)
    ensures
        is_sound(context.opened(msg_item_id, message)),
        told_text(context.opened(msg_item_id, message).flow.out).len() == 0,
{
    let run = context.opened(msg_item_id, message);
    let state = stream::fresh_translator(
        context.response_id,
        context.model,
        context.created_at,
        context.structured_output,
        context.structured_schema,
        context.metadata,
        msg_item_id,
    );
    let empty = Flow { state, out: Seq::empty() };
    let created = stream::stub_document(state, "response.created"@, "in_progress"@);
    let progress = stream::stub_document(state, "response.in_progress"@, "in_progress"@);
    reveal_strlit("response.created");
    reveal_strlit("response.in_progress");
    stream_laws::lemma_emit_advances(empty, "response.created"@, created);
    let first = empty.emit("response.created"@, created);
    stream_laws::lemma_emit_advances(first, "response.in_progress"@, progress);
    assert(run.flow == first.emit("response.in_progress"@, progress));
    assert(run.flow.out.drop_last() =~= first.out);
    assert(first.out.drop_last() =~= empty.out);
}

proof fn lemma_data_keeps(run: RunView, data: Seq<char>, fresh: Seq<Seq<char>>)
    requires
        is_sound(run),
        !run.failed,
    ensures
        is_sound(run.dispatched(data, fresh)),
{
    if data != "[DONE]"@ {
        match json::parsed_text(data) {
            Some(chunk) => {
                law_chunk(run.flow, chunk, fresh);
                lemma_beginning_stays(run.flow, run.flow.push_chunk(chunk, fresh).flow);
            },
            None => {
                let message = "上游流式响应包含无效 JSON。"@;
                stream_laws::lemma_fail_advances(run.flow, message);
                lemma_beginning_stays(run.flow, run.flow.fail(message));
            },
        }
    }
}

proof fn lemma_line_keeps(run: RunView, line: Seq<char>, fresh: Seq<Seq<char>>)
    requires
        is_sound(run),
        !run.failed,
    ensures
        is_sound(run.after_line(line, fresh)),
{
    let heard = RunView { parser: run.parser.after(line), ..run };
    if let LineView::Event(data) = run.parser.outcome(line) {
        lemma_data_keeps(heard, data, fresh);
    }
}

proof fn lemma_lines_keep(pump: PumpView, fresh: Seq<Seq<Seq<char>>>)
    requires
        is_sound(pump.run),
        pump.fits_lines(fresh),
    ensures
        is_sound(pump.after_lines(fresh).run),
    decreases fresh.len(),
{
    if fresh.len() > 0 {
        lemma_lines_keep(pump, fresh.drop_last());
        let earlier = pump.after_lines(fresh.drop_last());
        lemma_line_keeps(earlier.run, earlier.next_line(), fresh.last());
    }
}

proof fn lemma_pieces_keep(
    pump: PumpView,
    pieces: Seq<Seq<u8>>,
    fresh: Seq<Seq<Seq<Seq<char>>>>,
)
    requires
        is_sound(pump.run),
        pump.fits_pieces(pieces, fresh),
    ensures
        is_sound(pump.fed(pieces, fresh).run),
    decreases pieces.len(),
{
    if pieces.len() > 0 {
        lemma_pieces_keep(pump, pieces.drop_last(), fresh);
        let earlier = pump.fed(pieces.drop_last(), fresh);
        if !earlier.run.stopped() {
            lemma_lines_keep(earlier.with_bytes(pieces.last()), fresh[pieces.len() - 1]);
        }
    }
}

/// However an answer comes to its end, exactly one event tells so, as the last
/// one; it tells of a failure where the run has failed.
pub proof fn law_stream_ends_once(
    run: RunView,
    entries: Seq<EntryView>,
    keys: Set<Seq<char>>,
    key: Option<Seq<char>>,
)
    requires
        is_sound(run),
    ensures
        ({
            let out = run.concluded(entries, keys, key).flow.out;
            &&& begins_well(out)
            &&& failures(out) + endings(out) == 1
            &&& ends_in_failure(out) || is_ending_kind(out.last().kind)
            &&& run.failed ==> ends_in_failure(out)
        }),
{
    if run.failed {
        stream_laws::lemma_fail_advances(run.flow, run.message);
        lemma_beginning_stays(run.flow, run.flow.fail(run.message));
    } else {
        law_finish(run.flow, entries);
        lemma_beginning_stays(run.flow, run.flow.finish(entries).flow);
    }
}

/// A whole stream, whatever arrives and however it breaks off: the events begin
/// with `response.created` and `response.in_progress`, and exactly one of
/// `response.completed`, `response.incomplete` and `response.failed` comes, as
/// the last. `trouble` is what broke the stream off, where something did; the
/// answer then fails.
pub proof fn law_whole_stream(
    context: ContextView,
    msg_item_id: Seq<char>,
    message: Seq<char>,
    pieces: Seq<Seq<u8>>,
    fresh: Seq<Seq<Seq<Seq<char>>>>,
    trouble: Option<Seq<char>>,
    last: Seq<Seq<char>>,
    rest: Seq<Seq<char>>,
    entries: Seq<EntryView>,
    keys: Set<Seq<char>>,
    key: Option<Seq<char>>,
)
    requires
        PumpView::new(context.opened(msg_item_id, message)).fits_pieces(pieces, fresh),
    ensures
        ({
            let fed = PumpView::new(context.opened(msg_item_id, message)).fed(pieces, fresh);
            let cut = match trouble {
                Some(trouble) => fed.broken(trouble),
                None => fed,
            };
            let out = cut.all_read(last, rest).concluded(entries, keys, key).flow.out;
            &&& begins_well(out)
            &&& failures(out) + endings(out) == 1
            &&& ends_in_failure(out) || is_ending_kind(out.last().kind)
            &&& cut.all_read(last, rest).failed ==> ends_in_failure(out)
            &&& cut.run.failed ==> ends_in_failure(out)
            &&& trouble is Some ==> ends_in_failure(out)
        }),
{
    let start = PumpView::new(context.opened(msg_item_id, message));
    law_stream_begins(context, msg_item_id, message);
    lemma_pieces_keep(start, pieces, fresh);
    let fed = start.fed(pieces, fresh);
    let cut = match trouble {
        Some(trouble) => fed.broken(trouble),
        None => fed,
    };
    let read = cut.last_line_read(last);
    if !cut.run.stopped() && cut.buffered.len() > 0 {
        lemma_line_keeps(cut.run, crate::text::lossy_text(cut.buffered), last);
    }
    let all = cut.all_read(last, rest);
    if !cut.run.stopped() && !read.failed && read.parser.data.len() > 0 {
        let emptied = RunView {
            parser: ParserView { data: Seq::empty(), ..read.parser },
            ..read
        };
        lemma_data_keeps(emptied, read.parser.data, rest);
    }
    law_stream_ends_once(all, entries, keys, key);
}

/// What makes an answer fail while it is read: too many bytes, a line that does
/// not end, an event with too much data, an event that is no JSON, and a chunk
/// that cannot be taken in. Nothing else does.
pub proof fn law_what_fails_a_stream(
    pump: PumpView,
    piece: Seq<u8>,
    line: Seq<char>,
    fresh: Seq<Seq<char>>,
)
    requires
        !pump.run.stopped(),
    ensures
        pump.with_bytes(piece).run.failed <==> pump.received + piece.len()
            > MAX_STREAM_RESPONSE_BYTES,
        pump.checked().run.failed <==> pump.buffered.len() > MAX_SSE_LINE_BUFFER_BYTES,
        pump.run.after_line(line, fresh).failed <==> match pump.run.parser.outcome(line) {
            LineView::Waiting => false,
            LineView::TooLarge => true,
            LineView::Event(data) => data != "[DONE]"@ && match json::parsed_text(data) {
                Some(chunk) => pump.run.flow.push_chunk(chunk, fresh).failure is Some,
                None => true,
            },
        },
{
}

// ---------------------------------------------------------------------------
// Events that were sent already
// ---------------------------------------------------------------------------

/// A flow with events before its own.
pub open spec fn preceded(flow: Flow, sent: Seq<EventView>) -> Flow {
    Flow { state: flow.state, out: sent + flow.out }
}

proof fn lemma_push_after(sent: Seq<EventView>, events: Seq<EventView>, event: EventView)
    ensures
        sent + events.push(event) == (sent + events).push(event),
{
    assert(sent + events.push(event) =~= (sent + events).push(event));
}

proof fn lemma_emit_after(flow: Flow, sent: Seq<EventView>, kind: Seq<char>, document: JsonView)
    ensures
        preceded(flow, sent).emit(kind, document) == preceded(flow.emit(kind, document), sent),
{
    lemma_push_after(sent, flow.out, flow.emit(kind, document).out.last());
}

proof fn lemma_fail_after(flow: Flow, sent: Seq<EventView>, message: Seq<char>)
    ensures
        preceded(flow, sent).fail(message) == preceded(flow.fail(message), sent),
{
    if !flow.state.has_failed_event {
        lemma_push_after(sent, flow.out, flow.fail(message).out.last());
    }
}

proof fn lemma_start_message_after(flow: Flow, sent: Seq<EventView>)
    ensures
        preceded(flow, sent).start_message() == preceded(flow.start_message(), sent),
{
    if flow.state.places.message is None {
        lemma_push_after(sent, flow.out, flow.start_message().out.last());
    }
}

proof fn lemma_start_text_after(flow: Flow, sent: Seq<EventView>)
    ensures
        preceded(flow, sent).start_text() == preceded(flow.start_text(), sent),
{
    if flow.state.places.text is None {
        lemma_start_message_after(flow, sent);
        lemma_push_after(sent, flow.start_message().out, flow.start_text().out.last());
    }
}

proof fn lemma_start_refusal_after(flow: Flow, sent: Seq<EventView>)
    ensures
        preceded(flow, sent).start_refusal() == preceded(flow.start_refusal(), sent),
{
    if flow.state.places.refusal is None {
        lemma_start_message_after(flow, sent);
        lemma_push_after(sent, flow.start_message().out, flow.start_refusal().out.last());
    }
}

proof fn lemma_spoken_after(flow: Flow, sent: Seq<EventView>, delta: JsonView)
    ensures
        preceded(flow, sent).spoken(delta) == preceded(flow.spoken(delta), sent),
{
    let heard = match stream::delta_text(delta) {
        Some(text) => flow.take_text(text),
        None => flow,
    };
    if let Some(text) = stream::delta_text(delta) {
        let held = Flow {
            state: stream::TranslatorView {
                full_text: flow.state.full_text + text,
                ..flow.state
            },
            out: flow.out,
        };
        lemma_start_text_after(held, sent);
        lemma_push_after(
            sent,
            held.start_text().out,
            held.start_text().tell_text(text).out.last(),
        );
        assert(preceded(flow, sent).take_text(text) == preceded(heard, sent));
    }
    if let Some(refusal) = response::message_refusal(delta) {
        lemma_start_refusal_after(heard, sent);
        lemma_push_after(
            sent,
            heard.start_refusal().out,
            heard.take_refusal(refusal).out.last(),
        );
    }
}

proof fn lemma_call_after(
    flow: Flow,
    sent: Seq<EventView>,
    call: JsonView,
    position: int,
    fresh: Seq<char>,
)
    ensures
        preceded(flow, sent).take_call(call, position, fresh).flow == preceded(
            flow.take_call(call, position, fresh).flow,
            sent,
        ),
        preceded(flow, sent).take_call(call, position, fresh).failure == flow.take_call(
            call,
            position,
            fresh,
        ).failure,
{
    match stream::call_failure(flow.state.tool_calls, call, position) {
        Some(message) => lemma_fail_after(flow, sent, message),
        None => {
            let informed = stream::informed_call(flow.state.tool_calls, call, position, fresh);
            let start = CallFlow { flow, call: informed };
            let echo = CallFlow { flow: preceded(flow, sent), call: informed };
            lemma_push_after(sent, flow.out, start.announced().flow.out.last());
            assert(echo.announced().flow == preceded(start.announced().flow, sent));
            assert(echo.announced().call == start.announced().call);
            lemma_push_after(
                sent,
                start.announced().flow.out,
                start.announced().told().flow.out.last(),
            );
            assert(echo.announced().told().flow == preceded(
                start.announced().told().flow,
                sent,
            ));
        },
    }
}

proof fn lemma_calls_after(
    flow: Flow,
    sent: Seq<EventView>,
    calls: Seq<JsonView>,
    fresh: Seq<Seq<char>>,
)
    ensures
        preceded(flow, sent).take_calls(calls, fresh).flow == preceded(
            flow.take_calls(calls, fresh).flow,
            sent,
        ),
        preceded(flow, sent).take_calls(calls, fresh).failure == flow.take_calls(
            calls,
            fresh,
        ).failure,
    decreases calls.len(),
{
    if calls.len() > 0 {
        lemma_calls_after(flow, sent, calls.drop_last(), fresh);
        let earlier = flow.take_calls(calls.drop_last(), fresh);
        let position = calls.len() - 1;
        lemma_call_after(earlier.flow, sent, calls.last(), position, fresh[position]);
    }
}

/// What a chunk leads to does not depend on the events before it.
pub proof fn law_sent_events_do_not_matter_to_chunks(
    flow: Flow,
    sent: Seq<EventView>,
    chunk: JsonView,
    fresh: Seq<Seq<char>>,
)
    ensures
        preceded(flow, sent).push_chunk(chunk, fresh).flow == preceded(
            flow.push_chunk(chunk, fresh).flow,
            sent,
        ),
        preceded(flow, sent).push_chunk(chunk, fresh).failure == flow.push_chunk(
            chunk,
            fresh,
        ).failure,
{
    let known = flow.informed(chunk);
    match chunk.get("error"@) {
        Some(error) => {
            let message = match error.text_at("message"@) {
                Some(message) => message,
                None => "上游服务在流式响应中报告了错误。"@,
            };
            lemma_fail_after(flow, sent, message);
        },
        None => match chunk.array_at("choices"@) {
            None => lemma_fail_after(known, sent, "上游流式响应缺少 choices 数组。"@),
            Some(choices) => if choices.len() > 0 {
                let choice = choices[0];
                match stream::choice_delta(choice) {
                    None => {
                        let seen = Flow {
                            state: stream::TranslatorView {
                                saw_valid_choice: true,
                                ..known.state
                            },
                            out: known.out,
                        };
                        lemma_fail_after(seen, sent, "上游流式响应包含无效 delta。"@);
                    },
                    Some(delta) => {
                        let reasoned = known.chosen(choice).reasoned(delta);
                        lemma_spoken_after(reasoned, sent, delta);
                        let spoken = reasoned.spoken(delta);
                        assert(preceded(known, sent).chosen(choice).reasoned(delta) == preceded(
                            reasoned,
                            sent,
                        ));
                        lemma_fail_after(
                            spoken,
                            sent,
                            "上游返回了旧版 function_call；转换代理要求标准 tool_calls 格式。"@,
                        );
                        lemma_calls_after(spoken, sent, response::message_calls(delta), fresh);
                    },
                }
            },
        },
    }
}

proof fn lemma_close_calls_after(
    flow: Flow,
    sent: Seq<EventView>,
    calls: Seq<(usize, CallView)>,
    ending: Ending,
)
    ensures
        preceded(flow, sent).close_calls(calls, ending) == preceded(
            flow.close_calls(calls, ending),
            sent,
        ),
    decreases calls.len(),
{
    if calls.len() > 0 {
        lemma_close_calls_after(flow, sent, calls.drop_last(), ending);
        let earlier = flow.close_calls(calls.drop_last(), ending);
        let (index, call) = calls.last();
        let document = stream::typed("response.function_call_arguments.done"@).with(
            "item_id"@,
            JsonView::Text(call.item_id),
        ).with("output_index"@, stream::index_view(index)).with(
            "arguments"@,
            JsonView::Text(call.arguments),
        ).with("name"@, JsonView::Text(call.name));
        lemma_emit_after(earlier, sent, "response.function_call_arguments.done"@, document);
        let argued = if ending.incomplete() {
            earlier
        } else {
            earlier.emit("response.function_call_arguments.done"@, document)
        };
        lemma_emit_after(
            argued,
            sent,
            "response.output_item.done"@,
            stream::item_done(index, stream_end::final_call(call, ending)),
        );
    }
}

proof fn lemma_close_message_after(flow: Flow, sent: Seq<EventView>, ending: Ending)
    ensures
        preceded(flow, sent).close_message(ending) == preceded(flow.close_message(ending), sent),
{
    if let Some(index) = flow.state.places.message {
        let id = flow.state.msg_item_id;
        let text = flow.close_text();
        if let Some(place) = flow.state.places.text {
            let done = stream::part_document("response.output_text.done"@, id, index, place).with(
                "text"@,
                JsonView::Text(flow.state.full_text),
            ).with("logprobs"@, response::empty_array());
            lemma_emit_after(flow, sent, "response.output_text.done"@, done);
            let part = stream::part_document(
                "response.content_part.done"@,
                id,
                index,
                place,
            ).with("part"@, response::output_text_part(flow.state.full_text));
            lemma_emit_after(
                flow.emit("response.output_text.done"@, done),
                sent,
                "response.content_part.done"@,
                part,
            );
        }
        assert(preceded(flow, sent).close_text() == preceded(text, sent));
        let refused = text.close_refusal();
        if let Some(place) = text.state.places.refusal {
            let done = stream::part_document("response.refusal.done"@, id, index, place).with(
                "refusal"@,
                JsonView::Text(text.state.refusal_text),
            );
            lemma_emit_after(text, sent, "response.refusal.done"@, done);
            let part = stream::part_document(
                "response.content_part.done"@,
                id,
                index,
                place,
            ).with("part"@, response::refusal_part(text.state.refusal_text));
            lemma_emit_after(
                text.emit("response.refusal.done"@, done),
                sent,
                "response.content_part.done"@,
                part,
            );
        }
        assert(preceded(text, sent).close_refusal() == preceded(refused, sent));
        lemma_emit_after(
            refused,
            sent,
            "response.output_item.done"@,
            stream::item_done(index, stream_end::final_message(flow.state, ending)),
        );
    }
}

/// What the end of an answer leads to does not depend on the events before it.
pub proof fn law_sent_events_do_not_matter_to_the_end(
    flow: Flow,
    sent: Seq<EventView>,
    entries: Seq<EntryView>,
)
    ensures
        ({
            let end = flow.finish(entries);
            let echo = preceded(flow, sent).finish(entries);
            &&& echo.flow == preceded(end.flow, sent)
            &&& echo.entries == end.entries
            &&& echo.completed == end.completed
        }),
{
    match stream_end::ending_failure(flow.state) {
        Some(message) => lemma_fail_after(flow, sent, message),
        None => {
            lemma_fail_after(flow, sent, "上游模型未返回有效的结构化 JSON 对象。"@);
            let ending = response::ending_of(flow.state.finish_reason->0)->0;
            let released = flow.released();
            if let Some(text) = stream_end::checked_text(flow.state) {
                lemma_start_text_after(flow, sent);
                let begun = flow.start_text();
                let replaced = Flow {
                    state: stream::TranslatorView { full_text: text, ..begun.state },
                    out: begun.out,
                };
                lemma_push_after(sent, begun.out, replaced.tell_text(text).out.last());
            }
            assert(preceded(flow, sent).released() == preceded(released, sent));
            lemma_close_message_after(released, sent, ending);
            let calls = ordered(stream_end::announced_calls(released.state.tool_calls));
            let closed = released.close_message(ending);
            lemma_close_calls_after(closed, sent, calls, ending);
            lemma_emit_after(
                closed.close_calls(calls, ending),
                sent,
                stream_end::final_kind(ending),
                stream_end::final_document(released.state, ending),
            );
        },
    }
}

/// A run with events before its own.
pub open spec fn run_preceded(run: RunView, sent: Seq<EventView>) -> RunView {
    RunView { flow: preceded(run.flow, sent), ..run }
}

/// Events may be taken out of a run and sent at any time: the lines and the end
/// of the stream lead to the same events all the same.
pub proof fn law_sent_events_do_not_matter(
    run: RunView,
    sent: Seq<EventView>,
    line: Seq<char>,
    fresh: Seq<Seq<char>>,
    entries: Seq<EntryView>,
    keys: Set<Seq<char>>,
    key: Option<Seq<char>>,
)
    ensures
        run_preceded(run, sent).after_line(line, fresh) == run_preceded(
            run.after_line(line, fresh),
            sent,
        ),
        run_preceded(run, sent).after_rest(fresh) == run_preceded(run.after_rest(fresh), sent),
        run_preceded(run, sent).concluded(entries, keys, key).flow == preceded(
            run.concluded(entries, keys, key).flow,
            sent,
        ),
        run_preceded(run, sent).stopped() == run.stopped(),
{
    let wrong = "上游流式响应包含无效 JSON。"@;
    lemma_fail_after(run.flow, sent, wrong);
    lemma_fail_after(run.flow, sent, run.message);
    law_sent_events_do_not_matter_to_the_end(run.flow, sent, entries);
    if let LineView::Event(data) = run.parser.outcome(line) {
        if let Some(chunk) = json::parsed_text(data) {
            law_sent_events_do_not_matter_to_chunks(run.flow, sent, chunk, fresh);
        }
    }
    if let Some(chunk) = json::parsed_text(run.parser.data) {
        law_sent_events_do_not_matter_to_chunks(run.flow, sent, chunk, fresh);
    }
}

} // verus!
