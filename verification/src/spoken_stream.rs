//! Which streams fail and which do not. Those that hold nothing but text do
//! not, and their text is told piece by piece.

use crate::byte_stream::PumpView;
use crate::cutting;
use crate::cutting::{complete_lines, has_short_lines, joined, lines_in};
use crate::events::EventView;
use crate::json;
use crate::json::{empty_object, JsonView};
use crate::pump::{ContextView, RunView, MAX_SSE_LINE_BUFFER_BYTES, MAX_STREAM_RESPONSE_BYTES};
use crate::reasoning::EntryView;
use crate::response;
use crate::sse::{LineView, ParserView};
use crate::stream;
use crate::stream::Flow;
use crate::stream_laws;
use crate::stream_laws::{chunk_text, endings, ends_in_failure, failures, law_finish, told_text};
use crate::whole_stream::{
    before_mark, begins_well, events_in, law_stream_begins, law_stream_tells_its_pieces,
    law_whole_stream, lemma_before_mark, lemma_first_before_mark, lemma_first_events, parser_after,
    pieces_of,
};
use vstd::prelude::*;

verus! {

// ---------------------------------------------------------------------------
// Streams that do not fail
// ---------------------------------------------------------------------------

/// Whether a chunk holds nothing but text and what is known of the answer: it
/// tells of no error and calls no tool.
pub open spec fn is_spoken_chunk(chunk: JsonView) -> bool {
    &&& !chunk.has("error"@)
    &&& match chunk.array_at("choices"@) {
        None => chunk.has("usage"@),
        Some(choices) => choices.len() == 0 || match stream::choice_delta(choices[0]) {
            Some(delta) => !delta.has("function_call"@) && response::message_calls(delta).len()
                == 0,
            None => false,
        },
    }
}

/// Whether each of the events is a chunk that holds nothing but text.
pub open spec fn are_spoken(events: Seq<Seq<char>>) -> bool {
    forall|i: int|
        0 <= i < events.len() ==> (json::parsed_text(#[trigger] events[i]) matches Some(chunk)
            && is_spoken_chunk(chunk))
}

/// Whether no event has too much data, up to the mark at the end of a stream.
pub open spec fn are_within_bounds(parser: ParserView, lines: Seq<Seq<char>>) -> bool
    decreases lines.len(),
{
    if lines.len() == 0 {
        true
    } else {
        let heard = events_in(parser, lines.drop_last());
        &&& are_within_bounds(parser, lines.drop_last())
        &&& before_mark(heard).len() == heard.len() ==> !(parser_after(
            parser,
            lines.drop_last(),
        ).outcome(lines.last()) is TooLarge)
    }
}

/// A chunk that holds nothing but text can always be taken in.
pub proof fn law_spoken_chunk_does_not_fail(flow: Flow, chunk: JsonView, fresh: Seq<Seq<char>>)
    requires
        is_spoken_chunk(chunk),
    ensures
        flow.push_chunk(chunk, fresh).failure is None,
{
}

proof fn lemma_first_lines_are_within_bounds(
    parser: ParserView,
    lines: Seq<Seq<char>>,
    count: int,
)
    requires
        0 <= count <= lines.len(),
        are_within_bounds(parser, lines),
    ensures
        are_within_bounds(parser, lines.take(count)),
    decreases lines.len(),
{
    if count == lines.len() {
        assert(lines.take(count) =~= lines);
    } else {
        assert(lines.drop_last().take(count) =~= lines.take(count));
        lemma_first_lines_are_within_bounds(parser, lines.drop_last(), count);
    }
}

proof fn lemma_first_are_spoken(events: Seq<Seq<char>>, count: int)
    requires
        0 <= count <= events.len(),
        are_spoken(before_mark(events)),
    ensures
        are_spoken(before_mark(events.take(count))),
{
    lemma_first_before_mark(events, count);
    let all = before_mark(events);
    let first = before_mark(events.take(count));
    assert forall|i: int| 0 <= i < first.len() implies (json::parsed_text(
        #[trigger] first[i],
    ) matches Some(chunk) && is_spoken_chunk(chunk)) by {
        assert(first[i] == all[i]);
    }
}

/// Lines whose events hold nothing but text do not fail, and are read up to the
/// mark at the end.
proof fn lemma_spoken_lines(run: RunView, lines: Seq<Seq<char>>, fresh: Seq<Seq<Seq<char>>>)
    requires
        !run.stopped(),
        are_within_bounds(run.parser, lines),
        are_spoken(before_mark(events_in(run.parser, lines))),
    ensures
        ({
            let after = run.after_lines(lines, fresh);
            let events = events_in(run.parser, lines);
            &&& !after.failed
            &&& after.done <==> before_mark(events).len() < events.len()
            &&& !after.done ==> after.parser == parser_after(run.parser, lines)
        }),
    decreases lines.len(),
{
    let events = events_in(run.parser, lines);
    lemma_before_mark(events);
    if lines.len() > 0 {
        let rest = lines.drop_last();
        let heard = events_in(run.parser, rest);
        lemma_first_events(run.parser, lines, lines.len() - 1);
        assert(lines.take(lines.len() - 1) =~= rest);
        lemma_first_are_spoken(events, heard.len() as int);
        lemma_spoken_lines(run, rest, fresh);
        lemma_before_mark(heard);
        let earlier = run.after_lines(rest, fresh);
        if !earlier.done {
            if let LineView::Event(data) = parser_after(run.parser, rest).outcome(lines.last()) {
                assert(events.drop_last() =~= heard);
                if data != "[DONE]"@ {
                    assert(before_mark(events) == heard.push(data));
                    assert(before_mark(events)[heard.len() as int] == data);
                    let chunk = json::parsed_text(data)->0;
                    law_spoken_chunk_does_not_fail(
                        earlier.flow,
                        chunk,
                        fresh[lines.len() - 1],
                    );
                }
            }
        } else {
            if let LineView::Event(data) = parser_after(run.parser, rest).outcome(lines.last()) {
                assert(events.drop_last() =~= heard);
            }
        }
    }
}

/// A stream within the limits whose events hold nothing but text, up to the mark
/// at its end, does not fail, however it is cut into pieces.
pub proof fn law_spoken_stream_does_not_fail(
    start: PumpView,
    pieces: Seq<Seq<u8>>,
    fresh: Seq<Seq<Seq<Seq<char>>>>,
)
    requires
        !start.run.stopped(),
        !start.can_read(),
        start.received + joined(pieces).len() <= MAX_STREAM_RESPONSE_BYTES,
        has_short_lines(start.buffered + joined(pieces)),
        start.fits_pieces(pieces, fresh),
        fresh.len() == pieces.len(),
        ({
            let lines = complete_lines(start.buffered + joined(pieces));
            &&& are_within_bounds(start.run.parser, lines)
            &&& are_spoken(before_mark(events_in(start.run.parser, lines)))
        }),
    ensures
        !start.fed(pieces, fresh).run.failed,
{
    cutting::law_cuts_do_not_matter(start, pieces, fresh);
    let whole = start.with_bytes(joined(pieces));
    cutting::lemma_lines_are_taken_in(whole, joined(fresh));
    cutting::lemma_lines_read_are_first(whole, joined(fresh));
    let count = joined(fresh).len() as int;
    let parser = start.run.parser;
    let all = complete_lines(whole.buffered);
    let read = lines_in(whole.buffered, joined(fresh).len());
    lemma_first_lines_are_within_bounds(parser, all, count);
    lemma_first_events(parser, all, count);
    lemma_first_are_spoken(events_in(parser, all), events_in(parser, read).len() as int);
    lemma_spoken_lines(whole.run, read, joined(fresh));
}

// ---------------------------------------------------------------------------
// Streams that fail
// ---------------------------------------------------------------------------

/// Whether each of the events is JSON.
pub open spec fn are_json(events: Seq<Seq<char>>) -> bool {
    forall|i: int| 0 <= i < events.len() ==> json::parsed_text(#[trigger] events[i]) is Some
}

/// Lines that do not fail hold no event with too much data and none that is no
/// JSON, up to the mark at the end.
proof fn lemma_sound_lines(run: RunView, lines: Seq<Seq<char>>, fresh: Seq<Seq<Seq<char>>>)
    requires
        !run.stopped(),
        !run.after_lines(lines, fresh).failed,
    ensures
        ({
            let after = run.after_lines(lines, fresh);
            let events = events_in(run.parser, lines);
            &&& are_within_bounds(run.parser, lines)
            &&& are_json(before_mark(events))
            &&& after.done <==> before_mark(events).len() < events.len()
            &&& !after.done ==> after.parser == parser_after(run.parser, lines)
        }),
    decreases lines.len(),
{
    let events = events_in(run.parser, lines);
    lemma_before_mark(events);
    if lines.len() > 0 {
        let rest = lines.drop_last();
        let heard = events_in(run.parser, rest);
        let earlier = run.after_lines(rest, fresh);
        lemma_sound_lines(run, rest, fresh);
        lemma_before_mark(heard);
        if let LineView::Event(data) = parser_after(run.parser, rest).outcome(lines.last()) {
            assert(events.drop_last() =~= heard);
            if !earlier.done && data != "[DONE]"@ {
                assert(before_mark(events) == heard.push(data));
            }
        }
    }
}

proof fn lemma_bounds_beyond_mark(parser: ParserView, lines: Seq<Seq<char>>, count: int)
    requires
        0 <= count <= lines.len(),
        are_within_bounds(parser, lines.take(count)),
        ({
            let heard = events_in(parser, lines.take(count));
            before_mark(heard).len() < heard.len()
        }),
    ensures
        are_within_bounds(parser, lines),
    decreases lines.len(),
{
    if count == lines.len() {
        assert(lines.take(count) =~= lines);
    } else {
        let rest = lines.drop_last();
        assert(rest.take(count) =~= lines.take(count));
        lemma_bounds_beyond_mark(parser, rest, count);
        lemma_first_events(parser, rest, count);
        let heard = events_in(parser, lines.take(count));
        lemma_first_before_mark(events_in(parser, rest), heard.len() as int);
    }
}

/// A stream within the limits fails where, before the mark at its end, an event
/// has too much data or is no JSON, however the stream is cut into pieces.
pub proof fn law_faulty_stream_fails(
    start: PumpView,
    pieces: Seq<Seq<u8>>,
    fresh: Seq<Seq<Seq<Seq<char>>>>,
)
    requires
        !start.run.stopped(),
        !start.can_read(),
        start.received + joined(pieces).len() <= MAX_STREAM_RESPONSE_BYTES,
        has_short_lines(start.buffered + joined(pieces)),
        start.fits_pieces(pieces, fresh),
        fresh.len() == pieces.len(),
        ({
            let lines = complete_lines(start.buffered + joined(pieces));
            ||| !are_within_bounds(start.run.parser, lines)
            ||| !are_json(before_mark(events_in(start.run.parser, lines)))
        }),
    ensures
        start.fed(pieces, fresh).run.failed,
{
    cutting::law_cuts_do_not_matter(start, pieces, fresh);
    let whole = start.with_bytes(joined(pieces));
    cutting::lemma_lines_are_taken_in(whole, joined(fresh));
    cutting::lemma_lines_read_are_first(whole, joined(fresh));
    let count = joined(fresh).len() as int;
    let parser = start.run.parser;
    let all = complete_lines(whole.buffered);
    let read = lines_in(whole.buffered, joined(fresh).len());
    let run = start.fed(pieces, fresh).run;
    if !run.failed {
        lemma_sound_lines(whole.run, read, joined(fresh));
        lemma_first_events(parser, all, count);
        let heard = events_in(parser, read);
        lemma_first_before_mark(events_in(parser, all), heard.len() as int);
        if run.done {
            lemma_bounds_beyond_mark(parser, all, count);
        } else {
            assert(read =~= all);
        }
    }
}

/// Once a run has stopped, no line is read.
proof fn lemma_no_line_is_read(pump: PumpView, fresh: Seq<Seq<Seq<char>>>)
    requires
        pump.run.stopped(),
        pump.fits_lines(fresh),
    ensures
        fresh.len() == 0,
        pump.after_lines(fresh) == pump,
    decreases fresh.len(),
{
    if fresh.len() > 0 {
        lemma_no_line_is_read(pump, fresh.drop_last());
    }
}

proof fn lemma_lines_count_no_bytes(pump: PumpView, fresh: Seq<Seq<Seq<char>>>)
    ensures
        pump.after_lines(fresh).received == pump.received,
    decreases fresh.len(),
{
    if fresh.len() > 0 {
        lemma_lines_count_no_bytes(pump, fresh.drop_last());
    }
}

/// Whether bytes end in more bytes without a line feed than a line may have.
pub open spec fn has_long_end(bytes: Seq<u8>) -> bool {
    &&& bytes.len() > MAX_SSE_LINE_BUFFER_BYTES
    &&& forall|i: int|
        bytes.len() - MAX_SSE_LINE_BUFFER_BYTES - 1 <= i < bytes.len() ==> #[trigger] bytes[i] != 10
}

/// Whether a part of bytes is their end, and stands at their beginning or behind
/// a line feed.
spec fn is_last_line(part: Seq<u8>, bytes: Seq<u8>) -> bool {
    let at = bytes.len() - part.len();
    &&& 0 <= at
    &&& part == bytes.skip(at)
    &&& at > 0 ==> bytes[at - 1] == 10
}

/// The last line grows with more bytes, and is cut where a line is read.
proof fn lemma_last_line_grows(part: Seq<u8>, bytes: Seq<u8>, piece: Seq<u8>, cut: int)
    requires
        is_last_line(part, bytes),
        0 <= cut <= part.len() + piece.len(),
        cut > 0 ==> (part + piece)[cut - 1] == 10,
    ensures
        is_last_line((part + piece).skip(cut), bytes + piece),
{
    let at = bytes.len() - part.len();
    let longer = bytes + piece;
    assert(part + piece =~= longer.skip(at));
    assert((part + piece).skip(cut) =~= longer.skip(at + cut));
    if cut > 0 {
        assert(longer.skip(at)[cut - 1] == longer[at + cut - 1]);
    } else if at > 0 {
        assert(longer[at - 1] == bytes[at - 1]);
    }
}

/// A piece after which the run has not stopped.
proof fn lemma_piece_is_taken(earlier: PumpView, piece: Seq<u8>, drawn: Seq<Seq<Seq<char>>>)
    requires
        !earlier.run.stopped(),
        earlier.received <= MAX_STREAM_RESPONSE_BYTES,
        earlier.with_bytes(piece).fits_lines(drawn),
        !earlier.with_bytes(piece).after_lines(drawn).checked().run.stopped(),
    ensures
        ({
            let took = earlier.with_bytes(piece);
            let after = took.after_lines(drawn);
            &&& took.buffered == earlier.buffered + piece
            &&& after.checked() == after
            &&& after.received == earlier.received + piece.len()
            &&& after.received <= MAX_STREAM_RESPONSE_BYTES
            &&& after.buffered.len() <= MAX_SSE_LINE_BUFFER_BYTES
        }),
{
    let took = earlier.with_bytes(piece);
    lemma_lines_count_no_bytes(took, drawn);
    if took.run.stopped() {
        lemma_no_line_is_read(took, drawn);
    }
}

/// What is left of a run that has not stopped.
proof fn lemma_what_is_left(
    start: PumpView,
    pieces: Seq<Seq<u8>>,
    fresh: Seq<Seq<Seq<Seq<char>>>>,
)
    requires
        !start.run.stopped(),
        start.received <= MAX_STREAM_RESPONSE_BYTES,
        start.buffered.len() <= MAX_SSE_LINE_BUFFER_BYTES,
        start.fits_pieces(pieces, fresh),
        !start.fed(pieces, fresh).run.stopped(),
    ensures
        ({
            let fed = start.fed(pieces, fresh);
            &&& fed.received == start.received + joined(pieces).len()
            &&& fed.received <= MAX_STREAM_RESPONSE_BYTES
            &&& fed.buffered.len() <= MAX_SSE_LINE_BUFFER_BYTES
            &&& is_last_line(fed.buffered, start.buffered + joined(pieces))
        }),
    decreases pieces.len(),
{
    if pieces.len() == 0 {
        assert(start.buffered + joined(pieces) =~= start.buffered);
        assert(start.buffered.skip(0) =~= start.buffered);
    } else {
        let rest = pieces.drop_last();
        let piece = pieces.last();
        let drawn = fresh[pieces.len() - 1];
        let earlier = start.fed(rest, fresh);
        lemma_what_is_left(start, rest, fresh);
        lemma_piece_is_taken(earlier, piece, drawn);
        let took = earlier.with_bytes(piece);
        cutting::lemma_rest_follows_a_line(took, drawn);
        let cut = took.buffered.len() - took.after_lines(drawn).buffered.len();
        lemma_last_line_grows(earlier.buffered, start.buffered + joined(rest), piece, cut);
        assert(start.buffered + joined(pieces) =~= start.buffered + joined(rest) + piece);
    }
}

/// A stream that has too many bytes before the mark at its end fails, and so
/// does one that goes on for too long without a line feed, however it is cut into
/// pieces.
pub proof fn law_long_stream_fails(
    start: PumpView,
    pieces: Seq<Seq<u8>>,
    fresh: Seq<Seq<Seq<Seq<char>>>>,
)
    requires
        !start.run.stopped(),
        start.received <= MAX_STREAM_RESPONSE_BYTES,
        start.buffered.len() <= MAX_SSE_LINE_BUFFER_BYTES,
        start.fits_pieces(pieces, fresh),
        start.received + joined(pieces).len() > MAX_STREAM_RESPONSE_BYTES || has_long_end(
            start.buffered + joined(pieces),
        ),
        !start.fed(pieces, fresh).run.done,
    ensures
        start.fed(pieces, fresh).run.failed,
{
    let fed = start.fed(pieces, fresh);
    if !fed.run.failed {
        lemma_what_is_left(start, pieces, fresh);
        let bytes = start.buffered + joined(pieces);
        if has_long_end(bytes) {
            let at = bytes.len() - fed.buffered.len();
            assert(bytes[at - 1] != 10);
        }
    }
}

/// A whole stream that is broken off, that is too long or goes on for too long
/// without a line feed before the mark at its end, or that holds before the mark
/// an event with too much data or one that is no JSON, is told as an answer that
/// begins and then fails: `response.failed` comes once, as the last event.
pub proof fn law_faulty_stream_ends_in_failure(
    context: ContextView,
    msg_item_id: Seq<char>,
    message: Seq<char>,
    pieces: Seq<Seq<u8>>,
    fresh: Seq<Seq<Seq<Seq<char>>>>,
    trouble: Option<Seq<char>>,
    last: Seq<Seq<char>>,
    rest: Seq<Seq<char>>,
    entries: Seq<EntryView>,
    keys: Set<Seq<char>>,
    key: Option<Seq<char>>,
)
    requires
        PumpView::new(context.opened(msg_item_id, message)).fits_pieces(pieces, fresh),
        fresh.len() == pieces.len(),
        ({
            let fed = PumpView::new(context.opened(msg_item_id, message)).fed(pieces, fresh);
            let lines = complete_lines(joined(pieces));
            let events = before_mark(events_in(ParserView::new(), lines));
            ||| trouble is Some
            ||| joined(pieces).len() > MAX_STREAM_RESPONSE_BYTES && !fed.run.done
            ||| has_long_end(joined(pieces)) && !fed.run.done
            ||| joined(pieces).len() <= MAX_STREAM_RESPONSE_BYTES && has_short_lines(
                joined(pieces),
            ) && !(are_within_bounds(ParserView::new(), lines) && are_json(events))
        }),
    ensures
        ({
            let fed = PumpView::new(context.opened(msg_item_id, message)).fed(pieces, fresh);
            let cut = match trouble {
                Some(trouble) => fed.broken(trouble),
                None => fed,
            };
            let out = cut.all_read(last, rest).concluded(entries, keys, key).flow.out;
            &&& begins_well(out)
            &&& ends_in_failure(out)
            &&& failures(out) == 1
            &&& endings(out) == 0
        }),
{
    let start = PumpView::new(context.opened(msg_item_id, message));
    lemma_run_begins(context, msg_item_id, message);
    let fed = start.fed(pieces, fresh);
    let lines = complete_lines(joined(pieces));
    let events = before_mark(events_in(ParserView::new(), lines));
    assert(start.buffered + joined(pieces) =~= joined(pieces));
    if trouble is None {
        if (joined(pieces).len() > MAX_STREAM_RESPONSE_BYTES || has_long_end(joined(pieces)))
            && !fed.run.done {
            law_long_stream_fails(start, pieces, fresh);
        } else {
            law_faulty_stream_fails(start, pieces, fresh);
        }
        assert(fed.run.failed);
    }
    let cut = match trouble {
        Some(trouble) => fed.broken(trouble),
        None => fed,
    };
    law_whole_stream(
        context,
        msg_item_id,
        message,
        pieces,
        fresh,
        trouble,
        last,
        rest,
        entries,
        keys,
        key,
    );
    let out = cut.all_read(last, rest).concluded(entries, keys, key).flow.out;
    lemma_failure_is_counted(out);
}

/// Events that end in a failure tell of one.
proof fn lemma_failure_is_counted(events: Seq<EventView>)
    requires
        ends_in_failure(events),
    ensures
        failures(events) >= 1,
{
}

/// A failure lasts, whatever arrives after it.
pub proof fn law_failure_lasts(
    start: PumpView,
    pieces: Seq<Seq<u8>>,
    fresh: Seq<Seq<Seq<Seq<char>>>>,
    count: int,
)
    requires
        0 <= count <= pieces.len(),
        start.fed(pieces.take(count), fresh).run.failed,
    ensures
        start.fed(pieces, fresh) == start.fed(pieces.take(count), fresh),
    decreases pieces.len(),
{
    if count == pieces.len() {
        assert(pieces.take(count) =~= pieces);
    } else {
        assert(pieces.drop_last().take(count) =~= pieces.take(count));
        law_failure_lasts(start, pieces.drop_last(), fresh, count);
    }
}

// ---------------------------------------------------------------------------
// What streams of text tell
// ---------------------------------------------------------------------------

/// A chunk that adds a piece of text, and says nothing else.
pub open spec fn text_chunk(text: Seq<char>) -> JsonView {
    empty_object().with(
        "choices"@,
        JsonView::Array(
            seq![
                empty_object().with(
                    "delta"@,
                    empty_object().with("content"@, JsonView::Text(text)),
                ),
            ],
        ),
    )
}

/// Whether the events are chunks that add the given pieces of text, one after
/// the other, none of them empty.
pub open spec fn tell_pieces(events: Seq<Seq<char>>, texts: Seq<Seq<char>>) -> bool {
    &&& events.len() == texts.len()
    &&& forall|i: int|
        0 <= i < events.len() ==> json::parsed_text(#[trigger] events[i]) == Some(
            text_chunk(texts[i]),
        ) && texts[i].len() > 0
}

proof fn lemma_text_chunk(text: Seq<char>)
    requires
        text.len() > 0,
    ensures
        is_spoken_chunk(text_chunk(text)),
        chunk_text(text_chunk(text)) == Some(text),
{
    reveal_strlit("error");
    reveal_strlit("choices");
    reveal_strlit("delta");
    reveal_strlit("content");
    reveal_strlit("function_call");
    reveal_strlit("tool_calls");
    assert("error"@.len() != "choices"@.len());
    assert("function_call"@.len() != "content"@.len());
    assert("tool_calls"@.len() != "content"@.len());
    let delta = empty_object().with("content"@, JsonView::Text(text));
    let choice = empty_object().with("delta"@, delta);
    assert(text_chunk(text).array_at("choices"@) == Some(seq![choice]));
    assert(choice.get("delta"@) == Some(delta));
    assert(delta.get("content"@) == Some(JsonView::Text(text)));
}

proof fn lemma_pieces_are_told(events: Seq<Seq<char>>, texts: Seq<Seq<char>>)
    requires
        tell_pieces(events, texts),
    ensures
        pieces_of(events) == texts,
        are_spoken(events),
    decreases events.len(),
{
    assert forall|i: int| 0 <= i < events.len() implies (json::parsed_text(
        #[trigger] events[i],
    ) matches Some(chunk) && is_spoken_chunk(chunk)) by {
        lemma_text_chunk(texts[i]);
    }
    if events.len() == 0 {
        assert(texts =~= Seq::<Seq<char>>::empty());
    } else {
        let last = events.len() - 1;
        assert forall|i: int| 0 <= i < last implies json::parsed_text(
            #[trigger] events.drop_last()[i],
        ) == Some(text_chunk(texts.drop_last()[i])) && texts.drop_last()[i].len() > 0 by {
            assert(events.drop_last()[i] == events[i]);
        }
        lemma_pieces_are_told(events.drop_last(), texts.drop_last());
        assert(json::parsed_text(events[last]) == Some(text_chunk(texts[last])));
        lemma_text_chunk(texts[last]);
        assert(texts.drop_last().push(texts[last]) =~= texts);
    }
}

proof fn lemma_told_from(
    start: PumpView,
    pieces: Seq<Seq<u8>>,
    fresh: Seq<Seq<Seq<Seq<char>>>>,
    texts: Seq<Seq<char>>,
)
    requires
        !start.run.stopped(),
        !start.can_read(),
        !start.run.flow.state.structured_output,
        start.received + joined(pieces).len() <= MAX_STREAM_RESPONSE_BYTES,
        has_short_lines(start.buffered + joined(pieces)),
        start.fits_pieces(pieces, fresh),
        fresh.len() == pieces.len(),
        ({
            let lines = complete_lines(start.buffered + joined(pieces));
            let events = events_in(start.run.parser, lines);
            &&& are_within_bounds(start.run.parser, lines)
            &&& tell_pieces(before_mark(events), texts)
            &&& before_mark(events).len() < events.len()
        }),
    ensures
        ({
            let fed = start.fed(pieces, fresh);
            &&& !fed.run.failed
            &&& fed.run.done
            &&& !fed.run.flow.state.structured_output
            &&& told_text(fed.run.flow.out) == told_text(start.run.flow.out) + texts
        }),
{
    let lines = complete_lines(start.buffered + joined(pieces));
    lemma_pieces_are_told(before_mark(events_in(start.run.parser, lines)), texts);
    law_spoken_stream_does_not_fail(start, pieces, fresh);
    law_stream_tells_its_pieces(start, pieces, fresh);
}

proof fn lemma_run_begins(context: ContextView, msg_item_id: Seq<char>, message: Seq<char>)
    ensures
        ({
            let start = PumpView::new(context.opened(msg_item_id, message));
            &&& !start.run.stopped()
            &&& !start.can_read()
            &&& start.run.parser == ParserView::new()
            &&& start.run.flow.state.structured_output == context.structured_output
            &&& start.received == 0
            &&& start.buffered.len() == 0
        }),
{
}

/// The end of an answer tells no more text, unless the answer is structured.
proof fn lemma_end_tells_no_text(
    run: RunView,
    entries: Seq<EntryView>,
    keys: Set<Seq<char>>,
    key: Option<Seq<char>>,
)
    requires
        !run.failed,
        !run.flow.state.structured_output,
    ensures
        told_text(run.concluded(entries, keys, key).flow.out) == told_text(run.flow.out),
{
    law_finish(run.flow, entries);
    stream_laws::lemma_nothing_more(told_text(run.flow.out));
    assert(stream_laws::told_last(run.flow.state) =~= Seq::<Seq<char>>::empty());
}

/// An answer that arrives as chunks of text and the mark at the end tells, from
/// its first event to its last, exactly these pieces of text, each as it came,
/// in their order, however the stream is cut into pieces. What is read after the
/// mark makes no difference.
pub proof fn law_text_stream_is_told(
    context: ContextView,
    msg_item_id: Seq<char>,
    message: Seq<char>,
    pieces: Seq<Seq<u8>>,
    fresh: Seq<Seq<Seq<Seq<char>>>>,
    texts: Seq<Seq<char>>,
    last: Seq<Seq<char>>,
    rest: Seq<Seq<char>>,
    entries: Seq<EntryView>,
    keys: Set<Seq<char>>,
    key: Option<Seq<char>>,
)
    requires
        !context.structured_output,
        joined(pieces).len() <= MAX_STREAM_RESPONSE_BYTES,
        has_short_lines(joined(pieces)),
        PumpView::new(context.opened(msg_item_id, message)).fits_pieces(pieces, fresh),
        fresh.len() == pieces.len(),
        ({
            let lines = complete_lines(joined(pieces));
            let events = events_in(ParserView::new(), lines);
            &&& are_within_bounds(ParserView::new(), lines)
            &&& tell_pieces(before_mark(events), texts)
            &&& before_mark(events).len() < events.len()
        }),
    ensures
        ({
            let fed = PumpView::new(context.opened(msg_item_id, message)).fed(pieces, fresh);
            let read = fed.all_read(last, rest);
            &&& !fed.run.failed
            &&& fed.run.done
            &&& told_text(fed.run.flow.out) == texts
            &&& told_text(read.concluded(entries, keys, key).flow.out) == texts
        }),
{
    let start = PumpView::new(context.opened(msg_item_id, message));
    let bytes = joined(pieces);
    lemma_run_begins(context, msg_item_id, message);
    law_stream_begins(context, msg_item_id, message);
    assert(start.buffered + bytes =~= bytes);
    lemma_told_from(start, pieces, fresh, texts);
    let fed = start.fed(pieces, fresh);
    assert(told_text(start.run.flow.out) + texts =~= texts);
    assert(fed.all_read(last, rest) == fed.run);
    lemma_end_tells_no_text(fed.run, entries, keys, key);
}

} // verus!
