//! What is read out of the pieces of a stream: bytes, lines and chunks.

use crate::byte_stream;
use crate::byte_stream::PumpView;
use crate::content;
use crate::json::JsonView;
use crate::reasoning;
use crate::reasoning::EntryView;
use crate::response;
use crate::sse;
use crate::sse::{LineView, ParserView};
use crate::stream;
use crate::stream::{known_call, CallView, Flow, TranslatorView};
use crate::stream_end;
use crate::stream_laws;
use crate::stream_sums;
use crate::text;
use vstd::prelude::*;

verus! {

// ---------------------------------------------------------------------------
// Bytes
// ---------------------------------------------------------------------------

/// A line ends before the first line feed; without one there is no line yet.
pub proof fn law_lines_end_at_line_feeds(bytes: Seq<u8>)
    ensures
        0 <= byte_stream::line_end(bytes) <= bytes.len(),
        forall|i: int| 0 <= i < byte_stream::line_end(bytes) ==> #[trigger] bytes[i] != 10,
        byte_stream::line_end(bytes) < bytes.len() ==> bytes[byte_stream::line_end(bytes)] == 10,
    decreases bytes.len(),
{
    if bytes.len() > 0 && bytes[0] != 10 {
        let rest = bytes.drop_first();
        law_lines_end_at_line_feeds(rest);
        assert forall|i: int| 0 <= i < byte_stream::line_end(bytes) implies #[trigger] bytes[i]
            != 10 by {
            if i > 0 {
                assert(rest[i - 1] == bytes[i]);
            }
        }
    }
}

/// A line that is read is taken out of what waits to be read, with its line feed.
pub proof fn law_lines_are_taken_out(
    pump: PumpView,
    line: Seq<u8>,
    rest: Seq<u8>,
    fresh: Seq<Seq<char>>,
)
    requires
        pump.buffered == line.push(10) + rest,
        !line.contains(10),
    ensures
        !pump.run.stopped() ==> pump.can_read(),
        pump.next_line() == text::lossy_text(line),
        pump.after_line(fresh).buffered == rest,
        pump.after_line(fresh).run == pump.run.after_line(text::lossy_text(line), fresh),
{
    let bytes = pump.buffered;
    law_lines_end_at_line_feeds(bytes);
    let end = byte_stream::line_end(bytes);
    assert(bytes[line.len() as int] == 10);
    if end < line.len() {
        assert(line[end] == 10);
        assert(line.contains(10));
    }
    assert(end == line.len());
    assert(bytes.take(end) =~= line);
    assert(bytes.skip(end + 1) =~= rest);
}

/// Bytes wait in the order in which they came, up to 64 MiB in all; more break the
/// stream off. What waits without a line feed may not be more than one MiB.
pub proof fn law_bytes_wait_in_their_order(pump: PumpView, bytes: Seq<u8>)
    requires
        pump.received + bytes.len() <= usize::MAX,
    ensures
        pump.received + bytes.len() <= 67108864 ==> {
            &&& pump.with_bytes(bytes).buffered == pump.buffered + bytes
            &&& pump.with_bytes(bytes).received == pump.received + bytes.len()
            &&& pump.with_bytes(bytes).run == pump.run
        },
        pump.received + bytes.len() > 67108864 ==> pump.with_bytes(bytes).run.failed,
        !pump.run.stopped() && pump.buffered.len() > 1048576 ==> pump.checked().run.failed,
        pump.buffered.len() <= 1048576 ==> pump.checked() == pump,
{
}

// ---------------------------------------------------------------------------
// Lines
// ---------------------------------------------------------------------------

/// Data is what follows the name of its field, without one space before it and
/// without the carriage return at the end of its line.
pub proof fn law_data_is_read(parser: ParserView, value: Seq<char>)
    requires
        parser.started,
        parser.data.len() == 0,
        value.len() > 0,
        value.last() != '\r',
        text::byte_count(value) <= 1048576,
    ensures
        parser.outcome("data: "@ + value) is Waiting,
        parser.after("data: "@ + value).data == value,
        parser.after("data: "@ + value + seq!['\r']).data == value,
        value[0] != ' ' ==> parser.after("data:"@ + value).data == value,
        parser.after("data: "@ + value).outcome(Seq::empty()) == LineView::Event(value),
        parser.after("data: "@ + value).outcome(seq!['\r']) == LineView::Event(value),
        parser.after("data: "@ + value).after(Seq::empty()).data.len() == 0,
{
    reveal_strlit("data:");
    reveal_strlit("data: ");
    let spaced = "data: "@ + value;
    let returned = spaced + seq!['\r'];
    let bare = "data:"@ + value;
    assert(spaced.last() == value.last());
    assert(bare.last() == value.last());
    assert(sse::plain_line(spaced, false) == spaced);
    assert(sse::plain_line(bare, false) == bare);
    assert(returned.drop_last() =~= spaced);
    assert(sse::plain_line(returned, false) == spaced);
    assert(spaced.take(5) =~= "data:"@);
    assert(bare.take(5) =~= "data:"@);
    assert(spaced.skip(5).skip(1) =~= value);
    assert(spaced.skip(5)[0] == ' ');
    assert(bare.skip(5) =~= value);
    assert(sse::data_value(spaced) == value);
    assert(value[0] != ' ' ==> sse::data_value(bare) == value);
    assert(seq!['\r'].drop_last() =~= Seq::<char>::empty());
    assert(sse::plain_line(seq!['\r'], false) =~= Seq::<char>::empty());
    assert(sse::plain_line(Seq::empty(), false) =~= Seq::<char>::empty());
}

/// Data that comes in more than one line is joined by line feeds.
pub proof fn law_more_data_is_added(parser: ParserView, value: Seq<char>)
    requires
        parser.started,
        parser.data.len() > 0,
        value.len() > 0,
        value.last() != '\r',
        text::byte_count(parser.data + seq!['\n'] + value) <= 1048576,
    ensures
        parser.after("data: "@ + value).data == parser.data + seq!['\n'] + value,
{
    reveal_strlit("data:");
    reveal_strlit("data: ");
    reveal_strlit("\n");
    let spaced = "data: "@ + value;
    assert(spaced.last() == value.last());
    assert(spaced.take(5) =~= "data:"@);
    assert(spaced.skip(5).skip(1) =~= value);
    assert(spaced.skip(5)[0] == ' ');
    assert("\n"@ =~= seq!['\n']);
    assert(sse::plain_line(spaced, false) == spaced);
    assert(sse::data_value(spaced) == value);
}

/// The mark that may stand before the first line is passed over, and only there.
pub proof fn law_first_mark_is_passed_over(line: Seq<char>)
    requires
        line.len() > 0,
        line[0] != '\u{feff}',
        line.last() != '\r',
    ensures
        sse::plain_line(seq!['\u{feff}'] + line, true) == line,
        sse::plain_line(line, true) == line,
        sse::plain_line(line, false) == line,
        sse::plain_line(seq!['\u{feff}'] + line, false) == seq!['\u{feff}'] + line,
{
    let marked = seq!['\u{feff}'] + line;
    assert(marked.skip(1) =~= line);
    assert(marked.last() == line.last());
}

// ---------------------------------------------------------------------------
// Chunks
// ---------------------------------------------------------------------------

proof fn lemma_chunk_words()
    ensures
        "content"@ != "parsed"@,
{
    reveal_strlit("content");
    reveal_strlit("parsed");
    assert("content"@.len() == 7 && "parsed"@.len() == 6);
}

/// The text of a chunk is the content of the delta of its first choice; a delta
/// without content, or with empty content, brings none.
pub proof fn law_text_of_a_chunk(
    chunk: JsonView,
    choices: Seq<JsonView>,
    delta: JsonView,
    said: Seq<char>,
)
    requires
        !chunk.has("error"@),
        chunk.array_at("choices"@) == Some(choices),
        choices.len() > 0,
        choices[0].get("delta"@) == Some(delta),
        delta is Object,
    ensures
        delta.text_at("content"@) == Some(said) && said.len() > 0 ==> stream_laws::chunk_text(chunk)
            == Some(said) && stream::delta_text(delta) == Some(said),
        delta.text_at("content"@) == Some(said) && said.len() == 0 ==> stream::delta_text(delta)
            is None,
        !delta.has("content"@) && delta.text_at("parsed"@) == Some(said) && said.len() > 0
            ==> stream::delta_text(delta) == Some(said),
        !delta.has("content"@) && !delta.has("parsed"@) ==> stream_laws::chunk_text(chunk) is None
            && stream::delta_text(delta) is None,
        stream::choice_delta(choices[0]) == Some(delta),
        stream_sums::chunk_delta(chunk) == Some(delta),
{
    lemma_chunk_words();
}

/// The refusal of a message or delta is its text under that name.
pub proof fn law_refusal_of_a_delta(delta: JsonView, said: Seq<char>)
    ensures
        delta.text_at("refusal"@) == Some(said) && said.len() > 0 ==> response::message_refusal(
            delta,
        ) == Some(said),
        delta.text_at("refusal"@) == Some(said) && said.len() == 0 ==> response::message_refusal(
            delta,
        ) is None,
        !delta.has("refusal"@) ==> response::message_refusal(delta) is None,
{
}

/// What a chunk says of a call: under which index, by its statement or else by its
/// place, and a piece of its arguments, which may be missing.
pub proof fn law_pieces_of_a_call(call: JsonView, function: JsonView, position: int, piece: Seq<char>)
    requires
        call.get("function"@) == Some(function),
        0 <= position <= u64::MAX,
    ensures
        call.u64_at("index"@) matches Some(index) ==> stream::stated_index(call, position) == index,
        !call.has("index"@) ==> stream::stated_index(call, position) == position,
        response::call_function(call) == function,
        function.get("arguments"@) == Some(JsonView::Text(piece)) ==> stream::arguments_piece(
            function,
        ) == Some(piece),
        !function.has("arguments"@) || function.get("arguments"@) == Some(JsonView::Null)
            ==> stream::arguments_piece(function) == Some(Seq::<char>::empty()),
        function.get("arguments"@) matches Some(value) ==> (!(value is Text) && !(value is Null)
            ==> stream::arguments_piece(function) is None),
{
}

/// What was told of a call is added to: its identifier and its name are set, and
/// its arguments grow by the piece.
pub proof fn law_pieces_add_up(known: CallView, id: Seq<char>, name: Seq<char>, piece: Seq<char>)
    ensures
        stream::informed(known, Some(id), Some(name), piece).id == id,
        stream::informed(known, Some(id), Some(name), piece).name == name,
        stream::informed(known, None, None, piece).id == known.id,
        stream::informed(known, None, None, piece).name == known.name,
        stream::informed(known, None, None, piece).arguments == known.arguments + piece,
        stream::informed(known, Some(id), Some(name), piece).arguments == known.arguments + piece,
        stream::informed(known, None, None, piece).item_id == known.item_id,
        stream::informed(known, None, None, piece).index == known.index,
        stream::informed(known, None, None, piece).output_index == known.output_index,
{
}

/// A piece that gives another identifier or another name to a call that is known by
/// one is refused; one that repeats them, or leaves them out, is taken.
pub proof fn law_calls_keep_their_names(
    calls: Seq<CallView>,
    call: JsonView,
    function: JsonView,
    position: int,
    known: CallView,
)
    requires
        call.get("function"@) == Some(function),
        known_call(calls, stream::stated_index(call, position)) == Some(known),
    ensures
        known.id.len() > 0 ==> (call.text_at("id"@) matches Some(id) ==> (id != known.id
            ==> stream::call_failure(calls, call, position) is Some)),
        known.name.len() > 0 ==> (function.text_at("name"@) matches Some(name) ==> (name
            != known.name ==> stream::call_failure(calls, call, position) is Some)),
        (call.text_at("id"@) matches Some(id) ==> id == known.id || known.id.len() == 0) && (
        function.text_at("name"@) matches Some(name) ==> name == known.name || known.name.len()
            == 0) && (!function.has("arguments"@) || function.text_at("arguments"@) is Some)
            ==> stream::call_failure(calls, call, position) is None,
{
}

/// A chunk that reports an error fails the stream with that error, whatever else it
/// says.
pub proof fn law_reported_errors_fail_the_stream(
    flow: Flow,
    chunk: JsonView,
    error: JsonView,
    message: Seq<char>,
    fresh: Seq<Seq<char>>,
)
    requires
        chunk.get("error"@) == Some(error),
        error.text_at("message"@) == Some(message),
    ensures
        flow.push_chunk(chunk, fresh).failure == Some(message),
        flow.push_chunk(chunk, fresh).flow == flow.fail(message),
{
}

/// A chunk that states only a usage is taken; one without choices and without a
/// usage fails the stream.
pub proof fn law_chunks_without_choices(flow: Flow, chunk: JsonView, fresh: Seq<Seq<char>>)
    requires
        !chunk.has("error"@),
        !chunk.has("choices"@),
    ensures
        chunk.has("usage"@) ==> flow.push_chunk(chunk, fresh).failure is None && flow.push_chunk(
            chunk,
            fresh,
        ).flow.out == flow.out,
        !chunk.has("usage"@) ==> flow.push_chunk(chunk, fresh).failure is Some,
{
}

/// Why an answer ends is what the first choice said last.
pub proof fn law_reason_is_taken(flow: Flow, choice: JsonView, reason: Seq<char>)
    ensures
        choice.text_at("finish_reason"@) == Some(reason) ==> flow.chosen(
            choice,
        ).state.finish_reason == Some(reason),
        choice.text_at("finish_reason"@) is None ==> flow.chosen(choice).state.finish_reason
            == flow.state.finish_reason,
        flow.chosen(choice).state.saw_valid_choice,
{
}

proof fn lemma_calls_leave_the_rest(flow: Flow, calls: Seq<JsonView>, fresh: Seq<Seq<char>>)
    ensures
        ({
            let after = flow.take_calls(calls, fresh).flow.state;
            &&& after.reasoning_content == flow.state.reasoning_content
            &&& after.usage == flow.state.usage
            &&& after.model == flow.state.model
            &&& after.finish_reason == flow.state.finish_reason
            &&& after.full_text == flow.state.full_text
            &&& after.refusal_text == flow.state.refusal_text
            &&& after.response_id == flow.state.response_id
            &&& after.created_at == flow.state.created_at
            &&& after.msg_item_id == flow.state.msg_item_id
        }),
    decreases calls.len(),
{
    if calls.len() > 0 {
        lemma_calls_leave_the_rest(flow, calls.drop_last(), fresh);
    }
}

/// A chunk is taken in whole: its text, its refusal and its reasoning are added to
/// what came before, the reason for the end and the model are noted, and its usage
/// is counted. What the answer is called stays.
pub proof fn law_chunks_are_taken_in_whole(
    flow: Flow,
    chunk: JsonView,
    choices: Seq<JsonView>,
    delta: JsonView,
    fresh: Seq<Seq<char>>,
)
    requires
        !chunk.has("error"@),
        chunk.array_at("choices"@) == Some(choices),
        choices.len() > 0,
        choices[0].get("delta"@) == Some(delta),
        delta is Object,
        !delta.has("function_call"@),
    ensures
        ({
            let after = flow.push_chunk(chunk, fresh).flow.state;
            &&& delta.text_at("content"@) matches Some(said) ==> after.full_text
                == flow.state.full_text + said
            &&& !delta.has("content"@) && !delta.has("parsed"@) ==> after.full_text
                == flow.state.full_text
            &&& delta.text_at("refusal"@) matches Some(said) ==> after.refusal_text
                == flow.state.refusal_text + said
            &&& !delta.has("refusal"@) ==> after.refusal_text == flow.state.refusal_text
            &&& delta.text_at("reasoning_content"@) matches Some(thought) ==> (!text::blank(thought)
                ==> after.reasoning_content == flow.state.reasoning_content + thought)
            &&& content::reasoning_text(delta) is None ==> after.reasoning_content
                == flow.state.reasoning_content
            &&& choices[0].text_at("finish_reason"@) matches Some(reason) ==> after.finish_reason
                == Some(reason)
            &&& choices[0].text_at("finish_reason"@) is None ==> after.finish_reason
                == flow.state.finish_reason
            &&& chunk.text_at("model"@) matches Some(model) ==> (model.len() > 0 ==> after.model
                == model)
            &&& chunk.get("usage"@) matches Some(usage) ==> after.usage == stream::usage_after(
                flow.state.usage,
                usage,
            )
            &&& !chunk.has("usage"@) ==> after.usage == flow.state.usage
            &&& after.response_id == flow.state.response_id
            &&& after.created_at == flow.state.created_at
            &&& after.msg_item_id == flow.state.msg_item_id
        }),
{
    lemma_chunk_words();
    let known = flow.informed(chunk).chosen(choices[0]);
    let reasoned = known.reasoned(delta);
    let spoken = reasoned.spoken(delta);
    lemma_calls_leave_the_rest(spoken, response::message_calls(delta), fresh);
    if let Some(said) = delta.text_at("content"@) {
        if said.len() == 0 {
            assert(flow.state.full_text + said =~= flow.state.full_text);
        }
    }
    if let Some(said) = delta.text_at("refusal"@) {
        if said.len() == 0 {
            assert(flow.state.refusal_text + said =~= flow.state.refusal_text);
        }
    }
}

/// The reasoning of a whole answer without calls is remembered under the identifier
/// of its message.
pub proof fn law_reasoning_of_an_answer_is_remembered(
    entries: Seq<EntryView>,
    message: JsonView,
    thought: Seq<char>,
    suffix: Seq<char>,
)
    requires
        reasoning::distinct(entries),
        entries.len() <= 2048,
        message.text_at("reasoning_content"@) == Some(thought),
        !text::blank(thought),
        thought.len() <= 262144,
        !message.has("tool_calls"@),
    ensures
        reasoning::recalled(
            response::remembered_answer(entries, message, suffix),
            "msg_"@ + suffix,
        ) == Some(thought),
{
    reasoning::law_insert_then_get(entries, "msg_"@ + suffix, Some(thought), suffix);
}

proof fn lemma_absent(entries: Seq<EntryView>, id: Seq<char>)
    requires
        reasoning::absent(entries, id),
    ensures
        reasoning::entry_position(entries, id) == entries.len(),
    decreases entries.len(),
{
    if entries.len() > 0 {
        let rest = entries.drop_first();
        assert(entries[0].id != id);
        assert forall|i: int| 0 <= i < rest.len() implies #[trigger] rest[i].id != id by {
            assert(rest[i] == entries[i + 1]);
        }
        lemma_absent(rest, id);
    }
}

/// The reasoning of an answer with one call is remembered under the identifier of
/// the call, too, where nothing else goes by it.
pub proof fn law_reasoning_is_remembered_for_a_call(
    entries: Seq<EntryView>,
    answer: TranslatorView,
)
    requires
        reasoning::distinct(entries),
        entries.len() <= 2048,
        !text::blank(answer.reasoning_content),
        answer.reasoning_content.len() <= 262144,
        answer.tool_calls.len() == 1,
        answer.tool_calls[0].id.len() > 0,
        reasoning::absent(entries, answer.tool_calls[0].id),
        answer.tool_calls[0].id != answer.msg_item_id,
        answer.tool_calls[0].id != answer.tool_calls[0].item_id,
    ensures
        reasoning::recalled(
            stream_end::remembered_stream(entries, answer),
            answer.tool_calls[0].id,
        ) == Some(answer.reasoning_content),
{
    let thought = Some(answer.reasoning_content);
    let call = answer.tool_calls[0];
    let first = reasoning::remembered(entries, answer.msg_item_id, thought);
    reasoning::lemma_remembered_keeps(entries, answer.msg_item_id, thought);
    reasoning::lemma_absent_stays(entries, call.id, answer.msg_item_id, thought);
    let second = reasoning::remembered(first, call.item_id, thought);
    reasoning::lemma_remembered_keeps(first, call.item_id, thought);
    reasoning::lemma_absent_stays(first, call.id, call.item_id, thought);
    lemma_absent(second, call.id);
    reasoning::law_insert_then_get(second, call.id, thought, call.item_id);
    let none = answer.tool_calls.drop_last();
    assert(none.len() == 0);
    assert(answer.tool_calls.last() == call);
    assert(stream_end::remembered_calls(first, none, answer.reasoning_content) == first);
    assert(reasoning::bounded(answer.reasoning_content) == answer.reasoning_content);
}

} // verus!
