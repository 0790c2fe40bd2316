//! A streamed answer, byte by byte as it arrives.

use crate::capability::CapabilityCache;
use crate::events::PendingEvent;
use crate::pump::{
    ResponseTranslationContext, RunView, SseRun, MAX_SSE_LINE_BUFFER_BYTES,
    MAX_STREAM_RESPONSE_BYTES,
};
use crate::reasoning::ReasoningStore;
use crate::text;
use vstd::prelude::*;

verus! {

/// A run and the bytes that have arrived and are not read yet.
pub struct StreamPump {
    pub run: SseRun,
    buffer: Vec<u8>,
    start: usize,
    received: usize,
}

/// A pump as a mathematical value.
pub struct PumpView {
    pub run: RunView,
    pub buffered: Seq<u8>,
    pub received: usize,
}

/// The place of the first line feed; the number of bytes where there is none.
pub open spec fn line_end(bytes: Seq<u8>) -> int
    decreases bytes.len(),
{
    if bytes.len() == 0 || bytes[0] == 10 {
        0
    } else {
        1 + line_end(bytes.drop_first())
    }
}

proof fn lemma_line_end(bytes: Seq<u8>, position: int)
    requires
        0 <= position <= bytes.len(),
        position < bytes.len() ==> bytes[position] == 10,
        forall|i: int| 0 <= i < position ==> #[trigger] bytes[i] != 10,
    ensures
        line_end(bytes) == position,
    decreases bytes.len(),
{
    if bytes.len() > 0 && position > 0 {
        assert(bytes[0] != 10);
        let rest = bytes.drop_first();
        assert forall|i: int| 0 <= i < position - 1 implies #[trigger] rest[i] != 10 by {
            assert(bytes[i + 1] != 10);
        }
        lemma_line_end(rest, position - 1);
    }
}

/// How many bytes have arrived; the greatest number stays.
pub open spec fn counted(received: usize, more: nat) -> usize {
    if received + more > usize::MAX {
        usize::MAX
    } else {
        (received + more) as usize
    }
}

impl PumpView {
    /// The pump before any byte.
    pub open spec fn new(run: RunView) -> PumpView {
        PumpView { run, buffered: Seq::empty(), received: 0 }
    }

    /// The answer has failed for the given reason.
    pub open spec fn broken(self, message: Seq<char>) -> PumpView {
        PumpView { run: RunView { failed: true, message, ..self.run }, ..self }
    }

    /// The pump once bytes have arrived. An answer that is too long fails.
    pub open spec fn with_bytes(self, bytes: Seq<u8>) -> PumpView {
        let received = counted(self.received, bytes.len());
        let fed = PumpView { received, ..self };
        if received > MAX_STREAM_RESPONSE_BYTES {
            fed.broken("上游流式响应超过允许大小。"@)
        } else {
            PumpView { buffered: self.buffered + bytes, ..fed }
        }
    }

    /// Whether a complete line waits and is to be read.
    pub open spec fn can_read(self) -> bool {
        !self.run.stopped() && line_end(self.buffered) < self.buffered.len()
    }

    /// The next line, without its line feed.
    pub open spec fn next_line(self) -> Seq<char> {
        text::lossy_text(self.buffered.take(line_end(self.buffered)))
    }

    /// The pump once the next line is read.
    pub open spec fn after_line(self, fresh: Seq<Seq<char>>) -> PumpView {
        PumpView {
            run: self.run.after_line(self.next_line(), fresh),
            buffered: self.buffered.skip(line_end(self.buffered) + 1),
            received: self.received,
        }
    }

    /// The pump once as many lines are read as `fresh` has entries.
    pub open spec fn after_lines(self, fresh: Seq<Seq<Seq<char>>>) -> PumpView
        decreases fresh.len(),
    {
        if fresh.len() == 0 {
            self
        } else {
            self.after_lines(fresh.drop_last()).after_line(fresh.last())
        }
    }

    /// Whether as many lines can be read as `fresh` has entries, and each
    /// entry holds random identifiers for the tool calls of its line.
    pub open spec fn fits_lines(self, fresh: Seq<Seq<Seq<char>>>) -> bool
        decreases fresh.len(),
    {
        if fresh.len() == 0 {
            true
        } else {
            let earlier = self.after_lines(fresh.drop_last());
            &&& self.fits_lines(fresh.drop_last())
            &&& earlier.can_read()
            &&& earlier.run.fits_line(earlier.next_line(), fresh.last())
        }
    }

    /// The pump once the bytes without a line feed are found to be too many,
    /// or not.
    pub open spec fn checked(self) -> PumpView {
        if !self.run.stopped() && self.buffered.len() > MAX_SSE_LINE_BUFFER_BYTES {
            self.broken("上游 SSE 未换行数据超过允许大小。"@)
        } else {
            self
        }
    }

    /// The run once the bytes that are left over at the end of the stream
    /// are read as a line.
    pub open spec fn last_line_read(self, fresh: Seq<Seq<char>>) -> RunView {
        if self.run.stopped() || self.buffered.len() == 0 {
            self.run
        } else {
            self.run.after_line(text::lossy_text(self.buffered), fresh)
        }
    }

    /// Whether `fresh` holds random identifiers for the last line.
    pub open spec fn fits_last_line(self, fresh: Seq<Seq<char>>) -> bool {
        if self.run.stopped() || self.buffered.len() == 0 {
            fresh.len() == 0
        } else {
            self.run.fits_line(text::lossy_text(self.buffered), fresh)
        }
    }

    /// The run once all that is left over at the end of the stream is read.
    pub open spec fn all_read(self, fresh: Seq<Seq<char>>, rest: Seq<Seq<char>>) -> RunView {
        let read = self.last_line_read(fresh);
        if self.run.stopped() || read.failed {
            read
        } else {
            read.after_rest(rest)
        }
    }

    /// Whether the identifiers are those that the end of the stream needs.
    pub open spec fn fits_end(self, fresh: Seq<Seq<char>>, rest: Seq<Seq<char>>) -> bool {
        let read = self.last_line_read(fresh);
        &&& self.fits_last_line(fresh)
        &&& if self.run.stopped() || read.failed {
            rest.len() == 0
        } else {
            read.fits_rest(rest)
        }
    }
}

impl View for StreamPump {
    type V = PumpView;

    closed spec fn view(&self) -> PumpView {
        PumpView {
            run: self.run@,
            buffered: self.buffer@.skip(self.start as int),
            received: self.received,
        }
    }
}

impl StreamPump {
    pub closed spec fn wf(self) -> bool {
        self.run.wf() && self.start <= self.buffer.len()
    }

    /// A pump before any byte.
    pub fn new(run: SseRun) -> (pump: Self)
        requires
            run.wf(),
        ensures
            pump.wf(),
            pump@ == PumpView::new(run@),
    {
        let pump = StreamPump { run, buffer: Vec::new(), start: 0, received: 0 };
        assert(pump@.buffered =~= Seq::<u8>::empty());
        pump
    }

    /// A pump for an answer that was just created, with a random identifier
    /// for its message item.
    pub fn open(context: &ResponseTranslationContext) -> (pump: Self)
        ensures
            pump.wf(),
            exists|suffix: Seq<char>| #[trigger]
                crate::ids::is_simple_id(suffix) && pump@ == PumpView::new(
                    context@.opened(
                        "msg_"@ + suffix,
                        "读取上游流式响应失败，连接可能已中断。"@,
                    ),
                ),
    {
        StreamPump::new(SseRun::open(context, "读取上游流式响应失败，连接可能已中断。"))
    }

    /// Notes that the connection broke off.
    pub fn break_off(&mut self)
        requires
            old(self).wf(),
        ensures
            final(self).wf(),
            final(self)@ == old(self)@.broken(old(self)@.run.message),
    {
        self.run.failed = true;
    }

    /// Notes that nothing has arrived for too long.
    pub fn stall(&mut self)
        requires
            old(self).wf(),
        ensures
            final(self).wf(),
            final(self)@ == old(self)@.broken(
                "上游服务长时间没有返回数据，连接已超时中断。"@,
            ),
    {
        self.run.failed = true;
        self.run.failure_message = "上游服务长时间没有返回数据，连接已超时中断。";
    }

    /// Whether nothing more is to be read.
    pub fn is_stopped(&self) -> (stopped: bool)
        ensures
            stopped == self@.run.stopped(),
    {
        self.run.failed || self.run.done
    }

    /// Takes in bytes that have arrived.
    pub fn take_bytes(&mut self, bytes: &[u8])
        requires
            old(self).wf(),
        ensures
            final(self).wf(),
            final(self)@ == old(self)@.with_bytes(bytes@),
    {
        let ghost before = self@;
        self.received = self.received.saturating_add(bytes.len());
        if self.received > MAX_STREAM_RESPONSE_BYTES {
            self.run.failed = true;
            self.run.failure_message = "上游流式响应超过允许大小。";
            return;
        }
        let ghost buffer = self.buffer@;
        for index in 0..bytes.len()
            invariant
                self.run@ == before.run,
                self.run.wf(),
                self.start <= buffer.len(),
                buffer.skip(self.start as int) == before.buffered,
                self.received == counted(before.received, bytes@.len()),
                self.buffer@ == buffer + bytes@.take(index as int),
        {
            self.buffer.push(bytes[index]);
            assert(bytes@.take(index + 1) =~= bytes@.take(index as int).push(bytes@[index as int]));
            assert(self.buffer@ =~= buffer + bytes@.take(index + 1));
        }
        assert(bytes@.take(bytes@.len() as int) =~= bytes@);
        assert(self@.buffered =~= before.buffered + bytes@);
    }

    /// The place of the next line feed in the buffer; its length where there
    /// is none.
    fn find_line_end(&self) -> (position: usize)
        requires
            self.wf(),
        ensures
            self.start <= position <= self.buffer.len(),
            position - self.start == line_end(self@.buffered),
    {
        let mut position: usize = self.start;
        while position < self.buffer.len() && self.buffer[position] != 10
            invariant
                self.wf(),
                self.start <= position <= self.buffer.len(),
                forall|i: int|
                    0 <= i < position - self.start ==> #[trigger] self@.buffered[i] != 10,
            decreases self.buffer.len() - position,
        {
            assert(self@.buffered[position - self.start] == self.buffer[position as int]);
            position = position + 1;
        }
        proof {
            lemma_line_end(self@.buffered, position - self.start);
        }
        position
    }

    /// Reads the line that ends at `end`.
    fn read_line(&mut self, end: usize)
        requires
            old(self).wf(),
            old(self).start <= end < old(self).buffer.len(),
            end - old(self).start == line_end(old(self)@.buffered),
        ensures
            final(self).wf(),
            exists|drawn: Seq<Seq<char>>| #[trigger]
                old(self)@.run.fits_line(old(self)@.next_line(), drawn) && final(self)@
                    == old(self)@.after_line(drawn),
            final(self)@.buffered.len() < old(self)@.buffered.len(),
    {
        let ghost now = self@;
        let line = text::utf8_lossy(
            vstd::slice::slice_subrange(self.buffer.as_slice(), self.start, end),
        );
        assert(self.buffer@.subrange(self.start as int, end as int) =~= now.buffered.take(
            line_end(now.buffered),
        ));
        assert(line@ == now.next_line());
        self.run.take_line(line.as_str());
        self.start = end + 1;
        assert(self@.buffered =~= now.buffered.skip(line_end(now.buffered) + 1));
        proof {
            let drawn = choose|drawn: Seq<Seq<char>>| #[trigger]
                now.run.fits_line(line@, drawn) && self.run@ == now.run.after_line(line@, drawn);
            assert(self@ == now.after_line(drawn));
        }
    }

    /// Reads the complete lines that wait, until none is left, the run has
    /// stopped, or at least `limit` events wait to be sent. Says whether
    /// lines may be left.
    pub fn read_lines(&mut self, limit: usize) -> (more: bool)
        requires
            old(self).wf(),
        ensures
            final(self).wf(),
            exists|fresh: Seq<Seq<Seq<char>>>| #[trigger]
                old(self)@.fits_lines(fresh) && final(self)@ == old(self)@.after_lines(fresh),
            !more ==> !final(self)@.can_read(),
            more ==> final(self)@.run.flow.out.len() >= limit,
    {
        let ghost before = self@;
        let ghost mut fresh: Seq<Seq<Seq<char>>> = Seq::empty();
        assert(before.fits_lines(fresh));
        loop
            invariant
                self.wf(),
                before.fits_lines(fresh),
                self@ == before.after_lines(fresh),
                before == old(self)@,
            decreases self@.buffered.len(),
        {
            if self.run.failed || self.run.done {
                return false;
            }
            let end: usize = self.find_line_end();
            if end >= self.buffer.len() {
                return false;
            }
            let ghost now = self@;
            self.read_line(end);
            proof {
                let drawn = choose|drawn: Seq<Seq<char>>| #[trigger]
                    now.run.fits_line(now.next_line(), drawn) && self@ == now.after_line(drawn);
                let longer = fresh.push(drawn);
                assert(longer.drop_last() =~= fresh);
                assert(before.fits_lines(longer));
                fresh = longer;
            }
            if self.run.pending.len() >= limit {
                return true;
            }
        }
    }

    /// Checks the bytes without a line feed, and lets go of those that were
    /// read.
    pub fn check_line(&mut self)
        requires
            old(self).wf(),
        ensures
            final(self).wf(),
            final(self)@ == old(self)@.checked(),
    {
        if !self.run.failed && !self.run.done {
            if self.buffer.len() - self.start > MAX_SSE_LINE_BUFFER_BYTES {
                self.run.failed = true;
                self.run.failure_message = "上游 SSE 未换行数据超过允许大小。";
            } else if self.start > 0 {
                let ghost before = self@.buffered;
                let mut kept: Vec<u8> = Vec::new();
                for index in self.start..self.buffer.len()
                    invariant
                        self.start <= self.buffer.len(),
                        before == self.buffer@.skip(self.start as int),
                        kept@ == before.take(index - self.start),
                {
                    kept.push(self.buffer[index]);
                    assert(before.take(index + 1 - self.start) =~= before.take(
                        index - self.start,
                    ).push(self.buffer[index as int]));
                }
                assert(before.take(before.len() as int) =~= before);
                assert(kept@.skip(0) =~= before);
                self.buffer = kept;
                self.start = 0;
            }
        }
    }

    /// Ends the answer: reads what is left over, and tells the last events.
    pub fn finish(
        &mut self,
        store: &mut ReasoningStore,
        cache: &mut CapabilityCache,
        key: Option<String>,
    )
        requires
            old(self).wf(),
            old(store).wf(),
            old(cache).wf(),
        ensures
            final(self).wf(),
            final(store).wf(),
            final(cache).wf(),
            exists|fresh: Seq<Seq<char>>, rest: Seq<Seq<char>>|
                {
                    let end = old(self)@.all_read(fresh, rest).concluded(
                        old(store)@,
                        old(cache)@,
                        text::string_of(key),
                    );
                    &&& #[trigger] old(self)@.fits_end(fresh, rest)
                    &&& final(self)@.run.flow == end.flow
                    &&& final(store)@ == end.entries
                    &&& final(cache)@ == end.keys
                },
    {
        let ghost before = self@;
        let ghost mut fresh: Seq<Seq<char>> = Seq::empty();
        let ghost mut rest: Seq<Seq<char>> = Seq::empty();
        if !self.run.failed && !self.run.done {
            if self.start < self.buffer.len() {
                let line = text::utf8_lossy(
                    vstd::slice::slice_subrange(
                        self.buffer.as_slice(),
                        self.start,
                        self.buffer.len(),
                    ),
                );
                assert(self.buffer@.subrange(self.start as int, self.buffer@.len() as int)
                    =~= before.buffered);
                self.run.take_line(line.as_str());
                proof {
                    fresh =
                    choose|fresh: Seq<Seq<char>>| #[trigger]
                        before.run.fits_line(line@, fresh) && self.run@ == before.run.after_line(
                            line@,
                            fresh,
                        );
                }
            }
            let ghost read = self.run@;
            assert(read == before.last_line_read(fresh));
            if !self.run.failed {
                self.run.take_rest();
                proof {
                    rest =
                    choose|rest: Seq<Seq<char>>| #[trigger]
                        read.fits_rest(rest) && self.run@ == read.after_rest(rest);
                }
            }
        }
        assert(self.run@ == before.all_read(fresh, rest));
        assert(before.fits_end(fresh, rest));
        self.run.conclude(store, cache, key);
    }

    /// Hands out the events that wait to be sent.
    pub fn take_events(&mut self) -> (events: Vec<PendingEvent>)
        requires
            old(self).wf(),
        ensures
            final(self).wf(),
            crate::events::events_view(events@) == old(self)@.run.flow.out,
            final(self)@ == (PumpView {
                run: RunView {
                    flow: crate::stream::Flow {
                        state: old(self)@.run.flow.state,
                        out: Seq::empty(),
                    },
                    ..old(self)@.run
                },
                ..old(self)@
            }),
    {
        let mut events: Vec<PendingEvent> = Vec::new();
        std::mem::swap(&mut events, &mut self.run.pending);
        assert(crate::events::events_view(self.run.pending@) =~= Seq::empty());
        events
    }
}

/// However the bytes of a stream are cut into pieces, the pump holds the same
/// bytes, as long as the stream is not too long.
pub proof fn law_pieces_do_not_matter(pump: PumpView, first: Seq<u8>, second: Seq<u8>)
    requires
        pump.received + first.len() + second.len() <= MAX_STREAM_RESPONSE_BYTES,
    ensures
        pump.with_bytes(first).with_bytes(second) == pump.with_bytes(first + second),
{
    assert(pump.buffered + first + second =~= pump.buffered + (first + second));
}

} // verus!
