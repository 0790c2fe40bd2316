//! A stream arrives in pieces, cut anywhere. What holds however it is cut.

use crate::byte_stream;
use crate::byte_stream::{line_end, PumpView};
use crate::pump;
use crate::pump::{MAX_SSE_LINE_BUFFER_BYTES, MAX_STREAM_RESPONSE_BYTES};
use crate::text;
use vstd::prelude::*;

verus! {

/// The lists one after the other.
pub open spec fn joined<A>(lists: Seq<Seq<A>>) -> Seq<A>
    decreases lists.len(),
{
    if lists.len() == 0 {
        Seq::empty()
    } else {
        joined(lists.drop_last()) + lists.last()
    }
}

/// Whether no stretch of bytes without a line feed is longer than a line may
/// be.
pub open spec fn has_short_lines(bytes: Seq<u8>) -> bool {
    forall|from: int, to: int|
        0 <= from <= to <= bytes.len() && line_end(#[trigger] bytes.subrange(from, to)) == to - from
            ==> to - from <= MAX_SSE_LINE_BUFFER_BYTES
}

impl PumpView {
    /// The pump once pieces have arrived one after the other. After each piece
    /// all complete lines are read, with the identifiers that `fresh` holds for
    /// that piece, and the bytes that are left are checked. Nothing is read
    /// once the run has stopped.
    pub open spec fn fed(
        self,
        pieces: Seq<Seq<u8>>,
        fresh: Seq<Seq<Seq<Seq<char>>>>,
    ) -> PumpView
        decreases pieces.len(),
    {
        if pieces.len() == 0 {
            self
        } else {
            let earlier = self.fed(pieces.drop_last(), fresh);
            if earlier.run.stopped() {
                earlier
            } else {
                earlier.with_bytes(pieces.last()).after_lines(fresh[pieces.len() - 1]).checked()
            }
        }
    }

    /// Whether `fresh` holds the identifiers that the pieces need, so that no
    /// complete line is left unread after any of them.
    pub open spec fn fits_pieces(
        self,
        pieces: Seq<Seq<u8>>,
        fresh: Seq<Seq<Seq<Seq<char>>>>,
    ) -> bool
        decreases pieces.len(),
    {
        if pieces.len() == 0 {
            true
        } else {
            let earlier = self.fed(pieces.drop_last(), fresh);
            let drawn = fresh[pieces.len() - 1];
            &&& self.fits_pieces(pieces.drop_last(), fresh)
            &&& if earlier.run.stopped() {
                drawn.len() == 0
            } else {
                let took = earlier.with_bytes(pieces.last());
                &&& took.fits_lines(drawn)
                &&& !took.after_lines(drawn).can_read()
            }
        }
    }
}

/// A line feed that is there is found where it was when more bytes follow.
proof fn lemma_line_end_stays(bytes: Seq<u8>, more: Seq<u8>)
    requires
        line_end(bytes) < bytes.len(),
    ensures
        0 <= line_end(bytes),
        line_end(bytes + more) == line_end(bytes),
    decreases bytes.len(),
{
    assert((bytes + more)[0] == bytes[0]);
    if bytes[0] != 10 {
        lemma_line_end_stays(bytes.drop_first(), more);
        assert((bytes + more).drop_first() =~= bytes.drop_first() + more);
    }
}

proof fn lemma_line_end_bounds(bytes: Seq<u8>)
    ensures
        0 <= line_end(bytes) <= bytes.len(),
    decreases bytes.len(),
{
    if bytes.len() > 0 && bytes[0] != 10 {
        lemma_line_end_bounds(bytes.drop_first());
    }
}

/// Bytes that follow do not change the line that is read.
proof fn lemma_line_before_bytes(pump: PumpView, more: Seq<u8>, drawn: Seq<Seq<char>>)
    requires
        pump.can_read(),
        pump.received + more.len() <= MAX_STREAM_RESPONSE_BYTES,
    ensures
        pump.with_bytes(more).can_read(),
        pump.with_bytes(more).next_line() == pump.next_line(),
        pump.with_bytes(more).run == pump.run,
        pump.with_bytes(more).after_line(drawn) == pump.after_line(drawn).with_bytes(more),
{
    lemma_line_end_stays(pump.buffered, more);
    let longer = pump.with_bytes(more);
    let end = line_end(pump.buffered);
    assert(longer.buffered == pump.buffered + more);
    assert(longer.buffered.take(end) =~= pump.buffered.take(end));
    assert(longer.buffered.skip(end + 1) =~= pump.buffered.skip(end + 1) + more);
}

/// Bytes that follow do not change the lines that are read.
proof fn lemma_lines_before_bytes(pump: PumpView, more: Seq<u8>, fresh: Seq<Seq<Seq<char>>>)
    requires
        pump.fits_lines(fresh),
        pump.received + more.len() <= MAX_STREAM_RESPONSE_BYTES,
    ensures
        pump.with_bytes(more).fits_lines(fresh),
        pump.with_bytes(more).after_lines(fresh) == pump.after_lines(fresh).with_bytes(more),
        pump.after_lines(fresh).received == pump.received,
    decreases fresh.len(),
{
    if fresh.len() > 0 {
        lemma_lines_before_bytes(pump, more, fresh.drop_last());
        lemma_line_before_bytes(pump.after_lines(fresh.drop_last()), more, fresh.last());
    }
}

/// Lines may be read in two goes.
proof fn lemma_lines_in_two_goes(
    pump: PumpView,
    first: Seq<Seq<Seq<char>>>,
    second: Seq<Seq<Seq<char>>>,
)
    requires
        pump.fits_lines(first),
        pump.after_lines(first).fits_lines(second),
    ensures
        pump.fits_lines(first + second),
        pump.after_lines(first + second) == pump.after_lines(first).after_lines(second),
    decreases second.len(),
{
    if second.len() == 0 {
        assert(first + second =~= first);
    } else {
        lemma_lines_in_two_goes(pump, first, second.drop_last());
        assert((first + second).drop_last() =~= first + second.drop_last());
    }
}

/// What is left after lines were read is the end of what there was.
proof fn lemma_rest_is_end(pump: PumpView, fresh: Seq<Seq<Seq<char>>>)
    requires
        pump.fits_lines(fresh),
    ensures
        pump.after_lines(fresh).buffered.len() <= pump.buffered.len(),
        pump.after_lines(fresh).buffered == pump.buffered.skip(
            pump.buffered.len() - pump.after_lines(fresh).buffered.len(),
        ),
    decreases fresh.len(),
{
    if fresh.len() == 0 {
        assert(pump.buffered.skip(0) =~= pump.buffered);
    } else {
        let earlier = pump.after_lines(fresh.drop_last());
        lemma_rest_is_end(pump, fresh.drop_last());
        lemma_line_end_bounds(earlier.buffered);
        let gone = pump.buffered.len() - earlier.buffered.len();
        let end = line_end(earlier.buffered) + 1;
        assert(pump.buffered.skip(gone).skip(end) =~= pump.buffered.skip(gone + end));
    }
}

proof fn lemma_line_feed_is_there(bytes: Seq<u8>)
    requires
        line_end(bytes) < bytes.len(),
    ensures
        0 <= line_end(bytes),
        bytes[line_end(bytes)] == 10,
    decreases bytes.len(),
{
    if bytes[0] != 10 {
        lemma_line_feed_is_there(bytes.drop_first());
    }
}

/// What is left after lines were read stands at the beginning or behind a line
/// feed.
pub proof fn lemma_rest_follows_a_line(pump: PumpView, fresh: Seq<Seq<Seq<char>>>)
    requires
        pump.fits_lines(fresh),
    ensures
        ({
            let at = pump.buffered.len() - pump.after_lines(fresh).buffered.len();
            &&& 0 <= at
            &&& pump.after_lines(fresh).buffered == pump.buffered.skip(at)
            &&& at > 0 ==> pump.buffered[at - 1] == 10
        }),
    decreases fresh.len(),
{
    lemma_rest_is_end(pump, fresh);
    if fresh.len() > 0 {
        let earlier = pump.after_lines(fresh.drop_last());
        lemma_rest_is_end(pump, fresh.drop_last());
        lemma_line_feed_is_there(earlier.buffered);
        let gone = pump.buffered.len() - earlier.buffered.len();
        let end = line_end(earlier.buffered);
        assert(pump.buffered.skip(gone)[end] == pump.buffered[gone + end]);
    }
}

/// What is left once all complete lines are read is no longer than a line may
/// be.
proof fn lemma_rest_is_short(pump: PumpView, fresh: Seq<Seq<Seq<char>>>)
    requires
        pump.fits_lines(fresh),
        has_short_lines(pump.buffered),
        !pump.after_lines(fresh).can_read(),
    ensures
        pump.after_lines(fresh).checked() == pump.after_lines(fresh),
{
    lemma_rest_is_end(pump, fresh);
    let rest = pump.after_lines(fresh);
    lemma_line_end_bounds(rest.buffered);
    let from = pump.buffered.len() - rest.buffered.len();
    let to = pump.buffered.len() as int;
    assert(pump.buffered.subrange(from, to) =~= rest.buffered);
}

proof fn lemma_first_lines_are_short(bytes: Seq<u8>, more: Seq<u8>)
    requires
        has_short_lines(bytes + more),
    ensures
        has_short_lines(bytes),
{
    assert forall|from: int, to: int|
        0 <= from <= to <= bytes.len() && line_end(#[trigger] bytes.subrange(from, to)) == to
            - from implies to - from <= MAX_SSE_LINE_BUFFER_BYTES by {
        assert((bytes + more).subrange(from, to) =~= bytes.subrange(from, to));
    }
}

/// However the bytes of a stream are cut into pieces, the run is the same as if
/// they had arrived at once: the same lines are read, the same events are told,
/// and the end of the stream leads to the same. Left out are streams that are
/// too long, and lines that are too long, where it depends on the cut which of
/// them fails first.
pub proof fn law_cuts_do_not_matter(
    start: PumpView,
    pieces: Seq<Seq<u8>>,
    fresh: Seq<Seq<Seq<Seq<char>>>>,
)
    requires
        !start.run.stopped(),
        start.received + joined(pieces).len() <= MAX_STREAM_RESPONSE_BYTES,
        has_short_lines(start.buffered + joined(pieces)),
        !start.can_read(),
        start.fits_pieces(pieces, fresh),
        fresh.len() == pieces.len(),
    ensures
        ({
            let whole = start.with_bytes(joined(pieces));
            let read = whole.after_lines(joined(fresh));
            let fed = start.fed(pieces, fresh);
            &&& whole.fits_lines(joined(fresh))
            &&& !read.can_read()
            &&& fed.run == read.run
            &&& !fed.run.stopped() ==> fed == read
            &&& forall|last: Seq<Seq<char>>, rest: Seq<Seq<char>>|
                fed.all_read(last, rest) == #[trigger] read.all_read(last, rest)
        }),
    decreases pieces.len(),
{
    let whole = start.with_bytes(joined(pieces));
    let read = whole.after_lines(joined(fresh));
    let fed = start.fed(pieces, fresh);
    if pieces.len() == 0 {
        assert(start.buffered + Seq::<u8>::empty() =~= start.buffered);
        assert(joined(fresh) =~= Seq::<Seq<Seq<char>>>::empty());
    } else {
        let rest = pieces.drop_last();
        let drawn = fresh.drop_last();
        let piece = pieces.last();
        let more = fresh.last();
        assert(start.buffered + joined(pieces) =~= start.buffered + joined(rest) + piece);
        lemma_first_lines_are_short(start.buffered + joined(rest), piece);
        lemma_pieces_prefix(start, rest, fresh, drawn);
        law_cuts_do_not_matter(start, rest, drawn);
        byte_stream::law_pieces_do_not_matter(start, joined(rest), piece);
        let earlier = start.with_bytes(joined(rest));
        let seen = earlier.after_lines(joined(drawn));
        lemma_lines_before_bytes(earlier, piece, joined(drawn));
        assert(whole == earlier.with_bytes(piece));
        assert(whole.after_lines(joined(drawn)) == seen.with_bytes(piece));
        if seen.run.stopped() {
            assert(more.len() == 0);
            assert(joined(fresh) =~= joined(drawn));
        } else {
            assert(start.fed(rest, fresh) == seen);
            lemma_lines_in_two_goes(whole, joined(drawn), more);
            lemma_rest_is_short(whole, joined(fresh));
        }
    }
}

/// Identifiers of later pieces do not matter.
proof fn lemma_pieces_prefix(
    start: PumpView,
    pieces: Seq<Seq<u8>>,
    one: Seq<Seq<Seq<Seq<char>>>>,
    other: Seq<Seq<Seq<Seq<char>>>>,
)
    requires
        pieces.len() <= one.len(),
        pieces.len() <= other.len(),
        forall|i: int| 0 <= i < pieces.len() ==> one[i] == other[i],
    ensures
        start.fed(pieces, one) == start.fed(pieces, other),
        start.fits_pieces(pieces, one) == start.fits_pieces(pieces, other),
    decreases pieces.len(),
{
    if pieces.len() > 0 {
        lemma_pieces_prefix(start, pieces.drop_last(), one, other);
    }
}

/// Two ways of cutting the same bytes, with the same identifiers, lead to the
/// same run, and to the same end.
pub proof fn law_all_cuts_are_alike(
    start: PumpView,
    one: Seq<Seq<u8>>,
    one_fresh: Seq<Seq<Seq<Seq<char>>>>,
    other: Seq<Seq<u8>>,
    other_fresh: Seq<Seq<Seq<Seq<char>>>>,
    last: Seq<Seq<char>>,
    rest: Seq<Seq<char>>,
)
    requires
        !start.run.stopped(),
        !start.can_read(),
        start.received + joined(one).len() <= MAX_STREAM_RESPONSE_BYTES,
        has_short_lines(start.buffered + joined(one)),
        joined(one) == joined(other),
        joined(one_fresh) == joined(other_fresh),
        start.fits_pieces(one, one_fresh),
        start.fits_pieces(other, other_fresh),
        one_fresh.len() == one.len(),
        other_fresh.len() == other.len(),
    ensures
        start.fed(one, one_fresh).run == start.fed(other, other_fresh).run,
        start.fed(one, one_fresh).all_read(last, rest) == start.fed(other, other_fresh).all_read(
            last,
            rest,
        ),
{
    law_cuts_do_not_matter(start, one, one_fresh);
    law_cuts_do_not_matter(start, other, other_fresh);
    let read = start.with_bytes(joined(one)).after_lines(joined(one_fresh));
    assert(start.fed(one, one_fresh).all_read(last, rest) == read.all_read(last, rest));
}

// ---------------------------------------------------------------------------
// Lines
// ---------------------------------------------------------------------------

/// The first lines of bytes, as many as are asked for.
pub open spec fn lines_in(bytes: Seq<u8>, count: nat) -> Seq<Seq<char>>
    decreases count,
{
    if count == 0 {
        Seq::empty()
    } else {
        seq![text::lossy_text(bytes.take(line_end(bytes)))] + lines_in(
            bytes.skip(line_end(bytes) + 1),
            (count - 1) as nat,
        )
    }
}

/// The bytes after as many lines.
pub open spec fn after_lines_in(bytes: Seq<u8>, count: nat) -> Seq<u8>
    decreases count,
{
    if count == 0 {
        bytes
    } else {
        after_lines_in(bytes.skip(line_end(bytes) + 1), (count - 1) as nat)
    }
}

proof fn lemma_one_more_line(bytes: Seq<u8>, count: nat)
    ensures
        lines_in(bytes, count).len() == count,
        lines_in(bytes, count + 1) == lines_in(bytes, count).push(
            text::lossy_text(
                after_lines_in(bytes, count).take(line_end(after_lines_in(bytes, count))),
            ),
        ),
        after_lines_in(bytes, count + 1) == after_lines_in(bytes, count).skip(
            line_end(after_lines_in(bytes, count)) + 1,
        ),
    decreases count,
{
    let rest = bytes.skip(line_end(bytes) + 1);
    if count == 0 {
        reveal_with_fuel(lines_in, 2);
        reveal_with_fuel(after_lines_in, 2);
        assert(lines_in(bytes, 1) =~= lines_in(bytes, 0).push(
            text::lossy_text(bytes.take(line_end(bytes))),
        ));
    } else {
        lemma_one_more_line(rest, (count - 1) as nat);
        assert(lines_in(rest, count) == lines_in(rest, (count - 1) as nat).push(
            text::lossy_text(
                after_lines_in(rest, (count - 1) as nat).take(
                    line_end(after_lines_in(rest, (count - 1) as nat)),
                ),
            ),
        ));
        assert(lines_in(bytes, count + 1) =~= lines_in(bytes, count).push(
            text::lossy_text(
                after_lines_in(bytes, count).take(line_end(after_lines_in(bytes, count))),
            ),
        ));
    }
}

/// Reading the lines of a stream is taking them in, one after the other.
pub proof fn lemma_lines_are_taken_in(start: PumpView, fresh: Seq<Seq<Seq<char>>>)
    requires
        start.fits_lines(fresh),
    ensures
        start.run.fits_lines(lines_in(start.buffered, fresh.len()), fresh),
        start.after_lines(fresh).run == start.run.after_lines(
            lines_in(start.buffered, fresh.len()),
            fresh,
        ),
        start.after_lines(fresh).buffered == after_lines_in(start.buffered, fresh.len()),
    decreases fresh.len(),
{
    if fresh.len() > 0 {
        let rest = fresh.drop_last();
        lemma_lines_are_taken_in(start, rest);
        lemma_one_more_line(start.buffered, rest.len());
        let lines = lines_in(start.buffered, fresh.len());
        assert(lines.drop_last() =~= lines_in(start.buffered, rest.len()));
        pump::lemma_lines_prefix(start.run, lines.drop_last(), rest, fresh);
    }
}

/// All complete lines of bytes.
pub open spec fn complete_lines(bytes: Seq<u8>) -> Seq<Seq<char>>
    decreases bytes.len(),
{
    if 0 <= line_end(bytes) < bytes.len() {
        seq![text::lossy_text(bytes.take(line_end(bytes)))] + complete_lines(
            bytes.skip(line_end(bytes) + 1),
        )
    } else {
        Seq::empty()
    }
}

/// Lines that are there are the first of all complete lines.
proof fn lemma_first_lines(bytes: Seq<u8>, count: nat)
    requires
        forall|k: nat|
            k < count ==> line_end(#[trigger] after_lines_in(bytes, k)) < after_lines_in(
                bytes,
                k,
            ).len(),
    ensures
        count <= complete_lines(bytes).len(),
        lines_in(bytes, count) == complete_lines(bytes).take(count as int),
        complete_lines(after_lines_in(bytes, count)) == complete_lines(bytes).skip(count as int),
    decreases count,
{
    lemma_line_end_bounds(bytes);
    let all = complete_lines(bytes);
    if count == 0 {
        assert(all.take(0) =~= Seq::<Seq<char>>::empty());
        assert(all.skip(0) =~= all);
    } else {
        let before = (count - 1) as nat;
        let rest = bytes.skip(line_end(bytes) + 1);
        assert(line_end(after_lines_in(bytes, 0)) < after_lines_in(bytes, 0).len());
        assert forall|k: nat| k < before implies line_end(#[trigger] after_lines_in(rest, k))
            < after_lines_in(rest, k).len() by {
            assert(after_lines_in(bytes, k + 1) == after_lines_in(rest, k));
        }
        lemma_first_lines(rest, before);
        assert(lines_in(bytes, count) =~= all.take(count as int));
        assert(complete_lines(rest).skip(before as int) =~= all.skip(count as int));
    }
}

proof fn lemma_each_line_is_there(start: PumpView, fresh: Seq<Seq<Seq<char>>>)
    requires
        start.fits_lines(fresh),
    ensures
        forall|k: nat|
            k < fresh.len() ==> line_end(#[trigger] after_lines_in(start.buffered, k))
                < after_lines_in(start.buffered, k).len(),
    decreases fresh.len(),
{
    if fresh.len() > 0 {
        let rest = fresh.drop_last();
        lemma_each_line_is_there(start, rest);
        lemma_lines_are_taken_in(start, rest);
        assert forall|k: nat| k < fresh.len() implies line_end(
            #[trigger] after_lines_in(start.buffered, k),
        ) < after_lines_in(start.buffered, k).len() by {
            if k == rest.len() {
                assert(start.after_lines(rest).can_read());
            }
        }
    }
}

/// The lines that were read are the first of all complete lines; they are all
/// of them where no complete line is left.
pub proof fn lemma_lines_read_are_first(start: PumpView, fresh: Seq<Seq<Seq<char>>>)
    requires
        start.fits_lines(fresh),
    ensures
        fresh.len() <= complete_lines(start.buffered).len(),
        lines_in(start.buffered, fresh.len()) == complete_lines(start.buffered).take(
            fresh.len() as int,
        ),
        !start.after_lines(fresh).run.stopped() && !start.after_lines(fresh).can_read()
            ==> fresh.len() == complete_lines(start.buffered).len(),
{
    lemma_each_line_is_there(start, fresh);
    lemma_first_lines(start.buffered, fresh.len());
    lemma_lines_are_taken_in(start, fresh);
    let left = start.after_lines(fresh).buffered;
    lemma_line_end_bounds(left);
    if !start.after_lines(fresh).run.stopped() && !start.after_lines(fresh).can_read() {
        assert(complete_lines(left).len() == 0);
    }
}

} // verus!
