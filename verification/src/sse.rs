//! Server-sent events: lines of a stream, gathered into event data.

use crate::text;
use vstd::prelude::*;

verus! {

/// The most bytes that the data of one event may have.
pub const MAX_SSE_EVENT_DATA_BYTES: usize = 1048576;

/// Gathers the `data` lines of an event until a blank line ends it.
pub struct SseEventParser {
    pub data: String,
    pub started: bool,
}

/// The mathematical content of a parser: the data gathered so far, and
/// whether a line was seen.
pub struct ParserView {
    pub data: Seq<char>,
    pub started: bool,
}

/// What a line does to a parser.
pub enum LineView {
    /// The line is taken in; no event is complete.
    Waiting,
    /// The line ends an event with this data.
    Event(Seq<char>),
    /// The data of the event would become too large.
    TooLarge,
}

/// A line without the byte order mark that may open a stream and without a
/// carriage return at its end.
pub open spec fn plain_line(line: Seq<char>, first: bool) -> Seq<char> {
    let line = if first && line.len() > 0 && line[0] == '\u{feff}' {
        line.skip(1)
    } else {
        line
    };
    if line.len() > 0 && line.last() == '\r' {
        line.drop_last()
    } else {
        line
    }
}

/// The value of a `data` field: what follows the colon, less one space.
pub open spec fn data_value(line: Seq<char>) -> Seq<char> {
    let value = line.skip("data:"@.len() as int);
    if value.len() > 0 && value[0] == ' ' {
        value.skip(1)
    } else {
        value
    }
}

/// The data of an event with one more value: values stand on lines of their
/// own.
pub open spec fn gathered(data: Seq<char>, value: Seq<char>) -> Seq<char> {
    if data.len() == 0 {
        value
    } else {
        data + "\n"@ + value
    }
}

impl ParserView {
    /// The parser before any line.
    pub open spec fn new() -> ParserView {
        ParserView { data: Seq::empty(), started: false }
    }

    /// What a line does.
    pub open spec fn outcome(self, line: Seq<char>) -> LineView {
        let line = plain_line(line, !self.started);
        if line.len() == 0 {
            if self.data.len() == 0 {
                LineView::Waiting
            } else {
                LineView::Event(self.data)
            }
        } else if text::begins_with(line, "data:"@) {
            if text::byte_count(gathered(self.data, data_value(line))) > MAX_SSE_EVENT_DATA_BYTES {
                LineView::TooLarge
            } else {
                LineView::Waiting
            }
        } else {
            LineView::Waiting
        }
    }

    /// The parser after a line.
    pub open spec fn after(self, line: Seq<char>) -> ParserView {
        let plain = plain_line(line, !self.started);
        let data = match self.outcome(line) {
            LineView::Event(_) => Seq::empty(),
            LineView::TooLarge => self.data,
            LineView::Waiting => if text::begins_with(plain, "data:"@) {
                gathered(self.data, data_value(plain))
            } else {
                self.data
            },
        };
        ParserView { data, started: true }
    }
}

impl View for SseEventParser {
    type V = ParserView;

    open spec fn view(&self) -> ParserView {
        ParserView { data: self.data@, started: self.started }
    }
}

impl Default for SseEventParser {
    /// A parser before any line.
    fn default() -> (parser: Self)
        ensures
            parser@ == ParserView::new(),
    {
        SseEventParser { data: String::new(), started: false }
    }
}

impl SseEventParser {
    /// Takes in one line, without its line feed. Gives the data of an event
    /// that the line completes; an error where the data becomes too large.
    pub fn push_line(&mut self, line: &str) -> (outcome: Result<Option<String>, ()>)
        ensures
            final(self)@ == old(self)@.after(line@),
            match outcome {
                Ok(Some(data)) => old(self)@.outcome(line@) == LineView::Event(data@),
                Ok(None) => old(self)@.outcome(line@) is Waiting,
                Err(()) => old(self)@.outcome(line@) is TooLarge,
            },
    {
        let first = !self.started;
        self.started = true;
        let line = plain(line, first);
        if line.as_str().is_empty() {
            assert(!text::begins_with(line@, "data:"@)) by {
                reveal_strlit("data:");
            }
            if self.data.as_str().is_empty() {
                return Ok(None);
            }
            let mut data = String::new();
            std::mem::swap(&mut data, &mut self.data);
            return Ok(Some(data));
        }
        match text::strip_prefix(line.as_str(), "data:") {
            Some(rest) => {
                let value = match text::strip_prefix(rest.as_str(), " ") {
                    Some(value) => value,
                    None => rest,
                };
                proof {
                    reveal_strlit(" ");
                    assert(text::begins_with(rest@, " "@) <==> rest@.len() > 0 && rest@[0] == ' ')
                        by {
                        if rest@.len() > 0 && rest@[0] == ' ' {
                            assert(rest@.take(1) =~= " "@);
                        }
                        if text::begins_with(rest@, " "@) {
                            assert(rest@.take(1)[0] == " "@[0]);
                        }
                    }
                    assert(value@ == data_value(line@));
                }
                let next = if self.data.as_str().is_empty() {
                    value
                } else {
                    let mut data = self.data.clone();
                    data.append("\n");
                    data.append(value.as_str());
                    data
                };
                if text::byte_len(next.as_str()) > MAX_SSE_EVENT_DATA_BYTES {
                    return Err(());
                }
                self.data = next;
                Ok(None)
            },
            None => Ok(None),
        }
    }

    /// The data left over at the end of a stream, if there is any.
    pub fn finish(&mut self) -> (data: Option<String>)
        ensures
            text::string_of(data) == if old(self)@.data.len() == 0 {
                None
            } else {
                Some(old(self)@.data)
            },
            final(self)@ == (ParserView { data: Seq::empty(), started: old(self)@.started }),
    {
        let mut data = String::new();
        std::mem::swap(&mut data, &mut self.data);
        if data.as_str().is_empty() {
            assert(data@ =~= Seq::<char>::empty());
            None
        } else {
            Some(data)
        }
    }
}

/// A line without byte order mark and carriage return.
fn plain(line: &str, first: bool) -> (plain: String)
    ensures
        plain@ == plain_line(line@, first),
{
    let chars = text::chars_of(line);
    let mut from: usize = 0;
    if first && chars.len() > 0 && chars[0] == '\u{feff}' {
        from = 1;
    }
    let mut to: usize = chars.len();
    if to > from && chars[to - 1] == '\r' {
        to = to - 1;
    }
    let plain = text::string_from(&chars, from, to);
    assert(plain@ =~= plain_line(line@, first));
    plain
}

/// Nothing that a parser gathers exceeds the limit.
pub proof fn law_gathered_data_is_bounded(parser: ParserView, line: Seq<char>)
    requires
        text::byte_count(parser.data) <= MAX_SSE_EVENT_DATA_BYTES,
    ensures
        text::byte_count(parser.after(line).data) <= MAX_SSE_EVENT_DATA_BYTES,
        parser.outcome(line) matches LineView::Event(data) ==> text::byte_count(data)
            <= MAX_SSE_EVENT_DATA_BYTES,
{
    reveal_with_fuel(vstd::utf8::encode_utf8, 1);
}

/// A field other than `data`, or a comment, changes nothing but that a line
/// was seen.
pub proof fn law_other_lines_are_ignored(parser: ParserView, line: Seq<char>)
    requires
        plain_line(line, !parser.started).len() > 0,
        !text::begins_with(plain_line(line, !parser.started), "data:"@),
    ensures
        parser.outcome(line) is Waiting,
        parser.after(line).data == parser.data,
{
}

/// Two `data` lines and a blank line give their two values, joined by a line
/// feed, and leave nothing behind.
pub proof fn law_data_lines_are_joined(parser: ParserView, first: Seq<char>, second: Seq<char>)
    requires
        parser.started,
        parser.data.len() == 0,
        text::begins_with(plain_line(first, false), "data:"@),
        text::begins_with(plain_line(second, false), "data:"@),
        data_value(plain_line(first, false)).len() > 0,
        text::byte_count(data_value(plain_line(first, false))) <= MAX_SSE_EVENT_DATA_BYTES,
        text::byte_count(
            data_value(plain_line(first, false)) + "\n"@ + data_value(plain_line(second, false)),
        ) <= MAX_SSE_EVENT_DATA_BYTES,
    ensures
        ({
            let ready = parser.after(first).after(second);
            &&& ready.outcome(Seq::empty()) == LineView::Event(
                data_value(plain_line(first, false)) + "\n"@ + data_value(
                    plain_line(second, false),
                ),
            )
            &&& ready.after(Seq::empty()).data.len() == 0
        }),
{
    reveal_strlit("data:");
    let once = parser.after(first);
    assert(plain_line(first, false).len() > 0);
    assert(plain_line(second, false).len() > 0);
    assert(once.data == data_value(plain_line(first, false)));
    let ready = once.after(second);
    assert(ready.data == gathered(once.data, data_value(plain_line(second, false))));
}

} // verus!
