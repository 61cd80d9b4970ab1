//! Server-sent events: the text format, line by line.
use std::time::Duration;
use vstd::prelude::*;
use vstd::string::*;

use crate::error::TransportError;
use crate::runtime;
use crate::runtime::seconds;
use crate::text;
use crate::text::{strip_prefix, trim};

verus! {

/// What is read of a byte sequence as text where it is no valid UTF-8: broken parts are replaced.
pub uninterp spec fn repaired(bytes: Seq<u8>) -> Seq<char>;

/// `String::from_utf8_lossy`: the text that the bytes encode in UTF-8. Which replacement characters
/// stand for broken parts is not stated.
#[verifier::external_body]
pub(crate) fn lossy_text(bytes: &[u8]) -> (r: String)
    ensures
        vstd::utf8::valid_utf8(bytes@) ==> r@ == vstd::utf8::decode_utf8(bytes@),
        !vstd::utf8::valid_utf8(bytes@) ==> r@ == repaired(bytes@),
{
    String::from_utf8_lossy(bytes).into_owned()
}

/// The text that bytes are read as.
pub open spec fn text_of(bytes: Seq<u8>) -> Seq<char> {
    if vstd::utf8::valid_utf8(bytes) {
        vstd::utf8::decode_utf8(bytes)
    } else {
        repaired(bytes)
    }
}

/// What is known of an event stream between two characters: the type and the data lines of the
/// event that is being read, and the line that is being read.
#[verifier::ext_equal]
pub struct SseModel {
    pub event: Seq<char>,
    pub data: Seq<Seq<char>>,
    pub line: Seq<char>,
}

/// An event: its type and its data.
pub type SseEvent = (Seq<char>, Seq<char>);

/// Lines joined by line feeds.
pub open spec fn lines_joined(lines: Seq<Seq<char>>) -> Seq<char>
    decreases lines.len(),
{
    if lines.len() == 0 {
        Seq::empty()
    } else if lines.len() == 1 {
        lines[0]
    } else {
        lines_joined(lines.drop_last()) + "\n"@ + lines.last()
    }
}

/// A line without the carriage returns at its end.
pub open spec fn without_returns(line: Seq<char>) -> Seq<char>
    decreases line.len(),
{
    if line.len() > 0 && line.last() == '\r' {
        without_returns(line.drop_last())
    } else {
        line
    }
}

impl SseModel {
    /// The start of a stream.
    pub open spec fn start() -> SseModel {
        SseModel { event: "message"@, data: Seq::empty(), line: Seq::empty() }
    }

    /// The event that the end of the line completes: an empty line ends an event that has data.
    pub open spec fn completed(self) -> Option<SseEvent> {
        if without_returns(self.line).len() == 0 && self.data.len() > 0 {
            Some((self.event, lines_joined(self.data)))
        } else {
            None
        }
    }

    /// The stream after the end of the line.
    pub open spec fn line_ended(self) -> SseModel {
        let line = without_returns(self.line);
        if line.len() == 0 {
            if self.data.len() > 0 {
                SseModel::start()
            } else {
                SseModel { line: Seq::empty(), ..self }
            }
        } else if "event:"@.is_prefix_of(line) {
            SseModel {
                event: text::trimmed(line.skip(6)),
                line: Seq::empty(),
                ..self
            }
        } else if "data:"@.is_prefix_of(line) {
            SseModel {
                data: self.data.push(text::trimmed(line.skip(5))),
                line: Seq::empty(),
                ..self
            }
        } else {
            SseModel { line: Seq::empty(), ..self }
        }
    }

    /// The stream after one more character.
    pub open spec fn read(self, c: char) -> SseModel {
        if c == '\n' {
            self.line_ended()
        } else {
            SseModel { line: self.line.push(c), ..self }
        }
    }

    /// The stream after more text.
    pub open spec fn read_all(self, text: Seq<char>) -> SseModel
        decreases text.len(),
    {
        if text.len() == 0 {
            self
        } else {
            self.read_all(text.drop_last()).read(text.last())
        }
    }

    /// The events that more text completes.
    pub open spec fn events(self, text: Seq<char>) -> Seq<SseEvent>
        decreases text.len(),
    {
        if text.len() == 0 {
            Seq::empty()
        } else {
            let before = self.events(text.drop_last());
            match self.read_all(text.drop_last()).completed() {
                Some(event) if text.last() == '\n' => before.push(event),
                _ => before,
            }
        }
    }
}

/// Reads an event stream chunk by chunk.
pub struct SseParser {
    event_type: String,
    data_lines: Vec<String>,
    leftover: String,
}

/// What some texts hold.
pub open spec fn texts(v: Seq<String>) -> Seq<Seq<char>> {
    Seq::new(v.len(), |i: int| v[i]@)
}

/// What some events say.
pub open spec fn event_texts(v: Seq<(String, String)>) -> Seq<SseEvent> {
    Seq::new(v.len(), |i: int| (v[i].0@, v[i].1@))
}

impl View for SseParser {
    type V = SseModel;

    closed spec fn view(&self) -> SseModel {
        SseModel {
            event: self.event_type@,
            data: texts(self.data_lines@),
            line: self.leftover@,
        }
    }
}

/// Joins lines by line feeds.
fn join_lines(lines: &Vec<String>) -> (r: String)
    ensures
        r@ == lines_joined(texts(lines@)),
{
    let mut text = String::new();
    let mut i: usize = 0;
    let ghost all = texts(lines@);
    assert(all.take(0) =~= Seq::empty());
    assert(text@ =~= lines_joined(all.take(0)));
    while i < lines.len()
        invariant
            i <= lines@.len(),
            all == texts(lines@),
            text@ == lines_joined(all.take(i as int)),
        decreases lines@.len() - i,
    {
        proof {
            assert(all.take(i + 1).drop_last() =~= all.take(i as int));
            assert(all.take(i + 1).last() == lines@[i as int]@);
        }
        if i > 0 {
            text.append("\n");
        }
        text.append(lines[i].as_str());
        assert(text@ =~= lines_joined(all.take(i + 1)));
        i = i + 1;
    }
    assert(all.take(i as int) =~= all);
    text
}

/// Removes the carriage returns at the end of a line.
fn strip_returns(line: &str) -> (r: &str)
    ensures
        r@ == without_returns(line@),
{
    let mut end: usize = line.unicode_len();
    assert(line@.take(end as int) =~= line@);
    while end > 0 && line.get_char(end - 1) == '\r'
        invariant
            end <= line@.len(),
            without_returns(line@.take(end as int)) == without_returns(line@),
        decreases end,
    {
        assert(line@.take(end as int).drop_last() =~= line@.take(end - 1));
        end = end - 1;
    }
    let r = line.substring_char(0, end);
    assert(r@ =~= line@.take(end as int));
    r
}

impl SseParser {
    /// A parser at the start of a stream.
    pub fn new() -> (r: Self)
        ensures
            r@ == SseModel::start(),
    {
        let r = SseParser {
            event_type: "message".to_owned(),
            data_lines: Vec::new(),
            leftover: String::new(),
        };
        assert(r@.data =~= Seq::empty());
        assert(r@.line =~= Seq::empty());
        r
    }

    fn line_ended(&mut self) -> (r: Option<(String, String)>)
        ensures
            final(self)@ == old(self)@.line_ended(),
            match old(self)@.completed() {
                Some(event) => r matches Some(e) && e.0@ == event.0 && e.1@ == event.1,
                None => r is None,
            },
    {
        let mut whole = String::new();
        std::mem::swap(&mut whole, &mut self.leftover);
        proof {
            reveal_strlit("event:");
            reveal_strlit("data:");
        }
        assert(self.leftover@ =~= Seq::empty());
        let line = strip_returns(whole.as_str());
        if line.is_empty() {
            if self.data_lines.len() > 0 {
                let data = join_lines(&self.data_lines);
                let mut event = "message".to_owned();
                std::mem::swap(&mut event, &mut self.event_type);
                self.data_lines = Vec::new();
                assert(self@.data =~= Seq::empty());
                return Some((event, data));
            }
        } else if let Some(value) = strip_prefix(line, "event:") {
            self.event_type = trim(value);
        } else if let Some(value) = strip_prefix(line, "data:") {
            self.data_lines.push(trim(value));
            assert(self@.data =~= old(self)@.line_ended().data);
        }
        None
    }

    /// Takes in a chunk of the stream; returns the events that it completes, as their types and
    /// data.
    pub fn feed(&mut self, chunk: &[u8]) -> (r: Vec<(String, String)>)
        ensures
            final(self)@ == old(self)@.read_all(text_of(chunk@)),
            event_texts(r@) == old(self)@.events(text_of(chunk@)),
    {
        let text = lossy_text(chunk);
        self.feed_text(text.as_str())
    }

    /// Takes in a piece of the stream's text; returns the events that it completes.
    pub fn feed_text(&mut self, text: &str) -> (r: Vec<(String, String)>)
        ensures
            final(self)@ == old(self)@.read_all(text@),
            event_texts(r@) == old(self)@.events(text@),
    {
        let mut found: Vec<(String, String)> = Vec::new();
        let ghost all = text@;
        assert(all.take(0) =~= Seq::empty());
        assert(event_texts(found@) =~= old(self)@.events(all.take(0)));
        for c in it: text.chars()
            invariant
                it.seq() == all,
                all == text@,
                self@ == old(self)@.read_all(all.take(it.index())),
                event_texts(found@) == old(self)@.events(all.take(it.index())),
        {
            proof {
                let i = it.index();
                assert(all.take(i + 1).drop_last() =~= all.take(i));
                assert(all.take(i + 1).last() == c);
            }
            if c == '\n' {
                let ghost before = found@;
                if let Some(event) = self.line_ended() {
                    found.push(event);
                    assert(event_texts(found@) =~= event_texts(before).push((event.0@, event.1@)));
                }
            } else {
                self.leftover.push(c);
            }
        }
        assert(all.take(all.len() as int) =~= all);
        found
    }
}

/// How long to pause before an event stream is connected again, whether it ended or failed; none
/// where the subscription is cancelled.
pub fn sse_pause(cancelled: bool) -> (r: Option<Duration>)
    ensures
        match r {
            Some(d) => !cancelled && runtime::nanos(d) == 2_000_000_000,
            None => cancelled,
        },
{
    if cancelled {
        None
    } else {
        Some(seconds(2))
    }
}

/// What the sender of an event is told: whether the client is still there.
pub fn event_sent(connected: bool) -> (r: Result<(), TransportError>)
    ensures
        r == if connected {
            Ok::<(), TransportError>(())
        } else {
            Err(TransportError::SseStreamClosed)
        },
{
    if connected {
        Ok(())
    } else {
        Err(TransportError::SseStreamClosed)
    }
}

/// It does not matter how the stream's text is cut into pieces: two pieces one after the other
/// give the same events as both at once.
pub proof fn law_pieces_do_not_matter(m: SseModel, a: Seq<char>, b: Seq<char>)
    ensures
        m.read_all(a + b) == m.read_all(a).read_all(b),
        m.events(a + b) == m.events(a) + m.read_all(a).events(b),
    decreases b.len(),
{
    if b.len() == 0 {
        assert(a + b =~= a);
        assert(m.events(a) + Seq::<SseEvent>::empty() =~= m.events(a));
    } else {
        law_pieces_do_not_matter(m, a, b.drop_last());
        assert((a + b).drop_last() =~= a + b.drop_last());
        assert((a + b).last() == b.last());
        assert(m.events(a + b) =~= m.events(a) + m.read_all(a).events(b));
    }
}

/// Text without a line feed extends the line that is being read, and completes no event.
proof fn lemma_read_within_line(m: SseModel, text: Seq<char>)
    requires
        forall|i: int| 0 <= i < text.len() ==> #[trigger] text[i] != '\n',
    ensures
        m.read_all(text) == (SseModel { line: m.line + text, ..m }),
        m.events(text) == Seq::<SseEvent>::empty(),
    decreases text.len(),
{
    if text.len() == 0 {
        assert(m.line + text =~= m.line);
    } else {
        let before = text.drop_last();
        assert forall|i: int| 0 <= i < before.len() implies #[trigger] before[i] != '\n' by {
            assert(before[i] == text[i]);
        }
        lemma_read_within_line(m, before);
        assert(text[text.len() - 1] != '\n');
        assert((m.line + before).push(text.last()) =~= m.line + text);
    }
}

/// A line feed ends the line that is being read.
proof fn lemma_read_line_feed(m: SseModel)
    ensures
        m.read_all("\n"@) == m.line_ended(),
        m.events("\n"@) == match m.completed() {
            Some(event) => seq![event],
            None => Seq::empty(),
        },
{
    reveal_strlit("\n");
    let text = "\n"@;
    assert(text.drop_last() =~= Seq::empty());
    reveal_with_fuel(SseModel::read_all, 2);
    reveal_with_fuel(SseModel::events, 2);
    assert(m.events(text) =~= match m.completed() {
        Some(event) => seq![event],
        None => Seq::empty(),
    });
}

/// A whole line from the start of a line: what its end makes of the stream.
proof fn lemma_read_line(m: SseModel, line: Seq<char>)
    requires
        m.line.len() == 0,
        forall|i: int| 0 <= i < line.len() ==> #[trigger] line[i] != '\n',
    ensures
        m.read_all(line + "\n"@) == (SseModel { line, ..m }).line_ended(),
        m.events(line + "\n"@) == match (SseModel { line, ..m }).completed() {
            Some(event) => seq![event],
            None => Seq::empty(),
        },
{
    lemma_read_within_line(m, line);
    assert(m.line + line =~= line);
    lemma_read_line_feed(SseModel { line, ..m });
    law_pieces_do_not_matter(m, line, "\n"@);
    assert(m.events(line + "\n"@) =~= (SseModel { line, ..m }).events("\n"@));
}

/// A value behind a field's name and a space is read as it was written.
proof fn lemma_value_is_read(name: Seq<char>, value: Seq<char>)
    requires
        text::trimmed(value) == value,
    ensures
        text::trimmed(" "@ + value) == value,
        without_returns(name + " "@ + value) == name + " "@ + value,
{
    reveal_strlit(" ");
    let text = " "@ + value;
    assert(text.skip(1) =~= value);
    assert(text::trimmed_start(text) == text::trimmed_start(value));
    let line = name + " "@ + value;
    if value.len() == 0 {
        assert(line.last() == ' ');
    } else {
        assert(line.last() == value.last());
        text::lemma_trimmed_ends(value);
    }
}

/// An event that a server writes as a type line, a data line and an empty line is read as it was
/// written, and the stream is then as at its start.
pub proof fn law_event_is_read_as_written(m: SseModel, kind: Seq<char>, data: Seq<char>)
    requires
        m.line.len() == 0,
        m.data.len() == 0,
        text::trimmed(kind) == kind,
        text::trimmed(data) == data,
        forall|i: int| 0 <= i < kind.len() ==> #[trigger] kind[i] != '\n',
        forall|i: int| 0 <= i < data.len() ==> #[trigger] data[i] != '\n',
    ensures
        ({
            let text = ("event:"@ + " "@ + kind + "\n"@) + ("data:"@ + " "@ + data + "\n"@) + "\n"@;
            &&& m.events(text) == seq![(kind, data)]
            &&& m.read_all(text) == SseModel::start()
        }),
{
    reveal_strlit("event:");
    reveal_strlit("data:");
    reveal_strlit(" ");
    let first = "event:"@ + " "@ + kind;
    let second = "data:"@ + " "@ + data;
    let head = (first + "\n"@) + (second + "\n"@);
    lemma_value_is_read("event:"@, kind);
    lemma_value_is_read("data:"@, data);
    lemma_read_line(m, first);
    assert(first.skip(6) =~= " "@ + kind);
    let m1 = SseModel { event: kind, line: Seq::empty(), ..m };
    assert((SseModel { line: first, ..m }).line_ended() == m1);
    lemma_read_line(m1, second);
    assert(second.skip(5) =~= " "@ + data);
    assert(!"event:"@.is_prefix_of(second)) by {
        assert("event:"@[0] != second[0]);
    }
    let m2 = SseModel { data: m.data.push(data), ..m1 };
    assert((SseModel { line: second, ..m1 }).line_ended() == m2);
    law_pieces_do_not_matter(m, first + "\n"@, second + "\n"@);
    lemma_read_line_feed(m2);
    law_pieces_do_not_matter(m, head, "\n"@);
    assert(m2.completed() == Some((kind, data)));
    assert(m.events(head + "\n"@) =~= seq![(kind, data)]);
}

/// Joining is done piece by piece: one line stays as it is, and lines behind others follow them
/// behind a line feed, each of them.
pub proof fn law_all_lines_are_joined(a: Seq<Seq<char>>, b: Seq<Seq<char>>)
    ensures
        a.len() == 1 ==> lines_joined(a) == a[0],
        a.len() > 0 && b.len() > 0 ==> lines_joined(a + b) == lines_joined(a) + "\n"@
            + lines_joined(b),
    decreases b.len(),
{
    if a.len() > 0 && b.len() > 0 {
        let all = a + b;
        assert(all.last() == b.last());
        assert(all.drop_last() =~= a + b.drop_last());
        if b.len() == 1 {
            assert(b.drop_last() =~= Seq::empty());
            assert(a + b.drop_last() =~= a);
        } else {
            law_all_lines_are_joined(a, b.drop_last());
            assert(lines_joined(all) =~= lines_joined(a) + "\n"@ + lines_joined(b));
        }
    }
}

/// The text of some data lines, each with its line feed.
pub open spec fn data_lines(data: Seq<Seq<char>>) -> Seq<char>
    decreases data.len(),
{
    if data.len() == 0 {
        Seq::empty()
    } else {
        data_lines(data.drop_last()) + ("data:"@ + " "@ + data.last() + "\n"@)
    }
}

/// Whether a text can stand in a line as a value: without white space at its ends and without a
/// line feed.
pub open spec fn is_value(text: Seq<char>) -> bool {
    text::trimmed(text) == text && forall|i: int| 0 <= i < text.len() ==> #[trigger] text[i] != '\n'
}

/// Each data line adds its value, in order, and completes no event.
proof fn lemma_data_lines_are_read(m: SseModel, data: Seq<Seq<char>>)
    requires
        m.line.len() == 0,
        forall|i: int| 0 <= i < data.len() ==> is_value(#[trigger] data[i]),
    ensures
        m.read_all(data_lines(data)) == (SseModel { data: m.data + data, ..m }),
        m.events(data_lines(data)) == Seq::<SseEvent>::empty(),
    decreases data.len(),
{
    if data.len() == 0 {
        assert(m.data + data =~= m.data);
    } else {
        let init = data.drop_last();
        let value = data.last();
        assert forall|i: int| 0 <= i < init.len() implies is_value(#[trigger] init[i]) by {
            assert(init[i] == data[i]);
        }
        lemma_data_lines_are_read(m, init);
        assert(is_value(data[data.len() - 1]));
        let before = SseModel { data: m.data + init, ..m };
        lemma_data_line_is_read(before, value);
        law_pieces_do_not_matter(m, data_lines(init), "data:"@ + " "@ + value + "\n"@);
        assert((m.data + init).push(value) =~= m.data + data);
        assert(m.events(data_lines(data)) =~= Seq::<SseEvent>::empty());
    }
}

/// A data line adds its value.
proof fn lemma_data_line_is_read(m: SseModel, value: Seq<char>)
    requires
        m.line.len() == 0,
        is_value(value),
    ensures
        m.read_all("data:"@ + " "@ + value + "\n"@) == (SseModel { data: m.data.push(value), ..m }),
        m.events("data:"@ + " "@ + value + "\n"@) == Seq::<SseEvent>::empty(),
{
    reveal_strlit("event:");
    reveal_strlit("data:");
    reveal_strlit(" ");
    let line = "data:"@ + " "@ + value;
    lemma_value_is_read("data:"@, value);
    lemma_read_line(m, line);
    assert(line.skip(5) =~= " "@ + value);
    assert(!"event:"@.is_prefix_of(line)) by {
        assert("event:"@[0] != line[0]);
    }
    assert(m.line =~= Seq::empty());
}

/// An event that a server writes with any number of data lines is read with all of them, in the
/// order in which they were written and with a line feed between each two; it is one event, and
/// the stream is then as at its start.
pub proof fn law_data_lines_are_read_as_written(
    m: SseModel,
    kind: Seq<char>,
    data: Seq<Seq<char>>,
)
    requires
        m.line.len() == 0,
        m.data.len() == 0,
        is_value(kind),
        data.len() > 0,
        forall|i: int| 0 <= i < data.len() ==> is_value(#[trigger] data[i]),
    ensures
        ({
            let text = ("event:"@ + " "@ + kind + "\n"@) + data_lines(data) + "\n"@;
            let events = m.events(text);
            &&& events.len() == 1
            &&& events[0].0 == kind
            &&& data.len() == 1 ==> events[0].1 == data[0]
            &&& data.len() == 2 ==> events[0].1 == data[0] + "\n"@ + data[1]
            &&& forall|k: int|
                0 < k < data.len() ==> events[0].1 == lines_joined(#[trigger] data.take(k)) + "\n"@
                    + lines_joined(data.skip(k))
            &&& m.read_all(text) == SseModel::start()
        }),
{
    reveal_strlit("event:");
    reveal_strlit(" ");
    let first = "event:"@ + " "@ + kind;
    let head = first + "\n"@;
    lemma_value_is_read("event:"@, kind);
    lemma_read_line(m, first);
    assert(first.skip(6) =~= " "@ + kind);
    let m1 = SseModel { event: kind, line: Seq::empty(), ..m };
    assert((SseModel { line: first, ..m }).line_ended() == m1);
    lemma_data_lines_are_read(m1, data);
    law_pieces_do_not_matter(m, head, data_lines(data));
    let m2 = SseModel { data: m1.data + data, ..m1 };
    assert(m1.data + data =~= data);
    lemma_read_line_feed(m2);
    law_pieces_do_not_matter(m, head + data_lines(data), "\n"@);
    assert(m.events(head + data_lines(data) + "\n"@) =~= seq![(kind, lines_joined(data))]);
    assert forall|k: int| 0 < k < data.len() implies lines_joined(data) == lines_joined(
        #[trigger] data.take(k),
    ) + "\n"@ + lines_joined(data.skip(k)) by {
        assert(data.take(k) + data.skip(k) =~= data);
        law_all_lines_are_joined(data.take(k), data.skip(k));
    }
    if data.len() == 2 {
        assert(data.take(1) =~= seq![data[0]]);
        assert(data.skip(1) =~= seq![data[1]]);
        assert(lines_joined(data.take(1)) == data[0]);
    }
}

/// Lines may end in a carriage return and a line feed as well as in a line feed alone.
pub proof fn law_carriage_returns_do_not_matter(m: SseModel, line: Seq<char>)
    requires
        forall|i: int| 0 <= i < line.len() ==> #[trigger] line[i] != '\n',
    ensures
        m.read_all(line + "\r\n"@) == m.read_all(line + "\n"@),
        m.events(line + "\r\n"@) == m.events(line + "\n"@),
{
    reveal_strlit("\r\n");
    reveal_strlit("\r");
    reveal_strlit("\n");
    assert("\r\n"@ =~= "\r"@ + "\n"@);
    let m1 = m.read_all(line);
    lemma_read_within_line(m, line);
    lemma_read_within_line(m1, "\r"@);
    lemma_read_line_feed(m1);
    let m2 = m1.read_all("\r"@);
    lemma_read_line_feed(m2);
    law_pieces_do_not_matter(m1, "\r"@, "\n"@);
    law_pieces_do_not_matter(m, line, "\r\n"@);
    law_pieces_do_not_matter(m, line, "\n"@);
    assert(m2.line.last() == '\r');
    assert(m2.line.drop_last() =~= m1.line);
    assert(m1.events("\r\n"@) =~= m1.events("\n"@));
}

/// A line of another field, or a comment, changes nothing and completes no event.
pub proof fn law_other_lines_are_ignored(m: SseModel, line: Seq<char>)
    requires
        m.line.len() == 0,
        line.len() > 0,
        line.last() != '\r',
        !"event:"@.is_prefix_of(line),
        !"data:"@.is_prefix_of(line),
        forall|i: int| 0 <= i < line.len() ==> #[trigger] line[i] != '\n',
    ensures
        m.read_all(line + "\n"@) == m,
        m.events(line + "\n"@).len() == 0,
{
    lemma_read_line(m, line);
    assert(m.line =~= Seq::empty());
}

/// An empty line ends the event that is being read: it is reported once, with the type that was
/// given last or else `message`, and its data is gone from the stream. Without data there is no
/// event, and the type is kept.
pub proof fn law_empty_line_ends_the_event(m: SseModel)
    requires
        m.line.len() == 0,
    ensures
        m.data.len() == 0 ==> m.events("\n"@).len() == 0 && m.read_all("\n"@) == m,
        m.data.len() > 0 ==> m.events("\n"@) == seq![(m.event, lines_joined(m.data))]
            && m.read_all("\n"@).data.len() == 0 && m.read_all("\n"@).event == "message"@
            && m.read_all("\n"@).line.len() == 0,
        SseModel::start().event == "message"@,
        SseModel::start().data.len() == 0,
        SseModel::start().line.len() == 0,
{
    lemma_read_line_feed(m);
    assert(m.line =~= Seq::empty());
}

/// The last type line of an event counts.
pub proof fn law_last_type_counts(m: SseModel, kind: Seq<char>)
    requires
        m.line.len() == 0,
        is_value(kind),
    ensures
        ({
            let line = "event:"@ + " "@ + kind + "\n"@;
            &&& m.read_all(line) == (SseModel { event: kind, ..m })
            &&& m.events(line).len() == 0
        }),
{
    reveal_strlit("event:");
    reveal_strlit(" ");
    let first = "event:"@ + " "@ + kind;
    lemma_value_is_read("event:"@, kind);
    lemma_read_line(m, first);
    assert(first.skip(6) =~= " "@ + kind);
    assert(m.line =~= Seq::empty());
}

/// White space around the value of a line does not matter, nor whether there is any between the
/// field's name and the value.
pub proof fn law_space_around_values_does_not_matter(m: SseModel, text: Seq<char>)
    requires
        m.line.len() == 0,
        text.len() > 0 ==> text.last() != '\r',
        forall|i: int| 0 <= i < text.len() ==> #[trigger] text[i] != '\n',
    ensures
        m.read_all("data:"@ + text + "\n"@) == (SseModel {
            data: m.data.push(text::trimmed(text)),
            ..m
        }),
        m.read_all("event:"@ + text + "\n"@) == (SseModel { event: text::trimmed(text), ..m }),
        m.events("data:"@ + text + "\n"@).len() == 0,
        m.events("event:"@ + text + "\n"@).len() == 0,
{
    reveal_strlit("event:");
    reveal_strlit("data:");
    let data = "data:"@ + text;
    let event = "event:"@ + text;
    lemma_read_line(m, data);
    lemma_read_line(m, event);
    assert(data.last() != '\r' && event.last() != '\r');
    assert(data.skip(5) =~= text);
    assert(event.skip(6) =~= text);
    assert(!"event:"@.is_prefix_of(data)) by {
        assert("event:"@[0] != data[0]);
    }
    assert(m.line =~= Seq::empty());
}

/// A subscription that is not cancelled is renewed after two seconds, and a cancelled one is not.
/// The sender of an event is told exactly when the client is gone.
pub proof fn law_subscriptions_are_renewed(
    cancelled: bool,
    pause: Option<Duration>,
    connected: bool,
    sent: Result<(), TransportError>,
)
    requires
        sse_pause.ensures((cancelled,), pause),
        event_sent.ensures((connected,), sent),
    ensures
        pause is Some <==> !cancelled,
        pause matches Some(d) ==> runtime::nanos(d) == 2 * 1_000_000_000,
        sent is Ok <==> connected,
        sent is Err <==> sent matches Err(TransportError::SseStreamClosed),
{
}

} // verus!
