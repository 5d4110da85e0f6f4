//! The streamed answer of the language model: server-sent events, each with a
//! piece of the answer as JSON.

use vstd::prelude::*;
use vstd::string::*;
use vstd::utf8::*;

use crate::events;
use crate::events::{AppEvent, EventView};
use crate::json;
use crate::json::Json;
use crate::text;

verus! {

/// What one line of an event says.
#[derive(Debug)]
pub enum Line {
    /// Not a data line.
    Other,
    /// The answer is complete.
    Done,
    /// A data line, with its data.
    Data(String),
}

/// The model of a `Line`.
#[verifier::ext_equal]
pub enum LineView {
    Other,
    Done,
    Data(Seq<char>),
}

impl View for Line {
    type V = LineView;

    open spec fn view(&self) -> LineView {
        match self {
            Line::Other => LineView::Other,
            Line::Done => LineView::Done,
            Line::Data(d) => LineView::Data(d@),
        }
    }
}

/// Whether `line` begins with `prefix`.
pub open spec fn begins_with(line: Seq<char>, prefix: Seq<char>) -> bool {
    line.len() >= prefix.len() && line.take(prefix.len() as int) == prefix
}

/// What a line says.
pub open spec fn line_said(line: Seq<char>) -> LineView {
    if !begins_with(line, "data: "@) {
        LineView::Other
    } else {
        let data = line.skip("data: "@.len() as int);
        if text::trim(data) == "[DONE]"@ {
            LineView::Done
        } else {
            LineView::Data(data)
        }
    }
}

/// Reads one line of an event.
pub fn read_line(line: &[char]) -> (said: Line)
    ensures
        said@ == line_said(line@),
{
    proof {
        reveal_strlit("data: ");
    }
    let width: usize = 6;
    if line.len() < width {
        return Line::Other;
    }
    let head = text::string_of(vstd::slice::slice_subrange(line, 0, width));
    assert(head@ =~= line@.take("data: "@.len() as int));
    if !text::same(head.as_str(), "data: ") {
        return Line::Other;
    }
    let data = vstd::slice::slice_subrange(line, width, line.len());
    assert(data@ =~= line@.skip("data: "@.len() as int));
    let core = text::string_of(text::trimmed(data));
    if text::same(core.as_str(), "[DONE]") {
        Line::Done
    } else {
        Line::Data(text::string_of(data))
    }
}

/// The piece of the answer in a data line's document: the text under
/// `choices`, first element, `delta`, `content`. An empty text is none.
pub open spec fn piece_in(document: Json) -> Option<Seq<char>> {
    match document.member("choices"@).element(0).member("delta"@).member("content"@).text() {
        Some(t) => if t.len() > 0 {
            Some(t)
        } else {
            None
        },
        None => None,
    }
}

/// The piece of the answer in a data line; none where the data is not JSON.
pub open spec fn piece_of(data: Seq<char>) -> Option<Seq<char>> {
    match json::parsed(data) {
        Some(document) => piece_in(document),
        None => None,
    }
}

/// The piece of the answer in a document.
pub fn read_document(value: &serde_json::Value) -> (piece: Option<String>)
    ensures
        text::option_view(piece) == piece_in(json::document(*value)),
{
    let choices = json::member(value, "choices");
    let choice = json::element(choices, 0);
    let delta = json::member(choice, "delta");
    let content = json::member(delta, "content");
    match json::as_text(content) {
        Some(t) => if t.is_empty() {
            None
        } else {
            Some(t.to_owned())
        },
        None => None,
    }
}

/// The piece of the answer in a data line.
pub fn read_data(data: &str) -> (piece: Option<String>)
    ensures
        text::option_view(piece) == piece_of(data@),
{
    match json::parse(data) {
        Some(value) => read_document(&value),
        None => None,
    }
}

/// What has been read: the pieces of the answer in their order, and whether the
/// answer is complete.
#[verifier::ext_equal]
pub struct Reading {
    pub pieces: Seq<Seq<char>>,
    pub done: bool,
}

/// What the lines of an event say. Nothing after the line that completes the
/// answer is read.
pub open spec fn lines_said(lines: Seq<Seq<char>>) -> Reading
    decreases lines.len(),
{
    if lines.len() == 0 {
        Reading { pieces: Seq::empty(), done: false }
    } else {
        let rest = lines_said(lines.drop_first());
        match line_said(lines.first()) {
            LineView::Other => rest,
            LineView::Done => Reading { pieces: Seq::empty(), done: true },
            LineView::Data(data) => match piece_of(data) {
                Some(piece) => Reading { pieces: seq![piece] + rest.pieces, done: rest.done },
                None => rest,
            },
        }
    }
}

/// What an event says.
pub open spec fn event_said(event: Seq<char>) -> Reading {
    lines_said(text::lines(text::trim(event)))
}

/// Whether an empty line ends an event at position `i` of `buffer`.
pub open spec fn is_break(buffer: Seq<char>, i: int) -> bool {
    0 <= i && i + 1 < buffer.len() && buffer[i] == '\n' && buffer[i + 1] == '\n'
}

/// The first end of an event at or after `from`; `None` where there is none.
pub open spec fn first_break(buffer: Seq<char>, from: int) -> Option<int>
    decreases buffer.len() - from,
{
    if from < 0 || from + 1 >= buffer.len() {
        None
    } else if is_break(buffer, from) {
        Some(from)
    } else {
        first_break(buffer, from + 1)
    }
}

proof fn lemma_first_break(buffer: Seq<char>, from: int)
    requires
        0 <= from,
    ensures
        match first_break(buffer, from) {
            Some(i) => from <= i && is_break(buffer, i) && (forall|j: int|
                from <= j < i ==> !is_break(buffer, j)),
            None => forall|j: int| from <= j ==> !is_break(buffer, j),
        },
    decreases buffer.len() - from,
{
    if from + 1 < buffer.len() && !is_break(buffer, from) {
        lemma_first_break(buffer, from + 1);
    }
}

/// What a buffer says: the pieces and the completion in its events, and the text
/// after the last event that was read.
#[verifier::ext_equal]
pub struct Drained {
    pub pieces: Seq<Seq<char>>,
    pub done: bool,
    pub rest: Seq<char>,
}

/// What the events of a buffer say. An event that is not ended yet stays in the
/// buffer. Nothing after the event that completes the answer is read.
pub open spec fn drained(buffer: Seq<char>) -> Drained
    decreases buffer.len(),
    via drained_decreases
{
    match first_break(buffer, 0) {
        None => Drained { pieces: Seq::empty(), done: false, rest: buffer },
        Some(i) => {
            let said = event_said(buffer.take(i));
            let rest = buffer.skip(i + 2);
            if said.done {
                Drained { pieces: said.pieces, done: true, rest }
            } else {
                let more = drained(rest);
                Drained { pieces: said.pieces + more.pieces, done: more.done, rest: more.rest }
            }
        },
    }
}

#[via_fn]
proof fn drained_decreases(buffer: Seq<char>) {
    lemma_first_break(buffer, 0);
}

fn find_break(buffer: &Vec<char>) -> (at: Option<usize>)
    ensures
        match at {
            Some(i) => first_break(buffer@, 0) == Some(i as int) && i + 1 < buffer.len(),
            None => first_break(buffer@, 0) is None,
        },
{
    let mut i: usize = 0;
    while i < buffer.len() && i + 1 < buffer.len()
        invariant
            i <= buffer@.len(),
            first_break(buffer@, 0) == first_break(buffer@, i as int),
        decreases buffer@.len() - i,
    {
        if buffer[i] == '\n' && buffer[i + 1] == '\n' {
            return Some(i);
        }
        i = i + 1;
    }
    None
}

/// The texts of a list of strings.
pub open spec fn texts(pieces: Seq<String>) -> Seq<Seq<char>> {
    pieces.map_values(|p: String| p@)
}

/// Reads the lines of one event, adding the pieces of the answer in them to
/// `pieces`; returns whether the answer is complete.
fn read_event(event: &[char], pieces: &mut Vec<String>) -> (done: bool)
    ensures
        texts(final(pieces)@) == texts(old(pieces)@) + event_said(event@).pieces,
        done == event_said(event@).done,
{
    let block = text::trimmed(event);
    let lines = text::split_lines(block);
    let ghost all = text::lines(block@);
    let ghost before = texts(pieces@);
    assert(all.skip(0) =~= all);
    assert(before + lines_said(all).pieces =~= texts(pieces@) + lines_said(all.skip(0)).pieces);
    let mut i: usize = 0;
    while i < lines.len()
        invariant
            i <= lines@.len(),
            before == texts(old(pieces)@),
            all == text::lines(text::trim(event@)),
            all == lines@.map_values(|line: Vec<char>| line@),
            before + lines_said(all).pieces =~= texts(pieces@) + lines_said(
                all.skip(i as int),
            ).pieces,
            lines_said(all).done == lines_said(all.skip(i as int)).done,
        decreases lines@.len() - i,
    {
        let ghost held = texts(pieces@);
        let ghost here = all.skip(i as int);
        assert(here.drop_first() =~= all.skip(i + 1));
        assert(here.first() == lines@[i as int]@);
        match read_line(lines[i].as_slice()) {
            Line::Other => {},
            Line::Done => {
                assert(before + lines_said(all).pieces =~= texts(pieces@));
                return true;
            },
            Line::Data(data) => {
                match read_data(data.as_str()) {
                    Some(piece) => {
                        let ghost text = piece@;
                        pieces.push(piece);
                        assert(texts(pieces@) =~= held.push(text));
                        assert(held.push(text) + lines_said(all.skip(i + 1)).pieces =~= held + (
                        seq![text] + lines_said(all.skip(i + 1)).pieces));
                    },
                    None => {},
                }
            },
        }
        i = i + 1;
    }
    assert(all.skip(i as int) =~= Seq::<Seq<char>>::empty());
    assert(before + lines_said(all).pieces =~= texts(pieces@));
    false
}

/// The answer being read: the text that belongs to an event not ended yet, and
/// whether the answer is complete.
#[derive(Debug)]
pub struct ChatStream {
    buffer: Vec<char>,
    done: bool,
}

/// The model of a `ChatStream`.
#[verifier::ext_equal]
pub struct StreamView {
    pub buffer: Seq<char>,
    pub done: bool,
}

impl View for ChatStream {
    type V = StreamView;

    closed spec fn view(&self) -> StreamView {
        StreamView { buffer: self.buffer@, done: self.done }
    }
}

/// The stream and the events after more text has come in. Nothing is read once
/// the answer is complete.
pub open spec fn fed(stream: StreamView, more: Seq<char>) -> (StreamView, Seq<EventView>) {
    if stream.done {
        (stream, Seq::empty())
    } else {
        let read = drained(stream.buffer + more);
        (
            StreamView { buffer: read.rest, done: read.done },
            read.pieces.map_values(|p: Seq<char>| EventView::LlmToken(p)) + if read.done {
                seq![EventView::LlmComplete]
            } else {
                Seq::empty()
            },
        )
    }
}

impl ChatStream {
    /// A stream of which nothing has been read.
    pub fn new() -> (stream: ChatStream)
        ensures
            stream@ == (StreamView { buffer: Seq::empty(), done: false }),
    {
        ChatStream { buffer: Vec::new(), done: false }
    }

    /// Whether the answer is complete.
    pub fn is_done(&self) -> (done: bool)
        ensures
            done == self@.done,
    {
        self.done
    }

    /// Takes the next bytes of the response, of which what is not UTF-8 is
    /// replaced, and gives what they say.
    pub fn feed(&mut self, chunk: &[u8]) -> (events: Vec<AppEvent>)
        ensures
            (final(self)@, events::events_view(events@)) == fed(
                old(self)@,
                text::lossy_text(chunk@),
            ),
            valid_utf8(chunk@) ==> text::lossy_text(chunk@) == decode_utf8(chunk@),
    {
        let more = text::from_utf8_lossy(chunk);
        self.feed_text(more.as_str())
    }

    /// Takes the next piece of the response's text and gives what it says.
    pub fn feed_text(&mut self, more: &str) -> (events: Vec<AppEvent>)
        ensures
            (final(self)@, events::events_view(events@)) == fed(old(self)@, more@),
    {
        let mut events: Vec<AppEvent> = Vec::new();
        if self.done {
            assert(events::events_view(events@) =~= Seq::<EventView>::empty());
            return events;
        }
        let mut added = text::chars_of(more);
        self.buffer.append(&mut added);
        let ghost all = self.buffer@;
        let mut pieces: Vec<String> = Vec::new();
        let mut searching = true;
        assert(texts(pieces@) + drained(all).pieces =~= drained(all).pieces);
        while searching
            invariant
                all == old(self)@.buffer + more@,
                !self.done ==> texts(pieces@) + drained(self.buffer@).pieces =~= drained(
                    all,
                ).pieces,
                !self.done ==> drained(self.buffer@).done == drained(all).done,
                !self.done ==> drained(self.buffer@).rest == drained(all).rest,
                self.done ==> texts(pieces@) =~= drained(all).pieces,
                self.done ==> drained(all).done && self.buffer@ == drained(all).rest,
                self.done ==> !searching,
                !searching && !self.done ==> first_break(self.buffer@, 0) is None,
            decreases self.buffer@.len() + if searching { 1int } else { 0 },
        {
            let ghost here = self.buffer@;
            let ghost held = texts(pieces@);
            match find_break(&self.buffer) {
                Some(end) => {
                    let done = {
                        let event = vstd::slice::slice_subrange(self.buffer.as_slice(), 0, end);
                        assert(event@ =~= here.take(end as int));
                        read_event(event, &mut pieces)
                    };
                    let rest = self.buffer.split_off(end + 2);
                    self.buffer = rest;
                    assert(self.buffer@ =~= here.skip(end + 2));
                    if done {
                        self.done = true;
                        searching = false;
                    }
                },
                None => {
                    searching = false;
                },
            }
        }
        assert(texts(pieces@) =~= drained(all).pieces);
        let mut i: usize = 0;
        while i < pieces.len()
            invariant
                i <= pieces@.len(),
                events::events_view(events@) =~= texts(pieces@).take(i as int).map_values(
                    |p: Seq<char>| EventView::LlmToken(p),
                ),
            decreases pieces@.len() - i,
        {
            let ghost said = events::events_view(events@);
            let event = AppEvent::LlmToken(pieces[i].clone());
            proof {
                let f = |p: Seq<char>| EventView::LlmToken(p);
                assert(events::events_view(events@.push(event)) =~= said.push(event@));
                assert(texts(pieces@).take(i + 1).map_values(f) =~= texts(pieces@).take(
                    i as int,
                ).map_values(f).push(f(pieces@[i as int]@)));
            }
            events.push(event);
            i = i + 1;
        }
        assert(texts(pieces@).take(i as int) =~= texts(pieces@));
        let ghost tokens = events::events_view(events@);
        if self.done {
            events.push(AppEvent::LlmComplete);
            assert(events::events_view(events@) =~= tokens.push(EventView::LlmComplete));
        }
        events
    }

    /// Takes the end of the response: an answer that was not completed is
    /// complete now.
    pub fn finish(&mut self) -> (event: Option<AppEvent>)
        ensures
            final(self)@ == (StreamView { done: true, ..old(self)@ }),
            match event {
                Some(e) => !old(self)@.done && e@ == EventView::LlmComplete,
                None => old(self)@.done,
            },
    {
        if self.done {
            None
        } else {
            self.done = true;
            Some(AppEvent::LlmComplete)
        }
    }
}

/// Events that are ended keep their ends when more text follows.
proof fn lemma_first_break_extends(buffer: Seq<char>, more: Seq<char>)
    requires
        first_break(buffer, 0) is Some,
    ensures
        first_break(buffer + more, 0) == first_break(buffer, 0),
{
    lemma_first_break(buffer, 0);
    lemma_first_break(buffer + more, 0);
    let i = first_break(buffer, 0)->0;
    assert(is_break(buffer + more, i));
    let j = first_break(buffer + more, 0)->0;
    if j < i {
        assert(is_break(buffer, j));
    }
}

/// A buffer may be drained before or after more text is appended to it.
proof fn lemma_drained_extends(buffer: Seq<char>, more: Seq<char>)
    ensures
        ({
            let first = drained(buffer);
            let whole = drained(buffer + more);
            let second = drained(first.rest + more);
            if first.done {
                whole.pieces == first.pieces && whole.done
            } else {
                &&& whole.pieces == first.pieces + second.pieces
                &&& whole.done == second.done
                &&& whole.rest == second.rest
            }
        }),
    decreases buffer.len(),
{
    let first = drained(buffer);
    match first_break(buffer, 0) {
        None => {
            assert(first.pieces + drained(buffer + more).pieces =~= drained(buffer + more).pieces);
        },
        Some(i) => {
            lemma_first_break(buffer, 0);
            lemma_first_break_extends(buffer, more);
            assert((buffer + more).take(i) =~= buffer.take(i));
            assert((buffer + more).skip(i + 2) =~= buffer.skip(i + 2) + more);
            let said = event_said(buffer.take(i));
            if !said.done {
                lemma_drained_extends(buffer.skip(i + 2), more);
                let second = drained(first.rest + more);
                let inner = drained(buffer.skip(i + 2));
                assert(said.pieces + (inner.pieces + second.pieces) =~= (said.pieces + inner.pieces)
                    + second.pieces);
            }
        },
    }
}

/// How the text of a response is cut into pieces does not matter: two pieces fed
/// one after the other say what their concatenation says.
pub proof fn law_cuts_do_not_matter(stream: StreamView, first: Seq<char>, second: Seq<char>)
    ensures
        ({
            let (between, first_events) = fed(stream, first);
            let (after, second_events) = fed(between, second);
            let (whole, whole_events) = fed(stream, first + second);
            &&& whole_events == first_events + second_events
            &&& whole.done == after.done
            &&& !whole.done ==> whole == after
        }),
{
    let (between, first_events) = fed(stream, first);
    let (after, second_events) = fed(between, second);
    let (whole, whole_events) = fed(stream, first + second);
    if stream.done {
        assert(whole_events =~= first_events + second_events);
    } else {
        lemma_drained_extends(stream.buffer + first, second);
        assert(stream.buffer + (first + second) =~= (stream.buffer + first) + second);
        assert(whole_events =~= first_events + second_events);
    }
}

/// The same of bytes: where the cut falls between two characters, two chunks say
/// what they say together.
pub proof fn law_byte_cuts_do_not_matter(stream: StreamView, first: Seq<u8>, second: Seq<u8>)
    requires
        valid_utf8(first),
        valid_utf8(second),
    ensures
        valid_utf8(first + second),
        ({
            let (between, first_events) = fed(stream, decode_utf8(first));
            let (after, second_events) = fed(between, decode_utf8(second));
            let (whole, whole_events) = fed(stream, decode_utf8(first + second));
            &&& whole_events == first_events + second_events
            &&& whole.done == after.done
            &&& !whole.done ==> whole == after
        }),
{
    valid_utf8_concat(first, second);
    lemma_decode_concat(first, second);
    law_cuts_do_not_matter(stream, decode_utf8(first), decode_utf8(second));
}

proof fn lemma_decode_concat(first: Seq<u8>, second: Seq<u8>)
    requires
        valid_utf8(first),
        valid_utf8(second),
    ensures
        decode_utf8(first + second) == decode_utf8(first) + decode_utf8(second),
{
    let a = decode_utf8(first);
    let b = decode_utf8(second);
    decode_utf8_encode_utf8(first);
    decode_utf8_encode_utf8(second);
    lemma_encode_concat(a, b);
    encode_utf8_decode_utf8(a + b);
}

proof fn lemma_encode_concat(a: Seq<char>, b: Seq<char>)
    ensures
        encode_utf8(a + b) == encode_utf8(a) + encode_utf8(b),
    decreases a.len(),
{
    if a.len() == 0 {
        assert(a + b =~= b);
        assert(encode_utf8(a) + encode_utf8(b) =~= encode_utf8(b));
    } else {
        assert((a + b).drop_first() =~= a.drop_first() + b);
        lemma_encode_concat(a.drop_first(), b);
        assert(encode_utf8(a + b) =~= encode_utf8(a) + encode_utf8(b));
    }
}

/// The events of a whole response that comes in these pieces, its end among
/// them.
pub open spec fn answered(stream: StreamView, pieces: Seq<Seq<char>>) -> Seq<EventView>
    decreases pieces.len(),
{
    if pieces.len() == 0 {
        if stream.done {
            Seq::empty()
        } else {
            seq![EventView::LlmComplete]
        }
    } else {
        let (next, events) = fed(stream, pieces.first());
        events + answered(next, pieces.drop_first())
    }
}

/// The concatenation of these texts.
pub open spec fn concatenated(pieces: Seq<Seq<char>>) -> Seq<char>
    decreases pieces.len(),
{
    if pieces.len() == 0 {
        Seq::empty()
    } else {
        pieces.first() + concatenated(pieces.drop_first())
    }
}

/// A response, however it comes in, gives the pieces of the answer that stand in
/// its whole text, in their order, and then exactly one completion.
pub proof fn law_every_answer_completes_once(pieces: Seq<Seq<char>>)
    ensures
        answered(StreamView { buffer: Seq::empty(), done: false }, pieces) == drained(
            concatenated(pieces),
        ).pieces.map_values(|p: Seq<char>| EventView::LlmToken(p)).push(EventView::LlmComplete),
{
    let new = StreamView { buffer: Seq::empty(), done: false };
    lemma_answered(new, pieces);
    assert(new.buffer + concatenated(pieces) =~= concatenated(pieces));
}

/// What stays in a buffer holds no whole event.
proof fn lemma_rest_is_unended(buffer: Seq<char>)
    requires
        !drained(buffer).done,
    ensures
        first_break(drained(buffer).rest, 0) is None,
    decreases buffer.len(),
{
    lemma_first_break(buffer, 0);
    match first_break(buffer, 0) {
        None => {},
        Some(i) => {
            lemma_rest_is_unended(buffer.skip(i + 2));
        },
    }
}

proof fn lemma_answered(stream: StreamView, pieces: Seq<Seq<char>>)
    requires
        !stream.done ==> first_break(stream.buffer, 0) is None,
    ensures
        stream.done ==> answered(stream, pieces) == Seq::<EventView>::empty(),
        !stream.done ==> answered(stream, pieces) == drained(
            stream.buffer + concatenated(pieces),
        ).pieces.map_values(|p: Seq<char>| EventView::LlmToken(p)).push(EventView::LlmComplete),
    decreases pieces.len(),
{
    let f = |p: Seq<char>| EventView::LlmToken(p);
    if pieces.len() == 0 {
        assert(stream.buffer + concatenated(pieces) =~= stream.buffer);
        if !stream.done {
            assert(answered(stream, pieces) =~= drained(stream.buffer).pieces.map_values(f).push(
                EventView::LlmComplete,
            ));
        }
    } else {
        let (next, events) = fed(stream, pieces.first());
        let rest = concatenated(pieces.drop_first());
        if stream.done {
            lemma_answered(next, pieces.drop_first());
            assert(answered(stream, pieces) =~= Seq::<EventView>::empty());
        } else {
            let read = stream.buffer + pieces.first();
            assert(stream.buffer + concatenated(pieces) =~= read + rest);
            lemma_drained_extends(read, rest);
            if !next.done {
                lemma_rest_is_unended(read);
            }
            lemma_answered(next, pieces.drop_first());
            assert(answered(stream, pieces) =~= drained(read + rest).pieces.map_values(f).push(
                EventView::LlmComplete,
            ));
        }
    }
}

/// An event with one data line gives the piece of the answer in it, and leaves
/// nothing behind.
pub proof fn law_data_event_is_read(data: Seq<char>, piece: Seq<char>)
    requires
        data.len() > 0,
        !text::is_space(data.last()),
        !data.contains('\n'),
        text::trim(data) != "[DONE]"@,
        piece_of(data) == Some(piece),
    ensures
        drained("data: "@ + data + "\n\n"@) == (Drained {
            pieces: seq![piece],
            done: false,
            rest: Seq::empty(),
        }),
{
    reveal_strlit("data: ");
    reveal_strlit("\n\n");
    let line = "data: "@ + data;
    let buffer = line + "\n\n"@;
    assert(line.take(6) =~= "data: "@);
    assert(line.skip(6) =~= data);
    let all = seq![line];
    assert(all.drop_first() =~= Seq::<Seq<char>>::empty());
    reveal_with_fuel(lines_said, 2);
    assert(lines_said(all).pieces =~= seq![piece]);
    assert(!line.contains('\n')) by {
        assert forall|k: int| 0 <= k < line.len() implies line[k] != '\n' by {
            if k >= 6 {
                assert(line[k] == data[k - 6]);
            }
        }
    }
    lemma_one_line(line, "\n\n"@);
    assert(buffer.take(line.len() as int) =~= line);
    assert(buffer.skip(line.len() as int + 2) =~= Seq::<char>::empty());
    assert(drained(Seq::<char>::empty()).pieces =~= Seq::<Seq<char>>::empty());
    assert(seq![piece] + Seq::<Seq<char>>::empty() =~= seq![piece]);
}

/// A block of one line, followed by an empty line, is an event of that line.
proof fn lemma_one_line(line: Seq<char>, after: Seq<char>)
    requires
        line.len() > 0,
        !text::is_space(line.first()),
        !text::is_space(line.last()),
        !line.contains('\n'),
        after.len() >= 2,
        after[0] == '\n',
        after[1] == '\n',
    ensures
        text::lines(text::trim(line)) == seq![line],
        first_break(line + after, 0) == Some(line.len() as int),
{
    text::lemma_index_from(line, '\n', 0);
    lemma_first_break(line + after, 0);
    assert(is_break(line + after, line.len() as int));
    let i = first_break(line + after, 0)->0;
    if i < line.len() {
        assert((line + after)[i] == line[i]);
    }
    if text::index_from(line, '\n', 0) < line.len() {
        assert(line.contains(line[text::index_from(line, '\n', 0)]));
    }
}

/// Once the answer is complete, whatever text follows is left unread.
pub proof fn law_nothing_after_done_is_read(after: Seq<char>)
    ensures
        drained("data: [DONE]\n\n"@ + after) == (Drained {
            pieces: Seq::empty(),
            done: true,
            rest: after,
        }),
{
    reveal_strlit("data: [DONE]\n\n");
    reveal_strlit("data: ");
    reveal_strlit("[DONE]");
    let line = "data: [DONE]\n\n"@.take(12);
    let buffer = "data: [DONE]\n\n"@ + after;
    assert(buffer =~= line + buffer.skip(12));
    assert(!line.contains('\n'));
    lemma_one_line(line, buffer.skip(12));
    assert(line.take(6) =~= "data: "@);
    assert(line.skip(6) =~= "[DONE]"@);
    let done = "[DONE]"@;
    assert(!text::is_space(done.first()) && !text::is_space(done.last()));
    assert(text::trim(done) == done);
    reveal_with_fuel(lines_said, 2);
    assert(buffer.take(12) =~= line);
    assert(buffer.skip(14) =~= after);
    assert(lines_said(seq![line]).pieces =~= Seq::<Seq<char>>::empty());
}

proof fn lemma_line_pieces_are_not_empty(lines: Seq<Seq<char>>)
    ensures
        forall|i: int|
            0 <= i < lines_said(lines).pieces.len() ==> (#[trigger] lines_said(
                lines,
            ).pieces[i]).len() > 0,
    decreases lines.len(),
{
    if lines.len() > 0 {
        let rest = lines_said(lines.drop_first()).pieces;
        lemma_line_pieces_are_not_empty(lines.drop_first());
        assert forall|i: int| 0 <= i < lines_said(lines).pieces.len() implies (
        #[trigger] lines_said(lines).pieces[i]).len() > 0 by {
            let here = lines_said(lines).pieces;
            if here.len() == rest.len() {
                assert(here[i] == rest[i]);
            } else if i > 0 {
                assert(here[i] == rest[i - 1]);
            }
        }
    }
}

/// No piece of an answer is empty.
pub proof fn law_no_piece_is_empty(buffer: Seq<char>)
    ensures
        forall|i: int|
            0 <= i < drained(buffer).pieces.len() ==> (#[trigger] drained(buffer).pieces[i]).len()
                > 0,
    decreases buffer.len(),
{
    match first_break(buffer, 0) {
        None => {},
        Some(end) => {
            lemma_first_break(buffer, 0);
            let said = event_said(buffer.take(end));
            let rest = drained(buffer.skip(end + 2)).pieces;
            lemma_line_pieces_are_not_empty(text::lines(text::trim(buffer.take(end))));
            law_no_piece_is_empty(buffer.skip(end + 2));
            assert forall|i: int| 0 <= i < drained(buffer).pieces.len() implies (
            #[trigger] drained(buffer).pieces[i]).len() > 0 by {
                if i < said.pieces.len() {
                    assert(drained(buffer).pieces[i] == said.pieces[i]);
                } else {
                    assert(drained(buffer).pieces[i] == rest[i - said.pieces.len()]);
                }
            }
        },
    }
}

/// The piece in a document is the text under `choices`, first element, `delta`,
/// `content`, character for character; white space at its ends or nothing but white
/// space is kept. Only an empty text is no piece.
pub proof fn law_piece_is_verbatim(
    members: Map<Seq<char>, Json>,
    choices: Seq<Json>,
    choice: Map<Seq<char>, Json>,
    delta: Map<Seq<char>, Json>,
    said: Seq<char>,
)
    requires
        members.dom().contains("choices"@),
        members["choices"@] == Json::Array(choices),
        choices.len() > 0,
        choices[0] == Json::Object(choice),
        choice.dom().contains("delta"@),
        choice["delta"@] == Json::Object(delta),
        delta.dom().contains("content"@),
        delta["content"@] == Json::Text(said),
    ensures
        said.len() > 0 ==> piece_in(Json::Object(members)) == Some(said),
        said.len() == 0 ==> piece_in(Json::Object(members)) is None,
{
}

/// Whether a document has this text under `choices`, first element, `delta`,
/// `content`.
pub open spec fn carries(document: Json, said: Seq<char>) -> bool {
    &&& document matches Json::Object(members)
    &&& members.dom().contains("choices"@)
    &&& members["choices"@] matches Json::Array(choices)
    &&& choices.len() > 0
    &&& choices[0] matches Json::Object(choice)
    &&& choice.dom().contains("delta"@)
    &&& choice["delta"@] matches Json::Object(delta)
    &&& delta.dom().contains("content"@)
    &&& delta["content"@] == Json::Text(said)
}

/// A document has a piece exactly where it has a text there that is not empty, and
/// that text is the piece.
pub proof fn law_piece_comes_from_the_content(document: Json, said: Seq<char>)
    ensures
        piece_in(document) == Some(said) <==> carries(document, said) && said.len() > 0,
{
}

/// The data of a line is all that follows its first six characters. It completes the
/// answer where it is the end mark but for white space around it. A line that begins
/// otherwise says nothing.
pub proof fn law_data_is_what_follows(data: Seq<char>, line: Seq<char>)
    ensures
        ({
            let said = line_said(seq!['d', 'a', 't', 'a', ':', ' '] + data);
            let end = seq!['[', 'D', 'O', 'N', 'E', ']'];
            &&& text::trim(data) == end ==> said == LineView::Done
            &&& text::trim(data) != end ==> said == LineView::Data(data)
        }),
        line.len() < 6 || line.take(6) != seq!['d', 'a', 't', 'a', ':', ' '] ==> line_said(line)
            == LineView::Other,
{
    reveal_strlit("data: ");
    reveal_strlit("[DONE]");
    let head = seq!['d', 'a', 't', 'a', ':', ' '];
    assert("data: "@ =~= head);
    assert("[DONE]"@ =~= seq!['[', 'D', 'O', 'N', 'E', ']']);
    assert((head + data).take(6) =~= head);
    assert((head + data).skip(6) =~= data);
}

/// The lines of an event are read in their order, every one of them, until one
/// completes the answer.
pub proof fn law_lines_are_read_in_order(first: Seq<Seq<char>>, second: Seq<Seq<char>>)
    ensures
        lines_said(first).done ==> lines_said(first + second) == lines_said(first),
        !lines_said(first).done ==> lines_said(first + second) == (Reading {
            pieces: lines_said(first).pieces + lines_said(second).pieces,
            done: lines_said(second).done,
        }),
    decreases first.len(),
{
    if first.len() == 0 {
        assert(first + second =~= second);
        assert(lines_said(first).pieces + lines_said(second).pieces =~= lines_said(second).pieces);
    } else {
        law_lines_are_read_in_order(first.drop_first(), second);
        assert((first + second).drop_first() =~= first.drop_first() + second);
        assert((first + second).first() == first.first());
        match line_said(first.first()) {
            LineView::Data(data) => match piece_of(data) {
                Some(piece) => {
                    let rest = lines_said(first.drop_first()).pieces;
                    let more = lines_said(second).pieces;
                    assert(seq![piece] + (rest + more) =~= (seq![piece] + rest) + more);
                },
                None => {},
            },
            _ => {},
        }
    }
}

/// A line alone gives the piece in the document that its data is, and nothing where
/// the data is no document; the end mark completes the answer; other lines are
/// skipped.
pub proof fn law_line_gives_its_piece(data: Seq<char>, said: Seq<char>, line: Seq<char>)
    ensures
        ({
            let read = lines_said(seq![seq!['d', 'a', 't', 'a', ':', ' '] + data]);
            let end = seq!['[', 'D', 'O', 'N', 'E', ']'];
            &&& text::trim(data) == end ==> read.done && read.pieces.len() == 0
            &&& text::trim(data) != end ==> !read.done && read.pieces.len() <= 1
            &&& text::trim(data) != end ==> (read.pieces == seq![said] <==> {
                &&& json::parsed(data) matches Some(document)
                &&& carries(document, said)
                &&& said.len() > 0
            })
        }),
        line.len() < 6 || line.take(6) != seq!['d', 'a', 't', 'a', ':', ' '] ==> lines_said(
            seq![line],
        ) == (Reading { pieces: Seq::empty(), done: false }),
{
    law_data_is_what_follows(data, line);
    reveal_with_fuel(lines_said, 2);
    let all = seq![seq!['d', 'a', 't', 'a', ':', ' '] + data];
    let none = Seq::<Seq<char>>::empty();
    assert(all.drop_first() =~= none);
    assert(seq![line].drop_first() =~= none);
    match piece_of(data) {
        Some(piece) => {
            assert(seq![piece] + lines_said(none).pieces =~= seq![piece]);
            assert(seq![piece][0] == piece);
            assert(seq![said][0] == said);
        },
        None => {
            assert(seq![said].len() == 1);
        },
    }
    match json::parsed(data) {
        Some(document) => {
            law_piece_comes_from_the_content(document, said);
        },
        None => {},
    }
}

/// An event ends at the first empty line. Its lines are read before all that
/// follows, which is read as if it stood alone, or not at all where the event
/// completes the answer. A buffer without an empty line says nothing and is kept.
pub proof fn law_event_is_read_before_the_rest(event: Seq<char>, rest: Seq<char>)
    requires
        forall|i: int|
            0 <= i < event.len() - 1 ==> !(#[trigger] event[i] == '\n' && event[i + 1] == '\n'),
    ensures
        ({
            let whole = drained(event + seq!['\n', '\n'] + rest);
            let said = lines_said(text::lines(text::trim(event)));
            let more = drained(rest);
            event.len() == 0 || event[event.len() - 1] != '\n' ==> whole == if said.done {
                Drained { pieces: said.pieces, done: true, rest }
            } else {
                Drained { pieces: said.pieces + more.pieces, done: more.done, rest: more.rest }
            }
        }),
        drained(event) == (Drained { pieces: Seq::empty(), done: false, rest: event }),
{
    let buffer = event + seq!['\n', '\n'] + rest;
    let n = event.len() as int;
    lemma_first_break(event, 0);
    if event.len() == 0 || event[n - 1] != '\n' {
        lemma_first_break(buffer, 0);
        assert(buffer[n] == '\n' && buffer[n + 1] == '\n');
        assert(is_break(buffer, n));
        let i = first_break(buffer, 0)->0;
        if i < n {
            assert(buffer[i] == event[i]);
            if i + 1 < n {
                assert(buffer[i + 1] == event[i + 1]);
            }
        }
        assert(buffer.take(n) =~= event);
        assert(buffer.skip(n + 2) =~= rest);
    }
}

/// Events of one data line each.
pub open spec fn as_events(lines: Seq<Seq<char>>) -> Seq<char>
    decreases lines.len(),
{
    if lines.len() == 0 {
        Seq::empty()
    } else {
        seq!['d', 'a', 't', 'a', ':', ' '] + lines.first() + seq!['\n', '\n'] + as_events(
            lines.drop_first(),
        )
    }
}

/// Whether data is a document with this text in it, on one line.
pub open spec fn is_piece(data: Seq<char>, said: Seq<char>) -> bool {
    &&& data.len() > 0
    &&& !text::is_space(data[data.len() - 1])
    &&& forall|i: int| 0 <= i < data.len() ==> #[trigger] data[i] != '\n'
    &&& text::trim(data) != seq!['[', 'D', 'O', 'N', 'E', ']']
    &&& said.len() > 0
    &&& json::parsed(data) matches Some(document) && carries(document, said)
}

proof fn lemma_event_of_a_piece(data: Seq<char>, said: Seq<char>, rest: Seq<char>)
    requires
        is_piece(data, said),
    ensures
        drained(seq!['d', 'a', 't', 'a', ':', ' '] + data + seq!['\n', '\n'] + rest) == (Drained {
            pieces: seq![said] + drained(rest).pieces,
            done: drained(rest).done,
            rest: drained(rest).rest,
        }),
{
    let line = seq!['d', 'a', 't', 'a', ':', ' '] + data;
    assert forall|i: int| 0 <= i < line.len() implies #[trigger] line[i] != '\n' by {
        if i >= 6 {
            assert(line[i] == data[i - 6]);
        }
    }
    assert(line.last() == data[data.len() - 1]);
    lemma_one_line(line, seq!['\n', '\n']);
    law_line_gives_its_piece(data, said, line);
    law_event_is_read_before_the_rest(line, rest);
}

proof fn lemma_events_of_pieces(lines: Seq<Seq<char>>, said: Seq<Seq<char>>, rest: Seq<char>)
    requires
        lines.len() == said.len(),
        forall|i: int| 0 <= i < lines.len() ==> is_piece(#[trigger] lines[i], said[i]),
    ensures
        drained(as_events(lines) + rest) == (Drained {
            pieces: said + drained(rest).pieces,
            done: drained(rest).done,
            rest: drained(rest).rest,
        }),
    decreases lines.len(),
{
    if lines.len() == 0 {
        assert(as_events(lines) + rest =~= rest);
        assert(said + drained(rest).pieces =~= drained(rest).pieces);
    } else {
        let fewer = lines.drop_first();
        let less = said.drop_first();
        assert forall|i: int| 0 <= i < fewer.len() implies is_piece(
            #[trigger] fewer[i],
            less[i],
        ) by {
            assert(fewer[i] == lines[i + 1]);
        }
        lemma_events_of_pieces(fewer, less, rest);
        assert(is_piece(lines[0], said[0]));
        lemma_event_of_a_piece(lines[0], said[0], as_events(fewer) + rest);
        assert(as_events(lines) + rest =~= seq!['d', 'a', 't', 'a', ':', ' '] + lines[0] + seq![
            '\n',
            '\n',
        ] + (as_events(fewer) + rest));
        assert(seq![said[0]] + (less + drained(rest).pieces) =~= said + drained(rest).pieces);
    }
}

/// The pieces of an answer come out as they stand in its documents, all of them and
/// in their order. They are followed by the completion where the end mark follows
/// them, and whatever stands after that is not read.
pub proof fn law_answer_is_read_in_order(
    lines: Seq<Seq<char>>,
    said: Seq<Seq<char>>,
    later: Seq<char>,
)
    requires
        lines.len() == said.len(),
        forall|i: int| 0 <= i < lines.len() ==> is_piece(#[trigger] lines[i], said[i]),
    ensures
        ({
            let new = StreamView { buffer: Seq::empty(), done: false };
            let (open, events) = fed(new, as_events(lines));
            let (closed, all) = fed(new, as_events(lines) + "data: [DONE]\n\n"@ + later);
            &&& !open.done && open.buffer.len() == 0
            &&& events.len() == said.len()
            &&& forall|i: int|
                0 <= i < said.len() ==> #[trigger] events[i] == EventView::LlmToken(said[i])
            &&& closed.done
            &&& all.len() == said.len() + 1
            &&& forall|i: int|
                0 <= i < said.len() ==> #[trigger] all[i] == EventView::LlmToken(said[i])
            &&& all[said.len() as int] == EventView::LlmComplete
        }),
{
    let none = Seq::<char>::empty();
    let text = as_events(lines);
    let end = "data: [DONE]\n\n"@ + later;
    lemma_events_of_pieces(lines, said, none);
    assert(text + none =~= text);
    assert(none + text =~= text);
    assert(drained(none).pieces =~= Seq::<Seq<char>>::empty());
    assert(said + drained(none).pieces =~= said);
    lemma_events_of_pieces(lines, said, end);
    law_nothing_after_done_is_read(later);
    assert(none + (text + "data: [DONE]\n\n"@ + later) =~= text + end);
    assert(said + drained(end).pieces =~= said);
}

/// A stream whose text has no empty line yet says nothing and keeps all of it.
pub proof fn law_unended_event_is_kept(stream: StreamView, more: Seq<char>)
    requires
        !stream.done,
        forall|i: int|
            0 <= i < (stream.buffer + more).len() - 1 ==> !(#[trigger] (stream.buffer + more)[i]
                == '\n' && (stream.buffer + more)[i + 1] == '\n'),
    ensures
        fed(stream, more).0 == (StreamView { buffer: stream.buffer + more, done: false }),
        fed(stream, more).1.len() == 0,
{
    law_event_is_read_before_the_rest(stream.buffer + more, Seq::empty());
}

/// What is read of a document is the text in it, as it is.
pub proof fn law_read_piece_is_verbatim(
    value: &serde_json::Value,
    piece: Option<String>,
    said: Seq<char>,
)
    requires
        call_ensures(read_document, (value,), piece),
    ensures
        carries(json::document(*value), said) && said.len() > 0 <==> {
            &&& piece matches Some(p)
            &&& p@ == said
        },
{
    law_piece_comes_from_the_content(json::document(*value), said);
}

} // verus!
