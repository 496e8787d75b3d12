//! The decoder for a line-delimited event stream.
//!
//! The transport hands over chunks of bytes that end anywhere. The decoder keeps the
//! line under way across chunks, and reads each finished line: a line `data: [DONE]`
//! ends the turn, a line `data: ` followed by a delta record yields that record's
//! events, and every other line (empty, a comment, another field, a record that does
//! not parse) yields nothing. One carriage return before the line break is not part
//! of the line. After the end of the turn the decoder reads nothing more.

use vstd::prelude::*;
use vstd::slice::slice_subrange;
use vstd::string::*;
use crate::event::Event;
use crate::event::StreamEvent;
use crate::event::event_views;
use crate::json::json_parse;
use crate::json::parse_document;
use crate::record::delta_events;
use crate::record::events_of_delta;
use crate::record::read_record;
use crate::record::record_of;

verus! {

/// The bytes of a text of ASCII characters.
pub open spec fn ascii(text: Seq<char>) -> Seq<u8> {
    Seq::new(text.len(), |i: int| text[i] as u8)
}

/// What stands before the record on a data line.
pub open spec fn data_prefix() -> Seq<u8> {
    ascii("data: "@)
}

/// The line that ends the turn.
pub open spec fn terminator() -> Seq<u8> {
    ascii("data: [DONE]"@)
}

/// The byte that ends a line.
pub const LINE_BREAK: u8 = 10;

/// The byte that may stand before the line break.
pub const CARRIAGE_RETURN: u8 = 13;

/// The byte that ends a line.
pub open spec fn line_break() -> u8 {
    LINE_BREAK
}

/// The line without the carriage return that may end it.
pub open spec fn trimmed(line: Seq<u8>) -> Seq<u8> {
    if line.len() > 0 && line.last() == CARRIAGE_RETURN {
        line.drop_last()
    } else {
        line
    }
}

/// The events of what follows `data: ` on a line: those of the delta record it holds,
/// none where it holds no such record.
pub open spec fn payload_events(payload: Seq<u8>) -> Seq<Event> {
    match json_parse(payload) {
        Some(tree) => match record_of(tree) {
            Some(Some(delta)) => delta_events(delta),
            _ => Seq::empty(),
        },
        None => Seq::empty(),
    }
}

/// The events of one line, given without its line break.
pub open spec fn line_events(line: Seq<u8>) -> Seq<Event> {
    let line = trimmed(line);
    if line == terminator() {
        seq![Event::End]
    } else if data_prefix().is_prefix_of(line) {
        payload_events(line.skip(data_prefix().len() as int))
    } else {
        Seq::empty()
    }
}

/// Whether the events close the turn.
pub open spec fn ends_turn(events: Seq<Event>) -> bool {
    events.len() > 0 && events.last() is End
}

/// The bytes of an ASCII string are its characters.
proof fn lemma_ascii_bytes(text: &str)
    requires
        is_ascii(text),
    ensures
        text.spec_bytes() == ascii(text@),
{
    is_ascii_spec_bytes(text);
}

fn same_bytes(left: &[u8], right: &[u8]) -> (r: bool)
    ensures
        r == (left@ == right@),
{
    if left.len() != right.len() {
        return false;
    }
    let mut i: usize = 0;
    while i < left.len()
        invariant
            i <= left.len(),
            left.len() == right.len(),
            forall|k: int| 0 <= k < i ==> left@[k] == right@[k],
        decreases left.len() - i,
    {
        if left[i] != right[i] {
            return false;
        }
        i += 1;
    }
    assert(left@ =~= right@);
    true
}

fn starts_with(line: &[u8], prefix: &[u8]) -> (r: bool)
    ensures
        r == prefix@.is_prefix_of(line@),
{
    if prefix.len() > line.len() {
        return false;
    }
    same_bytes(slice_subrange(line, 0, prefix.len()), prefix)
}

/// Reads what follows `data: ` on a line.
pub fn decode_payload(payload: &[u8]) -> (events: Vec<StreamEvent>)
    ensures
        event_views(events@) == payload_events(payload@),
{
    match parse_document(payload) {
        Ok(document) => match read_record(&document) {
            Some(Some(delta)) => events_of_delta(delta),
            _ => Vec::new(),
        },
        Err(_) => Vec::new(),
    }
}

/// Reads one line, given without its line break.
pub fn decode_line(line: &[u8]) -> (events: Vec<StreamEvent>)
    ensures
        event_views(events@) == line_events(line@),
{
    let mut end: usize = line.len();
    if end > 0 && line[end - 1] == CARRIAGE_RETURN {
        end = end - 1;
    }
    let body = slice_subrange(line, 0, end);
    assert(body@ =~= trimmed(line@));
    let done = "data: [DONE]";
    let prefix = "data: ";
    proof {
        reveal_strlit("data: [DONE]");
        reveal_strlit("data: ");
        lemma_ascii_bytes(done);
        lemma_ascii_bytes(prefix);
    }
    if same_bytes(body, done.as_bytes()) {
        let mut events: Vec<StreamEvent> = Vec::new();
        events.push(StreamEvent::End);
        events
    } else if starts_with(body, prefix.as_bytes()) {
        decode_payload(slice_subrange(body, prefix.as_bytes().len(), body.len()))
    } else {
        Vec::new()
    }
}

/// Whether no line break stands among the bytes.
pub open spec fn unbroken(bytes: Seq<u8>) -> bool {
    forall|i: int| 0 <= i < bytes.len() ==> bytes[i] != line_break()
}

/// What a decoder remembers between chunks.
pub struct DecoderState {
    /// The bytes of the line under way.
    pub pending: Seq<u8>,
    /// Whether the end of the turn was read.
    pub ended: bool,
}

/// The state before any byte.
pub open spec fn initial_state() -> DecoderState {
    DecoderState { pending: Seq::empty(), ended: false }
}

/// Reading one byte: the next state and the events that the byte completes.
pub open spec fn step(state: DecoderState, byte: u8) -> (DecoderState, Seq<Event>) {
    if state.ended {
        (state, Seq::empty())
    } else if byte == line_break() {
        let events = line_events(state.pending);
        (DecoderState { pending: Seq::empty(), ended: ends_turn(events) }, events)
    } else {
        (DecoderState { pending: state.pending.push(byte), ended: false }, Seq::empty())
    }
}

/// Reading a run of bytes: the state after it and the events it completes, in order.
pub open spec fn advance(state: DecoderState, bytes: Seq<u8>) -> (DecoderState, Seq<Event>)
    decreases bytes.len(),
{
    if bytes.len() == 0 {
        (state, Seq::empty())
    } else {
        let (before, earlier) = advance(state, bytes.drop_last());
        let (after, later) = step(before, bytes.last());
        (after, earlier + later)
    }
}

/// The events of the line under way when the transport closes.
pub open spec fn flush(state: DecoderState) -> Seq<Event> {
    if state.ended {
        Seq::empty()
    } else {
        line_events(state.pending)
    }
}

/// The decoder of one response stream.
pub struct SseDecoder {
    pending: Vec<u8>,
    ended: bool,
}

impl View for SseDecoder {
    type V = DecoderState;

    closed spec fn view(&self) -> DecoderState {
        DecoderState { pending: self.pending@, ended: self.ended }
    }
}

impl SseDecoder {
    /// A decoder that has read nothing.
    pub fn new() -> (decoder: SseDecoder)
        ensures
            decoder@ == initial_state(),
    {
        SseDecoder { pending: Vec::new(), ended: false }
    }

    /// Whether the end of the turn was read.
    pub fn ended(&self) -> (r: bool)
        ensures
            r == self@.ended,
    {
        self.ended
    }

    /// Reads the next chunk and returns the events of the lines that it completes.
    /// The line under way is kept free of line breaks.
    pub fn feed(&mut self, chunk: &[u8]) -> (events: Vec<StreamEvent>)
        ensures
            (final(self)@, event_views(events@)) == advance(old(self)@, chunk@),
            unbroken(old(self)@.pending) ==> unbroken(final(self)@.pending),
    {
        let mut events: Vec<StreamEvent> = Vec::new();
        let mut i: usize = 0;
        while i < chunk.len()
            invariant
                i <= chunk.len(),
                (self@, event_views(events@)) == advance(old(self)@, chunk@.take(i as int)),
                unbroken(old(self)@.pending) ==> unbroken(self@.pending),
            decreases chunk.len() - i,
        {
            let byte = chunk[i];
            assert(chunk@.take(i + 1).drop_last() =~= chunk@.take(i as int));
            if !self.ended {
                if byte == LINE_BREAK {
                    let mut found = decode_line(self.pending.as_slice());
                    self.ended = found.len() > 0 && matches!(
                        found[found.len() - 1],
                        StreamEvent::End
                    );
                    self.pending.clear();
                    events.append(&mut found);
                } else {
                    self.pending.push(byte);
                }
            }
            i += 1;
        }
        assert(chunk@.take(i as int) =~= chunk@);
        events
    }

    /// Reads the line under way, for the transport has closed.
    pub fn close(self) -> (events: Vec<StreamEvent>)
        ensures
            event_views(events@) == flush(self@),
    {
        if self.ended {
            Vec::new()
        } else {
            decode_line(self.pending.as_slice())
        }
    }
}

} // verus!
