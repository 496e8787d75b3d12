//! What a whole event stream yields, and why the chunking of it does not matter.
//!
//! [`decode_stream`] states the events of a closed stream from its lines.
//! [`decode_chunks`] states what a decoder that is fed chunk by chunk and then closed
//! has given out. The two agree for every way of cutting the stream.

use vstd::prelude::*;
use crate::event::Event;
use crate::event::has_end;
use crate::invoke::InvocationError;
use crate::invoke::outcome;
use crate::json::json_parse;
use crate::record::DeltaShape;
use crate::record::record_of;
use crate::sse::data_prefix;
use crate::sse::terminator;
use crate::sse::trimmed;
use crate::sse::unbroken;
use crate::sse::DecoderState;
use crate::sse::advance;
use crate::sse::ends_turn;
use crate::sse::flush;
use crate::sse::initial_state;
use crate::sse::line_break;
use crate::sse::line_events;
use crate::sse::step;

verus! {

/// How many bytes stand before the first line break, or the length where there is none.
pub open spec fn first_line_length(bytes: Seq<u8>) -> nat
    decreases bytes.len(),
{
    if bytes.len() == 0 || bytes[0] == line_break() {
        0
    } else {
        1 + first_line_length(bytes.drop_first())
    }
}

/// The lines of a stream: what stands between its line breaks, before the first and
/// after the last. A stream that ends in a line break has an empty last line.
pub open spec fn lines_of(bytes: Seq<u8>) -> Seq<Seq<u8>>
    decreases bytes.len(),
{
    let cut = first_line_length(bytes);
    if cut >= bytes.len() {
        seq![bytes]
    } else {
        seq![bytes.take(cut as int)] + lines_of(bytes.skip(cut as int + 1))
    }
}

/// The events of a run of lines: those of each line in order, up to and including the
/// line that ends the turn.
pub open spec fn events_of_lines(lines: Seq<Seq<u8>>) -> Seq<Event>
    decreases lines.len(),
{
    if lines.len() == 0 {
        Seq::empty()
    } else {
        let first = line_events(lines[0]);
        if ends_turn(first) {
            first
        } else {
            first + events_of_lines(lines.drop_first())
        }
    }
}

/// The events of a closed stream.
pub open spec fn decode_stream(bytes: Seq<u8>) -> Seq<Event> {
    events_of_lines(lines_of(bytes))
}

/// Feeding chunks in turn: the state after the last and the events given out so far.
pub open spec fn feed_all(state: DecoderState, chunks: Seq<Seq<u8>>) -> (DecoderState, Seq<Event>)
    decreases chunks.len(),
{
    if chunks.len() == 0 {
        (state, Seq::empty())
    } else {
        let (before, earlier) = feed_all(state, chunks.drop_last());
        let (after, later) = advance(before, chunks.last());
        (after, earlier + later)
    }
}

/// The events that a fresh decoder gives out when it is fed the chunks in turn and
/// then closed.
pub open spec fn decode_chunks(chunks: Seq<Seq<u8>>) -> Seq<Event> {
    let (state, events) = feed_all(initial_state(), chunks);
    events + flush(state)
}

/// Reading two runs of bytes in turn is reading the two as one.
pub proof fn lemma_advance_concat(state: DecoderState, left: Seq<u8>, right: Seq<u8>)
    ensures
        advance(state, left + right) == ({
            let (middle, earlier) = advance(state, left);
            let (after, later) = advance(middle, right);
            (after, earlier + later)
        }),
    decreases right.len(),
{
    if right.len() > 0 {
        lemma_advance_concat(state, left, right.drop_last());
        assert((left + right).drop_last() =~= left + right.drop_last());
    }
}

/// Feeding chunks in turn is reading their bytes as one run.
pub proof fn lemma_feed_all_is_advance(state: DecoderState, chunks: Seq<Seq<u8>>)
    ensures
        feed_all(state, chunks) == advance(state, chunks.flatten()),
    decreases chunks.len(),
{
    if chunks.len() > 0 {
        lemma_feed_all_is_advance(state, chunks.drop_last());
        chunks.drop_last().lemma_flatten_push(chunks.last());
        assert(chunks.drop_last().push(chunks.last()) =~= chunks);
        lemma_advance_concat(state, chunks.drop_last().flatten(), chunks.last());
    }
}

/// After the end of the turn nothing more is read.
pub proof fn lemma_ended_reads_nothing(state: DecoderState, bytes: Seq<u8>)
    requires
        state.ended,
    ensures
        advance(state, bytes) == (state, Seq::<Event>::empty()),
    decreases bytes.len(),
{
    if bytes.len() > 0 {
        lemma_ended_reads_nothing(state, bytes.drop_last());
    }
}

/// Reading a single byte is one step.
proof fn lemma_advance_one(state: DecoderState, byte: u8)
    ensures
        advance(state, seq![byte]) == step(state, byte),
{
    assert(advance(state, seq![byte].drop_last()) == (state, Seq::<Event>::empty()));
}

/// The first line of an unbroken run followed by more bytes.
proof fn lemma_first_line(pending: Seq<u8>, rest: Seq<u8>)
    requires
        unbroken(pending),
    ensures
        first_line_length(pending + rest) == pending.len() + first_line_length(rest),
    decreases pending.len(),
{
    if pending.len() > 0 {
        assert((pending + rest).drop_first() =~= pending.drop_first() + rest);
        lemma_first_line(pending.drop_first(), rest);
    }
}

/// A decoder that holds an unbroken line under way, reads the rest of the stream and
/// is closed, gives out the events of the lines of the two together.
pub proof fn lemma_rest_of_stream(pending: Seq<u8>, rest: Seq<u8>)
    requires
        unbroken(pending),
    ensures
        ({
            let (state, events) = advance(DecoderState { pending, ended: false }, rest);
            events + flush(state)
        }) == decode_stream(pending + rest),
    decreases rest.len(),
{
    let start = DecoderState { pending, ended: false };
    let whole = pending + rest;
    lemma_first_line(pending, rest);
    if rest.len() == 0 {
        assert(events_of_lines(lines_of(whole).drop_first()) =~= Seq::<Event>::empty());
    } else {
        let byte = rest[0];
        let tail = rest.drop_first();
        assert(rest =~= seq![byte] + tail);
        lemma_advance_concat(start, seq![byte], tail);
        lemma_advance_one(start, byte);
        let (next, first) = step(start, byte);
        if byte == line_break() {
            assert(whole.take(pending.len() as int) =~= pending);
            assert(whole.skip(pending.len() as int + 1) =~= tail);
            assert(lines_of(whole).drop_first() =~= lines_of(tail));
            if ends_turn(first) {
                lemma_ended_reads_nothing(next, tail);
            } else {
                lemma_rest_of_stream(Seq::empty(), tail);
            }
        } else {
            lemma_rest_of_stream(pending.push(byte), tail);
            assert(pending.push(byte) + tail =~= whole);
        }
    }
}

/// A decoder gives out the same events however the stream is cut into chunks: those
/// of the lines of the whole stream.
pub proof fn chunk_boundaries_do_not_matter(chunks: Seq<Seq<u8>>)
    ensures
        decode_chunks(chunks) == decode_stream(chunks.flatten()),
{
    lemma_feed_all_is_advance(initial_state(), chunks);
    lemma_rest_of_stream(Seq::empty(), chunks.flatten());
}

/// Two ways of cutting one stream give the same events.
pub proof fn same_stream_same_events(left: Seq<Seq<u8>>, right: Seq<Seq<u8>>)
    requires
        left.flatten() == right.flatten(),
    ensures
        decode_chunks(left) == decode_chunks(right),
{
    chunk_boundaries_do_not_matter(left);
    chunk_boundaries_do_not_matter(right);
}

/// The stream that carries the lines in order, each followed by a line break.
pub open spec fn stream_of(lines: Seq<Seq<u8>>) -> Seq<u8>
    decreases lines.len(),
{
    if lines.len() == 0 {
        Seq::empty()
    } else {
        lines[0].push(line_break()) + stream_of(lines.drop_first())
    }
}

/// Whether none of the lines holds a line break.
pub open spec fn all_unbroken(lines: Seq<Seq<u8>>) -> bool {
    forall|i: int| 0 <= i < lines.len() ==> unbroken(#[trigger] lines[i])
}

/// The events of the lines one after another, with no regard to the end of the turn.
pub open spec fn all_line_events(lines: Seq<Seq<u8>>) -> Seq<Event>
    decreases lines.len(),
{
    if lines.len() == 0 {
        Seq::empty()
    } else {
        line_events(lines[0]) + all_line_events(lines.drop_first())
    }
}

/// Whether the line is a data line whose record cannot be read: it starts with
/// `data: `, is not the terminator, and what follows is no JSON document or a
/// document of another shape.
pub open spec fn malformed(line: Seq<u8>) -> bool {
    let line = trimmed(line);
    &&& line != terminator()
    &&& data_prefix().is_prefix_of(line)
    &&& match json_parse(line.skip(data_prefix().len() as int)) {
        Some(tree) => record_of(tree) is None,
        None => true,
    }
}

/// The lines of a stream in which every line is followed by a line break are those
/// lines, and an empty one after the last line break.
pub proof fn lemma_lines_of_stream(lines: Seq<Seq<u8>>)
    requires
        all_unbroken(lines),
    ensures
        lines_of(stream_of(lines)) == lines.push(Seq::empty()),
    decreases lines.len(),
{
    if lines.len() > 0 {
        let first = lines[0];
        let rest = lines.drop_first();
        let tail = stream_of(rest);
        let whole = stream_of(lines);
        lemma_lines_of_stream(rest);
        let after = seq![line_break()] + tail;
        assert(whole =~= first + after);
        lemma_first_line(first, after);
        assert(whole.take(first.len() as int) =~= first);
        assert(whole.skip(first.len() as int + 1) =~= tail);
    }
}

/// A line that yields nothing can be left out.
pub proof fn lemma_silent_line(before: Seq<Seq<u8>>, line: Seq<u8>, after: Seq<Seq<u8>>)
    requires
        line_events(line).len() == 0,
    ensures
        events_of_lines(before.push(line) + after) == events_of_lines(before + after),
    decreases before.len(),
{
    let with = before.push(line) + after;
    let without = before + after;
    if before.len() == 0 {
        assert(with.drop_first() =~= after);
    } else {
        lemma_silent_line(before.drop_first(), line, after);
        assert(with.drop_first() =~= before.drop_first().push(line) + after);
        assert(without.drop_first() =~= before.drop_first() + after);
    }
}

/// The events of two runs of lines, where no line of the first ends the turn.
pub proof fn lemma_events_of_lines_concat(left: Seq<Seq<u8>>, right: Seq<Seq<u8>>)
    requires
        forall|i: int| 0 <= i < left.len() ==> !ends_turn(#[trigger] line_events(left[i])),
    ensures
        events_of_lines(left + right) == all_line_events(left) + events_of_lines(right),
    decreases left.len(),
{
    if left.len() > 0 {
        let rest = left.drop_first();
        lemma_events_of_lines_concat(rest, right);
        assert((left + right).drop_first() =~= rest + right);
    }
}

/// The record that a data line carries: `None` where the line is no data line or holds
/// no record, `Some(None)` for a record without choices, else its first choice.
pub open spec fn carried(line: Seq<u8>) -> Option<Option<DeltaShape>> {
    let line = trimmed(line);
    if line != terminator() && data_prefix().is_prefix_of(line) {
        match json_parse(line.skip(data_prefix().len() as int)) {
            Some(tree) => record_of(tree),
            None => None,
        }
    } else {
        None
    }
}

/// The text fragments of the records that have text, in order.
pub open spec fn fragments_of(records: Seq<Option<DeltaShape>>) -> Seq<Event>
    decreases records.len(),
{
    if records.len() == 0 {
        Seq::empty()
    } else {
        let first = match records[0] {
            Some(DeltaShape { content: Some(text), .. }) => seq![Event::TextFragment(text)],
            _ => Seq::empty(),
        };
        first + fragments_of(records.drop_first())
    }
}

/// Whether the record names a reason for finishing.
pub open spec fn finishes(record: Option<DeltaShape>) -> bool {
    record matches Some(delta) && delta.finished
}

/// The events of lines that carry records of which none is finished are the text
/// fragments of those records.
proof fn lemma_open_records(lines: Seq<Seq<u8>>, records: Seq<Option<DeltaShape>>)
    requires
        lines.len() == records.len(),
        forall|i: int| 0 <= i < lines.len() ==> carried(#[trigger] lines[i]) == Some(records[i]),
        forall|i: int| 0 <= i < records.len() ==> !finishes(#[trigger] records[i]),
    ensures
        all_line_events(lines) == fragments_of(records),
        forall|i: int| 0 <= i < lines.len() ==> !ends_turn(#[trigger] line_events(lines[i])),
    decreases lines.len(),
{
    if lines.len() > 0 {
        lemma_open_records(lines.drop_first(), records.drop_first());
    }
}

/// A stream of N lines that each carry a delta record, followed by the terminator
/// line, yields the text fragments of the records that have text, in order, and then
/// the end of the turn, once, however the stream is cut into chunks. Only the last
/// record may name a reason for finishing: the turn ends with the first that does.
pub proof fn records_then_terminator(
    lines: Seq<Seq<u8>>,
    records: Seq<Option<DeltaShape>>,
    chunks: Seq<Seq<u8>>,
)
    requires
        all_unbroken(lines),
        lines.len() == records.len(),
        forall|i: int| 0 <= i < lines.len() ==> carried(#[trigger] lines[i]) == Some(records[i]),
        forall|i: int| 0 <= i < records.len() - 1 ==> !finishes(#[trigger] records[i]),
        chunks.flatten() == stream_of(lines.push(terminator())),
    ensures
        decode_chunks(chunks) == fragments_of(records).push(Event::End),
{
    let last = terminator();
    let sent = lines.push(last);
    chunk_boundaries_do_not_matter(chunks);
    assert(unbroken(last) && trimmed(last) == last) by {
        reveal_strlit("data: [DONE]");
    }
    lemma_lines_of_stream(sent);
    if lines.len() > 0 && finishes(records.last()) {
        let open = lines.drop_last();
        let tail = seq![lines.last(), last, Seq::<u8>::empty()];
        assert(sent.push(Seq::empty()) =~= open + tail);
        lemma_open_records(open, records.drop_last());
        lemma_events_of_lines_concat(open, tail);
        lemma_fragments_push(records.drop_last(), records.last());
        assert(records.drop_last().push(records.last()) =~= records);
        let text = match records.last() {
            Some(DeltaShape { content: Some(text), .. }) => seq![Event::TextFragment(text)],
            _ => Seq::empty(),
        };
        assert(fragments_of(seq![records.last()]) =~= text) by {
            reveal_with_fuel(fragments_of, 2);
        }
    } else {
        let tail = seq![last, Seq::<u8>::empty()];
        assert(sent.push(Seq::empty()) =~= lines + tail);
        lemma_open_records(lines, records);
        lemma_events_of_lines_concat(lines, tail);
    }
}

/// The fragments of a run of records and one more.
proof fn lemma_fragments_push(records: Seq<Option<DeltaShape>>, last: Option<DeltaShape>)
    ensures
        fragments_of(records.push(last)) == fragments_of(records) + fragments_of(seq![last]),
    decreases records.len(),
{
    if records.len() == 0 {
        assert(records.push(last) =~= seq![last]);
    } else {
        lemma_fragments_push(records.drop_first(), last);
        assert(records.push(last).drop_first() =~= records.drop_first().push(last));
    }
}

/// A data line whose record cannot be read changes nothing: the stream with the line
/// yields the events of the stream without it.
pub proof fn malformed_line_is_skipped(before: Seq<Seq<u8>>, line: Seq<u8>, after: Seq<Seq<u8>>)
    requires
        all_unbroken(before),
        all_unbroken(after),
        unbroken(line),
        malformed(line),
    ensures
        decode_stream(stream_of(before.push(line) + after)) == decode_stream(
            stream_of(before + after),
        ),
{
    lemma_lines_of_stream(before.push(line) + after);
    lemma_lines_of_stream(before + after);
    lemma_silent_line(before, line, after.push(Seq::empty()));
}

/// Whether the line ends the turn: it is the terminator line, or it carries a record
/// that names a reason for finishing.
pub open spec fn closes_turn(line: Seq<u8>) -> bool {
    trimmed(line) == terminator() || (carried(line) matches Some(record) && finishes(record))
}

/// The end of the turn stands among the events of a line only as the last of them,
/// and only where the line ends the turn.
pub proof fn lemma_end_is_last(line: Seq<u8>)
    ensures
        has_end(line_events(line)) == ends_turn(line_events(line)),
        ends_turn(line_events(line)) == closes_turn(line),
{
}

/// Where no line ends the turn, the end of the turn is not among the events.
pub proof fn lemma_open_lines_have_no_end(lines: Seq<Seq<u8>>)
    requires
        forall|i: int| 0 <= i < lines.len() ==> !closes_turn(#[trigger] lines[i]),
    ensures
        !has_end(events_of_lines(lines)),
    decreases lines.len(),
{
    if lines.len() > 0 {
        lemma_open_lines_have_no_end(lines.drop_first());
        lemma_end_is_last(lines[0]);
    }
}

/// Where a line ends the turn, the end of the turn is among the events.
pub proof fn lemma_closing_line_gives_end(lines: Seq<Seq<u8>>, at: int)
    requires
        0 <= at < lines.len(),
        closes_turn(lines[at]),
    ensures
        has_end(events_of_lines(lines)),
    decreases lines.len(),
{
    let first = line_events(lines[0]);
    lemma_end_is_last(lines[0]);
    if ends_turn(first) {
        assert(first[first.len() - 1] is End);
    } else {
        let rest = lines.drop_first();
        assert(rest[at - 1] == lines[at]);
        lemma_closing_line_gives_end(rest, at - 1);
        let later = events_of_lines(rest);
        let i = choose|i: int| 0 <= i < later.len() && later[i] is End;
        assert((first + later)[first.len() + i] is End);
    }
}

/// A stream with a line that ends the turn holds a complete turn, however it is cut
/// into chunks.
pub proof fn stream_with_end_is_complete(chunks: Seq<Seq<u8>>, at: int)
    requires
        0 <= at < lines_of(chunks.flatten()).len(),
        closes_turn(lines_of(chunks.flatten())[at]),
    ensures
        outcome(decode_chunks(chunks)) is Ok,
{
    chunk_boundaries_do_not_matter(chunks);
    lemma_closing_line_gives_end(lines_of(chunks.flatten()), at);
}

/// A stream that closes without a line that ends the turn, neither the terminator
/// line nor a record with a reason for finishing, holds no complete turn, however it
/// is cut into chunks.
pub proof fn stream_without_end_is_incomplete(chunks: Seq<Seq<u8>>)
    requires
        forall|i: int|
            0 <= i < lines_of(chunks.flatten()).len() ==> !closes_turn(
                #[trigger] lines_of(chunks.flatten())[i],
            ),
    ensures
        outcome(decode_chunks(chunks)) == Err::<Seq<char>, InvocationError>(
            InvocationError::IncompleteStream,
        ),
{
    chunk_boundaries_do_not_matter(chunks);
    lemma_open_lines_have_no_end(lines_of(chunks.flatten()));
}

} // verus!
