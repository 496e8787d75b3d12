//! One invocation: a request, the events of the response, and how the turn ends.
//!
//! [`Invocation`] is the state of a running invocation. Whoever drives the transport
//! hands it each event as it arrives and forwards the text it gives back; when the
//! transport closes, [`Invocation::finish`] says whether the turn was complete.

use vstd::prelude::*;
use vstd::string::*;
use crate::event::Event;
use crate::event::StreamEvent;
use crate::event::event_views;
use crate::event::has_end;
use crate::event::text_until_end;

verus! {

/// What is asked of a provider: one user turn, after any number of system prompts.
#[derive(Debug, Clone, PartialEq, Eq)]
pub struct InvocationRequest {
    pub model: String,
    /// Sent before the user turn, in this order.
    pub system_prompts: Vec<String>,
    pub user_text: String,
}

/// The text of one complete turn.
#[derive(Debug, Clone, PartialEq, Eq)]
pub struct InvocationResult {
    pub content: String,
}

/// Why an invocation gave no complete turn.
#[derive(Debug, Clone, PartialEq, Eq)]
pub enum InvocationError {
    /// The request could not be made: credentials are missing or it is malformed.
    Setup(String),
    /// The connection failed, timed out, or the provider answered with an error.
    Transport(String),
    /// The transport closed before the end of the turn.
    IncompleteStream,
}

/// A backend that answers one request with one complete turn.
pub trait Invoker {
    /// Sends the request, forwards the text of the response as it arrives, and gives
    /// back the whole of it, or says why there is no complete turn.
    fn invoke(&self, request: &InvocationRequest) -> Result<InvocationResult, InvocationError>;
}

/// What a running invocation has gathered.
pub struct Gathered {
    /// The text of the fragments so far, in arrival order.
    pub content: Seq<char>,
    /// Whether the end of the turn has arrived.
    pub ended: bool,
}

/// Nothing gathered yet.
pub open spec fn nothing_gathered() -> Gathered {
    Gathered { content: Seq::empty(), ended: false }
}

/// Taking in one event. After the end of the turn nothing is taken in.
pub open spec fn take_in(state: Gathered, event: Event) -> Gathered {
    if state.ended {
        state
    } else {
        match event {
            Event::TextFragment(text) => Gathered { content: state.content + text, ended: false },
            Event::End => Gathered { content: state.content, ended: true },
            Event::Other => state,
        }
    }
}

/// The text to forward for one event: that of a fragment that arrives before the end
/// of the turn.
pub open spec fn forwarded(state: Gathered, event: Event) -> Option<Seq<char>> {
    match event {
        Event::TextFragment(text) if !state.ended => Some(text),
        _ => None,
    }
}

/// Taking in a run of events in order.
pub open spec fn take_in_all(state: Gathered, events: Seq<Event>) -> Gathered
    decreases events.len(),
{
    if events.len() == 0 {
        state
    } else {
        take_in_all(take_in(state, events[0]), events.drop_first())
    }
}

/// The texts to forward for a run of events, in order.
pub open spec fn forwarded_all(state: Gathered, events: Seq<Event>) -> Seq<Seq<char>>
    decreases events.len(),
{
    if events.len() == 0 {
        Seq::empty()
    } else {
        let first = match forwarded(state, events[0]) {
            Some(text) => seq![text],
            None => Seq::empty(),
        };
        first + forwarded_all(take_in(state, events[0]), events.drop_first())
    }
}

/// The texts of a vector of strings.
pub open spec fn texts(strings: Seq<String>) -> Seq<Seq<char>> {
    strings.map_values(|s: String| s@)
}

/// How a turn ends once the transport has closed: with its text where the end of the
/// turn arrived, incomplete where it did not.
pub open spec fn outcome(events: Seq<Event>) -> Result<Seq<char>, InvocationError> {
    if has_end(events) {
        Ok(text_until_end(events))
    } else {
        Err(InvocationError::IncompleteStream)
    }
}

/// Whether the result of an invocation is the stated outcome.
pub open spec fn is_outcome(
    result: Result<InvocationResult, InvocationError>,
    stated: Result<Seq<char>, InvocationError>,
) -> bool {
    match (result, stated) {
        (Ok(turn), Ok(text)) => turn.content@ == text,
        (Err(error), Err(expected)) => error == expected,
        _ => false,
    }
}

/// After the end of the turn a run of events changes nothing.
pub proof fn lemma_ended_takes_nothing(state: Gathered, events: Seq<Event>)
    requires
        state.ended,
    ensures
        take_in_all(state, events) == state,
    decreases events.len(),
{
    if events.len() > 0 {
        lemma_ended_takes_nothing(state, events.drop_first());
    }
}

/// What has been gathered from a run of events: the text up to the first end of the
/// turn, and whether there was one.
pub proof fn lemma_gathered(content: Seq<char>, events: Seq<Event>)
    ensures
        take_in_all(Gathered { content, ended: false }, events) == (Gathered {
            content: content + text_until_end(events),
            ended: has_end(events),
        }),
    decreases events.len(),
{
    if events.len() > 0 {
        let rest = events.drop_first();
        match events[0] {
            Event::TextFragment(text) => {
                lemma_gathered(content + text, rest);
                assert((content + text) + text_until_end(rest) =~= content + (text
                    + text_until_end(rest)));
                assert(has_end(events) == has_end(rest)) by {
                    lemma_has_end_rest(events);
                }
            },
            Event::End => {
                lemma_ended_takes_nothing(Gathered { content, ended: true }, rest);
            },
            Event::Other => {
                lemma_gathered(content, rest);
                assert(has_end(events) == has_end(rest)) by {
                    lemma_has_end_rest(events);
                }
            },
        }
    }
}

/// Whether the end of the turn is among the events, by the first event and the rest.
proof fn lemma_has_end_rest(events: Seq<Event>)
    requires
        events.len() > 0,
    ensures
        has_end(events) == (events[0] is End || has_end(events.drop_first())),
{
    let rest = events.drop_first();
    if has_end(events) {
        let i = choose|i: int| 0 <= i < events.len() && events[i] is End;
        if i > 0 {
            assert(rest[i - 1] is End);
        }
    }
    if has_end(rest) {
        let i = choose|i: int| 0 <= i < rest.len() && rest[i] is End;
    }
}

/// Taking in two runs of events in turn is taking in the two as one.
pub proof fn lemma_take_in_concat(state: Gathered, left: Seq<Event>, right: Seq<Event>)
    ensures
        take_in_all(state, left + right) == take_in_all(take_in_all(state, left), right),
    decreases left.len(),
{
    if left.len() > 0 {
        lemma_take_in_concat(take_in(state, left[0]), left.drop_first(), right);
        assert((left + right).drop_first() =~= left.drop_first() + right);
    }
}

/// What is forwarded, put together in order, is what is gathered: the text that was
/// shown is the text of the turn.
pub proof fn forwarded_is_gathered(state: Gathered, events: Seq<Event>)
    ensures
        take_in_all(state, events).content == state.content + forwarded_all(
            state,
            events,
        ).flatten(),
    decreases events.len(),
{
    if events.len() == 0 {
        assert(state.content + Seq::<Seq<char>>::empty().flatten() =~= state.content);
    } else {
        let next = take_in(state, events[0]);
        let rest = forwarded_all(next, events.drop_first());
        forwarded_is_gathered(next, events.drop_first());
        match forwarded(state, events[0]) {
            Some(text) => {
                assert((seq![text] + rest).drop_first() =~= rest);
                assert(state.content + (text + rest.flatten()) =~= (state.content + text)
                    + rest.flatten());
            },
            None => {
                assert(Seq::<Seq<char>>::empty() + rest =~= rest);
            },
        }
    }
}

/// An event that is neither text nor the end of the turn changes nothing: the stream
/// with it holds the turn of the stream without it.
pub proof fn other_event_is_ignored(before: Seq<Event>, after: Seq<Event>)
    ensures
        outcome(before.push(Event::Other) + after) == outcome(before + after),
    decreases before.len(),
{
    let with = before.push(Event::Other) + after;
    let without = before + after;
    lemma_has_end_rest(with);
    if before.len() == 0 {
        assert(with.drop_first() =~= after);
        assert(without =~= after);
    } else {
        other_event_is_ignored(before.drop_first(), after);
        assert(with.drop_first() =~= before.drop_first().push(Event::Other) + after);
        assert(without.drop_first() =~= before.drop_first() + after);
        lemma_has_end_rest(without);
    }
}

/// The state of a running invocation.
pub struct Invocation {
    content: String,
    ended: bool,
}

impl View for Invocation {
    type V = Gathered;

    closed spec fn view(&self) -> Gathered {
        Gathered { content: self.content@, ended: self.ended }
    }
}

impl Invocation {
    /// An invocation whose response has not begun.
    pub fn begin() -> (invocation: Invocation)
        ensures
            invocation@ == nothing_gathered(),
    {
        Invocation { content: String::new(), ended: false }
    }

    /// Whether the end of the turn has arrived: the driver stops reading then.
    pub fn ended(&self) -> (r: bool)
        ensures
            r == self@.ended,
    {
        self.ended
    }

    /// Takes in one event, and gives back the text to forward before the next event
    /// is asked for.
    pub fn accept(&mut self, event: &StreamEvent) -> (forward: Option<String>)
        ensures
            final(self)@ == take_in(old(self)@, event@),
            match forward {
                Some(text) => forwarded(old(self)@, event@) == Some(text@),
                None => forwarded(old(self)@, event@) is None,
            },
    {
        if self.ended {
            return None;
        }
        match event {
            StreamEvent::TextFragment(text) => {
                self.content.append(text.as_str());
                Some(text.clone())
            },
            StreamEvent::End => {
                self.ended = true;
                None
            },
            StreamEvent::Other => None,
        }
    }

    /// Takes in a run of events in order, and gives back the texts to forward.
    pub fn accept_all(&mut self, events: &Vec<StreamEvent>) -> (forward: Vec<String>)
        ensures
            final(self)@ == take_in_all(old(self)@, event_views(events@)),
            texts(forward@) == forwarded_all(old(self)@, event_views(events@)),
    {
        let ghost all = event_views(events@);
        let mut forward: Vec<String> = Vec::new();
        let mut i: usize = 0;
        assert(all.skip(0) =~= all);
        while i < events.len()
            invariant
                i <= events.len(),
                all == event_views(events@),
                take_in_all(self@, all.skip(i as int)) == take_in_all(old(self)@, all),
                texts(forward@) + forwarded_all(self@, all.skip(i as int)) == forwarded_all(
                    old(self)@,
                    all,
                ),
            decreases events.len() - i,
        {
            assert(all.skip(i as int).drop_first() =~= all.skip(i + 1));
            if let Some(text) = self.accept(&events[i]) {
                forward.push(text);
            }
            i += 1;
        }
        forward
    }

    /// How the turn ends now that the transport has closed.
    pub fn finish(self) -> (r: Result<InvocationResult, InvocationError>)
        ensures
            match r {
                Ok(turn) => self@.ended && turn.content@ == self@.content,
                Err(error) => !self@.ended && error == InvocationError::IncompleteStream,
            },
    {
        if self.ended {
            Ok(InvocationResult { content: self.content })
        } else {
            Err(InvocationError::IncompleteStream)
        }
    }
}

/// The turn that a closed stream of events holds: the text of its fragments up to the
/// end of the turn, or `IncompleteStream` where the end never came.
pub fn collect(events: &Vec<StreamEvent>) -> (r: Result<InvocationResult, InvocationError>)
    ensures
        is_outcome(r, outcome(event_views(events@))),
{
    let mut invocation = Invocation::begin();
    let _ = invocation.accept_all(events);
    proof {
        lemma_gathered(Seq::empty(), event_views(events@));
    }
    invocation.finish()
}

} // verus!
