//! The three-event alphabet that every provider's stream is normalised to.

use vstd::prelude::*;

verus! {

/// One normalised event of a provider's response stream.
#[derive(Debug, Clone, PartialEq, Eq)]
pub enum StreamEvent {
    /// One incremental piece of generated text.
    TextFragment(String),
    /// The explicit end of the turn. Nothing follows it.
    End,
    /// Anything else the provider sent. It carries no text.
    Other,
}

/// A [`StreamEvent`] as a mathematical value.
pub enum Event {
    TextFragment(Seq<char>),
    End,
    Other,
}

impl View for StreamEvent {
    type V = Event;

    open spec fn view(&self) -> Event {
        match self {
            StreamEvent::TextFragment(text) => Event::TextFragment(text@),
            StreamEvent::End => Event::End,
            StreamEvent::Other => Event::Other,
        }
    }
}

/// The events of a vector, each as a mathematical value.
pub open spec fn event_views(events: Seq<StreamEvent>) -> Seq<Event> {
    events.map_values(|e: StreamEvent| e@)
}

/// Whether the end of the turn is among the events.
pub open spec fn has_end(events: Seq<Event>) -> bool {
    exists|i: int| 0 <= i < events.len() && events[i] is End
}

/// The text of a turn: the fragments in arrival order, up to the first `End`.
pub open spec fn text_until_end(events: Seq<Event>) -> Seq<char>
    decreases events.len(),
{
    if events.len() == 0 {
        Seq::empty()
    } else {
        match events[0] {
            Event::TextFragment(text) => text + text_until_end(events.drop_first()),
            Event::End => Seq::empty(),
            Event::Other => text_until_end(events.drop_first()),
        }
    }
}

} // verus!
