//! The delta record that one data line of a chat-completion stream carries.
//!
//! A record is a JSON object with an array `choices`. Each choice is an object with an
//! object `delta`, whose `content` is a string, `null` or absent, and with a
//! `finish_reason` that is a string, `null` or absent. Only the first choice is read;
//! all of them must have the shape. Members of other names are ignored.

use vstd::prelude::*;
use crate::event::Event;
use crate::event::StreamEvent;
use crate::event::event_views;
use crate::json::JsonTree;
use crate::json::json_tree;
use crate::json::member;

verus! {

/// What the first choice of a record says.
#[derive(Debug, Clone, PartialEq, Eq)]
pub struct Delta {
    /// The incremental text, where the record has any.
    pub content: Option<String>,
    /// Whether the record names a reason for finishing.
    pub finished: bool,
}

/// A [`Delta`] as a mathematical value.
pub struct DeltaShape {
    pub content: Option<Seq<char>>,
    pub finished: bool,
}

impl View for Delta {
    type V = DeltaShape;

    open spec fn view(&self) -> DeltaShape {
        DeltaShape {
            content: match self.content {
                Some(text) => Some(text@),
                None => None,
            },
            finished: self.finished,
        }
    }
}

/// A member that may hold a string. `Some(None)` where the object has no such member
/// or holds `null` there, `Some(Some(text))` where it holds a string, `None` where the
/// tree is no object or the member is anything else.
pub open spec fn optional_text(tree: JsonTree, key: Seq<char>) -> Option<Option<Seq<char>>> {
    match tree {
        JsonTree::Object(members) => if !members.contains_key(key) {
            Some(None)
        } else {
            match members[key] {
                JsonTree::Null => Some(None),
                JsonTree::Text(text) => Some(Some(text)),
                _ => None,
            }
        },
        _ => None,
    }
}

/// What one element of `choices` says, or `None` where it has not the shape of a choice.
pub open spec fn choice_of(tree: JsonTree) -> Option<DeltaShape> {
    match tree {
        JsonTree::Object(members) => if members.contains_key("delta"@) {
            match (optional_text(members["delta"@], "content"@), optional_text(
                tree,
                "finish_reason"@,
            )) {
                (Some(content), Some(reason)) => Some(
                    DeltaShape { content, finished: reason is Some },
                ),
                _ => None,
            }
        } else {
            None
        },
        _ => None,
    }
}

/// Whether every element has the shape of a choice.
pub open spec fn all_choices(choices: Seq<JsonTree>) -> bool {
    forall|i: int| 0 <= i < choices.len() ==> (#[trigger] choice_of(choices[i])) is Some
}

/// What a document says as a delta record: `None` where it has not the shape of a
/// record, `Some(None)` for a record without choices, else the first choice.
pub open spec fn record_of(tree: JsonTree) -> Option<Option<DeltaShape>> {
    match tree {
        JsonTree::Object(members) => if members.contains_key("choices"@) {
            match members["choices"@] {
                JsonTree::Array(choices) => if all_choices(choices) {
                    if choices.len() == 0 {
                        Some(None)
                    } else {
                        Some(choice_of(choices[0]))
                    }
                } else {
                    None
                },
                _ => None,
            }
        } else {
            None
        },
        _ => None,
    }
}

/// The events that a record yields: its text where it has any, then the end of the
/// turn where it is finished.
pub open spec fn delta_events(delta: DeltaShape) -> Seq<Event> {
    let text = match delta.content {
        Some(text) => seq![Event::TextFragment(text)],
        None => Seq::empty(),
    };
    if delta.finished {
        text.push(Event::End)
    } else {
        text
    }
}

/// Reads a member that may hold a string.
pub fn read_optional_text(value: &serde_json::Value, key: &str) -> (r: Option<Option<String>>)
    ensures
        match r {
            Some(Some(text)) => optional_text(json_tree(*value), key@) == Some(Some(text@)),
            Some(None) => optional_text(json_tree(*value), key@) == Some(
                None::<Seq<char>>,
            ),
            None => optional_text(json_tree(*value), key@) is None,
        },
{
    if !value.is_object() {
        return None;
    }
    match member(value, key) {
        None => Some(None),
        Some(found) => {
            if found.is_null() {
                Some(None)
            } else {
                match found.as_str() {
                    Some(text) => Some(Some(text.to_owned())),
                    None => None,
                }
            }
        },
    }
}

/// Reads one element of `choices`.
pub fn read_choice(value: &serde_json::Value) -> (r: Option<Delta>)
    ensures
        match r {
            Some(delta) => choice_of(json_tree(*value)) == Some(delta@),
            None => choice_of(json_tree(*value)) is None,
        },
{
    let reason = read_optional_text(value, "finish_reason");
    match member(value, "delta") {
        None => None,
        Some(delta) => {
            let content = read_optional_text(delta, "content");
            match (content, reason) {
                (Some(content), Some(reason)) => Some(
                    Delta { content, finished: reason.is_some() },
                ),
                _ => None,
            }
        },
    }
}

/// Reads a document as a delta record.
pub fn read_record(value: &serde_json::Value) -> (r: Option<Option<Delta>>)
    ensures
        match r {
            Some(Some(delta)) => record_of(json_tree(*value)) == Some(Some(delta@)),
            Some(None) => record_of(json_tree(*value)) == Some(None::<DeltaShape>),
            None => record_of(json_tree(*value)) is None,
        },
{
    let choices = match member(value, "choices") {
        None => { return None; },
        Some(found) => match found.as_array() {
            None => { return None; },
            Some(choices) => choices,
        },
    };
    let ghost trees = json_tree(*value)->Object_0["choices"@]->Array_0;
    let mut first: Option<Delta> = None;
    let mut i: usize = 0;
    while i < choices.len()
        invariant
            i <= choices.len(),
            json_tree(*value) is Object,
            json_tree(*value)->Object_0.contains_key("choices"@),
            json_tree(*value)->Object_0["choices"@] == JsonTree::Array(trees),
            choices@.len() == trees.len(),
            forall|k: int| 0 <= k < trees.len() ==> json_tree(#[trigger] choices@[k]) == trees[k],
            forall|k: int| 0 <= k < i ==> (#[trigger] choice_of(trees[k])) is Some,
            match first {
                Some(delta) => i > 0 && choice_of(trees[0]) == Some(delta@),
                None => i == 0,
            },
        decreases choices.len() - i,
    {
        match read_choice(&choices[i]) {
            None => {
                return None;
            },
            Some(delta) => {
                if i == 0 {
                    first = Some(delta);
                }
            },
        }
        i += 1;
    }
    Some(first)
}

/// The events that a record yields, in order.
pub fn events_of_delta(delta: Delta) -> (events: Vec<StreamEvent>)
    ensures
        event_views(events@) == delta_events(delta@),
{
    let mut events: Vec<StreamEvent> = Vec::new();
    if let Some(text) = delta.content {
        events.push(StreamEvent::TextFragment(text));
    }
    if delta.finished {
        events.push(StreamEvent::End);
    }
    events
}

} // verus!
