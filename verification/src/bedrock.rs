//! The provider with the push-event stream: its request and its events.
//!
//! The request is made of the SDK's own types, which are opaque here: the contracts
//! speak of what a block or a message holds through [`system_block_text`],
//! [`message_from_user`] and [`message_texts`]. The events arrive already framed; the
//! driver hands each one over as a [`ProviderEvent`].

use vstd::prelude::*;
use crate::event::Event;
use crate::event::StreamEvent;
use crate::event::event_views;
use crate::event::has_end;
use crate::invoke::InvocationError;
use crate::invoke::InvocationResult;
use crate::invoke::collect;
use crate::invoke::is_outcome;
use crate::invoke::outcome;

verus! {

/// `SystemContentBlock` of the SDK. Nothing is seen inside it.
#[verifier::external_type_specification]
#[verifier::external_body]
pub struct ExSystemContentBlock(aws_sdk_bedrockruntime::types::SystemContentBlock);

/// `Message` of the SDK. Nothing is seen inside it.
#[verifier::external_type_specification]
#[verifier::external_body]
pub struct ExMessage(aws_sdk_bedrockruntime::types::Message);

/// The prompt that a system content block holds: the string of
/// `SystemContentBlock::Text`, `None` for a block of another kind.
pub uninterp spec fn system_block_text(
    block: aws_sdk_bedrockruntime::types::SystemContentBlock,
) -> Option<Seq<char>>;

/// Whether the role of a message is `ConversationRole::User`.
pub uninterp spec fn message_from_user(message: aws_sdk_bedrockruntime::types::Message) -> bool;

/// The content of a message, block by block: the string of a `ContentBlock::Text`,
/// `None` for a block of another kind.
pub uninterp spec fn message_texts(message: aws_sdk_bedrockruntime::types::Message) -> Seq<
    Option<Seq<char>>,
>;

/// The variant `SystemContentBlock::Text` of the given string.
#[verifier::external_body]
fn text_block(text: String) -> (block: aws_sdk_bedrockruntime::types::SystemContentBlock)
    ensures
        system_block_text(block) == Some(text@),
{
    aws_sdk_bedrockruntime::types::SystemContentBlock::Text(text)
}

/// `Message::builder()` with the role `User` and one `ContentBlock::Text`. `build`
/// fails only where the role or the content was not set, and both are.
#[verifier::external_body]
fn user_message(text: String) -> (message: aws_sdk_bedrockruntime::types::Message)
    ensures
        message_from_user(message),
        message_texts(message) == seq![Some(text@)],
{
    aws_sdk_bedrockruntime::types::Message::builder()
        .role(aws_sdk_bedrockruntime::types::ConversationRole::User)
        .content(aws_sdk_bedrockruntime::types::ContentBlock::Text(text))
        .build()
        .unwrap()
}

/// The system prompts as content blocks, in order; `None` where there is no prompt.
pub fn create_system_messages(text: Vec<String>) -> (r: Option<
    Vec<aws_sdk_bedrockruntime::types::SystemContentBlock>,
>)
    ensures
        r is None <==> text@.len() == 0,
        r matches Some(blocks) ==> blocks@.len() == text@.len() && forall|i: int|
            0 <= i < text@.len() ==> system_block_text(#[trigger] blocks@[i]) == Some(text@[i]@),
{
    if text.len() == 0 {
        return None;
    }
    let mut blocks: Vec<aws_sdk_bedrockruntime::types::SystemContentBlock> = Vec::new();
    let mut i: usize = 0;
    while i < text.len()
        invariant
            i <= text.len(),
            blocks@.len() == i,
            forall|k: int| 0 <= k < i ==> system_block_text(#[trigger] blocks@[k]) == Some(text@[k]@),
        decreases text.len() - i,
    {
        blocks.push(text_block(text[i].clone()));
        i += 1;
    }
    Some(blocks)
}

/// The user's turn as a message: the role `User`, and the text as its one block.
pub fn create_message(text: String) -> (message: aws_sdk_bedrockruntime::types::Message)
    ensures
        message_from_user(message),
        message_texts(message) == seq![Some(text@)],
{
    user_message(text)
}

/// What is sent to open the stream.
pub struct ConverseRequest {
    pub model_id: String,
    pub system: Option<Vec<aws_sdk_bedrockruntime::types::SystemContentBlock>>,
    pub message: aws_sdk_bedrockruntime::types::Message,
}

/// The request for one user turn after the given system prompts.
pub fn converse_request(model: String, system: Vec<String>, message: String) -> (request:
    ConverseRequest)
    ensures
        request.model_id == model,
        request.system is None <==> system@.len() == 0,
        request.system matches Some(blocks) ==> blocks@.len() == system@.len() && forall|i: int|
            0 <= i < system@.len() ==> system_block_text(#[trigger] blocks@[i]) == Some(
                system@[i]@,
            ),
        message_from_user(request.message),
        message_texts(request.message) == seq![Some(message@)],
{
    ConverseRequest {
        model_id: model,
        system: create_system_messages(system),
        message: create_message(message),
    }
}

/// One framed event of the stream, as far as the decoder tells events apart.
#[derive(Debug, Clone, PartialEq, Eq)]
pub enum ProviderEvent {
    /// A content delta, with its text.
    ContentBlockDelta(String),
    /// The content block is complete: the turn ends.
    ContentBlockStop,
    /// An event of any other kind.
    Other,
}

impl View for ProviderEvent {
    type V = Event;

    /// The normalised event that the provider's event stands for.
    open spec fn view(&self) -> Event {
        match self {
            ProviderEvent::ContentBlockDelta(text) => Event::TextFragment(text@),
            ProviderEvent::ContentBlockStop => Event::End,
            ProviderEvent::Other => Event::Other,
        }
    }
}

/// The events of a vector, each normalised.
pub open spec fn decoded(events: Seq<ProviderEvent>) -> Seq<Event> {
    events.map_values(|e: ProviderEvent| e@)
}

/// Normalises one event.
pub fn decode_event(event: &ProviderEvent) -> (r: StreamEvent)
    ensures
        r@ == event@,
{
    match event {
        ProviderEvent::ContentBlockDelta(text) => StreamEvent::TextFragment(text.clone()),
        ProviderEvent::ContentBlockStop => StreamEvent::End,
        ProviderEvent::Other => StreamEvent::Other,
    }
}

/// The turn that a closed stream of provider events holds: the text of its deltas up
/// to the first stop, or `IncompleteStream` where no stop arrived.
pub fn invoke_bedrock(events: &Vec<ProviderEvent>) -> (r: Result<
    InvocationResult,
    InvocationError,
>)
    ensures
        is_outcome(r, outcome(decoded(events@))),
{
    let mut normalised: Vec<StreamEvent> = Vec::new();
    let mut i: usize = 0;
    while i < events.len()
        invariant
            i <= events.len(),
            normalised@.len() == i,
            forall|k: int| 0 <= k < i ==> (#[trigger] normalised@[k])@ == events@[k]@,
        decreases events.len() - i,
    {
        normalised.push(decode_event(&events[i]));
        i += 1;
    }
    assert(event_views(normalised@) =~= decoded(events@));
    collect(&normalised)
}

/// A stream of provider events that closes without a stop holds no complete turn.
pub proof fn events_without_stop_are_incomplete(events: Seq<ProviderEvent>)
    requires
        forall|i: int| 0 <= i < events.len() ==> !(#[trigger] events[i] is ContentBlockStop),
    ensures
        outcome(decoded(events)) == Err::<Seq<char>, InvocationError>(
            InvocationError::IncompleteStream,
        ),
{
    let normalised = decoded(events);
    if has_end(normalised) {
        let i = choose|i: int| 0 <= i < normalised.len() && normalised[i] is End;
        assert(events[i] is ContentBlockStop);
    }
}

} // verus!
