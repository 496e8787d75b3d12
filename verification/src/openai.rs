//! The provider with the chat-completion API: its request, its credentials, and the
//! turn that its event stream holds.

use vstd::prelude::*;
use vstd::string::*;
use crate::event::Event;
use crate::event::event_views;
use crate::invoke::Invocation;
use crate::invoke::InvocationError;
use crate::invoke::InvocationResult;
use crate::invoke::is_outcome;
use crate::invoke::lemma_gathered;
use crate::invoke::lemma_take_in_concat;
use crate::invoke::nothing_gathered;
use crate::invoke::outcome;
use crate::invoke::take_in_all;
use crate::sse::SseDecoder;
use crate::sse::initial_state;
use crate::transcript::chunk_boundaries_do_not_matter;
use crate::transcript::decode_stream;
use crate::transcript::feed_all;

verus! {

/// Who speaks in a message.
#[derive(Debug, Clone, Copy, PartialEq, Eq, Structural)]
pub enum ChatCompletionMessageRole {
    System,
    User,
    Assistant,
    Tool,
    Function,
}

/// One message of a chat-completion request.
#[derive(Debug, Clone)]
pub struct ChatCompletionMessage {
    pub role: ChatCompletionMessageRole,
    pub content: Option<String>,
    pub name: Option<String>,
    pub tool_calls: Option<Vec<serde_json::Value>>,
    pub tool_call_id: Option<String>,
}

impl Default for ChatCompletionMessage {
    /// A message of the user without content.
    fn default() -> (message: Self)
        ensures
            message.role == ChatCompletionMessageRole::User,
            message.content is None,
            message.name is None,
            message.tool_calls is None,
            message.tool_call_id is None,
    {
        ChatCompletionMessage {
            role: ChatCompletionMessageRole::User,
            content: None,
            name: None,
            tool_calls: None,
            tool_call_id: None,
        }
    }
}

/// Whether the message holds the given text in the given role, and nothing else.
pub open spec fn says(
    message: ChatCompletionMessage,
    role: ChatCompletionMessageRole,
    text: Seq<char>,
) -> bool {
    &&& message.role == role
    &&& message.content matches Some(content) && content@ == text
    &&& message.name is None
    &&& message.tool_calls is None
    &&& message.tool_call_id is None
}

/// Whether the messages are the system prompts in order, each in the role `System`,
/// and after them the user's text in the role `User`.
pub open spec fn is_conversation(
    messages: Seq<ChatCompletionMessage>,
    system: Seq<String>,
    text: Seq<char>,
) -> bool {
    &&& messages.len() == system.len() + 1
    &&& forall|i: int|
        0 <= i < system.len() ==> says(
            #[trigger] messages[i],
            ChatCompletionMessageRole::System,
            system[i]@,
        )
    &&& says(messages[system.len() as int], ChatCompletionMessageRole::User, text)
}

fn plain_message(role: ChatCompletionMessageRole, text: String) -> (message: ChatCompletionMessage)
    ensures
        says(message, role, text@),
{
    ChatCompletionMessage {
        role,
        content: Some(text),
        name: None,
        tool_calls: None,
        tool_call_id: None,
    }
}

/// The messages of one user turn after the given system prompts.
pub fn create_messages(system: Vec<String>, text: String) -> (messages: Vec<ChatCompletionMessage>)
    ensures
        is_conversation(messages@, system@, text@),
{
    let mut messages: Vec<ChatCompletionMessage> = Vec::new();
    let mut i: usize = 0;
    while i < system.len()
        invariant
            i <= system.len(),
            messages@.len() == i,
            forall|k: int|
                0 <= k < i ==> says(
                    #[trigger] messages@[k],
                    ChatCompletionMessageRole::System,
                    system@[k]@,
                ),
        decreases system.len() - i,
    {
        messages.push(plain_message(ChatCompletionMessageRole::System, system[i].clone()));
        i += 1;
    }
    messages.push(plain_message(ChatCompletionMessageRole::User, text));
    messages
}

/// The body of a chat-completion request.
#[derive(Debug, Clone)]
pub struct ChatCompletionRequest {
    pub model: String,
    pub messages: Vec<ChatCompletionMessage>,
    /// Whether the response is to arrive as an event stream.
    pub stream: bool,
}

/// The request for one user turn after the given system prompts, answered as a stream.
pub fn chat_request(model: String, system: Vec<String>, text: String) -> (request:
    ChatCompletionRequest)
    ensures
        request.model == model,
        is_conversation(request.messages@, system@, text@),
        request.stream,
{
    ChatCompletionRequest { model, messages: create_messages(system, text), stream: true }
}

/// How long the whole streaming call may take, in seconds.
pub const REQUEST_TIMEOUT_SECS: u64 = 300;

/// The address of the API where none is configured.
pub open spec fn default_base_url() -> Seq<char> {
    "https://api.openai.com/v1/"@
}

/// The key and the base address to call with, from what the environment holds under
/// `OPENAI_API_KEY` and `OPENAI_API_BASE`. Without a key there is no request; without
/// an address the default one is used.
pub fn get_credentials(api_key: Option<String>, api_base: Option<String>) -> (r: Result<
    (String, String),
    InvocationError,
>)
    ensures
        match r {
            Ok((key, base)) => api_key matches Some(given) && key@ == given@ && base@ == (
            match api_base {
                Some(address) => address@,
                None => default_base_url(),
            }),
            Err(error) => api_key is None && (error matches InvocationError::Setup(reason)
                && reason@ == "OPENAI_API_KEY must be set"@),
        },
{
    match api_key {
        None => Err(InvocationError::Setup("OPENAI_API_KEY must be set".to_owned())),
        Some(key) => {
            let base = match api_base {
                Some(address) => address,
                None => "https://api.openai.com/v1/".to_owned(),
            };
            Ok((key, base))
        },
    }
}

/// The address of the chat-completion endpoint under a base address.
pub fn completions_url(base_url: &str) -> (url: String)
    ensures
        url@ == base_url@ + "chat/completions"@,
{
    base_url.to_owned().concat("chat/completions")
}

/// The value of the `Authorization` header for a key.
pub fn bearer(api_key: &str) -> (value: String)
    ensures
        value@ == "Bearer "@ + api_key@,
{
    "Bearer ".to_owned().concat(api_key)
}

/// Whether an HTTP status says that the request succeeded.
pub open spec fn is_success(status: u16) -> bool {
    200 <= status < 300
}

/// Whether an HTTP status says that the request succeeded.
pub fn succeeded(status: u16) -> (r: bool)
    ensures
        r == is_success(status),
{
    200 <= status && status < 300
}

/// The response may be read as a stream only where the status says success; else the
/// invocation fails with what the provider answered.
pub fn check_status(status: u16, body: String) -> (r: Result<(), InvocationError>)
    ensures
        match r {
            Ok(_) => is_success(status),
            Err(error) => !is_success(status) && error == InvocationError::Transport(body),
        },
{
    if succeeded(status) {
        Ok(())
    } else {
        Err(InvocationError::Transport(body))
    }
}

/// The bytes of each chunk.
pub open spec fn chunk_views(chunks: Seq<Vec<u8>>) -> Seq<Seq<u8>> {
    chunks.map_values(|chunk: Vec<u8>| chunk@)
}

/// The turn that a closed event stream holds, given the chunks in which it arrived:
/// the text of its fragments up to the end of the turn, or `IncompleteStream` where
/// the stream has no end of the turn. Only the bytes count, not how they were cut.
pub fn invoke_openai(chunks: &Vec<Vec<u8>>) -> (r: Result<InvocationResult, InvocationError>)
    ensures
        is_outcome(r, outcome(decode_stream(chunk_views(chunks@).flatten()))),
{
    let ghost all = chunk_views(chunks@);
    let mut decoder = SseDecoder::new();
    let mut turn = Invocation::begin();
    let ghost mut seen: Seq<Event> = Seq::empty();
    let mut i: usize = 0;
    while i < chunks.len()
        invariant
            i <= chunks.len(),
            all == chunk_views(chunks@),
            (decoder@, seen) == feed_all(initial_state(), all.take(i as int)),
            turn@ == take_in_all(nothing_gathered(), seen),
        decreases chunks.len() - i,
    {
        let events = decoder.feed(chunks[i].as_slice());
        let _ = turn.accept_all(&events);
        proof {
            assert(all.take(i + 1).drop_last() =~= all.take(i as int));
            lemma_take_in_concat(nothing_gathered(), seen, event_views(events@));
            seen = seen + event_views(events@);
        }
        i += 1;
    }
    let last = decoder.close();
    let _ = turn.accept_all(&last);
    proof {
        assert(all.take(i as int) =~= all);
        let whole = seen + event_views(last@);
        lemma_take_in_concat(nothing_gathered(), seen, event_views(last@));
        chunk_boundaries_do_not_matter(all);
        lemma_gathered(Seq::empty(), whole);
    }
    turn.finish()
}

} // verus!
