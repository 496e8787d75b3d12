use llm_pipe::invoke::InvocationError;
use llm_pipe::invoke::InvocationResult;
use llm_pipe::openai::bearer;
use llm_pipe::openai::chat_request;
use llm_pipe::openai::check_status;
use llm_pipe::openai::completions_url;
use llm_pipe::openai::create_messages;
use llm_pipe::openai::get_credentials;
use llm_pipe::openai::invoke_openai;
use llm_pipe::openai::ChatCompletionMessage;
use llm_pipe::openai::ChatCompletionMessageRole;
use llm_pipe::openai::REQUEST_TIMEOUT_SECS;

fn record(content: &str) -> Vec<u8> {
    format!(
        "data: {{\"choices\":[{{\"delta\":{{\"content\":\"{}\"}},\"finish_reason\":null}}]}}\n\n",
        content
    )
    .into_bytes()
}

fn stream(parts: &[&[u8]]) -> Vec<u8> {
    let mut bytes = Vec::new();
    for part in parts {
        bytes.extend_from_slice(part);
    }
    bytes
}

fn hi_stream() -> Vec<u8> {
    stream(&[&record("Hi"), &record("!"), b"data: [DONE]\n\n"])
}

#[test]
fn test_create_messages() {
    let text = "Hello, world!".to_string();
    let messages = create_messages(vec![], text.clone());

    assert_eq!(messages.len(), 1);
    assert_eq!(messages[0].role, ChatCompletionMessageRole::User);
    assert_eq!(messages[0].content, Some(text.clone()));

    let system = vec!["System message".to_string()];
    let messages = create_messages(system, text.clone());
    assert_eq!(messages.len(), 2);
    assert_eq!(messages[0].role, ChatCompletionMessageRole::System);
    assert_eq!(messages[0].content, Some("System message".to_string()));
    assert_eq!(messages[1].role, ChatCompletionMessageRole::User);
    assert_eq!(messages[1].content, Some(text));
}

#[test]
fn test_get_credentials_with_custom_base_url() {
    let (api_key, base_url) = get_credentials(
        Some("test_key".to_string()),
        Some("https://test.api.com/v1/".to_string()),
    )
    .unwrap();

    assert_eq!(api_key, "test_key");
    assert_eq!(base_url, "https://test.api.com/v1/");
}

#[test]
fn test_get_credentials_with_default_base_url() {
    let (api_key, base_url) = get_credentials(Some("test_key".to_string()), None).unwrap();

    assert_eq!(api_key, "test_key");
    assert_eq!(base_url, "https://api.openai.com/v1/");
}

#[test]
fn test_get_credentials_no_api_key() {
    assert_eq!(
        get_credentials(None, Some("https://test.api.com/v1/".to_string())),
        Err(InvocationError::Setup("OPENAI_API_KEY must be set".to_string()))
    );
    assert_eq!(
        get_credentials(None, None),
        Err(InvocationError::Setup("OPENAI_API_KEY must be set".to_string()))
    );
}

#[test]
fn default_message_is_an_empty_user_message() {
    let message = ChatCompletionMessage::default();
    assert_eq!(message.role, ChatCompletionMessageRole::User);
    assert_eq!(message.content, None);
    assert_eq!(message.name, None);
    assert!(message.tool_calls.is_none());
    assert_eq!(message.tool_call_id, None);
}

#[test]
fn one_system_message_stands_before_the_user_message() {
    let request = chat_request(
        "gpt-4o".to_string(),
        vec!["Be terse".to_string()],
        "Say hi".to_string(),
    );
    assert_eq!(request.model, "gpt-4o");
    assert!(request.stream);
    assert_eq!(request.messages.len(), 2);
    assert_eq!(request.messages[0].role, ChatCompletionMessageRole::System);
    assert_eq!(request.messages[0].content, Some("Be terse".to_string()));
    assert_eq!(request.messages[1].role, ChatCompletionMessageRole::User);
    assert_eq!(request.messages[1].content, Some("Say hi".to_string()));
    let systems = request
        .messages
        .iter()
        .filter(|m| m.role == ChatCompletionMessageRole::System)
        .count();
    assert_eq!(systems, 1);
}

#[test]
fn system_messages_keep_their_order() {
    let system = vec!["one".to_string(), "two".to_string(), "three".to_string()];
    let messages = create_messages(system.clone(), "go".to_string());
    assert_eq!(messages.len(), 4);
    for (message, prompt) in messages.iter().zip(system.iter()) {
        assert_eq!(message.role, ChatCompletionMessageRole::System);
        assert_eq!(message.content.as_ref(), Some(prompt));
        assert!(message.name.is_none());
        assert!(message.tool_calls.is_none());
        assert!(message.tool_call_id.is_none());
    }
    assert_eq!(messages[3].role, ChatCompletionMessageRole::User);
    assert_eq!(messages[3].content, Some("go".to_string()));
}

#[test]
fn completions_url_appends_the_path() {
    assert_eq!(
        completions_url("https://api.openai.com/v1/"),
        "https://api.openai.com/v1/chat/completions"
    );
    assert_eq!(completions_url(""), "chat/completions");
}

#[test]
fn bearer_prefixes_the_key() {
    assert_eq!(bearer("test_key"), "Bearer test_key");
}

#[test]
fn timeout_is_five_minutes() {
    assert_eq!(REQUEST_TIMEOUT_SECS, 300);
}

#[test]
fn status_outside_success_is_a_transport_error() {
    assert_eq!(check_status(200, String::new()), Ok(()));
    assert_eq!(check_status(204, "ignored".to_string()), Ok(()));
    assert_eq!(check_status(299, String::new()), Ok(()));
    assert_eq!(
        check_status(401, "bad key".to_string()),
        Err(InvocationError::Transport("bad key".to_string()))
    );
    assert_eq!(
        check_status(199, "early".to_string()),
        Err(InvocationError::Transport("early".to_string()))
    );
    assert_eq!(
        check_status(300, "moved".to_string()),
        Err(InvocationError::Transport("moved".to_string()))
    );
    assert_eq!(
        check_status(500, String::new()),
        Err(InvocationError::Transport(String::new()))
    );
}

#[test]
fn openai_turn_is_the_fragments_up_to_the_terminator() {
    let chunks = vec![hi_stream()];
    assert_eq!(invoke_openai(&chunks), Ok(InvocationResult { content: "Hi!".to_string() }));
}

#[test]
fn openai_turn_does_not_depend_on_the_chunking() {
    let bytes = hi_stream();
    let whole = invoke_openai(&vec![bytes.clone()]);
    assert_eq!(whole, Ok(InvocationResult { content: "Hi!".to_string() }));
    for cut in 0..=bytes.len() {
        let chunks = vec![bytes[..cut].to_vec(), bytes[cut..].to_vec()];
        assert_eq!(invoke_openai(&chunks), whole, "cut at {}", cut);
    }
    let single: Vec<Vec<u8>> = bytes.iter().map(|b| vec![*b]).collect();
    assert_eq!(invoke_openai(&single), whole);
    let with_empty = vec![vec![], bytes[..7].to_vec(), vec![], bytes[7..].to_vec(), vec![]];
    assert_eq!(invoke_openai(&with_empty), whole);
}

#[test]
fn openai_stream_without_terminator_is_incomplete() {
    let bytes = stream(&[&record("Hi"), &record("!")]);
    assert_eq!(invoke_openai(&vec![bytes]), Err(InvocationError::IncompleteStream));
    assert_eq!(invoke_openai(&vec![]), Err(InvocationError::IncompleteStream));
    assert_eq!(invoke_openai(&vec![vec![]]), Err(InvocationError::IncompleteStream));
}

#[test]
fn openai_finish_reason_ends_the_turn() {
    let bytes = stream(&[
        &record("Hi"),
        b"data: {\"choices\":[{\"delta\":{\"content\":\"!\"},\"finish_reason\":\"stop\"}]}\n\n",
        &record(" ignored"),
    ]);
    assert_eq!(
        invoke_openai(&vec![bytes]),
        Ok(InvocationResult { content: "Hi!".to_string() })
    );
}

#[test]
fn openai_terminator_without_line_break_ends_the_turn() {
    let bytes = stream(&[&record("Hi"), b"data: [DONE]"]);
    assert_eq!(
        invoke_openai(&vec![bytes]),
        Ok(InvocationResult { content: "Hi".to_string() })
    );
}

#[test]
fn openai_malformed_lines_are_skipped() {
    let bytes = stream(&[
        b": keep-alive\n",
        &record("Hi"),
        b"data: {not json}\n",
        b"data: {\"unexpected\":true}\n",
        b"event: ping\n",
        b"data: [1,2,3]\n",
        &record("!"),
        b"data: \n",
        b"data: [DONE]\n",
    ]);
    assert_eq!(
        invoke_openai(&vec![bytes]),
        Ok(InvocationResult { content: "Hi!".to_string() })
    );
}
