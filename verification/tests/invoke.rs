use llm_pipe::event::StreamEvent;
use llm_pipe::invoke::collect;
use llm_pipe::invoke::Invocation;
use llm_pipe::invoke::InvocationError;
use llm_pipe::invoke::InvocationResult;

fn piece(text: &str) -> StreamEvent {
    StreamEvent::TextFragment(text.to_string())
}

#[test]
fn collect_joins_the_fragments_up_to_the_end() {
    let events = vec![piece("Hi"), StreamEvent::Other, piece("!"), StreamEvent::End];
    assert_eq!(collect(&events), Ok(InvocationResult { content: "Hi!".to_string() }));
}

#[test]
fn collect_stops_at_the_first_end() {
    let events = vec![piece("a"), StreamEvent::End, piece("b"), StreamEvent::End];
    assert_eq!(collect(&events), Ok(InvocationResult { content: "a".to_string() }));
}

#[test]
fn collect_without_end_is_incomplete() {
    assert_eq!(collect(&vec![]), Err(InvocationError::IncompleteStream));
    assert_eq!(
        collect(&vec![piece("partial"), StreamEvent::Other]),
        Err(InvocationError::IncompleteStream)
    );
}

#[test]
fn collect_of_the_end_alone_is_an_empty_turn() {
    assert_eq!(
        collect(&vec![StreamEvent::End]),
        Ok(InvocationResult { content: String::new() })
    );
}

#[test]
fn invocation_forwards_each_fragment_as_it_arrives() {
    let mut turn = Invocation::begin();
    assert!(!turn.ended());
    assert_eq!(turn.accept(&piece("Hi")), Some("Hi".to_string()));
    assert_eq!(turn.accept(&StreamEvent::Other), None);
    assert_eq!(turn.accept(&piece("!")), Some("!".to_string()));
    assert!(!turn.ended());
    assert_eq!(turn.accept(&StreamEvent::End), None);
    assert!(turn.ended());
    assert_eq!(turn.accept(&piece("late")), None);
    assert_eq!(turn.accept(&StreamEvent::End), None);
    assert_eq!(turn.finish(), Ok(InvocationResult { content: "Hi!".to_string() }));
}

#[test]
fn invocation_closed_before_the_end_is_incomplete() {
    let mut turn = Invocation::begin();
    assert_eq!(turn.accept(&piece("Hi")), Some("Hi".to_string()));
    assert_eq!(turn.finish(), Err(InvocationError::IncompleteStream));
    assert_eq!(Invocation::begin().finish(), Err(InvocationError::IncompleteStream));
}

#[test]
fn invocation_takes_in_a_run_of_events() {
    let mut turn = Invocation::begin();
    turn.accept_all(&vec![piece("a"), piece("b")]);
    assert!(!turn.ended());
    turn.accept_all(&vec![]);
    turn.accept_all(&vec![piece("c"), StreamEvent::End, piece("d")]);
    assert!(turn.ended());
    assert_eq!(turn.finish(), Ok(InvocationResult { content: "abc".to_string() }));
}

#[test]
fn invocation_gives_back_the_texts_to_forward() {
    let mut turn = Invocation::begin();
    let first = turn.accept_all(&vec![piece("a"), StreamEvent::Other, piece("b")]);
    assert_eq!(first, vec!["a".to_string(), "b".to_string()]);
    let second = turn.accept_all(&vec![piece("c"), StreamEvent::End, piece("d")]);
    assert_eq!(second, vec!["c".to_string()]);
    let third = turn.accept_all(&vec![piece("e"), StreamEvent::End]);
    assert_eq!(third, Vec::<String>::new());
    let shown = [first, second, third].concat().concat();
    assert_eq!(turn.finish(), Ok(InvocationResult { content: shown }));
}

#[test]
fn other_events_change_nothing() {
    let plain = vec![piece("a"), piece("b"), StreamEvent::End];
    let expected = collect(&plain);
    for at in 0..=plain.len() {
        let mut noisy = plain.clone();
        noisy.insert(at, StreamEvent::Other);
        assert_eq!(collect(&noisy), expected);
    }
    assert_eq!(
        collect(&vec![StreamEvent::Other, piece("a")]),
        collect(&vec![piece("a")])
    );
}
