use ollama_stream::session::{
    CancelSlot, Notice, Phase, SessionError, SessionState, StreamEvent, StreamSession,
};

fn streaming(shared: &mut SessionState) -> StreamSession {
    let (mut s, _ctx) = StreamSession::start(shared);
    assert!(s.step(shared, StreamEvent::Opened).is_empty());
    assert_eq!(s.phase, Phase::Streaming);
    s
}

fn chunk(text: &str) -> StreamEvent {
    StreamEvent::Chunk(text.as_bytes().to_vec())
}

#[test]
fn scenario_three_lines_complete_the_session() {
    let mut shared = SessionState::new();
    let mut s = streaming(&mut shared);
    let notes = s.step(
        &mut shared,
        chunk("{\"response\":\"Hi\"}\n{\"response\":\" there\",\"context\":[1,2,3]}\n{\"done\":true}\n"),
    );
    assert_eq!(
        notes,
        vec![Notice::Token("Hi".to_string()), Notice::Token(" there".to_string()), Notice::Completion]
    );
    assert_eq!(s.phase, Phase::Completed);
    assert_eq!(shared.current_context(), Some(vec![1, 2, 3]));
    assert_eq!(shared.cancel_slot(), CancelSlot::Unset);
}

#[test]
fn scenario_open_failure_fails_without_streaming() {
    let mut shared = SessionState::new();
    let (mut s, _) = StreamSession::start(&mut shared);
    let msg = "Request failed with status: 500".to_string();
    let notes = s.step(&mut shared, StreamEvent::OpenFailed(msg.clone()));
    assert_eq!(notes, vec![Notice::Error(msg)]);
    assert_eq!(s.phase, Phase::Failed);
    assert_eq!(shared.cancel_slot(), CancelSlot::Unset);
    // Nothing more happens to a failed session.
    assert!(s.step(&mut shared, chunk("{\"response\":\"x\"}\n")).is_empty());
    assert_eq!(s.phase, Phase::Failed);
}

#[test]
fn scenario_cancel_between_chunks() {
    let mut shared = SessionState::new();
    let mut s = streaming(&mut shared);
    let first = s.step(&mut shared, chunk("{\"response\":\"a\"}\n"));
    assert_eq!(first, vec![Notice::Token("a".to_string())]);
    assert_eq!(shared.request_cancel(), Ok(()));
    let second = s.step(&mut shared, chunk("{\"response\":\"b\"}\n"));
    assert_eq!(second, vec![Notice::Cancelled]);
    assert_eq!(s.phase, Phase::Cancelled);
    assert_eq!(shared.cancel_slot(), CancelSlot::Unset);
    assert!(s.step(&mut shared, chunk("{\"response\":\"c\"}\n")).is_empty());
}

#[test]
fn cancel_signal_ends_the_session() {
    let mut shared = SessionState::new();
    let mut s = streaming(&mut shared);
    assert_eq!(s.step(&mut shared, StreamEvent::CancelFired), vec![Notice::Cancelled]);
    assert_eq!(s.phase, Phase::Cancelled);
    assert_eq!(shared.cancel_slot(), CancelSlot::Unset);
}

#[test]
fn cancel_without_session_fails() {
    let mut shared = SessionState::new();
    assert_eq!(shared.request_cancel(), Err(SessionError::NoActiveStream));
    assert_eq!(shared, SessionState::new());
}

#[test]
fn second_cancel_before_observation_fails() {
    let mut shared = SessionState::new();
    let _s = streaming(&mut shared);
    assert_eq!(shared.request_cancel(), Ok(()));
    assert_eq!(shared.request_cancel(), Err(SessionError::NoActiveStream));
}

#[test]
fn cancel_after_session_ended_fails() {
    let mut shared = SessionState::new();
    let mut s = streaming(&mut shared);
    s.step(&mut shared, StreamEvent::EndOfStream);
    assert_eq!(shared.request_cancel(), Err(SessionError::NoActiveStream));
}

#[test]
fn slot_is_unset_after_each_terminal_path() {
    let mut shared = SessionState::new();

    let mut s = streaming(&mut shared);
    assert_eq!(shared.cancel_slot(), CancelSlot::Armed(s.id));
    s.step(&mut shared, chunk("{\"done\":true}\n"));
    assert_eq!(s.phase, Phase::Completed);
    assert_eq!(shared.cancel_slot(), CancelSlot::Unset);

    let mut s = streaming(&mut shared);
    shared.request_cancel().unwrap();
    s.step(&mut shared, StreamEvent::EndOfStream);
    assert_eq!(s.phase, Phase::Cancelled);
    assert_eq!(shared.cancel_slot(), CancelSlot::Unset);

    let mut s = streaming(&mut shared);
    let notes = s.step(&mut shared, StreamEvent::TransportError("Stream error: reset".to_string()));
    assert_eq!(notes, vec![Notice::Error("Stream error: reset".to_string())]);
    assert_eq!(s.phase, Phase::Failed);
    assert_eq!(shared.cancel_slot(), CancelSlot::Unset);
}

#[test]
fn end_of_stream_completes_without_notice() {
    let mut shared = SessionState::new();
    let mut s = streaming(&mut shared);
    assert!(s.step(&mut shared, StreamEvent::EndOfStream).is_empty());
    assert_eq!(s.phase, Phase::Completed);
}

#[test]
fn context_is_last_write_wins() {
    let mut shared = SessionState::new();
    let mut s = streaming(&mut shared);
    s.step(&mut shared, chunk("{\"context\":[1]}\n{\"context\":[2,2]}\n"));
    s.step(&mut shared, chunk("{\"context\":[3,3,3]}\n"));
    assert_eq!(shared.current_context(), Some(vec![3, 3, 3]));
}

#[test]
fn completion_stops_reading_the_rest_of_the_chunk() {
    let mut shared = SessionState::new();
    let mut s = streaming(&mut shared);
    let notes = s.step(&mut shared, chunk("{\"done\":true}\n{\"response\":\"late\",\"context\":[5]}\n"));
    assert_eq!(notes, vec![Notice::Completion]);
    assert_eq!(shared.current_context(), None);
}

#[test]
fn start_reads_context_and_displaces_handle() {
    let mut shared = SessionState::new();
    let mut first = streaming(&mut shared);
    first.step(&mut shared, chunk("{\"context\":[4]}\n"));
    let (second, ctx) = StreamSession::start(&mut shared);
    assert_eq!(ctx, Some(vec![4]));
    assert_ne!(first.id, second.id);
    assert_eq!(shared.cancel_slot(), CancelSlot::Armed(second.id));
    shared.request_cancel().unwrap();
    // The displaced session does not see the other session's cancellation.
    let notes = first.step(&mut shared, chunk("{\"response\":\"x\"}\n"));
    assert_eq!(notes, vec![Notice::Token("x".to_string())]);
}

#[test]
fn reset_context_clears_it() {
    let mut shared = SessionState::new();
    let mut s = streaming(&mut shared);
    s.step(&mut shared, chunk("{\"context\":[8]}\n"));
    shared.reset_context();
    assert_eq!(shared.current_context(), None);
    let (_s2, ctx) = StreamSession::start(&mut shared);
    assert_eq!(ctx, None);
}

#[test]
fn invalid_utf8_chunk_changes_nothing() {
    let mut shared = SessionState::new();
    let mut s = streaming(&mut shared);
    let notes = s.step(&mut shared, StreamEvent::Chunk(vec![b'{', 0xc3, b'\n']));
    assert!(notes.is_empty());
    assert_eq!(s.phase, Phase::Streaming);
}

#[test]
fn cancel_while_opening_is_observed_once_open() {
    let mut shared = SessionState::new();
    let (mut s, _) = StreamSession::start(&mut shared);
    assert_eq!(shared.request_cancel(), Ok(()));
    assert!(s.step(&mut shared, StreamEvent::Opened).is_empty());
    assert_eq!(s.phase, Phase::Streaming);
    let notes = s.step(&mut shared, chunk("{\"response\":\"late\"}\n"));
    assert_eq!(notes, vec![Notice::Cancelled]);
    assert_eq!(s.phase, Phase::Cancelled);
    assert_eq!(shared.cancel_slot(), CancelSlot::Unset);
}

#[test]
fn unparseable_lines_become_diagnostics_only() {
    let mut shared = SessionState::new();
    let mut s = streaming(&mut shared);
    let notes = s.step(&mut shared, chunk("oops\n{\"response\":\"a\"}\n"));
    assert_eq!(notes, vec![Notice::Diagnostic("oops".to_string()), Notice::Token("a".to_string())]);
    assert_eq!(s.phase, Phase::Streaming);
}

#[test]
fn context_updates_replace_across_tokens_and_chunks() {
    let mut shared = SessionState::new();
    let mut s = streaming(&mut shared);
    s.step(&mut shared, chunk("{\"context\":[1,1]}\n{\"response\":\"x\"}\n{\"context\":[2]}\n{\"response\":\"y\"}\n"));
    assert_eq!(shared.current_context(), Some(vec![2]));
    s.step(&mut shared, chunk("{\"response\":\"z\"}\n"));
    assert_eq!(shared.current_context(), Some(vec![2]));
    s.step(&mut shared, chunk("{\"context\":[3,3,3],\"response\":\"w\"}\n"));
    assert_eq!(shared.current_context(), Some(vec![3, 3, 3]));
}
