use argon::session::{
    authorize, token_matches, ClientMessage, PluginPoll, PollAction, PollPhase, Session,
    SessionAction, MAX_BATCH, POLL_WAIT_SECS, UNAUTHORIZED_CLOSE_CODE,
};

#[test]
fn token_message_authorizes() {
    assert!(authorize(Some(r#"{"token":"3f2a-uuid"}"#), "3f2a-uuid"));
    assert!(authorize(Some(r#"{ "other": 1, "token": "abc" }"#), "abc"));
}

#[test]
fn wrong_or_missing_token_is_refused() {
    assert!(!authorize(Some(r#"{"token":"abd"}"#), "abc"));
    assert!(!authorize(Some(r#"{"token":5}"#), "5"));
    assert!(!authorize(Some(r#"{"tok":"abc"}"#), "abc"));
    assert!(!authorize(Some(r#"["abc"]"#), "abc"));
    assert!(!authorize(Some("abc"), "abc"));
    assert!(!authorize(Some(""), ""));
    assert!(!authorize(None, "abc"));
    assert_eq!(UNAUTHORIZED_CLOSE_CODE, 4001);
}

#[test]
fn claimed_token_comparison() {
    assert!(token_matches(&Some("x".to_string()), "x"));
    assert!(!token_matches(&Some("x".to_string()), "y"));
    assert!(!token_matches(&None, ""));
}

#[test]
fn stream_session_steps() {
    let mut s = Session::new();
    assert_eq!(s.on_frame(Some(0)), SessionAction::Ignore);
    assert_eq!(s.on_frame(Some(10)), SessionAction::SendFrame);
    assert_eq!(s.on_stream_message(ClientMessage::Ping), SessionAction::Pong);
    assert_eq!(s.on_stream_message(ClientMessage::Text), SessionAction::Ignore);
    assert_eq!(s.on_stream_message(ClientMessage::Error), SessionAction::Ignore);
    assert!(s.open);
    assert_eq!(s.on_stream_message(ClientMessage::Close), SessionAction::Stop);
    assert!(!s.open);

    let mut t = Session::new();
    assert_eq!(t.on_frame(None), SessionAction::Stop);
    assert!(!t.open);

    let mut u = Session::new();
    u.on_send_result(true);
    assert!(u.open);
    u.on_send_result(false);
    assert!(!u.open);
    u.on_send_result(true);
    assert!(!u.open);
}

#[test]
fn input_session_steps() {
    let mut s = Session::new();
    assert_eq!(s.on_input_message(ClientMessage::Text), SessionAction::Deliver);
    assert_eq!(s.on_input_message(ClientMessage::Ping), SessionAction::Pong);
    assert_eq!(s.on_input_message(ClientMessage::Other), SessionAction::Ignore);
    assert!(s.open);
    assert_eq!(s.on_input_message(ClientMessage::Error), SessionAction::Stop);
    assert!(!s.open);
    let mut e = Session::new();
    assert_eq!(e.on_input_message(ClientMessage::Ended), SessionAction::Stop);
}

#[test]
fn poll_returns_queued_events_without_waiting() {
    let mut p: PluginPoll<u32> = PluginPoll::new();
    assert_eq!(p.next_action(), PollAction::TryReceive);
    p.on_outcome(Some(1));
    p.on_outcome(Some(2));
    assert_eq!(p.next_action(), PollAction::TryReceive);
    p.on_outcome(None);
    assert_eq!(p.next_action(), PollAction::Respond);
    assert_eq!(p.into_events(), vec![1, 2]);
}

#[test]
fn poll_caps_batch() {
    let mut p: PluginPoll<usize> = PluginPoll::new();
    let mut i = 0;
    while p.next_action() == PollAction::TryReceive {
        p.on_outcome(Some(i));
        i += 1;
    }
    assert_eq!(p.next_action(), PollAction::Respond);
    let events = p.into_events();
    assert_eq!(events.len(), MAX_BATCH);
    assert_eq!(events, (0..64).collect::<Vec<_>>());
}

#[test]
fn poll_waits_once_for_first_event() {
    let mut p: PluginPoll<u8> = PluginPoll::new();
    p.on_outcome(None);
    assert_eq!(p.phase, PollPhase::Waiting);
    assert_eq!(p.next_action(), PollAction::Wait { secs: POLL_WAIT_SECS });
    assert_eq!(POLL_WAIT_SECS, 30);
    p.on_outcome(Some(9));
    assert_eq!(p.next_action(), PollAction::TryReceive);
    p.on_outcome(Some(10));
    p.on_outcome(None);
    assert_eq!(p.next_action(), PollAction::Respond);
    assert_eq!(p.into_events(), vec![9, 10]);
}

#[test]
fn poll_times_out_empty() {
    let mut p: PluginPoll<u8> = PluginPoll::new();
    p.on_outcome(None);
    p.on_outcome(None);
    assert_eq!(p.next_action(), PollAction::Respond);
    assert!(p.into_events().is_empty());
}

#[test]
fn successive_polls_drain_queue_in_order() {
    // A queue of 150 events served by polls driven as the server drives them.
    let mut queue: std::collections::VecDeque<usize> = (0..150).collect();
    let mut delivered = Vec::new();
    let mut sizes = Vec::new();
    while !queue.is_empty() {
        let mut p: PluginPoll<usize> = PluginPoll::new();
        loop {
            match p.next_action() {
                PollAction::TryReceive | PollAction::Wait { .. } => p.on_outcome(queue.pop_front()),
                PollAction::Respond => break,
            }
        }
        let batch = p.into_events();
        sizes.push(batch.len());
        delivered.extend(batch);
    }
    assert_eq!(sizes, vec![64, 64, 22]);
    assert_eq!(delivered, (0..150).collect::<Vec<_>>());
}
