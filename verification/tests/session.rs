use relay_core::session::ServerState;

fn identify_frame(token: &str) -> String {
    format!(
        "{{\"name\":\"Identify\",\"dat\":{{\"username\":\"whoever\",\"identity\":\"{}\"}}}}",
        token
    )
}

#[test]
fn identify_with_unknown_token_gets_abort() {
    let mut state = ServerState::new(2);
    let reply = state.process_frame(
        1,
        "{\"name\":\"Identify\",\"dat\":{\"username\":\"a\",\"identity\":\"tok1\"}}",
    );
    let e = reply.unwrap();
    assert_eq!(e.id, 1);
    assert_eq!(e.name, "Abort");
    assert_eq!(e.dat, "null");
    let t = e.encode().unwrap();
    let v: serde_json::Value = serde_json::from_str(&t).unwrap();
    assert_eq!(v.get("id").unwrap().as_i64().unwrap(), 1);
    assert_eq!(v.get("name").unwrap().as_str().unwrap(), "Abort");
    assert!(v.get("dat").unwrap().is_null());
    assert!(state.sessions.get(1).is_none());
}

#[test]
fn identify_with_known_token_reattaches() {
    let mut state = ServerState::new(2);
    state.identities.insert("bob".to_string(), "tok1".to_string());
    let reply = state.process_frame(
        7,
        "{\"name\":\"Identify\",\"dat\":{\"username\":\"mallory\",\"identity\":\"tok1\"}}",
    );
    let e = reply.unwrap();
    assert_eq!(e.id, 7);
    assert_eq!(e.name, "Message");
    assert_eq!(e.dat, "\"\u{8eab}\u{4efd}\u{9a8c}\u{8bc1}\u{6210}\u{529f}\"");
    // bound to the recovered username, never the advisory one
    assert_eq!(state.sessions.get(7).unwrap().as_str(), "bob");
    // the record is consumed: reattachment is single-use
    assert!(state.identities.get("bob").is_none());
    assert!(state.identities.find_by_token("tok1").is_none());
}

#[test]
fn token_is_single_use() {
    let mut state = ServerState::new(2);
    state.identities.insert("bob".to_string(), "tok1".to_string());
    let first = state.process_frame(1, &identify_frame("tok1")).unwrap();
    assert_eq!(first.name, "Message");
    let second = state.process_frame(2, &identify_frame("tok1")).unwrap();
    assert_eq!(second.name, "Abort");
    assert_eq!(state.sessions.get(1).unwrap().as_str(), "bob");
    assert!(state.sessions.get(2).is_none());
}

#[test]
fn reattach_evicts_prior_binding() {
    let mut state = ServerState::new(2);
    state.identities.insert("bob".to_string(), "tok1".to_string());
    assert!(state.process_frame(1, &identify_frame("tok1")).is_some());
    assert_eq!(state.sessions.get(1).unwrap().as_str(), "bob");
    state.identities.insert("bob".to_string(), "tok2".to_string());
    let reply = state.process_frame(9, &identify_frame("tok2")).unwrap();
    assert_eq!(reply.name, "Message");
    assert!(state.sessions.get(1).is_none());
    assert_eq!(state.sessions.get(9).unwrap().as_str(), "bob");
}

#[test]
fn identify_with_bad_payload_gets_abort() {
    let mut state = ServerState::new(2);
    let e = state
        .process_frame(4, "{\"name\":\"Identify\",\"dat\":{\"username\":\"a\"}}")
        .unwrap();
    assert_eq!(e.name, "Abort");
    let e = state.process_frame(4, "{\"name\":\"Identify\",\"dat\":null}").unwrap();
    assert_eq!(e.name, "Abort");
}

#[test]
fn close_tears_down_and_is_idempotent() {
    let mut state = ServerState::new(2);
    state.identities.insert("bob".to_string(), "tok1".to_string());
    state.rooms[1].add("bob");
    assert!(state.rooms[1].contains("bob"));
    assert!(state.process_frame(3, &identify_frame("tok1")).is_some());
    assert_eq!(state.sessions.get(3).unwrap().as_str(), "bob");

    let reply = state.process_frame(3, "{\"name\":\"Close\",\"dat\":null}");
    assert!(reply.is_none());
    assert!(state.sessions.get(3).is_none());
    assert!(!state.rooms[1].contains("bob"));
    assert!(state.identities.get("bob").is_none());

    // teardown is idempotent: the state stays torn down, and the now
    // unauthenticated connection is answered with Abort
    let again = state.process_frame(3, "{\"name\":\"Close\",\"dat\":null}").unwrap();
    assert_eq!(again.name, "Abort");
    assert!(state.sessions.get(3).is_none());
    assert!(!state.rooms[1].contains("bob"));
}

#[test]
fn message_before_identify_gets_abort() {
    let mut state = ServerState::new(2);
    let e = state.process_frame(5, "{\"name\":\"Message\",\"dat\":\"hi\"}").unwrap();
    assert_eq!(e.id, 5);
    assert_eq!(e.name, "Abort");
    assert_eq!(e.dat, "null");
    assert!(state.sessions.get(5).is_none());
}

#[test]
fn authenticated_message_is_greeted() {
    let mut state = ServerState::new(2);
    state.identities.insert("bob".to_string(), "tok1".to_string());
    assert!(state.process_frame(2, &identify_frame("tok1")).is_some());
    let e = state.process_frame(2, "{\"name\":\"Message\",\"dat\":\"hi\"}").unwrap();
    assert_eq!(e.id, 2);
    assert_eq!(e.name, "Message");
    assert_eq!(e.dat, "\"hello, 2!\"");
}

#[test]
fn unknown_names_pass_through_unanswered() {
    let mut state = ServerState::new(2);
    state.identities.insert("bob".to_string(), "tok1".to_string());
    assert!(state.process_frame(2, &identify_frame("tok1")).is_some());
    let reply = state.process_frame(2, "{\"name\":\"Jump\",\"dat\":[1,2]}");
    assert!(reply.is_none());
    assert_eq!(state.sessions.get(2).unwrap().as_str(), "bob");
}

#[test]
fn malformed_frame_gets_error_and_keeps_connection_state() {
    let mut state = ServerState::new(2);
    state.identities.insert("bob".to_string(), "tok1".to_string());
    assert!(state.process_frame(6, &identify_frame("tok1")).is_some());
    let e = state.process_frame(6, "this is not json").unwrap();
    assert_eq!(e.id, 6);
    assert_eq!(e.name, "Error");
    assert_eq!(e.dat, "\"malformed message\"");
    // the connection stays authenticated
    assert_eq!(state.sessions.get(6).unwrap().as_str(), "bob");
}

#[test]
fn remove_player_clears_session_room_and_record() {
    let mut state = ServerState::new(3);
    state.identities.insert("ada".to_string(), "tok9".to_string());
    state.sessions.insert(11, "ada".to_string());
    state.rooms[2].add("ada");
    state.remove_player("ada");
    assert!(state.sessions.get(11).is_none());
    assert!(state.identities.get("ada").is_none());
    assert!(!state.rooms[2].contains("ada"));
}

#[test]
fn identify_returns_the_recorded_username() {
    let mut state = ServerState::new(1);
    state.identities.insert("bob".to_string(), "tok1".to_string());
    let u = state.identify("{\"username\":\"zoe\",\"identity\":\"tok1\"}").unwrap();
    assert_eq!(u, "bob");
    // the token was consumed, and a bad payload is rejected too
    assert!(state.identify("{\"username\":\"zoe\",\"identity\":\"tok1\"}").is_err());
    assert!(state.identify("not json").is_err());
}
