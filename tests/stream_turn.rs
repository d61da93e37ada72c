use claude_quest::stream::{finish_turn, interpret_lines, mentions_error, StreamState};

fn lines(v: &[&str]) -> Vec<String> {
    v.iter().map(|s| s.to_string()).collect()
}

fn error_after(frames: &[&str]) -> Option<String> {
    let (state, _) = interpret_lines(&lines(frames));
    state.error_message
}

#[test]
fn events_follow_line_order_and_text_aggregates() {
    let input = lines(&[
        r#"{"type":"assistant","message":{"content":[{"type":"text","text":"Hello "},{"type":"thinking","thinking":"hmm"},{"type":"tool_use","name":"Bash"}]}}"#,
        "not json at all",
        r#"{"type":"assistant","message":{"content":[{"type":"tool_use"},{"type":"text","text":"world "}]}}"#,
        r#"{"type":"result","result":"ignored","session_id":"s1","usage":{"input_tokens":3,"output_tokens":4}}"#,
    ]);
    let (state, events) = interpret_lines(&input);
    assert_eq!(events.len(), 5);
    assert_eq!(events[0].content, "Hello ");
    assert_eq!(events[0].thinking, None);
    assert_eq!(events[1].content, "");
    assert_eq!(events[1].thinking.as_deref(), Some("hmm"));
    assert_eq!(events[2].thinking.as_deref(), Some("Using Bash..."));
    assert_eq!(events[3].thinking.as_deref(), Some("Using tool..."));
    assert_eq!(events[4].content, "world ");
    assert!(events.iter().all(|e| !e.is_complete && e.tokens_used.is_none()));
    assert_eq!(state.response, "Hello world ");
    assert_eq!(state.session_id.as_deref(), Some("s1"));
    assert_eq!(state.total_tokens, 7);
    match finish_turn(state, "Assistant", true, "", "exit status: 0") {
        Ok((result, closing)) => {
            assert_eq!(result.response, "Hello world");
            assert_eq!(result.session_id.as_deref(), Some("s1"));
            assert!(closing.is_complete);
            assert_eq!(closing.content, "");
            assert_eq!(closing.tokens_used, Some(7));
        }
        Err(e) => panic!("unexpected failure: {}", e),
    }
}

#[test]
fn error_result_fails_whatever_the_exit_status() {
    let input = lines(&[
        r#"{"type":"assistant","message":{"content":[{"type":"text","text":"partial"}]}}"#,
        r#"{"type":"result","is_error":true,"result":"boom"}"#,
    ]);
    for exited_ok in [true, false] {
        let (state, _) = interpret_lines(&input);
        assert_eq!(state.response, "partial");
        match finish_turn(state, "Assistant", exited_ok, "some stderr", "exit status: 1") {
            Err(e) => assert_eq!(e, "boom"),
            Ok(_) => panic!("turn should fail"),
        }
    }
}

#[test]
fn clean_turn_without_streamed_text_takes_result() {
    let input = lines(&[
        r#"{"type":"system","message":"session started"}"#,
        r#"{"type":"result","result":"  the answer \n","session_id":"abc"}"#,
    ]);
    let (state, events) = interpret_lines(&input);
    assert!(events.is_empty());
    match finish_turn(state, "Assistant", true, "", "exit status: 0") {
        Ok((result, closing)) => {
            assert_eq!(result.response, "the answer");
            assert_eq!(result.session_id.as_deref(), Some("abc"));
            assert_eq!(closing.tokens_used, None);
        }
        Err(e) => panic!("unexpected failure: {}", e),
    }
}

#[test]
fn result_text_does_not_replace_streamed_text() {
    let input = lines(&[
        r#"{"type":"assistant","message":{"content":[{"type":"text","text":"streamed"}]}}"#,
        r#"{"type":"result","result":"final"}"#,
    ]);
    let (state, _) = interpret_lines(&input);
    assert_eq!(state.response, "streamed");
}

#[test]
fn error_frames_give_their_messages() {
    assert_eq!(error_after(&[r#"{"type":"error","error":{"message":"bad"}}"#]).as_deref(), Some("bad"));
    assert_eq!(error_after(&[r#"{"type":"error","error":"plain"}"#]).as_deref(), Some("Unknown error"));
    assert_eq!(error_after(&[r#"{"type":"error","error":5}"#]).as_deref(), Some("Unknown error"));
    assert_eq!(error_after(&[r#"{"type":"error","message":"top"}"#]).as_deref(), Some("top"));
    assert_eq!(
        error_after(&[r#"{"type":"error","error":5,"message":"top"}"#]).as_deref(),
        Some("top")
    );
    assert_eq!(
        error_after(&[r#"{"type":"error","error":{"message":"inner"},"message":"top"}"#]).as_deref(),
        Some("inner")
    );
    assert_eq!(
        error_after(&[r#"{"type":"error","error":"plain","message":"top"}"#]).as_deref(),
        Some("top")
    );
    assert_eq!(error_after(&[r#"{"type":"error"}"#]).as_deref(), Some("Unknown error"));
    assert_eq!(
        error_after(&[r#"{"type":"system","message":"An ERROR occurred"}"#]).as_deref(),
        Some("An ERROR occurred")
    );
    assert_eq!(error_after(&[r#"{"type":"system","message":"ready"}"#]), None);
    assert_eq!(error_after(&[r#"{"type":"result","is_error":false,"result":"fine"}"#]), None);
}

#[test]
fn failed_exit_prefers_stream_error_then_stderr_then_status() {
    let (state, _) = interpret_lines(&lines(&[r#"{"type":"error","message":"stream says no"}"#]));
    assert_eq!(finish_turn(state, "Assistant", false, "err output", "exit status: 2").err().as_deref(), Some("stream says no"));
    let state = StreamState::new();
    assert_eq!(finish_turn(state, "Assistant", false, "oops\n", "exit status: 2").err().as_deref(), Some("Assistant error: oops\n"));
    let state = StreamState::new();
    assert_eq!(
        finish_turn(state, "Assistant", false, "", "exit status: 2").err().as_deref(),
        Some("Assistant exited with status: exit status: 2")
    );
}

#[test]
fn token_counts_are_found_in_order() {
    let (s, _) = interpret_lines(&lines(&[r#"{"type":"result","usage":{"total_tokens":42,"input_tokens":1}}"#]));
    assert_eq!(s.total_tokens, 42);
    let (s, _) = interpret_lines(&lines(&[r#"{"type":"result","usage":{},"stats":{"input_tokens":5,"output_tokens":6}}"#]));
    assert_eq!(s.total_tokens, 11);
    let (s, _) = interpret_lines(&lines(&[r#"{"type":"result","stats":{"input_tokens":2}}"#]));
    assert_eq!(s.total_tokens, 2);
    let (s, _) = interpret_lines(&lines(&[
        r#"{"type":"result","usage":{"input_tokens":18446744073709551615,"output_tokens":9}}"#,
    ]));
    assert_eq!(s.total_tokens, u64::MAX);
}

#[test]
fn lowered_messages_are_searched_for_error() {
    assert!(mentions_error("an error occurred"));
    assert!(mentions_error("error"));
    assert!(!mentions_error("an erro"));
    assert!(!mentions_error("An ERROR"));
}

#[test]
fn counts_that_are_not_unsigned_integers_count_as_zero() {
    let (s, _) = interpret_lines(&lines(&[r#"{"type":"result","usage":{"input_tokens":-2,"output_tokens":3}}"#]));
    assert_eq!(s.total_tokens, 3);
    let (s, _) = interpret_lines(&lines(&[r#"{"type":"result","usage":{"input_tokens":1.5,"output_tokens":"4"}}"#]));
    assert_eq!(s.total_tokens, 0);
}

#[test]
fn bare_error_frame_fails_a_successful_turn() {
    let (state, _) = interpret_lines(&lines(&[
        r#"{"type":"assistant","message":{"content":[{"type":"text","text":"hi"}]}}"#,
        r#"{"type":"error"}"#,
    ]));
    assert_eq!(finish_turn(state, "Assistant", true, "", "exit status: 0").err().as_deref(), Some("Unknown error"));
}
