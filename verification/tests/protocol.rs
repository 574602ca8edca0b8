//! Pastes, requests, responses and messages between client and server.

use rmux::client::{
    after_event_response, after_no_request, after_snapshot, detach_outcome, hold_step,
    is_socket_closed, is_terminal_output_closed, kill_report, paste_falls_back, paste_request,
    resize_request, retries_request, start_step, terminal_event_request, wait_step, ClientStep,
    HoldStep, PasteAttempt, StreamFault, TerminalEvent,
};
use rmux::clipboard::osc52_clipboard_sequence;
use rmux::ipc::{
    check_socket_dir, frame_message, message_length, sanitized_session_name, session_of_socket,
    socket_dir, socket_is_stale, socket_path, sorted_names, MAX_MESSAGE_SIZE,
};
use rmux::keys::{KeyCode, KeyEvent, KeyModifiers};
use rmux::paste::{framed_bracketed_paste_input, paste_input, sanitize_bracketed_paste_input};
use rmux::protocol::{
    key_modifiers, wire_modifiers, ClientRequest, ServerResponse, TtySize, WireKey, WireKeyCode,
};

#[test]
fn bracketed_paste_is_framed_once() {
    assert_eq!(
        framed_bracketed_paste_input("hello\nworld".as_bytes()),
        b"\x1b[200~hello\nworld\x1b[201~"
    );
}

#[test]
fn bracketed_paste_strips_embedded_markers() {
    assert_eq!(
        framed_bracketed_paste_input(b"before\x1b[201~middle\x1b[200~after"),
        b"\x1b[200~beforemiddleafter\x1b[201~"
    );
}

#[test]
fn markers_are_stripped_in_one_pass() {
    assert_eq!(sanitize_bracketed_paste_input(b"plain"), None);
    assert_eq!(
        sanitize_bracketed_paste_input(b"\x1b[20\x1b[201~1~"),
        Some(b"\x1b[201~".to_vec())
    );
}

#[test]
fn an_empty_paste_writes_nothing() {
    assert_eq!(paste_input(b"", true), None);
    assert_eq!(paste_input(b"", false), None);
    assert_eq!(paste_input(b"raw-paste\n", false), Some(b"raw-paste\n".to_vec()));
    assert_eq!(paste_input(b"x", true), Some(b"\x1b[200~x\x1b[201~".to_vec()));
}

#[test]
fn error_response_becomes_error() {
    let error = ServerResponse::Error("bad target".to_string())
        .into_view()
        .expect_err("error response should not produce a view");

    assert_eq!(error.message(), "bad target");
}

#[test]
fn other_responses_without_a_view_become_errors() {
    let told = |response: ServerResponse| response.into_view().unwrap_err().message();
    assert_eq!(told(ServerResponse::Noop), "request did not produce a view");
    assert_eq!(told(ServerResponse::Detached), "session detached");
    assert_eq!(told(ServerResponse::Shutdown), "session shut down");
}

#[test]
fn osc52_clipboard_payload_is_base64_encoded() {
    assert_eq!(osc52_clipboard_sequence("hello"), "\x1b]52;c;aGVsbG8=\x07");
}

#[test]
fn osc52_clipboard_payload_is_padded() {
    assert_eq!(osc52_clipboard_sequence(""), "\x1b]52;c;\x07");
    assert_eq!(osc52_clipboard_sequence("a"), "\x1b]52;c;YQ==\x07");
    assert_eq!(osc52_clipboard_sequence("abc"), "\x1b]52;c;YWJj\x07");
    assert_eq!(osc52_clipboard_sequence("\u{fffd}?>"), "\x1b]52;c;77+9Pz4=\x07");
    assert_eq!(osc52_clipboard_sequence("\u{7ff}\u{7ff}\u{7ff}"), "\x1b]52;c;37/fv9+/\x07");
}

#[test]
fn paste_event_becomes_one_bulk_request() {
    let payload = "first line\nsecond line 🦀";
    let request = terminal_event_request(TerminalEvent::Paste(payload.to_string()));

    assert!(
        matches!(request, Some(ClientRequest::Paste(text)) if text == payload),
        "a complete paste should stay in one request"
    );
}

#[test]
fn events_that_mean_nothing_become_no_request() {
    assert!(terminal_event_request(TerminalEvent::Paste(String::new())).is_none());
    assert!(terminal_event_request(TerminalEvent::Other).is_none());
}

#[test]
fn resize_requests_are_deduplicated() {
    let mut last_size = TtySize { cols: 80, rows: 24 };
    let request = resize_request(TtySize { cols: 120, rows: 40 }, &mut last_size);

    assert!(matches!(
        request,
        Some(ClientRequest::Resize(TtySize { cols: 120, rows: 40 }))
    ));
    assert!(resize_request(TtySize { cols: 120, rows: 40 }, &mut last_size).is_none());
}

#[test]
fn sanitizes_session_names_for_socket_files() {
    assert_eq!(sanitized_session_name("work"), "work");
    assert_eq!(sanitized_session_name("team/work 1"), "team_work_1");
    assert_eq!(sanitized_session_name(""), "default");
}

#[test]
fn sockets_stand_in_the_directory_of_their_user() {
    assert_eq!(socket_dir(Some("ada")), "/tmp/rmux-ada");
    assert_eq!(socket_dir(None), "/tmp/rmux-unknown");
    assert_eq!(socket_path(Some("ada"), "team/work 1"), "/tmp/rmux-ada/team_work_1.sock");
    assert_eq!(session_of_socket("team_work_1.sock").as_deref(), Some("team_work_1"));
    assert_eq!(session_of_socket(".sock"), None);
    assert_eq!(session_of_socket("notes.txt"), None);
    assert_eq!(
        sorted_names(vec!["b".to_string(), "a".to_string(), "ab".to_string()]),
        vec!["a", "ab", "b"]
    );
}

#[test]
fn a_socket_of_a_running_session_is_refused() {
    assert_eq!(socket_is_stale("work", false, false).unwrap(), false);
    assert_eq!(socket_is_stale("work", true, false).unwrap(), true);
    let error = socket_is_stale("work", true, true).unwrap_err();
    assert_eq!(error.message(), "rmux session work is already running");
}

#[test]
fn a_socket_directory_is_a_directory_of_its_own() {
    assert!(check_socket_dir("/tmp/rmux-ada", true, false).is_ok());
    for (is_dir, is_symlink) in [(false, false), (true, true)] {
        let error = check_socket_dir("/tmp/rmux-ada", is_dir, is_symlink).unwrap_err();
        assert_eq!(
            error.message(),
            "rmux socket path is not a secure directory: /tmp/rmux-ada"
        );
    }
}

#[test]
fn messages_carry_their_length() {
    let framed = frame_message(&b"hello".to_vec()).unwrap();
    assert_eq!(framed, b"\x00\x00\x00\x05hello");
    assert_eq!(message_length(&framed[..4]).unwrap(), 5);
    assert_eq!(message_length(&[0, 1, 2, 3]).unwrap(), 0x1_0203);
    assert_eq!(message_length(&[1, 0, 0, 0]).unwrap(), MAX_MESSAGE_SIZE);
    let error = message_length(&[1, 0, 0, 1]).unwrap_err();
    assert_eq!(error.message(), "rmux message too large: 16777217 bytes");
}

#[test]
fn modifiers_travel_as_bits() {
    let sent = KeyModifiers {
        shift: true,
        control: false,
        alt: true,
        super_key: true,
        hyper: false,
        meta: false,
    };
    assert_eq!(wire_modifiers(sent), 0b1101);
    assert_eq!(key_modifiers(0b1101), sent);

    let key = WireKey::from(KeyEvent::new(KeyCode::Char('x'), sent));
    assert_eq!(key.code, WireKeyCode::Char('x'));
    assert_eq!(KeyEvent::from(key), KeyEvent::new(KeyCode::Char('x'), sent));
}

#[test]
fn a_closed_connection_is_tried_once_more() {
    assert!(is_socket_closed(StreamFault::UnexpectedEof));
    assert!(!is_socket_closed(StreamFault::NotConnected));
    assert!(is_terminal_output_closed(StreamFault::NotConnected));
    assert!(!is_terminal_output_closed(StreamFault::UnexpectedEof));
    assert!(retries_request(StreamFault::BrokenPipe, 1));
    assert!(!retries_request(StreamFault::BrokenPipe, 2));
    assert!(!retries_request(StreamFault::Other, 1));
}

#[test]
fn a_server_that_knows_no_pastes_is_written_to() {
    let mut supported = true;
    assert!(matches!(
        paste_request("first".to_string(), supported),
        ClientRequest::Paste(text) if text == "first"
    ));
    assert!(!paste_falls_back(StreamFault::Other, &mut supported));
    assert!(supported);
    assert!(paste_falls_back(StreamFault::ConnectionReset, &mut supported));
    assert!(!supported);
    assert!(matches!(
        paste_request("second é".to_string(), supported),
        ClientRequest::Write(bytes) if bytes == "second é".as_bytes()
    ));
    assert!(!paste_falls_back(StreamFault::ConnectionReset, &mut supported));
}

#[test]
fn a_client_goes_by_what_it_is_answered() {
    assert!(matches!(after_no_request(true), ClientStep::Wait));
    assert!(matches!(after_no_request(false), ClientStep::Snapshot));
    assert!(matches!(
        after_event_response(ServerResponse::Noop, false, true),
        ClientStep::Wait
    ));
    assert!(matches!(
        after_event_response(ServerResponse::Noop, true, true),
        ClientStep::Snapshot
    ));
    assert!(matches!(
        after_event_response(ServerResponse::Detached, false, true),
        ClientStep::End
    ));
    assert!(matches!(after_snapshot(ServerResponse::Shutdown), ClientStep::End));
    match after_snapshot(ServerResponse::Error("gone".to_string())) {
        ClientStep::Fail(error) => assert_eq!(error.message(), "gone"),
        other => panic!("expected a failure, got {other:?}"),
    }
    assert!(detach_outcome(ServerResponse::Detached).is_ok());
    assert!(detach_outcome(ServerResponse::Shutdown).is_err());
    assert!(matches!(hold_step(ServerResponse::Noop), HoldStep::Hold));
    assert!(matches!(hold_step(ServerResponse::Detached), HoldStep::End));
    assert!(matches!(
        hold_step(ServerResponse::Error("gone".to_string())),
        HoldStep::Fail(_)
    ));
}

#[test]
fn waiting_ends_with_what_is_waited_for_or_in_time() {
    assert!(matches!(wait_step(true, true, "work", None), Some(Ok(()))));
    assert!(wait_step(false, false, "work", None).is_none());
    let told = |pattern: Option<&str>| match wait_step(false, true, "work", pattern) {
        Some(Err(error)) => error.message(),
        other => panic!("expected a failure, got {other:?}"),
    };
    assert_eq!(told(None), "timed out waiting for session work");
    assert_eq!(
        told(Some("a \"b\"")),
        "timed out waiting for target work to contain \"a \\\"b\\\"\""
    );

    assert!(start_step(false, false, "work").is_none());
    assert!(matches!(start_step(true, false, "work"), Some(Ok(()))));
    match start_step(true, true, "work") {
        Some(Err(error)) => assert_eq!(error.message(), "rmux server did not start for work"),
        other => panic!("expected a failure, got {other:?}"),
    }
}

#[test]
fn sessions_that_are_not_killed_are_told() {
    assert!(kill_report(&Vec::new()).is_ok());
    let failures = vec![
        ("a".to_string(), "gone".to_string()),
        ("b".to_string(), "busy".to_string()),
    ];
    assert_eq!(
        kill_report(&failures).unwrap_err().message(),
        "failed to kill rmux sessions: a: gone; b: busy"
    );
}

/// What is sent for a paste where the attempts end like this; `None` is an answer.
fn pasted(supported: &mut bool, ends: &[Option<StreamFault>]) -> Vec<ClientRequest> {
    let mut attempt = PasteAttempt::new(*supported);
    let mut sent = Vec::new();
    for end in ends {
        sent.push(paste_request("text".to_string(), attempt.supported));
        let again = match end {
            Some(fault) => attempt.try_again(*fault),
            None => false,
        };
        *supported = attempt.supported;
        if !again {
            break;
        }
    }
    sent
}

#[test]
fn a_paste_falls_back_after_two_closed_connections() {
    let closed = Some(StreamFault::UnexpectedEof);
    let mut supported = true;
    let sent = pasted(&mut supported, &[closed, closed, None]);
    assert!(matches!(
        sent.as_slice(),
        [ClientRequest::Paste(_), ClientRequest::Paste(_), ClientRequest::Write(bytes)]
            if bytes == b"text"
    ));
    assert!(!supported);

    let sent = pasted(&mut supported, &[None]);
    assert!(matches!(sent.as_slice(), [ClientRequest::Write(_)]));
    let sent = pasted(&mut supported, &[closed, closed, None]);
    assert!(matches!(sent.as_slice(), [ClientRequest::Write(_), ClientRequest::Write(_)]));
    assert!(!supported);
}

#[test]
fn a_paste_stays_a_paste_after_one_closed_connection() {
    let mut supported = true;
    let sent = pasted(&mut supported, &[Some(StreamFault::BrokenPipe), None]);
    assert!(matches!(sent.as_slice(), [ClientRequest::Paste(_), ClientRequest::Paste(_)]));
    assert!(supported);
    let sent = pasted(&mut supported, &[Some(StreamFault::Other), None]);
    assert!(matches!(sent.as_slice(), [ClientRequest::Paste(_)]));
    assert!(supported);
}
