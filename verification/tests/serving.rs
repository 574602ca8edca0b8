//! What a server does about a request.

use rmux::mux::Rmux;
use rmux::protocol::{
    BoundCommand, ClientRequest, ResizeDirection, RmuxCommand, ServerResponse, SplitAxis,
    SwapDirection, TtySize, WireKey, WireKeyCode, WireMouse, WireMouseKind,
};
use rmux::server::{
    after_response, after_write, apply_rmux_command, begin_request, can_serve, error_response,
    pending_after_drain, pending_without_view, settle_response, takes_client, AfterResponse,
    Begun, Pending,
};
use rmux::state::Effect;

fn session() -> Rmux {
    Rmux::new(TtySize { cols: 80, rows: 24 }, "work".to_string())
}

fn begin(app: &mut Rmux, request: ClientRequest) -> Begun {
    assert!(can_serve(app, &request));
    begin_request(app, request, &Vec::new(), None)
}

fn apply(app: &mut Rmux, command: RmuxCommand) -> Result<(), String> {
    match apply_rmux_command(app, command) {
        Ok(Effect::Spawn(request)) => {
            app.finish_spawn(request, true).map_err(|error| error.message())
        }
        Ok(_) => Ok(()),
        Err(error) => Err(error.message()),
    }
}

fn refused(app: &mut Rmux, command: RmuxCommand) -> String {
    apply(app, command).unwrap_err()
}

#[test]
fn a_snapshot_is_answered_with_a_view() {
    let mut app = session();
    assert!(matches!(
        begin(&mut app, ClientRequest::Snapshot),
        Begun::ShowAfter(Effect::Nothing)
    ));
    assert!(matches!(pending_after_drain(&mut app, &Vec::new()), Pending::View));
}

#[test]
fn bytes_are_answered_without_a_view() {
    let mut app = session();
    match begin(&mut app, ClientRequest::Key(WireKey { code: WireKeyCode::Char('x'), modifiers: 0 })) {
        Begun::ShowAfter(Effect::Input { panes, bytes, to_bottom }) => {
            assert!(to_bottom);
            assert_eq!(panes, vec![1]);
            assert_eq!(bytes, b"x");
        }
        other => panic!("expected input, got {other:?}"),
    }
    assert!(matches!(
        pending_without_view(&mut app, &Vec::new()),
        Pending::Response(ServerResponse::Noop)
    ));
}

#[test]
fn what_is_pasted_or_written_brings_its_panes_back_to_their_last_lines() {
    let mut app = session();
    match begin(&mut app, ClientRequest::Paste("two\nlines".to_string())) {
        Begun::PasteThenLook { writes, to_bottom } => {
            assert_eq!(writes, vec![(1, b"two\nlines".to_vec())]);
            assert!(to_bottom);
        }
        other => panic!("expected a paste, got {other:?}"),
    }
    assert!(matches!(
        begin(&mut app, ClientRequest::Write(b"raw".to_vec())),
        Begun::ShowAfter(Effect::Input { to_bottom: true, .. })
    ));
    let wheel = WireMouse { col: 4, row: 2, kind: WireMouseKind::ScrollUp, modifiers: 0 };
    match begin_request(
        &mut app,
        ClientRequest::Mouse(wheel),
        &Vec::new(),
        Some(b"told".to_vec()),
    ) {
        Begun::ShowAfter(Effect::Report { pane_id, bytes, to_bottom }) => {
            assert_eq!(pane_id, 1);
            assert_eq!(bytes, b"told");
            assert!(!to_bottom);
        }
        other => panic!("expected a report, got {other:?}"),
    }
}

#[test]
fn a_mouse_that_means_nothing_is_answered_with_nothing() {
    let mut app = session();
    let moved = WireMouse { col: 4, row: 2, kind: WireMouseKind::Moved, modifiers: 0 };
    assert!(matches!(
        begin(&mut app, ClientRequest::Mouse(moved)),
        Begun::Answered(ServerResponse::Noop)
    ));
}

#[test]
fn shutting_down_ends_the_server() {
    let mut app = session();
    match begin(&mut app, ClientRequest::Shutdown) {
        Begun::Answered(response) => {
            assert!(matches!(response, ServerResponse::Shutdown));
            assert!(matches!(after_response(&response), AfterResponse::ShutDown));
        }
        other => panic!("expected an answer, got {other:?}"),
    }
    assert!(matches!(after_response(&ServerResponse::Noop), AfterResponse::Serve));
}

#[test]
fn a_session_without_panes_shuts_down() {
    let mut app = session();
    assert!(matches!(
        pending_after_drain(&mut app, &vec![(0, 0)]),
        Pending::Response(ServerResponse::Shutdown)
    ));
}

#[test]
fn clients_learn_once_that_they_are_detached() {
    let mut seen = 3;
    assert!(matches!(
        settle_response(3, &mut seen, ServerResponse::Noop),
        ServerResponse::Noop
    ));
    assert!(matches!(
        settle_response(4, &mut seen, ServerResponse::Noop),
        ServerResponse::Detached
    ));
    assert_eq!(seen, 4);
    assert!(matches!(
        settle_response(4, &mut seen, ServerResponse::Noop),
        ServerResponse::Noop
    ));
}

#[test]
fn only_so_many_clients_are_taken() {
    assert!(takes_client(0));
    assert!(takes_client(31));
    assert!(!takes_client(32));
}

#[test]
fn commands_that_cannot_be_done_say_why() {
    let mut app = session();
    let app = &mut app;
    assert_eq!(
        refused(app, RmuxCommand::SelectWindow { index: 4 }),
        "window 5 does not exist"
    );
    assert_eq!(refused(app, RmuxCommand::LastWindow), "no last window");
    assert_eq!(
        refused(app, RmuxCommand::SelectPane { index: 1 }),
        "pane 2 does not exist"
    );
    assert_eq!(
        refused(app, RmuxCommand::ResizePane { direction: ResizeDirection::Left, amount: 1 }),
        "pane cannot be resized in that direction"
    );
    assert_eq!(
        refused(app, RmuxCommand::SwapPane { direction: SwapDirection::Next }),
        "pane cannot be swapped in that direction"
    );
    assert_eq!(
        refused(app, RmuxCommand::SwapWindow { direction: SwapDirection::Next }),
        "window cannot be swapped in that direction"
    );
    assert_eq!(
        refused(app, RmuxCommand::MoveWindow { index: 1 }),
        "window 2 does not exist"
    );
    assert_eq!(
        refused(app, RmuxCommand::BreakPane { name: None }),
        "last pane cannot be broken into a new window"
    );
    assert_eq!(
        refused(app, RmuxCommand::JoinPane { source_window: 0, source_pane: 0 }),
        "pane cannot be joined into target window"
    );
    assert_eq!(
        refused(app, RmuxCommand::KillPane { all_other: true }),
        "no other panes to kill"
    );
    assert_eq!(
        refused(app, RmuxCommand::KillPane { all_other: false }),
        "last pane cannot be killed"
    );
    assert_eq!(refused(app, RmuxCommand::KillWindow), "last window cannot be killed");
}

#[test]
fn commands_change_the_session() {
    let mut app = session();
    apply(&mut app, RmuxCommand::SplitWindow { axis: SplitAxis::Vertical, command: None }).unwrap();
    apply(&mut app, RmuxCommand::NewWindow { name: Some("logs".to_string()), command: None })
        .unwrap();
    assert_eq!(app.pane_ids(), vec![1, 2, 3]);
    apply(&mut app, RmuxCommand::PreviousWindow).unwrap();
    apply(&mut app, RmuxCommand::PreviousPane).unwrap();
    apply(&mut app, RmuxCommand::KillPane { all_other: false }).unwrap();
    assert_eq!(app.pane_ids(), vec![2, 3]);
    apply(&mut app, RmuxCommand::BindKey { key: 'v', command: BoundCommand::NextPane }).unwrap();
    assert_eq!(app.session.command_bound_to('v'), Some(BoundCommand::NextPane));
    match apply_rmux_command(&mut app, RmuxCommand::SendPrefix).unwrap() {
        Effect::Input { panes, bytes, to_bottom } => {
            assert!(to_bottom);
            assert_eq!(panes, vec![2]);
            assert_eq!(bytes, vec![2]);
        }
        other => panic!("expected input, got {other:?}"),
    }
}

#[test]
fn an_error_is_answered_in_words() {
    let mut app = session();
    match begin(&mut app, ClientRequest::Command(RmuxCommand::KillWindow)) {
        Begun::Answered(ServerResponse::Error(message)) => {
            assert_eq!(message, "last window cannot be killed");
        }
        other => panic!("expected an error, got {other:?}"),
    }
    let error = apply_rmux_command(&mut app, RmuxCommand::KillWindow).unwrap_err();
    assert!(matches!(
        error_response(&error),
        ServerResponse::Error(message) if message == "last window cannot be killed"
    ));
}

/// The responses that a client gets for these answers of the session, and whether
/// the server is shut down then. Every response can be written but the one at
/// `fails`.
fn converse(
    answers: Vec<Option<(u64, ServerResponse)>>,
    fails: usize,
) -> (Vec<ServerResponse>, bool) {
    let mut seen = 0;
    let mut responses = Vec::new();
    for (turn, answer) in answers.into_iter().enumerate() {
        let Some((generation, response)) = answer else {
            return (responses, false);
        };
        let response = settle_response(generation, &mut seen, response);
        let next = after_response(&response);
        let written = turn != fails;
        if written {
            responses.push(response);
        }
        match after_write(next, written) {
            AfterResponse::Serve => {}
            AfterResponse::Close => return (responses, false),
            AfterResponse::ShutDown => return (responses, true),
        }
    }
    (responses, false)
}

#[test]
fn a_connection_ends_with_the_first_response_that_closes_it() {
    let error = || ServerResponse::Error("no".to_string());
    let noop = || Some((0, ServerResponse::Noop));

    let (responses, shutdown) = converse(vec![noop(), Some((0, error())), noop()], 9);
    assert_eq!(responses.len(), 2);
    assert!(matches!(responses[1], ServerResponse::Error(_)));
    assert!(!shutdown);

    let (responses, shutdown) = converse(vec![noop(), Some((1, ServerResponse::Shutdown))], 9);
    assert!(matches!(responses[1], ServerResponse::Detached));
    assert!(!shutdown);

    let (responses, shutdown) =
        converse(vec![Some((0, ServerResponse::Shutdown)), noop()], 9);
    assert_eq!(responses.len(), 1);
    assert!(shutdown);

    let (responses, shutdown) = converse(vec![Some((0, ServerResponse::Shutdown))], 0);
    assert!(responses.is_empty() && !shutdown);

    let (responses, _) = converse(vec![noop(), None, noop()], 9);
    assert_eq!(responses.len(), 1);
}
