//! Windows, panes and keys of a session.

use rmux::geometry::{compute_pane_rects, Rect};
use rmux::keys::{encode_key, prefix_command, KeyCode, KeyEvent, KeyModifiers, PrefixCommand};
use rmux::mux::{new_pane_size, Rmux};
use rmux::protocol::{
    BoundCommand, ResizeDirection, SessionView, SplitAxis, SwapDirection, TtySize,
};
use rmux::render::Frame;
use rmux::state::{Effect, ExitReason, SpawnPurpose};

const NONE: KeyModifiers = KeyModifiers {
    shift: false,
    control: false,
    alt: false,
    super_key: false,
    hyper: false,
    meta: false,
};
const CONTROL: KeyModifiers = KeyModifiers { control: true, ..NONE };
const CONTROL_SHIFT: KeyModifiers = KeyModifiers { shift: true, ..CONTROL };
const ALT: KeyModifiers = KeyModifiers { alt: true, ..NONE };
const SUPER: KeyModifiers = KeyModifiers { super_key: true, ..NONE };

fn session(cols: u16, rows: u16) -> Rmux {
    Rmux::new(TtySize { cols, rows }, "test".to_string())
}

/// Does what is left to be done, with terminals that always start.
fn perform(app: &mut Rmux, effect: Effect) {
    if let Effect::Spawn(request) = effect {
        app.finish_spawn(request, true).unwrap();
    }
}

fn press(app: &mut Rmux, ch: char, modifiers: KeyModifiers) {
    let key = KeyEvent::new(KeyCode::Char(ch), modifiers);
    assert!(app.can_handle_key(key));
    let effect = app.handle_key(key).unwrap();
    perform(app, effect);
}

fn split(app: &mut Rmux, axis: SplitAxis) {
    assert!(app.can_split());
    let effect = app.split_window(axis, Some("cat")).unwrap();
    perform(app, effect);
}

fn new_window(app: &mut Rmux) {
    let effect = app.new_window(None, Some("cat")).unwrap();
    perform(app, effect);
}

fn blank(cols: u16, rows: u16) -> Frame {
    Frame {
        cols,
        rows,
        cells: Vec::new(),
        cursor: None,
        display_offset: 0,
        history_size: 0,
    }
}

fn session_view(app: &mut Rmux) -> SessionView {
    let frames = app.place_panes().iter().map(|_| blank(80, 24)).collect();
    app.session_view(frames)
}

#[test]
fn horizontal_layout_uses_full_width() {
    let area = Rect { x: 0, y: 0, width: 101, height: 20 };
    let rects = compute_pane_rects(area, 3, SplitAxis::Horizontal, &[]);

    assert_eq!(rects.len(), 3);
    assert_eq!(rects[0].width, 33);
    assert_eq!(rects[1].width, 34);
    assert_eq!(rects[2].width, 34);
    assert_eq!(rects[2].x + rects[2].width, 101);
}

#[test]
fn vertical_layout_uses_full_height() {
    let area = Rect { x: 0, y: 0, width: 80, height: 25 };
    let rects = compute_pane_rects(area, 2, SplitAxis::Vertical, &[]);

    assert_eq!(rects.len(), 2);
    assert_eq!(rects[0].height, 12);
    assert_eq!(rects[1].height, 13);
    assert_eq!(rects[1].y + rects[1].height, 25);
}

#[test]
fn weighted_layout_respects_pane_weights() {
    let area = Rect { x: 0, y: 0, width: 100, height: 20 };
    let rects = compute_pane_rects(area, 2, SplitAxis::Horizontal, &[125, 75]);

    assert_eq!(rects.len(), 2);
    assert_eq!(rects[0].width, 62);
    assert_eq!(rects[1].width, 38);
    assert_eq!(rects[1].x + rects[1].width, 100);
}

#[test]
fn prefix_key_does_not_send_to_terminal() {
    let key = KeyEvent::new(KeyCode::Char('b'), CONTROL);
    assert_eq!(encode_key(key), vec![2]);
}

#[test]
fn bound_prefix_key_runs_command() {
    let mut app = session(80, 24);
    app.bind_key('v', BoundCommand::SplitHorizontal);
    press(&mut app, 'b', CONTROL);
    press(&mut app, 'v', NONE);

    assert_eq!(session_view(&mut app).panes.len(), 2);
}

#[test]
fn terminal_split_shortcuts_create_panes() {
    let mut app = session(80, 24);

    press(&mut app, 'd', CONTROL);
    let view = session_view(&mut app);
    assert_eq!(view.panes.len(), 2);
    assert_eq!(view.split_axis, SplitAxis::Horizontal);
    assert_eq!(view.panes[0].x + view.panes[0].width, view.panes[1].x);

    press(&mut app, 'D', CONTROL_SHIFT);
    let view = session_view(&mut app);
    assert_eq!(view.panes.len(), 3);
    assert_eq!(view.split_axis, SplitAxis::Horizontal);
    assert_eq!(view.panes[1].x, view.panes[2].x);
    assert_eq!(view.panes[1].width, view.panes[2].width);
    assert!(view.panes[2].y > view.panes[1].y);
    assert_eq!(view.panes[0].height, view.panes[1].height + view.panes[2].height);
}

#[test]
fn super_d_split_shortcut_is_supported_for_macos_terminals() {
    let mut app = session(80, 24);

    press(&mut app, 'd', SUPER);

    assert_eq!(session_view(&mut app).panes.len(), 2);
}

#[test]
fn ctrl_t_creates_new_window_not_pane() {
    let mut app = session(80, 24);

    press(&mut app, 't', CONTROL);

    let view = session_view(&mut app);
    assert_eq!(view.windows.len(), 2);
    assert_eq!(view.active_window, 1);
    assert_eq!(view.panes.len(), 1);
}

#[test]
fn ctrl_number_selects_window() {
    let mut app = session(80, 24);
    new_window(&mut app);
    new_window(&mut app);
    assert_eq!(session_view(&mut app).active_window, 2);

    press(&mut app, '1', CONTROL);

    assert_eq!(session_view(&mut app).active_window, 0);
}

#[test]
fn ctrl_shift_number_selects_window_when_terminal_sends_shifted_digit() {
    let mut app = session(80, 24);
    new_window(&mut app);
    new_window(&mut app);
    assert_eq!(session_view(&mut app).active_window, 2);

    press(&mut app, '!', CONTROL_SHIFT);

    assert_eq!(session_view(&mut app).active_window, 0);
}

#[test]
fn alt_number_selects_window() {
    let mut app = session(80, 24);
    new_window(&mut app);
    new_window(&mut app);
    assert_eq!(session_view(&mut app).active_window, 2);

    press(&mut app, '1', ALT);

    assert_eq!(session_view(&mut app).active_window, 0);

    press(&mut app, '3', ALT);

    assert_eq!(session_view(&mut app).active_window, 2);
}

#[test]
fn ctrl_w_closes_active_pane() {
    let mut app = session(80, 24);
    split(&mut app, SplitAxis::Horizontal);

    press(&mut app, 'w', CONTROL);

    assert_eq!(session_view(&mut app).panes.len(), 1);
}

#[test]
fn split_still_tiles_after_killing_a_pane() {
    let mut app = session(80, 24);

    split(&mut app, SplitAxis::Horizontal);
    assert!(app.kill_active_pane());
    split(&mut app, SplitAxis::Horizontal);

    let view = session_view(&mut app);
    assert_eq!(view.panes.len(), 2);
    assert_eq!(view.panes[0].x + view.panes[0].width, view.panes[1].x);
    assert!(view.panes[0].width < 80 && view.panes[1].width < 80);
}

#[test]
fn killing_middle_pane_keeps_remaining_layout_tiled() {
    let mut app = session(90, 24);

    split(&mut app, SplitAxis::Horizontal);
    split(&mut app, SplitAxis::Horizontal);
    assert_eq!(session_view(&mut app).panes.len(), 3);

    app.previous_pane();
    assert!(app.kill_active_pane());

    let view = session_view(&mut app);
    assert_eq!(view.panes.len(), 2);
    let total: u16 = view.panes.iter().map(|pane| pane.width).sum();
    assert_eq!(total, 90, "remaining panes must tile the full width");
    assert_eq!(view.panes[0].x + view.panes[0].width, view.panes[1].x);
}

#[test]
fn prefix_d_maps_to_detach() {
    let key = KeyEvent::new(KeyCode::Char('d'), NONE);

    assert_eq!(prefix_command(key), PrefixCommand::Detach);

    let key = KeyEvent::new(KeyCode::Char(' '), NONE);
    assert_eq!(prefix_command(key), PrefixCommand::ToggleLayout);

    let key = KeyEvent::new(KeyCode::Char('l'), NONE);
    assert_eq!(prefix_command(key), PrefixCommand::LastWindow);

    let key = KeyEvent::new(KeyCode::Char('L'), NONE);
    assert_eq!(prefix_command(key), PrefixCommand::Resize(ResizeDirection::Right));

    let key = KeyEvent::new(KeyCode::Char('}'), NONE);
    assert_eq!(prefix_command(key), PrefixCommand::SwapPane(SwapDirection::Next));
}

#[test]
fn a_new_session_has_one_window_with_one_pane() {
    let mut app = session(80, 24);
    assert_eq!(new_pane_size(TtySize { cols: 80, rows: 24 }), TtySize { cols: 78, rows: 21 });
    assert_eq!(new_pane_size(TtySize { cols: 4, rows: 2 }), TtySize { cols: 10, rows: 3 });
    assert_eq!(app.pane_ids(), vec![1]);
    let view = session_view(&mut app);
    assert_eq!(view.session, "test");
    assert_eq!(view.prefix_key, "C-b");
    assert_eq!(view.windows.len(), 1);
    assert_eq!(view.windows[0].name, "win1");
    assert_eq!(view.panes.len(), 1);
    assert_eq!((view.panes[0].x, view.panes[0].y), (0, 0));
    assert_eq!((view.panes[0].width, view.panes[0].height), (80, 23));
}

#[test]
fn panes_keep_ids_that_were_never_used_before() {
    let mut app = session(80, 24);
    split(&mut app, SplitAxis::Horizontal);
    assert_eq!(app.pane_ids(), vec![1, 2]);
    assert!(app.kill_active_pane());
    split(&mut app, SplitAxis::Horizontal);
    assert_eq!(app.pane_ids(), vec![1, 3]);
}

#[test]
fn a_terminal_that_does_not_start_is_told() {
    let mut app = session(80, 24);
    let effect = app.new_window(Some("logs".to_string()), None).unwrap();
    match effect {
        Effect::Spawn(request) => {
            assert_eq!(request.pane_id, 2);
            assert_eq!(request.size, TtySize { cols: 78, rows: 21 });
            assert!(request.command.is_none());
            assert!(matches!(request.purpose, SpawnPurpose::NewWindow { id: 2, .. }));
            let error = app.finish_spawn(request, false).unwrap_err();
            assert_eq!(error.message(), "spawn libtermy terminal");
        }
        other => panic!("expected a terminal to start, got {other:?}"),
    }
    assert_eq!(session_view(&mut app).windows.len(), 1);
}

#[test]
fn the_default_command_is_used_where_none_is_given() {
    let mut app = session(80, 24);
    app.set_default_command(Some("zsh".to_string()));
    let effect = app.new_window(None, None).unwrap();
    assert!(matches!(
        effect,
        Effect::Spawn(request) if request.command.as_deref() == Some("zsh")
    ));
}

#[test]
fn a_session_is_given_no_more_than_its_windows() {
    let mut app = session(80, 24);
    for _ in 1..64 {
        new_window(&mut app);
    }
    assert_eq!(session_view(&mut app).windows.len(), 64);
    let error = app.new_window(None, None).unwrap_err();
    assert_eq!(error.message(), "window limit reached (max 64)");
    assert_eq!(session_view(&mut app).windows.len(), 64);
}

#[test]
fn a_window_is_given_no_more_than_its_panes() {
    let mut app = session(80, 24);
    for _ in 1..64 {
        split(&mut app, SplitAxis::Horizontal);
    }
    let error = app.split_window(SplitAxis::Horizontal, None).unwrap_err();
    assert_eq!(error.message(), "split pane PaneId(65)");
    assert_eq!(session_view(&mut app).panes.len(), 64);
}

#[test]
fn the_prefix_key_twice_types_it() {
    let mut app = session(80, 24);
    let key = KeyEvent::new(KeyCode::Char('b'), CONTROL);
    assert!(matches!(app.handle_key(key).unwrap(), Effect::Nothing));
    assert!(session_view(&mut app).prefix);
    match app.handle_key(key).unwrap() {
        Effect::Input { panes, bytes, to_bottom } => {
            assert!(to_bottom);
            assert_eq!(panes, vec![1]);
            assert_eq!(bytes, vec![2]);
        }
        other => panic!("expected input, got {other:?}"),
    }
    assert!(!session_view(&mut app).prefix);
}

#[test]
fn another_prefix_key_starts_a_command() {
    let mut app = session(80, 24);
    app.set_prefix_key(1);
    assert_eq!(session_view(&mut app).prefix_key, "C-a");
    press(&mut app, 'a', CONTROL);
    assert!(session_view(&mut app).prefix);
    press(&mut app, 'c', NONE);
    assert_eq!(session_view(&mut app).windows.len(), 2);
}

#[test]
fn synchronized_panes_are_typed_into_together() {
    let mut app = session(80, 24);
    split(&mut app, SplitAxis::Vertical);
    match app.write_active(b"one".to_vec()) {
        Effect::Input { panes, bytes, to_bottom } => {
            assert!(to_bottom);
            assert_eq!(panes, vec![2]);
            assert_eq!(bytes, b"one");
        }
        other => panic!("expected input, got {other:?}"),
    }
    app.set_synchronize_panes(true);
    assert!(session_view(&mut app).windows[0].synchronize_panes);
    match app.write_active(b"both".to_vec()) {
        Effect::Input { panes, bytes, to_bottom } => {
            assert!(to_bottom);
            assert_eq!(panes, vec![1, 2]);
            assert_eq!(bytes, b"both");
        }
        other => panic!("expected input, got {other:?}"),
    }
}

#[test]
fn a_paste_is_framed_for_the_panes_that_ask_for_it() {
    let mut app = session(80, 24);
    split(&mut app, SplitAxis::Vertical);
    app.set_synchronize_panes(true);
    let writes = app.paste_active(b"left\x1b[201~middle\x1b[200~right", &vec![2]);
    assert_eq!(
        writes,
        vec![
            (1, b"left\x1b[201~middle\x1b[200~right".to_vec()),
            (2, b"\x1b[200~leftmiddleright\x1b[201~".to_vec()),
        ]
    );
}

#[test]
fn exited_panes_close_and_the_last_one_ends_the_session() {
    let mut app = session(80, 24);
    split(&mut app, SplitAxis::Horizontal);
    app.drain_events(&vec![(0, 1)]);
    assert_eq!(app.pane_ids(), vec![1]);
    assert_eq!(app.take_exit_reason(), None);

    app.drain_events(&vec![(0, 0)]);
    assert_eq!(app.take_exit_reason(), Some(ExitReason::Quit));
    assert_eq!(app.take_exit_reason(), None);
}

#[test]
fn the_last_exited_pane_of_a_window_closes_the_window() {
    let mut app = session(80, 24);
    new_window(&mut app);
    app.drain_events(&vec![(0, 0)]);
    let view = session_view(&mut app);
    assert_eq!(view.windows.len(), 1);
    assert_eq!(view.windows[0].id, 2);
    assert_eq!(app.take_exit_reason(), None);
}

#[test]
fn panes_that_are_left_keep_their_order() {
    let mut app = session(80, 24);
    for _ in 0..3 {
        split(&mut app, SplitAxis::Horizontal);
    }
    new_window(&mut app);
    split(&mut app, SplitAxis::Vertical);
    assert_eq!(app.pane_ids(), vec![1, 2, 3, 4, 5, 6]);
    app.drain_events(&vec![(1, 0), (0, 2), (0, 0), (0, 2)]);
    assert_eq!(app.pane_ids(), vec![2, 4, 6]);
    assert_eq!(app.take_exit_reason(), None);

    app.drain_events(&vec![(0, 0), (1, 0), (0, 1)]);
    assert_eq!(app.take_exit_reason(), Some(ExitReason::Quit));
    let view = session_view(&mut app);
    assert_eq!(view.windows.len(), 1);
    assert_eq!(app.pane_ids(), vec![2]);
}

#[test]
fn going_on_and_back_through_windows_ends_where_it_began() {
    let mut app = session(80, 24);
    new_window(&mut app);
    new_window(&mut app);
    app.next_window();
    assert_eq!(session_view(&mut app).active_window, 0);
    app.previous_window();
    assert_eq!(session_view(&mut app).active_window, 2);

    assert!(app.select_window(0));
    assert!(app.last_window());
    assert_eq!(session_view(&mut app).active_window, 2);
    assert!(app.last_window());
    assert_eq!(session_view(&mut app).active_window, 0);
    assert!(!app.select_window(3));
}

#[test]
fn windows_swap_and_move() {
    let mut app = session(80, 24);
    new_window(&mut app);
    new_window(&mut app);
    assert!(app.swap_active_window(SwapDirection::Previous));
    let ids: Vec<u64> = session_view(&mut app).windows.iter().map(|tab| tab.id).collect();
    assert_eq!(ids, vec![1, 3, 2]);
    assert_eq!(session_view(&mut app).active_window, 1);
    assert!(app.swap_active_window(SwapDirection::Next));
    let ids: Vec<u64> = session_view(&mut app).windows.iter().map(|tab| tab.id).collect();
    assert_eq!(ids, vec![1, 2, 3]);

    assert!(app.move_active_window(0));
    let view = session_view(&mut app);
    let ids: Vec<u64> = view.windows.iter().map(|tab| tab.id).collect();
    assert_eq!(ids, vec![3, 1, 2]);
    assert_eq!(view.active_window, 0);
    assert!(!app.move_active_window(3));
}

#[test]
fn panes_swap_and_swap_back() {
    let mut app = session(80, 24);
    split(&mut app, SplitAxis::Horizontal);
    assert!(app.swap_active_pane(SwapDirection::Previous));
    assert_eq!(app.pane_ids(), vec![2, 1]);
    assert_eq!(session_view(&mut app).active_pane, 0);
    assert!(app.swap_active_pane(SwapDirection::Next));
    assert_eq!(app.pane_ids(), vec![1, 2]);
    assert_eq!(session_view(&mut app).active_pane, 1);
}

#[test]
fn a_resized_pane_takes_from_its_neighbour() {
    let mut app = session(80, 24);
    split(&mut app, SplitAxis::Horizontal);
    assert!(app.select_pane(0));
    assert!(app.resize_active_pane(ResizeDirection::Right, 5));
    let view = session_view(&mut app);
    assert_eq!(view.panes[0].width + view.panes[1].width, 80);
    assert!(view.panes[0].width > 40);
    // There is nothing above or below it.
    assert!(!app.resize_active_pane(ResizeDirection::Up, 5));
}

#[test]
fn a_pane_is_broken_out_and_joined_again() {
    let mut app = session(80, 24);
    split(&mut app, SplitAxis::Horizontal);
    assert!(app.break_active_pane(Some("broken".to_string())));
    let view = session_view(&mut app);
    assert_eq!(view.windows.len(), 2);
    assert_eq!(view.windows[1].name, "broken");
    assert_eq!(view.active_window, 1);

    assert!(app.select_window(0));
    assert!(app.join_pane(1, 0));
    let view = session_view(&mut app);
    assert_eq!(view.windows.len(), 1);
    assert_eq!(app.pane_ids(), vec![1, 2]);

    // A pane is not joined into the window it stands in.
    assert!(!app.join_pane(0, 0));
}

#[test]
fn other_panes_are_killed() {
    let mut app = session(80, 24);
    split(&mut app, SplitAxis::Horizontal);
    split(&mut app, SplitAxis::Vertical);
    assert!(app.kill_other_panes());
    assert_eq!(app.pane_ids(), vec![3]);
    let view = session_view(&mut app);
    assert_eq!((view.panes[0].width, view.panes[0].height), (80, 23));
    assert!(!app.kill_other_panes());
}

#[test]
fn a_window_is_respawned_with_one_pane() {
    let mut app = session(80, 24);
    split(&mut app, SplitAxis::Horizontal);
    let effect = app.respawn_active_window(Some("zsh")).unwrap();
    perform(&mut app, effect);
    assert_eq!(app.pane_ids(), vec![3]);

    let effect = app.respawn_active_pane(None).unwrap();
    match effect {
        Effect::Spawn(request) => {
            assert_eq!(request.pane_id, 3);
            app.finish_spawn(request, true).unwrap();
        }
        other => panic!("expected a terminal to start, got {other:?}"),
    }
    assert_eq!(app.pane_ids(), vec![3]);
}

#[test]
fn the_only_window_is_not_killed() {
    let mut app = session(80, 24);
    assert!(!app.kill_active_window());
    new_window(&mut app);
    assert!(app.kill_active_window());
    assert_eq!(session_view(&mut app).windows.len(), 1);
}

#[test]
fn names_are_changed() {
    let mut app = session(80, 24);
    app.rename_active_window("editor".to_string());
    app.rename_session("client-a".to_string());
    let view = session_view(&mut app);
    assert_eq!(view.windows[0].name, "editor");
    assert_eq!(view.session, "client-a");
}

#[test]
fn detaching_is_told_to_every_client() {
    let mut app = session(80, 24);
    let before = app.detach_generation();
    app.detach_clients();
    assert_eq!(app.detach_generation(), before + 1);
}

#[test]
fn select_layout_evens_the_panes_out() {
    let mut app = session(80, 25);
    split(&mut app, SplitAxis::Horizontal);
    split(&mut app, SplitAxis::Horizontal);
    app.select_layout(SplitAxis::Vertical);
    let view = session_view(&mut app);
    assert_eq!(view.split_axis, SplitAxis::Vertical);
    let heights: Vec<u16> = view.panes.iter().map(|pane| pane.height).collect();
    assert_eq!(heights, vec![8, 8, 8]);
}

#[test]
fn ids_are_asked_for_only_where_they_are_used() {
    let mut app = session(80, 24);
    app.next_window_id = u64::MAX;
    assert!(app.has_pane_id() && app.can_split());
    assert!(!app.can_open_window());
    // A pane that is alone is not moved, and needs no window.
    assert!(app.can_break());
    assert!(!app.break_active_pane(None));
    split(&mut app, SplitAxis::Horizontal);
    assert!(!app.can_break());
    app.next_pane_id = u64::MAX;
    assert!(!app.has_pane_id() && !app.can_split());
}

#[test]
fn a_digit_after_the_prefix_key_selects_a_window() {
    let mut app = session(80, 24);
    new_window(&mut app);
    press(&mut app, 'b', CONTROL);
    press(&mut app, '1', NONE);
    assert_eq!(session_view(&mut app).active_window, 0);
    press(&mut app, '7', ALT);
    let view = session_view(&mut app);
    assert_eq!(view.active_window, 0);
    assert_eq!(view.message.as_deref(), Some("window 7 does not exist"));
}

#[test]
fn the_last_pane_is_kept() {
    let mut app = session(80, 24);
    press(&mut app, 'w', CONTROL);
    press(&mut app, 'b', CONTROL);
    press(&mut app, 'x', NONE);
    let view = session_view(&mut app);
    assert_eq!(view.panes.len(), 1);
    assert_eq!(view.message.as_deref(), Some("last pane kept alive"));
}

#[test]
fn toggling_the_layout_goes_to_and_fro() {
    let mut app = session(80, 24);
    split(&mut app, SplitAxis::Horizontal);
    press(&mut app, 'b', CONTROL);
    press(&mut app, ' ', NONE);
    assert_eq!(session_view(&mut app).split_axis, SplitAxis::Vertical);
    press(&mut app, 'b', CONTROL);
    press(&mut app, ' ', NONE);
    let view = session_view(&mut app);
    assert_eq!(view.split_axis, SplitAxis::Horizontal);
    assert_eq!(view.pane_weights, vec![100, 100]);
}

#[test]
fn panes_that_are_placed_stay_placed() {
    let mut app = session(80, 24);
    split(&mut app, SplitAxis::Horizontal);
    let sizes: Vec<Option<TtySize>> =
        app.place_panes().iter().map(|place| place.size).collect();
    assert_eq!(sizes, vec![Some(TtySize { cols: 38, rows: 21 }); 2]);
    assert!(app.place_panes().iter().all(|place| place.size.is_none()));
    app.resize(TtySize { cols: 100, rows: 24 });
    assert!(app.place_panes().iter().all(|place| place.size.is_some()));
}

fn names(app: &mut Rmux) -> Vec<String> {
    session_view(app).windows.into_iter().map(|tab| tab.name).collect()
}

/// A session with the windows win1, B and C, of which C is active and win1 was
/// active before.
fn three_windows() -> Rmux {
    let mut app = session(80, 24);
    for name in ["B", "C"] {
        let effect = app.new_window(Some(name.to_string()), Some("cat")).unwrap();
        perform(&mut app, effect);
    }
    assert!(app.select_window(0));
    assert!(app.select_window(2));
    app
}

#[test]
fn a_moved_window_leaves_the_last_one_remembered() {
    let mut app = three_windows();
    assert!(app.move_active_window(1));
    assert_eq!(names(&mut app), vec!["win1", "C", "B"]);
    assert_eq!(session_view(&mut app).active_window, 1);
    assert!(app.last_window());
    assert_eq!(session_view(&mut app).active_window, 0);

    // The remembered window may be the one that makes room.
    let mut app = three_windows();
    assert!(app.move_active_window(0));
    assert_eq!(names(&mut app), vec!["C", "win1", "B"]);
    assert!(app.last_window());
    assert_eq!(session_view(&mut app).active_window, 1);
}

#[test]
fn a_swapped_window_leaves_the_last_one_remembered() {
    let mut app = three_windows();
    assert!(app.swap_active_window(SwapDirection::Previous));
    assert!(app.swap_active_window(SwapDirection::Previous));
    assert_eq!(names(&mut app), vec!["C", "win1", "B"]);
    assert!(app.last_window());
    assert_eq!(session_view(&mut app).active_window, 1);
    assert!(app.last_window());
    assert_eq!(session_view(&mut app).active_window, 0);
}

#[test]
fn moving_a_window_remembers_no_other() {
    let mut app = session(80, 24);
    let effect = app.new_window(None, None).unwrap();
    perform(&mut app, effect);
    assert!(app.kill_active_window());
    let effect = app.new_window(None, None).unwrap();
    perform(&mut app, effect);
    app.session.last_window = None;
    assert!(app.move_active_window(0));
    assert!(!app.last_window());
}
