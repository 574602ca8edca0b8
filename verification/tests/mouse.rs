//! The mouse: selecting panes and windows, selecting text, scrolling.

use rmux::geometry::Rect;
use rmux::keys::{KeyCode, KeyEvent, KeyModifiers};
use rmux::mux::Rmux;
use rmux::protocol::{
    CellColor, CursorView, SelectionView, SessionView, SplitAxis, TtySize, WireMouse,
    WireMouseButton, WireMouseKind,
};
use rmux::render::{selection_text, Frame, FrameCell};
use rmux::state::Effect;

fn session() -> Rmux {
    Rmux::new(TtySize { cols: 80, rows: 24 }, "test".to_string())
}

fn started(app: &mut Rmux, effect: Effect) {
    if let Effect::Spawn(request) = effect {
        app.finish_spawn(request, true).unwrap();
    }
}

/// A frame that shows one line of text in its top row.
fn frame_of(text: &str) -> Frame {
    let cells = text
        .chars()
        .enumerate()
        .map(|(col, ch)| FrameCell {
            col,
            row: 0,
            ch,
            fg: CellColor { r: 255, g: 255, b: 255 },
            bg: CellColor { r: 0, g: 0, b: 0 },
            bold: false,
            render_text: true,
        })
        .collect();
    Frame { cols: 80, rows: 23, cells, cursor: None, display_offset: 0, history_size: 0 }
}

fn view_of(app: &mut Rmux, text: &str) -> SessionView {
    let frames = app.place_panes().iter().map(|_| frame_of(text)).collect();
    app.session_view(frames)
}

fn session_view(app: &mut Rmux) -> SessionView {
    view_of(app, "")
}

fn mouse(col: u16, row: u16, kind: WireMouseKind, modifiers: u8) -> WireMouse {
    WireMouse { col, row, kind, modifiers }
}

fn handles(app: &mut Rmux, event: WireMouse) -> bool {
    app.handle_mouse(event, None).is_some()
}

#[test]
fn mouse_click_selects_pane() {
    let mut app = session();
    let effect = app.split_window(SplitAxis::Horizontal, Some("cat")).unwrap();
    started(&mut app, effect);
    assert!(app.select_pane(0));

    handles(
        &mut app,
        WireMouse {
            col: 60,
            row: 5,
            kind: WireMouseKind::Down(WireMouseButton::Left),
            modifiers: 0,
        },
    );
    assert_eq!(session_view(&mut app).active_pane, 1);
    assert!(!app.select_pane_at(60, 23));
}

#[test]
fn status_bar_click_selects_window_tab() {
    let mut app = session();
    let effect = app.new_window(None, Some("cat")).unwrap();
    started(&mut app, effect);
    assert_eq!(session_view(&mut app).active_window, 1);

    // Status row layout: " test " (6 cols) + " 1:win1#1 " (10 cols) + " 2:win2#2 ".
    assert!(handles(
        &mut app,
        WireMouse {
            col: 7,
            row: 23,
            kind: WireMouseKind::Down(WireMouseButton::Left),
            modifiers: 0,
        }
    ));
    assert_eq!(session_view(&mut app).active_window, 0);

    assert!(handles(
        &mut app,
        WireMouse {
            col: 17,
            row: 23,
            kind: WireMouseKind::Down(WireMouseButton::Left),
            modifiers: 0,
        }
    ));
    assert_eq!(session_view(&mut app).active_window, 1);

    // Clicks past the last tab do nothing.
    assert!(!handles(
        &mut app,
        WireMouse {
            col: 60,
            row: 23,
            kind: WireMouseKind::Down(WireMouseButton::Left),
            modifiers: 0,
        }
    ));
}

#[test]
fn mouse_move_without_terminal_reporting_is_ignored() {
    let mut app = session();

    assert!(!handles(
        &mut app,
        WireMouse { col: 4, row: 2, kind: WireMouseKind::Moved, modifiers: 0 }
    ));
}

#[test]
fn a_drag_selects_text_and_copies_it_once() {
    let mut app = session();
    assert!(handles(&mut app, mouse(0, 0, WireMouseKind::Down(WireMouseButton::Left), 0)));
    assert!(handles(&mut app, mouse(4, 0, WireMouseKind::Drag(WireMouseButton::Left), 0)));
    assert!(handles(&mut app, mouse(4, 0, WireMouseKind::Up(WireMouseButton::Left), 0)));

    let view = view_of(&mut app, "hello world");
    let selection = view.panes[0].selection.expect("selection should persist");
    assert_eq!(selection.start, CursorView { col: 0, row: 0 });
    assert_eq!(selection.end, CursorView { col: 4, row: 0 });
    assert_eq!(view.clipboard_text.as_deref(), Some("hello"));
    assert!(view_of(&mut app, "hello world").clipboard_text.is_none());
}

#[test]
fn a_click_without_a_drag_leaves_no_selection() {
    let mut app = session();
    assert!(handles(&mut app, mouse(3, 1, WireMouseKind::Down(WireMouseButton::Left), 0)));
    handles(&mut app, mouse(3, 1, WireMouseKind::Up(WireMouseButton::Left), 0));
    assert!(session_view(&mut app).panes[0].selection.is_none());
}

#[test]
fn the_wheel_scrolls_the_pane_under_it() {
    let mut app = session();
    match app.handle_mouse(mouse(2, 2, WireMouseKind::ScrollUp, 0), None) {
        Some(Effect::Scroll { pane_id, up, lines }) => {
            assert_eq!((pane_id, up, lines), (1, true, 3));
        }
        other => panic!("expected scrolling, got {other:?}"),
    }
    match app.handle_mouse(mouse(2, 2, WireMouseKind::ScrollDown, 0), None) {
        Some(Effect::Scroll { pane_id, up, lines }) => {
            assert_eq!((pane_id, up, lines), (1, false, 3));
        }
        other => panic!("expected scrolling, got {other:?}"),
    }
}

#[test]
fn a_terminal_that_reports_the_mouse_is_given_it_unless_shift_is_held() {
    let mut app = session();
    let down = mouse(4, 2, WireMouseKind::Down(WireMouseButton::Left), 0);
    let report = app.mouse_report(down).expect("the pane under the mouse is told");
    assert_eq!(report.pane_id, 1);
    assert_eq!(report.position, CursorView { col: 4, row: 2 });

    // With shift held the multiplexer keeps the mouse and selects.
    let held = mouse(4, 2, WireMouseKind::Down(WireMouseButton::Left), 1);
    assert!(app.mouse_report(held).is_none());
    assert!(handles(&mut app, held));
    assert!(handles(&mut app, mouse(6, 2, WireMouseKind::Drag(WireMouseButton::Left), 1)));
    assert!(handles(&mut app, mouse(6, 2, WireMouseKind::Up(WireMouseButton::Left), 0)));
    assert!(session_view(&mut app).panes[0].selection.is_some());

    match app.handle_mouse(down, Some(b"\x1b[<0;5;3M".to_vec())) {
        Some(Effect::Report { pane_id, bytes, to_bottom }) => {
            assert!(!to_bottom);
            assert_eq!(pane_id, 1);
            assert_eq!(bytes, b"\x1b[<0;5;3M");
        }
        other => panic!("expected a report, got {other:?}"),
    }
    assert!(session_view(&mut app).panes[0].selection.is_none());
}

#[test]
fn a_selection_reads_from_its_upper_end_down() {
    let lines = vec!["first line".to_string(), "second line".to_string()];
    let selection = SelectionView {
        start: CursorView { col: 5, row: 1 },
        end: CursorView { col: 6, row: 0 },
    };
    assert_eq!(selection_text(&lines, selection), "line\nsecond");
}

#[test]
fn typing_goes_to_the_active_pane() {
    let mut app = session();
    let key = KeyEvent::new(
        KeyCode::Char('x'),
        KeyModifiers {
            shift: false,
            control: false,
            alt: false,
            super_key: false,
            hyper: false,
            meta: false,
        },
    );
    match app.handle_key(key).unwrap() {
        Effect::Input { panes, bytes, to_bottom } => {
            assert!(to_bottom);
            assert_eq!(panes, vec![1]);
            assert_eq!(bytes, b"x");
        }
        other => panic!("expected input, got {other:?}"),
    }
}

#[test]
fn a_click_on_the_seam_belongs_to_one_pane_only() {
    let mut app = session();
    let effect = app.split_window(SplitAxis::Horizontal, None).unwrap();
    started(&mut app, effect);
    let view = session_view(&mut app);
    let left = Rect {
        x: view.panes[0].x,
        y: view.panes[0].y,
        width: view.panes[0].width,
        height: view.panes[0].height,
    };
    assert!(app.select_pane_at(left.x + left.width - 1, 0));
    assert_eq!(session_view(&mut app).active_pane, 0);
    assert!(app.select_pane_at(left.x + left.width, 0));
    assert_eq!(session_view(&mut app).active_pane, 1);
}

#[test]
fn shift_keeps_only_the_left_button_from_the_terminal() {
    let mut app = session();
    for kind in [
        WireMouseKind::Down(WireMouseButton::Left),
        WireMouseKind::Up(WireMouseButton::Left),
        WireMouseKind::Drag(WireMouseButton::Left),
    ] {
        assert!(app.mouse_report(mouse(4, 2, kind, 1)).is_none());
    }
    for kind in [
        WireMouseKind::Down(WireMouseButton::Right),
        WireMouseKind::Down(WireMouseButton::Middle),
        WireMouseKind::Moved,
        WireMouseKind::ScrollUp,
    ] {
        let report = app.mouse_report(mouse(4, 2, kind, 1)).expect("the pane is told");
        assert!(report.modifiers.shift);
        assert!(matches!(
            app.handle_mouse(mouse(4, 2, kind, 1), Some(b"told".to_vec())),
            Some(Effect::Report { pane_id: 1, bytes, to_bottom: false }) if bytes == b"told"
        ));
    }
    // A terminal that wants no report leaves the wheel to the multiplexer.
    assert!(matches!(
        app.handle_mouse(mouse(4, 2, WireMouseKind::ScrollUp, 1), None),
        Some(Effect::Scroll { pane_id: 1, up: true, lines: 3 })
    ));
}

#[test]
fn a_click_beside_the_labels_changes_nothing() {
    let mut app = session();
    let effect = app.new_window(None, None).unwrap();
    started(&mut app, effect);
    // " test " takes the columns before 6, the two labels those from there to 25.
    for col in [0, 5, 26, 79] {
        assert!(!handles(&mut app, mouse(col, 23, WireMouseKind::Down(WireMouseButton::Left), 0)));
        assert_eq!(session_view(&mut app).active_window, 1);
    }
    for (col, window) in [(6, 0), (15, 0), (16, 1), (25, 1)] {
        assert!(handles(&mut app, mouse(col, 23, WireMouseKind::Down(WireMouseButton::Left), 0)));
        assert_eq!(session_view(&mut app).active_window, window);
    }
}
