//! Rectangles, layouts, windows, sessions and characters on their own.

use rmux::format::{render_pane_format, render_scoped_format, render_window_format};
use rmux::geometry::{compute_pane_rects, normalized_weights, rect_contains, split_rect, weighted_span, Rect};
use rmux::keys::{
    control_byte, encode_key, key_matches_byte, shortcut_window_index, terminal_shortcut, KeyCode,
    KeyEvent, KeyModifiers, TerminalShortcut,
};
use rmux::layout::{apply_weight_delta, PaneLayout, Renumber};
use rmux::options::parse_default_command;
use rmux::protocol::{
    PaneView, ResizeDirection, RmuxCommand, SessionView, SplitAxis, SwapDirection, TtySize, WindowTabView,
};
use rmux::send_keys::{control_key_byte, encode_key_token};
use rmux::session::{normalize_removed_index, remap_moved_index, Session};
use rmux::target::{
    join_command, parse_target, resolve_pane_selector, resolve_window_selector, CliTarget, PaneSelector,
    WindowSelector,
};
use rmux::text::{
    contains_text, is_control_char, is_white_space, lower_string, replace_all, split_once, trim,
    trim_end, trim_start,
};
use rmux::window::{fit_size, Pane, Window};

const NONE: KeyModifiers = KeyModifiers {
    shift: false,
    control: false,
    alt: false,
    super_key: false,
    hyper: false,
    meta: false,
};

fn rect(x: u16, y: u16, width: u16, height: u16) -> Rect {
    Rect { x, y, width, height }
}

fn rects_of(layout: &PaneLayout, count: usize, area: Rect) -> Vec<Rect> {
    let mut rects = vec![area; count];
    layout.rects(area, &mut rects);
    rects
}

fn pane(id: u64) -> Pane {
    Pane::new(id, TtySize { cols: 78, rows: 21 })
}

fn split(window: &mut Window, axis: SplitAxis, id: u64) {
    let pending = window.begin_split(axis).expect("there is room for a pane");
    window.finish_split(pending, pane(id));
}

fn ids(window: &Window) -> Vec<u64> {
    window.panes.iter().map(|pane| pane.id).collect()
}

fn view() -> SessionView {
    let shown = |id: u64| PaneView {
        id,
        x: 0,
        y: 0,
        width: 40,
        height: 23,
        cols: 38,
        rows: 21,
        cells: Vec::new(),
        cursor: None,
        scroll_offset: 0,
        history_size: 0,
        selection: None,
        lines: Vec::new(),
    };
    SessionView {
        session: "work".to_string(),
        default_command: None,
        prefix_key: "C-b".to_string(),
        key_bindings: Vec::new(),
        windows: vec![
            WindowTabView { id: 7, name: "logs".to_string(), synchronize_panes: false },
            WindowTabView { id: 9, name: "logs".to_string(), synchronize_panes: false },
        ],
        active_window: 1,
        panes: vec![shown(3), shown(5)],
        active_pane: 0,
        split_axis: SplitAxis::Horizontal,
        pane_weights: Vec::new(),
        prefix: false,
        message: None,
        clipboard_text: None,
    }
}

#[test]
fn an_area_is_split_by_weight() {
    let area = rect(2, 3, 80, 24);
    assert_eq!(
        split_rect(area, SplitAxis::Horizontal, 100, 100),
        (rect(2, 3, 40, 24), rect(42, 3, 40, 24))
    );
    assert_eq!(
        split_rect(area, SplitAxis::Vertical, 100, 200),
        (rect(2, 3, 80, 8), rect(2, 11, 80, 16))
    );
    // Every part but the last has at least one cell, where there is one.
    assert_eq!(
        split_rect(rect(0, 0, 5, 1), SplitAxis::Horizontal, 1, 1000),
        (rect(0, 0, 1, 1), rect(1, 0, 4, 1))
    );
    assert_eq!(split_rect(area, SplitAxis::Vertical, 0, 0), (area, area));
    assert_eq!(
        split_rect(rect(0, 0, 0, 1), SplitAxis::Horizontal, 1, 1),
        (rect(0, 0, 0, 1), rect(0, 0, 0, 1))
    );
}

#[test]
fn weights_are_taken_where_each_pane_has_one() {
    assert_eq!(normalized_weights(2, &[3, 4]), vec![3, 4]);
    assert_eq!(normalized_weights(2, &[3, 0]), vec![1, 1]);
    assert_eq!(normalized_weights(3, &[3, 4]), vec![1, 1, 1]);
    assert_eq!(weighted_span(100, 125, 200), 62);
    assert_eq!(weighted_span(100, 1, 0), 0);
    assert_eq!(weighted_span(3, 1, 100), 1);
    assert_eq!(weighted_span(0, 1, 2), 0);
    assert_eq!(weighted_span(30, 5, 3), 30);
    assert_eq!(weighted_span(u16::MAX, u16::MAX, 1), u16::MAX);
    // Only along the split do the rectangles have to end somewhere.
    assert_eq!(
        compute_pane_rects(rect(0, u16::MAX, 10, 5), 2, SplitAxis::Horizontal, &[]),
        vec![rect(0, u16::MAX, 5, 5), rect(5, u16::MAX, 5, 5)]
    );
    assert!(compute_pane_rects(rect(u16::MAX, 0, 9, 9), 0, SplitAxis::Horizontal, &[]).is_empty());
}

#[test]
fn a_rectangle_holds_its_first_cells_only() {
    let area = rect(2, 3, 4, 5);
    assert!(rect_contains(area, 2, 3));
    assert!(rect_contains(area, 5, 7));
    assert!(!rect_contains(area, 6, 3));
    assert!(!rect_contains(area, 2, 8));
    assert!(!rect_contains(area, 1, 3));
}

#[test]
fn layouts_are_split_and_lose_leaves() {
    let area = rect(0, 0, 80, 24);
    let mut layout = PaneLayout::single();
    assert!(layout.split_leaf(0, SplitAxis::Horizontal, 1));
    assert!(layout.split_leaf(1, SplitAxis::Vertical, 2));
    assert!(!layout.split_leaf(7, SplitAxis::Vertical, 3));
    assert_eq!(layout.leaf_count(), 3);
    assert!(layout.contains_leaf(2));
    assert_eq!(
        rects_of(&layout, 3, area),
        vec![rect(0, 0, 40, 24), rect(40, 0, 40, 12), rect(40, 12, 40, 12)]
    );
    assert!(layout.remove_leaf(1));
    layout.remap_indices(Renumber::Remove(1));
    assert_eq!(layout.leaf_count(), 2);
    assert_eq!(
        rects_of(&layout, 2, area),
        vec![rect(0, 0, 40, 24), rect(40, 0, 40, 24)]
    );
    // A layout that is one leaf keeps it.
    let mut single = PaneLayout::single();
    assert!(!single.remove_leaf(0));
}

#[test]
fn a_tree_of_any_leaves_is_tiled_and_given_back() {
    let area = rect(0, 0, 80, 24);
    let mut layout = PaneLayout::Split {
        axis: SplitAxis::Horizontal,
        first_weight: 3,
        second_weight: 0,
        first: Box::new(PaneLayout::Leaf(5)),
        second: Box::new(PaneLayout::Leaf(2)),
    };
    let before = format!("{layout:?}");
    let rects = rects_of(&layout, 6, area);
    assert_eq!(rects[5], rect(0, 0, 80, 24));
    assert_eq!(rects[2], rect(80, 0, 0, 24));

    assert!(layout.split_leaf(5, SplitAxis::Vertical, 0));
    assert_eq!(layout.leaf_count(), 3);
    let rects = rects_of(&layout, 6, area);
    assert_eq!(rects[5], rect(0, 0, 80, 12));
    assert_eq!(rects[0], rect(0, 12, 80, 12));
    assert_eq!(rects[2], rect(80, 0, 0, 24));
    assert!(layout.remove_leaf(0));
    assert_eq!(format!("{layout:?}"), before);
}

#[test]
fn even_layouts_share_the_area() {
    let layout = PaneLayout::even(SplitAxis::Vertical, 3);
    assert_eq!(layout.root_axis(), SplitAxis::Vertical);
    assert_eq!(layout.pane_weights(3), vec![100, 100, 100]);
    assert_eq!(
        rects_of(&layout, 3, rect(0, 0, 10, 30)),
        vec![rect(0, 0, 10, 10), rect(0, 10, 10, 10), rect(0, 20, 10, 10)]
    );
    let from = PaneLayout::even_from(SplitAxis::Horizontal, 4, 2);
    assert!(from.contains_leaf(4) && from.contains_leaf(5) && !from.contains_leaf(0));
}

#[test]
fn a_layout_that_does_not_fit_its_panes_is_repaired() {
    let mut layout = PaneLayout::even(SplitAxis::Vertical, 2);
    layout.repair(3);
    assert_eq!(layout.leaf_count(), 3);
    assert_eq!(layout.root_axis(), SplitAxis::Vertical);
    assert!(layout.contains_leaf(2));
}

#[test]
fn weight_moves_until_one_is_left() {
    let (mut grow, mut shrink) = (100, 3);
    assert!(apply_weight_delta(&mut grow, &mut shrink, 5));
    assert_eq!((grow, shrink), (102, 1));
    assert!(!apply_weight_delta(&mut grow, &mut shrink, 5));

    let mut layout = PaneLayout::even(SplitAxis::Horizontal, 2);
    assert!(layout.resize_leaf(1, ResizeDirection::Left, 25));
    assert_eq!(layout.pane_weights(2), vec![75, 125]);
    assert!(!layout.resize_leaf(1, ResizeDirection::Right, 25));
}

#[test]
fn a_pane_is_fitted_into_its_border() {
    assert_eq!(fit_size(rect(0, 0, 40, 23), true), TtySize { cols: 38, rows: 21 });
    assert_eq!(fit_size(rect(0, 0, 40, 23), false), TtySize { cols: 40, rows: 23 });
    assert_eq!(fit_size(rect(0, 0, 3, 1), true), TtySize { cols: 10, rows: 3 });
    let mut own = pane(1);
    assert_eq!(
        own.resize(rect(0, 0, 40, 23), false),
        Some(TtySize { cols: 40, rows: 23 })
    );
    assert_eq!(own.resize(rect(0, 0, 40, 23), false), None);
    own.respawn();
    assert_eq!(
        own.resize(rect(0, 0, 40, 23), false),
        Some(TtySize { cols: 40, rows: 23 })
    );
}

#[test]
fn taking_the_new_pane_undoes_a_split() {
    let mut window = Window::new(1, pane(1));
    split(&mut window, SplitAxis::Horizontal, 2);
    split(&mut window, SplitAxis::Vertical, 3);
    let before = window.layout_rects(rect(0, 0, 80, 23));
    assert!(window.select_pane(0));
    split(&mut window, SplitAxis::Vertical, 4);
    assert_eq!(ids(&window), vec![1, 4, 2, 3]);
    let (taken, weight) = window.take_pane(1).expect("there is such a pane");
    assert_eq!(taken.id, 4);
    assert_eq!(weight, 100);
    assert_eq!(ids(&window), vec![1, 2, 3]);
    assert_eq!(window.layout_rects(rect(0, 0, 80, 23)), before);
    assert!(window.take_pane(3).is_none());
}

#[test]
fn windows_go_round_their_panes() {
    let mut window = Window::new(1, pane(1));
    assert_eq!(window.name, "win1");
    split(&mut window, SplitAxis::Horizontal, 2);
    window.push_pane(pane(3), 100);
    assert_eq!(window.active, 2);
    window.next_pane();
    assert_eq!(window.active, 0);
    window.previous_pane();
    assert_eq!(window.active, 2);
    assert_eq!(window.input_targets(), vec![3]);
    assert!(!window.swap_active_pane(SwapDirection::Next));
    assert!(window.kill_pane(0));
    assert_eq!(ids(&window), vec![2, 3]);
    assert_eq!(window.active_pane().id, 3);
    assert!(window.take_active_pane().is_some());
    assert!(window.take_active_pane().is_none());
    assert!(!window.kill_active_pane());
}

#[test]
fn windows_are_found_after_others_went() {
    assert_eq!(normalize_removed_index(1, 2), Some(1));
    assert_eq!(normalize_removed_index(2, 2), None);
    assert_eq!(normalize_removed_index(3, 2), Some(2));
    assert_eq!(remap_moved_index(0, 0, 2), 2);
    assert_eq!(remap_moved_index(2, 0, 2), 1);
    assert_eq!(remap_moved_index(1, 2, 0), 2);
    assert_eq!(remap_moved_index(3, 2, 0), 3);

    let mut session = Session::new("work".to_string(), Window::new(1, pane(1)));
    session.push_window(Window::new(2, pane(2)));
    session.push_window(Window::new(3, pane(3)));
    assert_eq!(session.active_window().id, 3);
    assert!(session.kill_window(0));
    assert_eq!(session.active_window().id, 3);
    assert_eq!(session.active_window, 1);
    assert_eq!(session.last_window, Some(0));
    assert!(session.join_pane_into_active(0, 0));
    assert_eq!(session.windows.len(), 1);
    assert_eq!(ids(session.active_window()), vec![3, 2]);
    assert!(!session.kill_window(0));
}

#[test]
fn keys_mean_what_is_held_with_them() {
    let key = |ch: char, modifiers: KeyModifiers| KeyEvent::new(KeyCode::Char(ch), modifiers);
    let control = KeyModifiers { control: true, ..NONE };
    let alt = KeyModifiers { alt: true, ..NONE };
    assert_eq!(control_byte('B'), Some(2));
    assert_eq!(control_byte('['), Some(0x1b));
    assert_eq!(control_byte('1'), None);
    assert!(key_matches_byte(key('b', control), 2));
    assert!(!key_matches_byte(key('b', NONE), 2));
    assert_eq!(shortcut_window_index('9'), Some(8));
    assert_eq!(shortcut_window_index('('), Some(8));
    assert_eq!(shortcut_window_index('0'), None);
    assert_eq!(shortcut_window_index('a'), None);
    assert_eq!(terminal_shortcut(key('W', control)), Some(TerminalShortcut::ClosePane));
    assert_eq!(terminal_shortcut(key('w', alt)), None);
    assert_eq!(terminal_shortcut(key('2', alt)), Some(TerminalShortcut::SelectWindow(1)));
    assert_eq!(terminal_shortcut(key('d', NONE)), None);
    assert_eq!(encode_key(key('é', NONE)), "é".as_bytes());
    assert_eq!(encode_key(KeyEvent::new(KeyCode::Delete, NONE)), b"\x1b[3~");
    assert!(encode_key(KeyEvent::new(KeyCode::Other, NONE)).is_empty());
    assert!(encode_key(key('1', control)).is_empty());
}

#[test]
fn key_tokens_are_named_in_any_case() {
    assert_eq!(encode_key_token("ENTER").unwrap(), b"\r");
    assert_eq!(encode_key_token("c-j").unwrap(), b"\n");
    assert_eq!(encode_key_token("C-[").unwrap(), b"\x1b");
    assert_eq!(encode_key_token("bs").unwrap(), vec![0x7f]);
    assert_eq!(encode_key_token("Hello").unwrap(), b"Hello");
    assert_eq!(encode_key_token("C-").unwrap(), b"C-");
    assert!(encode_key_token("C-1").is_err());
    assert_eq!(control_key_byte('z'), Some(26));
    assert_eq!(control_key_byte('Z'), None);
    assert_eq!(parse_default_command("default"), None);
    assert_eq!(parse_default_command(""), None);
    assert_eq!(parse_default_command("zsh").as_deref(), Some("zsh"));
}

#[test]
fn targets_are_found_in_a_view() {
    let named = parse_target("work:logs.%5", "work").unwrap();
    assert_eq!(resolve_window_selector(&named, Some(&view())).unwrap(), Some(0));
    assert_eq!(resolve_pane_selector(&named, Some(&view())).unwrap(), Some(1));
    assert_eq!(
        resolve_window_selector(&named, None).unwrap_err().message(),
        "target snapshot missing"
    );
    let target = |window: Option<WindowSelector>, pane: Option<PaneSelector>| CliTarget {
        session: "work".to_string(),
        window,
        pane,
    };
    let told = |target: CliTarget| {
        resolve_window_selector(&target, Some(&view())).unwrap_err().message()
    };
    assert_eq!(
        told(target(Some(WindowSelector::Id(8)), None)),
        "window #8 does not exist"
    );
    assert_eq!(
        told(target(Some(WindowSelector::Name("top".to_string())), None)),
        "window \"top\" does not exist"
    );
    let lost = target(None, Some(PaneSelector::Id(4)));
    assert_eq!(
        resolve_pane_selector(&lost, Some(&view())).unwrap_err().message(),
        "pane %4 does not exist"
    );
    assert_eq!(resolve_pane_selector(&target(None, None), None).unwrap(), None);
    assert!(matches!(
        join_command(&view()),
        RmuxCommand::JoinPane { source_window: 1, source_pane: 0 }
    ));
}

#[test]
fn formats_are_scoped_to_a_window_and_a_pane() {
    let format = "#{window_id}.#{pane_id}:#{pane_weight}";
    assert_eq!(render_scoped_format(&view(), 0, 1, format).unwrap(), "7.5:1");
    assert_eq!(render_window_format(&view(), 0, format).unwrap(), "7.3:1");
    assert_eq!(render_pane_format(&view(), 1, format).unwrap(), "9.5:1");
}

#[test]
fn texts_are_taken_apart() {
    assert_eq!(trim("\u{3000} a b\t\n"), "a b");
    assert_eq!(trim_start("  a "), "a ");
    assert_eq!(trim_end("  a \u{85}"), "  a");
    assert_eq!(lower_string("ÄB-c"), "Äb-c");
    assert!(contains_text("abcabd", "abd"));
    assert!(contains_text("abc", ""));
    assert!(!contains_text("ab", "abc"));
    assert_eq!(replace_all("aaa", "aa", "b"), "ba");
    assert_eq!(split_once("a:b:c", ':'), ("a".to_string(), "b:c".to_string()));
    assert_eq!(split_once("abc", ':'), ("abc".to_string(), String::new()));
    for code in 0u32..=0x3100 {
        if let Some(c) = char::from_u32(code) {
            assert_eq!(is_white_space(c), c.is_whitespace());
            assert_eq!(is_control_char(c), c.is_control());
        }
    }
}
