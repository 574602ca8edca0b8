//! Files of commands, formats, and what is listed of a session.

use rmux::format::{
    capture_lines, list_keys, list_panes, list_windows, render_format, view_contains, CaptureMode,
};
use rmux::protocol::{
    BoundCommand, KeyBindingView, PaneView, SessionView, SplitAxis, WindowTabView,
};
use rmux::source::{parse_source_line, source_lines, sourced_args};
use rmux::text::{decimal_string, parse_u64};

fn pane(id: u64, lines: Vec<String>) -> PaneView {
    PaneView {
        id,
        x: 0,
        y: 0,
        width: 80,
        height: 24,
        cols: 80,
        rows: 24,
        cells: Vec::new(),
        cursor: None,
        scroll_offset: 0,
        history_size: 0,
        selection: None,
        lines,
    }
}

fn view() -> SessionView {
    SessionView {
        session: "work".to_string(),
        default_command: None,
        prefix_key: "C-b".to_string(),
        key_bindings: vec![KeyBindingView { key: 'v', command: BoundCommand::SplitHorizontal }],
        windows: vec![
            WindowTabView { id: 7, name: "logs".to_string(), synchronize_panes: false },
            WindowTabView { id: 9, name: "top".to_string(), synchronize_panes: true },
        ],
        active_window: 0,
        panes: vec![
            pane(42, vec!["left  ".to_string()]),
            pane(43, vec!["right".to_string(), "ready now".to_string()]),
        ],
        active_pane: 1,
        split_axis: SplitAxis::Vertical,
        pane_weights: vec![125, 75],
        prefix: false,
        message: None,
        clipboard_text: None,
    }
}

#[test]
fn renders_display_format() {
    let view = SessionView {
        session: "work".to_string(),
        default_command: Some("zsh".to_string()),
        prefix_key: "C-a".to_string(),
        key_bindings: Vec::new(),
        windows: vec![WindowTabView {
            id: 7,
            name: "logs".to_string(),
            synchronize_panes: true,
        }],
        active_window: 0,
        panes: vec![PaneView {
            id: 42,
            x: 0,
            y: 0,
            width: 80,
            height: 24,
            cols: 80,
            rows: 24,
            cells: Vec::new(),
            cursor: None,
            scroll_offset: 0,
            history_size: 0,
            selection: None,
            lines: Vec::new(),
        }],
        active_pane: 0,
        split_axis: SplitAxis::Horizontal,
        pane_weights: vec![125],
        prefix: false,
        message: None,
        clipboard_text: None,
    };

    assert_eq!(
        render_format(
            &view,
            "#{session_name}:#{default_command}:#{prefix_key}:#{window_index}:#{window_name}:#{window_active}:#{pane_index}:#{pane_id}:#{pane_active}:#{pane_width}x#{pane_height}:#{window_layout}:#{pane_weight}:#{synchronize_panes}:#{pane_weights}"
        )
        .unwrap(),
        "work:zsh:C-a:1:logs:1:1:42:1:80x24:even-horizontal:125:1:125"
    );
}

#[test]
fn formats_need_a_window_and_a_pane() {
    let mut shown = view();
    shown.active_window = 2;
    assert_eq!(
        render_format(&shown, "x").unwrap_err().message(),
        "active window is missing"
    );
    let mut shown = view();
    shown.active_pane = 2;
    assert_eq!(
        render_format(&shown, "x").unwrap_err().message(),
        "active pane is missing"
    );
    assert_eq!(render_format(&view(), "no #{place} here").unwrap(), "no #{place} here");
}

#[test]
fn windows_and_panes_are_listed() {
    assert_eq!(list_windows(&view(), None).unwrap(), vec!["*1:logs#7", " 2:top#9"]);
    assert_eq!(
        list_windows(&view(), Some("#{window_index}:#{window_name}:#{window_active}")).unwrap(),
        vec!["1:logs:1", "2:top:0"]
    );
    assert_eq!(list_panes(&view(), None).unwrap(), vec![" 1:%42", "*2:%43"]);
    assert_eq!(
        list_panes(&view(), Some("#{pane_index}:#{pane_weight}:#{pane_weights}")).unwrap(),
        vec!["1:125:125,75", "2:75:125,75"]
    );
    assert_eq!(list_keys(&view()), vec!["bind-key v split-window --horizontal"]);
}

#[test]
fn panes_are_captured_without_the_space_at_their_ends() {
    assert_eq!(
        capture_lines(&view(), CaptureMode::ActivePane),
        vec!["== pane 43 ==", "right", "ready now"]
    );
    assert_eq!(
        capture_lines(&view(), CaptureMode::AllPanes),
        vec!["== pane 42 ==", "left", "== pane 43 ==", "right", "ready now"]
    );
    assert!(view_contains(&view(), "ready"));
    assert!(!view_contains(&view(), "left"));
}

#[test]
fn parses_source_file_lines() {
    assert_eq!(parse_source_line("").unwrap(), None);
    assert_eq!(parse_source_line("   # comment").unwrap(), None);
    assert_eq!(
        parse_source_line("rmux send-keys -t work \"echo hello\" Enter").unwrap(),
        Some(vec![
            "send-keys".to_string(),
            "-t".to_string(),
            "work".to_string(),
            "echo hello".to_string(),
            "Enter".to_string(),
        ])
    );
    assert_eq!(
        parse_source_line("new-window -t work -n logs -c 'printf ready'").unwrap(),
        Some(vec![
            "new-window".to_string(),
            "-t".to_string(),
            "work".to_string(),
            "-n".to_string(),
            "logs".to_string(),
            "-c".to_string(),
            "printf ready".to_string(),
        ])
    );
    assert_eq!(
        parse_source_line("send-keys -t work escaped\\ space Enter").unwrap(),
        Some(vec![
            "send-keys".to_string(),
            "-t".to_string(),
            "work".to_string(),
            "escaped space".to_string(),
            "Enter".to_string(),
        ])
    );
    assert!(parse_source_line("send-keys \"oops").is_err());
    assert!(parse_source_line("send-keys trailing\\").is_err());
}

#[test]
fn lines_that_end_too_soon_say_why() {
    assert_eq!(
        parse_source_line("send-keys \"oops").unwrap_err().message(),
        "unterminated '\"' quote"
    );
    assert_eq!(
        parse_source_line("send-keys 'oops").unwrap_err().message(),
        "unterminated '\\'' quote"
    );
    assert_eq!(
        parse_source_line("send-keys trailing\\").unwrap_err().message(),
        "line ends with escape"
    );
}

#[test]
fn files_are_read_line_by_line() {
    assert_eq!(source_lines("one\r\n\ntwo"), vec!["one", "", "two"]);
    assert_eq!(source_lines("one\n"), vec!["one"]);
    assert!(source_lines("").is_empty());
    assert_eq!(
        sourced_args("work", vec!["kill-window".to_string()]),
        vec!["--session", "work", "kill-window"]
    );
}

#[test]
fn numbers_read_as_they_are_written() {
    for number in [0u64, 7, 10, 65_535, u64::MAX] {
        assert_eq!(decimal_string(number as u128), number.to_string());
        assert_eq!(parse_u64(number.to_string().as_str()), Some(number));
    }
    assert_eq!(parse_u64("18446744073709551616"), None);
    assert_eq!(parse_u64(""), None);
    assert_eq!(parse_u64("1x"), None);
    assert_eq!(parse_u64("+5"), Some(5));
}

#[test]
fn escaped_words_read_back() {
    assert_eq!(
        parse_source_line("send-keys \\a\\ \\\"b\\#\\\\ c").unwrap(),
        Some(vec!["send-keys".to_string(), "a \"b#\\".to_string(), "c".to_string()])
    );
}

#[test]
fn quoted_words_read_back() {
    let words = vec!["send-keys".to_string(), "say \"hi\" # \\".to_string(), "'x' ".to_string()];
    let line = "\"send-keys\" \"say \\\"hi\\\" # \\\\\" \"'x' \"";
    assert_eq!(parse_source_line(line).unwrap(), Some(words.clone()));
    assert_eq!(parse_source_line(format!("rmux {line}").as_str()).unwrap(), Some(words));
    // Only the first name of the program is dropped, and no word is empty.
    assert_eq!(
        parse_source_line("rmux \"rmux\" \"\" ''").unwrap(),
        Some(vec!["rmux".to_string()])
    );
    assert_eq!(parse_source_line("rmux").unwrap(), None);
    assert_eq!(parse_source_line("\"\"").unwrap(), None);
}
