//! Frames, panes and the status line as they are drawn.

use rmux::geometry::Rect;
use rmux::protocol::{
    CellColor, CursorView, PaneCell, PaneView, SessionView, SplitAxis, WindowTabView,
};
use rmux::render::{
    cursor_position, draw_view, frame_cells, frame_cells_and_text_lines, pane_area,
    pane_terminal_lines, status_area, status_session_label, status_spans, status_window_label,
    Frame, FrameCell, PaneBorder, StatusPart,
};
use rmux::width::text_width;

fn cell(col: usize, row: usize, ch: char) -> FrameCell {
    FrameCell {
        col,
        row,
        ch,
        fg: CellColor { r: 220, g: 50, b: 47 },
        bg: CellColor { r: 7, g: 54, b: 66 },
        bold: false,
        render_text: true,
    }
}

fn frame(cols: u16, rows: u16, cells: Vec<FrameCell>) -> Frame {
    Frame { cols, rows, cells, cursor: None, display_offset: 0, history_size: 0 }
}

fn pane(cols: u16, rows: u16, cells: Vec<PaneCell>, lines: Vec<String>) -> PaneView {
    PaneView {
        id: 1,
        x: 0,
        y: 0,
        width: cols,
        height: rows,
        cols,
        rows,
        cells,
        cursor: None,
        scroll_offset: 0,
        history_size: 0,
        selection: None,
        lines,
    }
}

#[test]
fn frame_cells_preserve_terminal_style() {
    let frame = Frame {
        cols: 1,
        rows: 1,
        cells: vec![FrameCell {
            col: 0,
            row: 0,
            ch: 'x',
            fg: CellColor { r: 220, g: 50, b: 47 },
            bg: CellColor { r: 7, g: 54, b: 66 },
            bold: true,
            render_text: true,
        }],
        cursor: None,
        display_offset: 0,
        history_size: 0,
    };

    assert_eq!(
        frame_cells(&frame, 1),
        vec![PaneCell {
            col: 0,
            row: 0,
            ch: 'x',
            fg: CellColor { r: 220, g: 50, b: 47 },
            bg: CellColor { r: 7, g: 54, b: 66 },
            bold: true,
        }]
    );
}

#[test]
fn pane_terminal_lines_render_styled_cells() {
    let pane = PaneView {
        id: 1,
        x: 0,
        y: 0,
        width: 1,
        height: 1,
        cols: 1,
        rows: 1,
        cells: vec![PaneCell {
            col: 0,
            row: 0,
            ch: 'x',
            fg: CellColor { r: 1, g: 2, b: 3 },
            bg: CellColor { r: 4, g: 5, b: 6 },
            bold: true,
        }],
        cursor: Some(CursorView { col: 0, row: 0 }),
        scroll_offset: 0,
        history_size: 0,
        selection: None,
        lines: vec!["fallback".to_string()],
    };

    let lines = pane_terminal_lines(&pane);
    assert_eq!(lines.len(), 1);
    assert_eq!(lines[0][0].text, "x");
    assert_eq!(lines[0][0].style.fg, Some(CellColor { r: 1, g: 2, b: 3 }));
    assert_eq!(lines[0][0].style.bg, Some(CellColor { r: 4, g: 5, b: 6 }));
    assert!(lines[0][0].style.bold);
}

#[test]
fn cells_of_one_style_are_drawn_together() {
    let white = CellColor { r: 9, g: 9, b: 9 };
    let black = CellColor { r: 0, g: 0, b: 0 };
    let styled = |col: usize, ch: char, bold: bool| PaneCell {
        col,
        row: 0,
        ch,
        fg: white,
        bg: black,
        bold,
    };
    let shown = pane(3, 1, vec![styled(0, 'a', false), styled(1, 'b', false), styled(2, 'c', true)], Vec::new());
    let lines = pane_terminal_lines(&shown);
    assert_eq!(lines.len(), 1);
    let texts: Vec<&str> = lines[0].iter().map(|span| span.text.as_str()).collect();
    assert_eq!(texts, vec!["ab", "c"]);
}

#[test]
fn cells_that_show_no_text_are_left_out() {
    let mut hidden = cell(1, 0, 'h');
    hidden.render_text = false;
    let (cells, lines) = frame_cells_and_text_lines(&frame(3, 1, vec![cell(0, 0, 'a'), hidden, cell(2, 0, 'c')]), 3);
    assert_eq!(lines, vec!["a c"]);
    let shown: Vec<char> = cells.iter().map(|cell| cell.ch).collect();
    assert_eq!(shown, vec!['a', 'c']);
}

#[test]
fn wide_characters_take_two_columns() {
    let (_, lines) = frame_cells_and_text_lines(&frame(4, 1, vec![cell(0, 0, '漢'), cell(2, 0, 'b')]), 4);
    assert_eq!(text_width(lines[0].as_str()), 4);
    assert!(lines[0].starts_with('漢'));
    assert_eq!(text_width("漢字"), 4);
    assert_eq!(text_width("ab"), 2);
}

#[test]
fn the_status_line_names_session_and_windows() {
    assert_eq!(status_session_label("test"), " test ");
    assert_eq!(status_window_label(0, "win1", 1), " 1:win1#1 ");
    let view = SessionView {
        session: "test".to_string(),
        default_command: None,
        prefix_key: "C-b".to_string(),
        key_bindings: Vec::new(),
        windows: vec![
            WindowTabView { id: 1, name: "win1".to_string(), synchronize_panes: false },
            WindowTabView { id: 2, name: "win2".to_string(), synchronize_panes: false },
        ],
        active_window: 1,
        panes: Vec::new(),
        active_pane: 0,
        split_axis: SplitAxis::Horizontal,
        pane_weights: Vec::new(),
        prefix: true,
        message: Some("hello".to_string()),
        clipboard_text: None,
    };
    let spans = status_spans(&view);
    let texts: Vec<&str> = spans.iter().map(|span| span.text.as_str()).collect();
    assert_eq!(&texts[..3], &[" test ", " 1:win1#1 ", " 2:win2#2 "]);
    assert!(matches!(spans[0].part, StatusPart::Session));
    assert!(matches!(spans[1].part, StatusPart::Window));
    assert!(matches!(spans[2].part, StatusPart::ActiveWindow));
    assert_eq!(&texts[3..], &[" ", "PREFIX ", "hello"]);
}

#[test]
fn the_last_row_is_the_status_line() {
    let area = Rect { x: 0, y: 0, width: 80, height: 24 };
    assert_eq!(pane_area(area), Rect { x: 0, y: 0, width: 80, height: 23 });
    assert_eq!(status_area(area), Rect { x: 0, y: 23, width: 80, height: 1 });
}

#[test]
fn the_cursor_is_drawn_inside_its_pane() {
    let mut shown = pane(10, 5, Vec::new(), Vec::new());
    let rect = Rect { x: 3, y: 2, width: 10, height: 5 };
    assert_eq!(cursor_position(&shown, rect, false), None);
    shown.cursor = Some(CursorView { col: 4, row: 1 });
    assert_eq!(cursor_position(&shown, rect, false), Some((7, 3)));
    assert_eq!(cursor_position(&shown, rect, true), Some((8, 4)));
}

#[test]
fn lines_of_wide_characters_fit_their_columns() {
    let cells = vec![cell(0, 0, '漢'), cell(1, 0, '字'), cell(2, 0, '幅')];
    let (_, lines) = frame_cells_and_text_lines(&frame(5, 1, cells), 5);
    assert_eq!(lines, vec!["漢字"]);
    assert!(text_width(lines[0].as_str()) <= 5);
}

#[test]
fn a_view_is_drawn_pane_by_pane() {
    let mut left = pane(10, 5, Vec::new(), vec!["left".to_string()]);
    left.cursor = Some(CursorView { col: 1, row: 1 });
    let mut right = pane(10, 5, Vec::new(), vec!["right".to_string()]);
    right.x = 12;
    right.cursor = Some(CursorView { col: 2, row: 1 });
    let mut view = SessionView {
        session: "test".to_string(),
        default_command: None,
        prefix_key: "C-b".to_string(),
        key_bindings: Vec::new(),
        windows: Vec::new(),
        active_window: 0,
        panes: vec![left, right],
        active_pane: 1,
        split_axis: SplitAxis::Horizontal,
        pane_weights: Vec::new(),
        prefix: false,
        message: None,
        clipboard_text: None,
    };
    let area = Rect { x: 0, y: 0, width: 24, height: 8 };

    let drawing = draw_view(area, &view);
    assert_eq!(drawing.panes.len(), 2);
    assert_eq!(drawing.panes[0].border, PaneBorder::Inactive);
    assert_eq!(drawing.panes[0].cursor, None);
    assert_eq!(drawing.panes[0].lines[0][0].text, "left");
    assert_eq!(drawing.panes[1].border, PaneBorder::Active);
    assert_eq!(drawing.panes[1].rect, Rect { x: 12, y: 0, width: 10, height: 5 });
    assert_eq!(drawing.panes[1].cursor, Some((15, 2)));
    assert_eq!(drawing.status_area, Rect { x: 0, y: 7, width: 24, height: 1 });
    assert_eq!(drawing.status[0].text, " test ");

    // A pane alone has no border, and one without room takes all there is.
    view.panes.pop();
    view.panes[0].width = 0;
    view.active_pane = 0;
    let drawing = draw_view(area, &view);
    assert_eq!(drawing.panes[0].border, PaneBorder::Unframed);
    assert_eq!(drawing.panes[0].rect, Rect { x: 0, y: 0, width: 24, height: 7 });
    assert_eq!(drawing.panes[0].cursor, Some((1, 1)));
}
