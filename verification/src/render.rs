//! What a client draws: the cells and lines of a pane, the cursor, and the
//! status bar.

use vstd::prelude::*;
#[allow(unused_imports)]
use vstd::string::*;

use crate::geometry::Rect;
use crate::protocol::{CellColor, CursorView, PaneCell, PaneView, SelectionView, SessionView};
use crate::text::{chars_of, decimal_string, is_control_char, string_between, trim_end};
use crate::width::char_columns_or_one;
#[allow(unused_imports)]
use crate::width::char_room;

verus! {

/// The rows that the status bar takes.
pub const STATUS_ROWS: u16 = 1;

/// A cell of a terminal's screen.
#[derive(Debug, Clone, Copy, PartialEq, Eq, Structural)]
pub struct FrameCell {
    pub col: usize,
    pub row: usize,
    pub ch: char,
    pub fg: CellColor,
    pub bg: CellColor,
    pub bold: bool,
    /// Whether the cell has a character of its own to show.
    pub render_text: bool,
}

/// What a terminal shows at some moment.
#[derive(Debug, Clone)]
pub struct Frame {
    pub cols: u16,
    pub rows: u16,
    pub cells: Vec<FrameCell>,
    pub cursor: Option<CursorView>,
    /// How many lines the terminal is scrolled back into its history.
    pub display_offset: usize,
    pub history_size: usize,
}

/// The character that a cell shows: a blank for a control character.
pub open spec fn shown_char(cell: FrameCell) -> char {
    if crate::text::control_char(cell.ch) {
        ' '
    } else {
        cell.ch
    }
}

pub open spec fn shown_cell(cell: FrameCell) -> PaneCell {
    PaneCell {
        col: cell.col,
        row: cell.row,
        ch: shown_char(cell),
        fg: cell.fg,
        bg: cell.bg,
        bold: cell.bold,
    }
}

/// Whether a cell is shown on a screen of `rows` rows and `cols` columns.
pub open spec fn is_shown(cell: FrameCell, rows: int, cols: int) -> bool {
    cell.row < rows && cell.col < cols && cell.render_text
}

/// The cells that are shown, in order.
pub open spec fn shown_cells(cells: Seq<FrameCell>, rows: int, cols: int) -> Seq<PaneCell>
    decreases cells.len(),
{
    if cells.len() == 0 {
        seq![]
    } else {
        let before = shown_cells(cells.drop_last(), rows, cols);
        if is_shown(cells.last(), rows, cols) {
            before.push(shown_cell(cells.last()))
        } else {
            before
        }
    }
}

/// The character at a place: that of the last cell there, or a blank.
pub open spec fn char_at(cells: Seq<PaneCell>, row: int, col: int) -> char
    decreases cells.len(),
{
    if cells.len() == 0 {
        ' '
    } else if cells.last().row == row && cells.last().col == col {
        cells.last().ch
    } else {
        char_at(cells.drop_last(), row, col)
    }
}

/// As much of the front of a text as fits into `room` columns.
pub open spec fn fitting(text: Seq<char>, room: int) -> Seq<char>
    decreases text.len(),
{
    if text.len() == 0 || char_room(text[0]) > room {
        seq![]
    } else {
        seq![text[0]] + fitting(text.skip(1), room - char_room(text[0]))
    }
}

/// The text of a row of a screen that is `cols` columns wide.
pub open spec fn row_text(cells: Seq<PaneCell>, row: int, cols: nat) -> Seq<char> {
    fitting(Seq::new(cols, |col: int| char_at(cells, row, col)), cols as int)
}

pub open spec fn shown_width(frame: Frame, max_width: usize) -> nat {
    crate::geometry::at_most(max_width as int, frame.cols as int) as nat
}

/// The cells of a frame that are shown in `max_width` columns.
pub open spec fn frame_shows(frame: Frame, max_width: usize) -> Seq<PaneCell> {
    shown_cells(frame.cells@, frame.rows as int, shown_width(frame, max_width) as int)
}

/// The lines of a frame that is shown in `max_width` columns.
pub open spec fn frame_reads(frame: Frame, max_width: usize) -> Seq<Seq<char>> {
    Seq::new(
        frame.rows as nat,
        |row: int| row_text(frame_shows(frame, max_width), row, shown_width(frame, max_width)),
    )
}

/// Strings as sequences of characters.
pub open spec fn texts(strings: Seq<String>) -> Seq<Seq<char>> {
    strings.map_values(|text: String| text@)
}

fn display_char(cell: &FrameCell) -> (result: char)
    ensures
        result == shown_char(*cell),
{
    if is_control_char(cell.ch) {
        ' '
    } else {
        cell.ch
    }
}

/// Whether a grid holds at each place the character that the cells show there.
spec fn grid_shows(grid: Seq<Vec<char>>, cells: Seq<PaneCell>, rows: int, cols: int) -> bool {
    &&& grid.len() == rows
    &&& forall|row: int|
        #![trigger grid[row]]
        0 <= row < rows ==> grid[row]@.len() == cols && (forall|col: int|
            0 <= col < cols ==> #[trigger] grid[row]@[col] == char_at(cells, row, col))
}

fn blank_grid(rows: usize, cols: usize) -> (result: Vec<Vec<char>>)
    ensures
        grid_shows(result@, seq![], rows as int, cols as int),
{
    let mut grid: Vec<Vec<char>> = Vec::new();
    let mut row: usize = 0;
    while row < rows
        invariant
            row <= rows,
            grid_shows(grid@, seq![], row as int, cols as int),
        decreases rows - row,
    {
        grid.push(vec![' '; cols]);
        row = row + 1;
    }
    grid
}

/// As much of the front of a row as fits into its columns.
fn fit_row(row: &Vec<char>) -> (result: String)
    requires
        row@.len() <= u16::MAX,
    ensures
        result@ == fitting(row@, row@.len() as int),
{
    let mut out = String::new();
    let mut width: usize = 0;
    let mut col: usize = 0;
    let ghost full = row@.len() as int;
    assert(row@.skip(0) =~= row@);
    while col < row.len()
        invariant
            col <= row@.len() <= u16::MAX,
            full == row@.len(),
            width <= full,
            fitting(row@, full) == out@ + fitting(row@.skip(col as int), full - width),
        decreases row@.len() - col,
    {
        let ch = row[col];
        let room: usize = char_columns_or_one(ch);
        let ghost rest = row@.skip(col as int);
        if width + room > row.len() {
            assert(fitting(rest, full - width) =~= seq![]);
            assert(out@ + Seq::<char>::empty() =~= out@);
            return out;
        }
        assert(rest.skip(1) =~= row@.skip(col + 1));
        assert(out@ + (seq![ch] + fitting(rest.skip(1), full - width - room)) =~= out@.push(ch)
            + fitting(row@.skip(col + 1), full - (width + room)));
        out.push(ch);
        width = width + room;
        col = col + 1;
    }
    assert(out@ + Seq::<char>::empty() =~= out@);
    out
}

/// The cells of a frame that are shown in `max_width` columns.
pub fn frame_cells(frame: &Frame, max_width: usize) -> (result: Vec<PaneCell>)
    ensures
        result@ == frame_shows(*frame, max_width),
{
    frame_cells_and_text_lines(frame, max_width).0
}

/// The cells and the lines of a frame that is shown in `max_width` columns.
pub fn frame_cells_and_text_lines(frame: &Frame, max_width: usize) -> (result: (
    Vec<PaneCell>,
    Vec<String>,
))
    ensures
        result.0@ == frame_shows(*frame, max_width),
        texts(result.1@) == frame_reads(*frame, max_width),
{
    let rows: usize = frame.rows as usize;
    let cols: usize = if max_width < frame.cols as usize {
        max_width
    } else {
        frame.cols as usize
    };
    let mut grid = blank_grid(rows, cols);
    let mut cells: Vec<PaneCell> = Vec::new();
    let mut i: usize = 0;
    while i < frame.cells.len()
        invariant
            i <= frame.cells@.len(),
            rows == frame.rows,
            cols == shown_width(*frame, max_width),
            cells@ == shown_cells(frame.cells@.take(i as int), rows as int, cols as int),
            grid_shows(grid@, cells@, rows as int, cols as int),
        decreases frame.cells@.len() - i,
    {
        let cell = frame.cells[i];
        let ghost so_far = frame.cells@.take(i + 1);
        assert(so_far.drop_last() =~= frame.cells@.take(i as int));
        assert(so_far.last() == cell);
        if cell.row < rows && cell.col < cols && cell.render_text {
            let ch = display_char(&cell);
            let ghost before = grid@;
            let ghost listed = cells@;
            cells.push(
                PaneCell {
                    col: cell.col,
                    row: cell.row,
                    ch,
                    fg: cell.fg,
                    bg: cell.bg,
                    bold: cell.bold,
                },
            );
            grid[cell.row].set(cell.col, ch);
            proof {
                assert(cells@.drop_last() =~= listed);
                assert forall|row: int|
                    #![trigger grid@[row]]
                    0 <= row < rows implies grid@[row]@.len() == cols && (forall|col: int|
                    0 <= col < cols ==> #[trigger] grid@[row]@[col] == char_at(
                        cells@,
                        row,
                        col,
                    )) by {
                    assert(before[row]@.len() == cols);
                }
            }
        }
        i = i + 1;
    }
    assert(frame.cells@.take(i as int) =~= frame.cells@);
    let mut lines: Vec<String> = Vec::new();
    let mut row: usize = 0;
    while row < rows
        invariant
            row <= rows,
            rows == frame.rows,
            cols == shown_width(*frame, max_width),
            cells@ == frame_shows(*frame, max_width),
            grid_shows(grid@, cells@, rows as int, cols as int),
            lines@.len() == row,
            forall|i: int| 0 <= i < row ==> (#[trigger] lines@[i])@ == row_text(
                cells@,
                i,
                cols as nat,
            ),
        decreases rows - row,
    {
        assert(grid@[row as int]@ =~= Seq::new(
            cols as nat,
            |col: int| char_at(cells@, row as int, col),
        ));
        lines.push(fit_row(&grid[row]));
        row = row + 1;
    }
    assert(texts(lines@) =~= frame_reads(*frame, max_width));
    (cells, lines)
}

/// The label of the session at the left of the status bar.
pub open spec fn session_label(session: Seq<char>) -> Seq<char> {
    " "@ + session + " "@
}

/// The label of the session at the left of the status bar. Where a click on the
/// status bar lands is measured by it.
pub fn status_session_label(session: &str) -> (result: String)
    ensures
        result@ == session_label(session@),
{
    " ".to_string().concat(session).concat(" ")
}

/// The label of a window in the status bar, numbered from one.
pub open spec fn window_label(index: nat, name: Seq<char>, id: u64) -> Seq<char> {
    " "@ + crate::text::decimal(index + 1) + ":"@ + name + "#"@ + crate::text::decimal(id as nat)
        + " "@
}

/// The label of a window in the status bar. Where a click on the status bar
/// lands is measured by it.
pub fn status_window_label(index: usize, name: &str, id: u64) -> (result: String)
    ensures
        result@ == window_label(index as nat, name@, id),
{
    " ".to_string().concat(decimal_string(index as u128 + 1).as_str()).concat(":").concat(
        name,
    ).concat("#").concat(decimal_string(id as u128).as_str()).concat(" ")
}

/// What a piece of the status bar shows, which decides its colours.
#[derive(Debug, Clone, Copy, PartialEq, Eq, Structural)]
pub enum StatusPart {
    Session,
    ActiveWindow,
    Window,
    Gap,
    Prefix,
    Message,
}

#[derive(Debug, Clone)]
pub struct StatusSpan {
    pub part: StatusPart,
    pub text: String,
}

/// Pieces of the status bar as mathematical values.
pub open spec fn shown_status(spans: Seq<StatusSpan>) -> Seq<(StatusPart, Seq<char>)> {
    spans.map_values(|span: StatusSpan| (span.part, span.text@))
}

/// The pieces of the status bar for the windows of a view.
pub open spec fn window_spans(view: SessionView) -> Seq<(StatusPart, Seq<char>)> {
    Seq::new(
        view.windows@.len(),
        |i: int|
            (
                if i == view.active_window {
                    StatusPart::ActiveWindow
                } else {
                    StatusPart::Window
                },
                window_label(i as nat, view.windows@[i].name@, view.windows@[i].id),
            ),
    )
}

/// The status bar of a view, from left to right.
pub open spec fn status_shows(view: SessionView) -> Seq<(StatusPart, Seq<char>)> {
    seq![(StatusPart::Session, session_label(view.session@))] + window_spans(view) + seq![
        (StatusPart::Gap, " "@),
    ] + (if view.prefix {
        seq![(StatusPart::Prefix, "PREFIX "@)]
    } else {
        seq![]
    }) + (match view.message {
        Some(message) => seq![(StatusPart::Message, message@)],
        None => seq![],
    })
}

/// The status bar of a view, from left to right.
pub fn status_spans(view: &SessionView) -> (result: Vec<StatusSpan>)
    ensures
        shown_status(result@) == status_shows(*view),
{
    let mut spans: Vec<StatusSpan> = Vec::new();
    spans.push(
        StatusSpan {
            part: StatusPart::Session,
            text: status_session_label(view.session.as_str()),
        },
    );
    let ghost head = seq![(StatusPart::Session, session_label(view.session@))];
    let mut i: usize = 0;
    assert(shown_status(spans@) =~= head + window_spans(*view).take(0));
    while i < view.windows.len()
        invariant
            i <= view.windows@.len(),
            head == seq![(StatusPart::Session, session_label(view.session@))],
            shown_status(spans@) == head + window_spans(*view).take(i as int),
        decreases view.windows@.len() - i,
    {
        let window = &view.windows[i];
        let part = if i == view.active_window {
            StatusPart::ActiveWindow
        } else {
            StatusPart::Window
        };
        let ghost before = spans@;
        spans.push(
            StatusSpan { part, text: status_window_label(i, window.name.as_str(), window.id) },
        );
        proof {
            let span = spans@.last();
            assert(shown_status(spans@) =~= shown_status(before).push((span.part, span.text@)));
            assert(window_spans(*view).take(i + 1) =~= window_spans(*view).take(i as int).push(
                window_spans(*view)[i as int],
            ));
            assert(shown_status(spans@) =~= head + window_spans(*view).take(i + 1));
        }
        i = i + 1;
    }
    assert(window_spans(*view).take(i as int) =~= window_spans(*view));
    let ghost before = spans@;
    spans.push(StatusSpan { part: StatusPart::Gap, text: " ".to_string() });
    let ghost gap = spans@;
    assert(shown_status(gap) =~= shown_status(before) + seq![(StatusPart::Gap, " "@)]);
    if view.prefix {
        spans.push(StatusSpan { part: StatusPart::Prefix, text: "PREFIX ".to_string() });
        assert(shown_status(spans@) =~= shown_status(gap) + seq![(StatusPart::Prefix, "PREFIX "@)]);
    } else {
        assert(shown_status(spans@) =~= shown_status(gap) + seq![]);
    }
    let ghost prefixed = spans@;
    match &view.message {
        Some(message) => {
            spans.push(
                StatusSpan { part: StatusPart::Message, text: message.as_str().to_string() },
            );
            assert(shown_status(spans@) =~= shown_status(prefixed) + seq![
                (StatusPart::Message, message@),
            ]);
        },
        None => {
            assert(shown_status(spans@) =~= shown_status(prefixed) + seq![]);
        },
    }
    spans
}

/// The look of a stretch of text; colours that are not set are the screen's own.
#[derive(Debug, Clone, Copy, PartialEq, Eq, Structural)]
pub struct CellStyle {
    pub fg: Option<CellColor>,
    pub bg: Option<CellColor>,
    pub bold: bool,
}

#[derive(Debug, Clone)]
pub struct StyledSpan {
    pub text: String,
    pub style: CellStyle,
}

pub open spec fn plain_style() -> CellStyle {
    CellStyle { fg: None, bg: None, bold: false }
}

pub open spec fn style_of(cell: PaneCell) -> CellStyle {
    CellStyle { fg: Some(cell.fg), bg: Some(cell.bg), bold: cell.bold }
}

/// The last cell at a place.
pub open spec fn cell_at(cells: Seq<PaneCell>, row: int, col: int) -> Option<PaneCell>
    decreases cells.len(),
{
    if cells.len() == 0 {
        None
    } else if cells.last().row == row && cells.last().col == col {
        Some(cells.last())
    } else {
        cell_at(cells.drop_last(), row, col)
    }
}

/// The look and the character of a place.
pub open spec fn glyph(cell: Option<PaneCell>) -> (CellStyle, char) {
    match cell {
        Some(cell) => (style_of(cell), cell.ch),
        None => (plain_style(), ' '),
    }
}

/// How many columns a character takes on its row: at least one.
pub open spec fn step(c: char) -> int {
    crate::geometry::at_least(char_room(c) as int, 1)
}

/// What is drawn on a row from a column on: a wide character hides the cells
/// that it reaches over.
pub open spec fn row_glyphs(cells: Seq<PaneCell>, row: int, col: int, cols: int) -> Seq<
    (CellStyle, char),
>
    decreases crate::geometry::at_least(cols - col, 0),
{
    if col >= cols {
        seq![]
    } else {
        let here = glyph(cell_at(cells, row, col));
        seq![here] + row_glyphs(cells, row, col + step(here.1), cols)
    }
}

/// Glyphs as stretches of one look each.
pub open spec fn stretches(glyphs: Seq<(CellStyle, char)>) -> Seq<(CellStyle, Seq<char>)>
    decreases glyphs.len(),
{
    if glyphs.len() == 0 {
        seq![]
    } else {
        let before = stretches(glyphs.drop_last());
        let (style, ch) = glyphs.last();
        if before.len() > 0 && before.last().0 == style {
            before.drop_last().push((style, before.last().1.push(ch)))
        } else {
            before.push((style, seq![ch]))
        }
    }
}

pub open spec fn shown_spans(spans: Seq<StyledSpan>) -> Seq<(CellStyle, Seq<char>)> {
    spans.map_values(|span: StyledSpan| (span.style, span.text@))
}

/// The lines of a pane. Where no cells came with it, its plain lines.
pub open spec fn pane_shows(pane: PaneView) -> Seq<Seq<(CellStyle, Seq<char>)>> {
    if pane.cells@.len() == 0 {
        Seq::new(
            pane.lines@.len(),
            |i: int| seq![(plain_style(), pane.lines@[i]@)],
        )
    } else {
        Seq::new(
            pane.rows as nat,
            |row: int| stretches(row_glyphs(pane.cells@, row, 0, pane.cols as int)),
        )
    }
}

pub open spec fn shown_lines(lines: Seq<Vec<StyledSpan>>) -> Seq<Seq<(CellStyle, Seq<char>)>> {
    lines.map_values(|line: Vec<StyledSpan>| shown_spans(line@))
}

/// Whether a grid holds at each place the last cell there.
spec fn grid_holds(
    grid: Seq<Vec<Option<PaneCell>>>,
    cells: Seq<PaneCell>,
    rows: int,
    cols: int,
) -> bool {
    &&& grid.len() == rows
    &&& forall|row: int|
        #![trigger grid[row]]
        0 <= row < rows ==> grid[row]@.len() == cols && (forall|col: int|
            0 <= col < cols ==> #[trigger] grid[row]@[col] == cell_at(cells, row, col))
}

fn cell_grid(cells: &Vec<PaneCell>, rows: usize, cols: usize) -> (result: Vec<
    Vec<Option<PaneCell>>,
>)
    ensures
        grid_holds(result@, cells@, rows as int, cols as int),
{
    let mut grid: Vec<Vec<Option<PaneCell>>> = Vec::new();
    let mut row: usize = 0;
    while row < rows
        invariant
            row <= rows,
            grid_holds(grid@, seq![], row as int, cols as int),
        decreases rows - row,
    {
        grid.push(vec![None; cols]);
        row = row + 1;
    }
    let mut i: usize = 0;
    assert(cells@.take(0) =~= seq![]);
    while i < cells.len()
        invariant
            i <= cells@.len(),
            grid_holds(grid@, cells@.take(i as int), rows as int, cols as int),
        decreases cells@.len() - i,
    {
        let cell = cells[i];
        let ghost before = grid@;
        let ghost so_far = cells@.take(i + 1);
        assert(so_far.drop_last() =~= cells@.take(i as int));
        assert(so_far.last() == cell);
        if cell.row < rows && cell.col < cols {
            grid[cell.row].set(cell.col, Some(cell));
        }
        proof {
            assert forall|row: int|
                #![trigger grid@[row]]
                0 <= row < rows implies grid@[row]@.len() == cols && (forall|col: int|
                0 <= col < cols ==> #[trigger] grid@[row]@[col] == cell_at(
                    so_far,
                    row,
                    col,
                )) by {
                assert(before[row]@.len() == cols);
            }
        }
        i = i + 1;
    }
    assert(cells@.take(i as int) =~= cells@);
    grid
}

/// Adds a character to the last of some stretches, or starts a new one where
/// the look changes.
fn push_glyph(spans: &mut Vec<StyledSpan>, style: CellStyle, ch: char)
    ensures
        shown_spans(final(spans)@) == {
            let before = shown_spans(old(spans)@);
            if before.len() > 0 && before.last().0 == style {
                before.drop_last().push((style, before.last().1.push(ch)))
            } else {
                before.push((style, seq![ch]))
            }
        },
{
    let count: usize = spans.len();
    let ghost before = spans@;
    if count > 0 && spans[count - 1].style == style {
        match spans.pop() {
            Some(last) => {
                let mut text = last.text;
                text.push(ch);
                spans.push(StyledSpan { text, style });
                assert(shown_spans(spans@) =~= shown_spans(before).drop_last().push(
                    (style, shown_spans(before).last().1.push(ch)),
                ));
            },
            None => {},
        }
    } else {
        let mut text = String::new();
        text.push(ch);
        assert(text@ =~= seq![ch]);
        spans.push(StyledSpan { text, style });
        assert(shown_spans(spans@) =~= shown_spans(before).push((style, seq![ch])));
    }
}

fn row_spans(cells: &Vec<PaneCell>, row: &Vec<Option<PaneCell>>, Ghost(index): Ghost<int>) -> (result:
    Vec<StyledSpan>)
    requires
        row@.len() <= u16::MAX,
        forall|col: int| 0 <= col < row@.len() ==> #[trigger] row@[col] == cell_at(
            cells@,
            index,
            col,
        ),
    ensures
        shown_spans(result@) == stretches(row_glyphs(cells@, index, 0, row@.len() as int)),
{
    let mut spans: Vec<StyledSpan> = Vec::new();
    let mut col: usize = 0;
    let ghost cols = row@.len() as int;
    let ghost mut drawn: Seq<(CellStyle, char)> = seq![];
    assert(shown_spans(spans@) =~= seq![]);
    assert(drawn + row_glyphs(cells@, index, 0, cols) =~= row_glyphs(cells@, index, 0, cols));
    while col < row.len()
        invariant
            row@.len() <= u16::MAX,
            cols == row@.len(),
            col <= cols + 3,
            forall|c: int| 0 <= c < row@.len() ==> #[trigger] row@[c] == cell_at(
                cells@,
                index,
                c,
            ),
            shown_spans(spans@) == stretches(drawn),
            row_glyphs(cells@, index, 0, cols) == drawn + row_glyphs(
                cells@,
                index,
                col as int,
                cols,
            ),
        decreases cols + 3 - col,
    {
        let (style, ch) = match row[col] {
            Some(cell) => (
                CellStyle { fg: Some(cell.fg), bg: Some(cell.bg), bold: cell.bold },
                cell.ch,
            ),
            None => (CellStyle { fg: None, bg: None, bold: false }, ' '),
        };
        assert((style, ch) == glyph(cell_at(cells@, index, col as int)));
        push_glyph(&mut spans, style, ch);
        let room: usize = char_columns_or_one(ch);
        let width: usize = if room > 1 {
            room
        } else {
            1
        };
        proof {
            let next = drawn.push((style, ch));
            assert(next.drop_last() =~= drawn);
            assert(drawn + (seq![(style, ch)] + row_glyphs(cells@, index, col + width, cols))
                =~= next + row_glyphs(cells@, index, col + width, cols));
            drawn = next;
        }
        col = col + width;
    }
    assert(drawn + Seq::<(CellStyle, char)>::empty() =~= drawn);
    spans
}

/// The lines of a pane, each as stretches of one look.
pub fn pane_terminal_lines(pane: &PaneView) -> (result: Vec<Vec<StyledSpan>>)
    ensures
        shown_lines(result@) == pane_shows(*pane),
{
    let mut lines: Vec<Vec<StyledSpan>> = Vec::new();
    if pane.cells.len() == 0 {
        let mut i: usize = 0;
        while i < pane.lines.len()
            invariant
                i <= pane.lines@.len(),
                lines@.len() == i,
                forall|j: int|
                    0 <= j < i ==> shown_spans((#[trigger] lines@[j])@) == seq![
                        (plain_style(), pane.lines@[j]@),
                    ],
            decreases pane.lines@.len() - i,
        {
            let text = pane.lines[i].as_str().to_string();
            let span = StyledSpan { text, style: CellStyle { fg: None, bg: None, bold: false } };
            let line = vec![span];
            assert(shown_spans(line@) =~= seq![(plain_style(), pane.lines@[i as int]@)]);
            lines.push(line);
            i = i + 1;
        }
        assert(shown_lines(lines@) =~= pane_shows(*pane));
        return lines;
    }
    let rows: usize = pane.rows as usize;
    let cols: usize = pane.cols as usize;
    let grid = cell_grid(&pane.cells, rows, cols);
    let mut row: usize = 0;
    while row < rows
        invariant
            row <= rows,
            rows == pane.rows,
            cols == pane.cols,
            grid_holds(grid@, pane.cells@, rows as int, cols as int),
            lines@.len() == row,
            forall|j: int|
                0 <= j < row ==> shown_spans((#[trigger] lines@[j])@) == stretches(
                    row_glyphs(pane.cells@, j, 0, cols as int),
                ),
        decreases rows - row,
    {
        assert(grid@[row as int]@.len() == cols);
        lines.push(row_spans(&pane.cells, &grid[row], Ghost(row as int)));
        row = row + 1;
    }
    assert(shown_lines(lines@) =~= pane_shows(*pane));
    lines
}

impl PaneView {
    /// The rectangle of a pane, or another where it has no room.
    pub open spec fn drawn_rect(self, fallback: Rect) -> Rect {
        if self.width == 0 || self.height == 0 {
            fallback
        } else {
            Rect { x: self.x, y: self.y, width: self.width, height: self.height }
        }
    }

    pub fn rect_or(&self, fallback: Rect) -> (result: Rect)
        ensures
            result == self.drawn_rect(fallback),
    {
        if self.width == 0 || self.height == 0 {
            return fallback;
        }
        Rect { x: self.x, y: self.y, width: self.width, height: self.height }
    }
}

/// Where the panes lie on a screen: all of it but the status bar.
pub open spec fn screen_panes(area: Rect) -> Rect {
    Rect { height: crate::geometry::floored_difference(area.height, STATUS_ROWS), ..area }
}

pub fn pane_area(area: Rect) -> (result: Rect)
    ensures
        result == screen_panes(area),
{
    Rect {
        x: area.x,
        y: area.y,
        width: area.width,
        height: area.height.saturating_sub(STATUS_ROWS),
    }
}

/// Where the status bar lies on a screen: in its last row.
pub open spec fn screen_status(area: Rect) -> Rect {
    Rect {
        y: (area.y + crate::geometry::floored_difference(area.height, STATUS_ROWS)) as u16,
        height: STATUS_ROWS,
        ..area
    }
}

/// Whether the last row of a screen can be counted.
pub open spec fn has_status(area: Rect) -> bool {
    area.y + crate::geometry::floored_difference(area.height, STATUS_ROWS) <= u16::MAX
}

pub fn status_area(area: Rect) -> (result: Rect)
    requires
        has_status(area),
    ensures
        result == screen_status(area),
{
    Rect {
        x: area.x,
        y: area.y + area.height.saturating_sub(STATUS_ROWS),
        width: area.width,
        height: STATUS_ROWS,
    }
}

/// One coordinate of a cursor on the screen.
pub open spec fn cursor_coordinate(origin: u16, framed: bool, at: usize, length: u16) -> u16 {
    let inset: u16 = if framed {
        1
    } else {
        0
    };
    crate::geometry::capped_sum(
        crate::geometry::capped_sum(origin, inset),
        crate::geometry::at_most(at as int, crate::geometry::floored_difference(length, 1) as int) as u16,
    )
}

/// The first coordinate past the inside of a rectangle.
pub open spec fn inner_limit(origin: u16, length: u16, framed: bool) -> u16 {
    let inset: u16 = if framed {
        1
    } else {
        0
    };
    crate::geometry::capped_sum(origin, crate::geometry::floored_difference(length, inset))
}

/// Where the cursor of a pane is drawn: where it has one, and it lies inside
/// the pane's rectangle.
pub open spec fn cursor_shown(pane: PaneView, rect: Rect, framed: bool) -> Option<(u16, u16)> {
    match pane.cursor {
        Some(cursor) => {
            let x = cursor_coordinate(rect.x, framed, cursor.col, pane.cols);
            let y = cursor_coordinate(rect.y, framed, cursor.row, pane.rows);
            if x < inner_limit(rect.x, rect.width, framed) && y < inner_limit(
                rect.y,
                rect.height,
                framed,
            ) {
                Some((x, y))
            } else {
                None
            }
        },
        None => None,
    }
}

fn place_cursor(origin: u16, framed: bool, at: usize, length: u16) -> (result: u16)
    ensures
        result == cursor_coordinate(origin, framed, at, length),
{
    let inset: u16 = if framed {
        1
    } else {
        0
    };
    let last: u16 = length.saturating_sub(1);
    let offset: u16 = if at < last as usize {
        at as u16
    } else {
        last
    };
    origin.saturating_add(inset).saturating_add(offset)
}

/// Where the cursor of a pane is drawn.
pub fn cursor_position(pane: &PaneView, rect: Rect, framed: bool) -> (result: Option<(u16, u16)>)
    ensures
        result == cursor_shown(*pane, rect, framed),
{
    let cursor = match pane.cursor {
        Some(cursor) => cursor,
        None => {
            return None;
        },
    };
    let inset: u16 = if framed {
        1
    } else {
        0
    };
    let x: u16 = place_cursor(rect.x, framed, cursor.col, pane.cols);
    let y: u16 = place_cursor(rect.y, framed, cursor.row, pane.rows);
    let right: u16 = rect.x.saturating_add(rect.width.saturating_sub(inset));
    let bottom: u16 = rect.y.saturating_add(rect.height.saturating_sub(inset));
    if x < right && y < bottom {
        Some((x, y))
    } else {
        None
    }
}

/// The border that a pane is drawn with: none where it is the only pane.
#[derive(Debug, Clone, Copy, PartialEq, Eq, Structural)]
pub enum PaneBorder {
    Unframed,
    Active,
    Inactive,
}

/// A pane as it is drawn.
#[derive(Debug)]
pub struct PaneDrawing {
    pub rect: Rect,
    pub border: PaneBorder,
    pub lines: Vec<Vec<StyledSpan>>,
    /// Where the cursor is put, which only the active pane has.
    pub cursor: Option<(u16, u16)>,
}

/// A view as it is drawn: the panes, then the status bar.
#[derive(Debug)]
pub struct ViewDrawing {
    pub panes: Vec<PaneDrawing>,
    pub status_area: Rect,
    pub status: Vec<StatusSpan>,
}

pub open spec fn pane_border(view: SessionView, index: int) -> PaneBorder {
    if view.panes@.len() <= 1 {
        PaneBorder::Unframed
    } else if index == view.active_pane {
        PaneBorder::Active
    } else {
        PaneBorder::Inactive
    }
}

impl PaneDrawing {
    /// Whether this is how a pane of a view is drawn on a screen.
    pub open spec fn draws(self, view: SessionView, area: Rect, index: int) -> bool {
        let pane = view.panes@[index];
        &&& self.rect == pane.drawn_rect(screen_panes(area))
        &&& self.border == pane_border(view, index)
        &&& shown_lines(self.lines@) == pane_shows(pane)
        &&& self.cursor == if index == view.active_pane {
            cursor_shown(pane, self.rect, view.panes@.len() > 1)
        } else {
            None
        }
    }
}

/// How a view is drawn on a screen.
pub fn draw_view(area: Rect, view: &SessionView) -> (result: ViewDrawing)
    requires
        has_status(area),
    ensures
        result.panes@.len() == view.panes@.len(),
        forall|i: int|
            0 <= i < view.panes@.len() ==> (#[trigger] result.panes@[i]).draws(*view, area, i),
        result.status_area == screen_status(area),
        shown_status(result.status@) == status_shows(*view),
{
    let framed = view.panes.len() > 1;
    let mut panes: Vec<PaneDrawing> = Vec::new();
    let mut i: usize = 0;
    while i < view.panes.len()
        invariant
            i <= view.panes@.len(),
            framed == (view.panes@.len() > 1),
            panes@.len() == i,
            forall|j: int| 0 <= j < i ==> (#[trigger] panes@[j]).draws(*view, area, j),
        decreases view.panes@.len() - i,
    {
        let pane = &view.panes[i];
        let rect = pane.rect_or(pane_area(area));
        let is_active = i == view.active_pane;
        let border = if !framed {
            PaneBorder::Unframed
        } else if is_active {
            PaneBorder::Active
        } else {
            PaneBorder::Inactive
        };
        let cursor = if is_active {
            cursor_position(pane, rect, framed)
        } else {
            None
        };
        panes.push(PaneDrawing { rect, border, lines: pane_terminal_lines(pane), cursor });
        i = i + 1;
    }
    ViewDrawing { panes, status_area: status_area(area), status: status_spans(view) }
}

/// Whether one cell comes before another in reading order.
pub open spec fn reads_before(a: CursorView, b: CursorView) -> bool {
    a.row < b.row || a.row == b.row && a.col < b.col
}

/// The first and the last cell of a selection in reading order.
pub open spec fn selection_ends(selection: SelectionView) -> (CursorView, CursorView) {
    if reads_before(selection.end, selection.start) {
        (selection.end, selection.start)
    } else {
        (selection.start, selection.end)
    }
}

/// The part of a line between two columns, the second one with it, without the
/// white space at its end.
pub open spec fn line_part(line: Seq<char>, from: int, to: int) -> Seq<char> {
    let end = crate::geometry::at_most(to + 1, line.len() as int);
    if from >= end {
        seq![]
    } else {
        crate::text::trimmed_end(line.subrange(from, end))
    }
}

/// The part of a row that lies between two cells, both of them with it.
pub open spec fn selected_part(
    lines: Seq<Seq<char>>,
    first: CursorView,
    last: CursorView,
    row: int,
) -> Seq<char> {
    line_part(
        lines[row],
        if row == first.row {
            first.col as int
        } else {
            0
        },
        if row == last.row {
            last.col as int
        } else {
            lines[row].len() as int
        },
    )
}

/// The parts of the rows before `until` that are selected, one to a line.
pub open spec fn selected_rows(
    lines: Seq<Seq<char>>,
    first: CursorView,
    last: CursorView,
    until: int,
) -> Seq<char>
    decreases until - first.row,
{
    if until <= first.row {
        seq![]
    } else {
        let part = selected_part(lines, first, last, until - 1);
        if until - 1 == first.row {
            part
        } else {
            selected_rows(lines, first, last, until - 1) + seq!['\n'] + part
        }
    }
}

/// The text of some lines that is selected.
pub open spec fn selected_text(lines: Seq<Seq<char>>, selection: SelectionView) -> Seq<char> {
    let (first, last) = selection_ends(selection);
    selected_rows(lines, first, last, crate::geometry::at_most(last.row + 1, lines.len() as int))
}

fn take_line_part(line: &str, from: usize, to: usize) -> (result: String)
    ensures
        result@ == line_part(line@, from as int, to as int),
{
    let chars = chars_of(line);
    let end: usize = if to < chars.len() {
        to + 1
    } else {
        chars.len()
    };
    if from >= end {
        let empty = String::new();
        assert(empty@ =~= seq![]);
        return empty;
    }
    let part = string_between(&chars, from, end);
    trim_end(part.as_str())
}

/// The text of some lines that is selected.
pub fn selection_text(lines: &Vec<String>, selection: SelectionView) -> (result: String)
    ensures
        result@ == selected_text(texts(lines@), selection),
{
    let backward = selection.end.row < selection.start.row || (selection.end.row
        == selection.start.row && selection.end.col < selection.start.col);
    let first = if backward {
        selection.end
    } else {
        selection.start
    };
    let last = if backward {
        selection.start
    } else {
        selection.end
    };
    let ghost shown = texts(lines@);
    let until: usize = if last.row < lines.len() {
        last.row + 1
    } else {
        lines.len()
    };
    let mut out = String::new();
    assert(out@ =~= seq![]);
    let mut row: usize = first.row;
    while row < until
        invariant
            first.row <= row,
            row <= until || row == first.row,
            until <= lines@.len(),
            shown == texts(lines@),
            until <= first.row ==> out@ == Seq::<char>::empty(),
            row <= until ==> out@ == selected_rows(shown, first, last, row as int),
        decreases until - row,
    {
        let line = lines[row].as_str();
        let from: usize = if row == first.row {
            first.col
        } else {
            0
        };
        let to: usize = if row == last.row {
            last.col
        } else {
            chars_of(line).len()
        };
        let part = take_line_part(line, from, to);
        if row > first.row {
            out.push('\n');
            assert(out@ =~= selected_rows(shown, first, last, row as int) + seq!['\n']);
        }
        let ghost head = out@;
        out = out.concat(part.as_str());
        assert(row == first.row ==> head + part@ =~= part@);
        row = row + 1;
    }
    out
}

/// The columns that the characters of a text take together.
pub open spec fn columns(text: Seq<char>) -> int
    decreases text.len(),
{
    if text.len() == 0 {
        0
    } else {
        char_room(text[0]) + columns(text.skip(1))
    }
}

/// What is cut to fit into some columns takes no more of them.
pub proof fn law_fitting_text_fits(text: Seq<char>, room: int)
    requires
        room >= 0,
    ensures
        columns(fitting(text, room)) <= room,
        fitting(text, room).is_prefix_of(text),
    decreases text.len(),
{
    if text.len() > 0 && char_room(text[0]) <= room {
        let rest = fitting(text.skip(1), room - char_room(text[0]));
        law_fitting_text_fits(text.skip(1), room - char_room(text[0]));
        assert((seq![text[0]] + rest).skip(1) =~= rest);
        assert(text =~= seq![text[0]] + text.skip(1));
        assert(rest =~= text.skip(1).take(rest.len() as int));
        assert(seq![text[0]] + rest =~= text.take(rest.len() as int + 1));
    } else {
        assert(fitting(text, room) =~= text.take(0));
    }
}

/// No line of a frame takes more columns than it is shown in.
pub proof fn law_lines_fit(frame: Frame, max_width: usize, row: int)
    requires
        0 <= row < frame.rows,
    ensures
        columns(frame_reads(frame, max_width)[row]) <= max_width,
        columns(frame_reads(frame, max_width)[row]) <= frame.cols,
{
    let cols = shown_width(frame, max_width);
    law_fitting_text_fits(
        Seq::new(cols, |col: int| char_at(frame_shows(frame, max_width), row, col)),
        cols as int,
    );
}

/// The characters of stretches, one after another.
pub open spec fn stretched_chars(all: Seq<(CellStyle, Seq<char>)>) -> Seq<char>
    decreases all.len(),
{
    if all.len() == 0 {
        seq![]
    } else {
        stretched_chars(all.drop_last()) + all.last().1
    }
}

/// Stretches hold the characters that they are made of, in order; none is
/// empty, and the look changes from each to the next.
pub proof fn law_stretches_hold_all(glyphs: Seq<(CellStyle, char)>)
    ensures
        stretched_chars(stretches(glyphs)) == glyphs.map_values(|glyph: (CellStyle, char)| glyph.1),
        forall|i: int|
            0 <= i < stretches(glyphs).len() ==> (#[trigger] stretches(glyphs)[i]).1.len() > 0,
        forall|i: int|
            0 <= i < stretches(glyphs).len() - 1 ==> (#[trigger] stretches(glyphs)[i]).0
                != stretches(glyphs)[i + 1].0,
    decreases glyphs.len(),
{
    let chars = glyphs.map_values(|glyph: (CellStyle, char)| glyph.1);
    if glyphs.len() == 0 {
        assert(chars =~= seq![]);
    } else {
        let rest = glyphs.drop_last();
        law_stretches_hold_all(rest);
        let before = stretches(rest);
        let (style, ch) = glyphs.last();
        let rest_chars = rest.map_values(|glyph: (CellStyle, char)| glyph.1);
        assert(chars =~= rest_chars.push(ch));
        let all = stretches(glyphs);
        assert(all.drop_last() =~= if before.len() > 0 && before.last().0 == style {
            before.drop_last()
        } else {
            before
        });
        if before.len() > 0 && before.last().0 == style {
            assert(stretched_chars(before) == stretched_chars(before.drop_last())
                + before.last().1);
            assert(stretched_chars(all) =~= stretched_chars(before).push(ch));
        } else {
            assert(stretched_chars(all) =~= stretched_chars(before).push(ch));
        }
    }
}

} // verus!
